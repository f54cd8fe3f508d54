use vstd::prelude::*;

use crate::error::UwbError;

verus! {

/// Lifecycle of the dispatcher slot.
#[derive(Debug, Clone, Copy, PartialEq, Eq, Structural)]
pub enum DispatcherPhase {
    Uninitialized,
    Live,
    Destroyed,
}

/// The abstract state of a dispatcher slot.
pub struct DispatcherModel<M> {
    pub phase: DispatcherPhase,
    /// The handle of the live instance; meaningful only while `phase` is `Live`.
    pub handle: u64,
    /// How many handles have been issued so far; the last one issued is this number.
    pub issued: u64,
    pub chips: Seq<Seq<char>>,
    pub managers: Seq<M>,
}

/// The one dispatcher slot of a process: at most one live instance, which owns
/// one manager per chip id and is named by an opaque handle.
pub struct Dispatcher<M> {
    phase: DispatcherPhase,
    handle: u64,
    issued: u64,
    chip_ids: Vec<String>,
    managers: Vec<M>,
}

/// The chip ids as abstract strings.
pub open spec fn chips_view(ids: Seq<String>) -> Seq<Seq<char>> {
    ids.map_values(|s: String| s@)
}

/// What `create` does: it fails while an instance is live, when chip ids and
/// managers differ in number, or when no fresh handle is left; otherwise the
/// slot becomes live under the next handle.
pub open spec fn create_outcome<M>(
    v: DispatcherModel<M>,
    chips: Seq<Seq<char>>,
    managers: Seq<M>,
) -> (DispatcherModel<M>, Result<u64, UwbError>) {
    if v.phase == DispatcherPhase::Live {
        (v, Err(UwbError::BadParameters))
    } else if chips.len() != managers.len() {
        (v, Err(UwbError::BadParameters))
    } else if v.issued == u64::MAX {
        (v, Err(UwbError::Unknown))
    } else {
        let h = (v.issued + 1) as u64;
        (
            DispatcherModel {
                phase: DispatcherPhase::Live,
                handle: h,
                issued: h,
                chips: chips,
                managers: managers,
            },
            Ok(h),
        )
    }
}

/// What a lookup of `chip` gives, leaving aside which manager it returns.
pub open spec fn lookup_outcome<M>(v: DispatcherModel<M>, chip: Seq<char>) -> Result<(), UwbError> {
    match v.phase {
        DispatcherPhase::Uninitialized => Err(UwbError::NotInitialized),
        DispatcherPhase::Destroyed => Err(UwbError::AlreadyDestroyed),
        DispatcherPhase::Live => if v.chips.contains(chip) {
            Ok(())
        } else {
            Err(UwbError::BadParameters)
        },
    }
}

/// What `destroy` does: only the live instance's own handle tears it down,
/// releasing every manager; anything else leaves the state as it was.
pub open spec fn destroy_outcome<M>(v: DispatcherModel<M>, handle: u64) -> (
    DispatcherModel<M>,
    Result<(), UwbError>,
) {
    match v.phase {
        DispatcherPhase::Uninitialized => (v, Err(UwbError::NotInitialized)),
        DispatcherPhase::Destroyed => (v, Err(UwbError::AlreadyDestroyed)),
        DispatcherPhase::Live => if v.handle == handle {
            (
                DispatcherModel {
                    phase: DispatcherPhase::Destroyed,
                    handle: v.handle,
                    issued: v.issued,
                    chips: Seq::empty(),
                    managers: Seq::empty(),
                },
                Ok(()),
            )
        } else {
            (v, Err(UwbError::BadParameters))
        },
    }
}

/// After a successful `create`, a second `create` before `destroy` fails and
/// leaves the live instance as it was: every chip id it was created with still
/// finds its manager.
pub proof fn lemma_single_instance<M>(
    v: DispatcherModel<M>,
    chips: Seq<Seq<char>>,
    managers: Seq<M>,
    chips2: Seq<Seq<char>>,
    managers2: Seq<M>,
    chip: Seq<char>,
)
    requires
        create_outcome(v, chips, managers).1 is Ok,
        chips.contains(chip),
    ensures
        ({
            let live = create_outcome(v, chips, managers).0;
            &&& create_outcome(live, chips2, managers2).0 == live
            &&& create_outcome(live, chips2, managers2).1 is Err
            &&& lookup_outcome(live, chip) == Ok::<(), UwbError>(())
        }),
{
}

/// After a successful `create`, `destroy` with any other handle fails with
/// `BadParameters` and leaves the instance live; `destroy` with the handle that
/// `create` returned succeeds, and afterwards every lookup fails with a state error.
pub proof fn lemma_destroy_identity<M>(
    v: DispatcherModel<M>,
    chips: Seq<Seq<char>>,
    managers: Seq<M>,
    other: u64,
    chip: Seq<char>,
)
    requires
        create_outcome(v, chips, managers).1 is Ok,
        other != create_outcome(v, chips, managers).1->Ok_0,
    ensures
        ({
            let live = create_outcome(v, chips, managers).0;
            let h = create_outcome(v, chips, managers).1->Ok_0;
            &&& destroy_outcome(live, other) == (live, Err::<(), UwbError>(UwbError::BadParameters))
            &&& live.phase == DispatcherPhase::Live
            &&& destroy_outcome(live, h).1 == Ok::<(), UwbError>(())
            &&& lookup_outcome(destroy_outcome(live, h).0, chip) == Err::<(), UwbError>(
                UwbError::AlreadyDestroyed,
            )
        }),
{
}

impl<M> Dispatcher<M> {
    pub closed spec fn view(&self) -> DispatcherModel<M> {
        DispatcherModel {
            phase: self.phase,
            handle: self.handle,
            issued: self.issued,
            chips: chips_view(self.chip_ids@),
            managers: self.managers@,
        }
    }

    /// Chip ids and managers pair up one to one.
    pub closed spec fn wf(&self) -> bool {
        self.chip_ids@.len() == self.managers@.len()
    }

    /// An empty slot: nothing created yet.
    pub fn new() -> (r: Self)
        ensures
            r.wf(),
            r@.phase == DispatcherPhase::Uninitialized,
            r@.issued == 0,
            r@.chips.len() == 0,
            r@.managers.len() == 0,
    {
        Dispatcher {
            phase: DispatcherPhase::Uninitialized,
            handle: 0,
            issued: 0,
            chip_ids: Vec::new(),
            managers: Vec::new(),
        }
    }

    /// Whether an instance is live.
    pub fn is_live(&self) -> (r: bool)
        ensures
            r == (self@.phase == DispatcherPhase::Live),
    {
        self.phase == DispatcherPhase::Live
    }

    /// Makes the slot live with one manager per chip id, `managers[i]` serving
    /// `chip_ids[i]`, and returns the new instance's handle.
    pub fn create(&mut self, chip_ids: Vec<String>, managers: Vec<M>) -> (r: Result<u64, UwbError>)
        requires
            old(self).wf(),
        ensures
            final(self).wf(),
            (final(self)@, r) == create_outcome(old(self)@, chips_view(chip_ids@), managers@),
    {
        if self.phase == DispatcherPhase::Live {
            return Err(UwbError::BadParameters);
        }
        if chip_ids.len() != managers.len() {
            return Err(UwbError::BadParameters);
        }
        if self.issued == u64::MAX {
            return Err(UwbError::Unknown);
        }
        let h = self.issued + 1;
        self.phase = DispatcherPhase::Live;
        self.handle = h;
        self.issued = h;
        self.chip_ids = chip_ids;
        self.managers = managers;
        Ok(h)
    }

    /// The handle of the live instance.
    pub fn current_handle(&self) -> (r: Result<u64, UwbError>)
        ensures
            match self@.phase {
                DispatcherPhase::Uninitialized => r == Err::<u64, UwbError>(UwbError::NotInitialized),
                DispatcherPhase::Destroyed => r == Err::<u64, UwbError>(UwbError::AlreadyDestroyed),
                DispatcherPhase::Live => r == Ok::<u64, UwbError>(self@.handle),
            },
    {
        match self.phase {
            DispatcherPhase::Uninitialized => Err(UwbError::NotInitialized),
            DispatcherPhase::Destroyed => Err(UwbError::AlreadyDestroyed),
            DispatcherPhase::Live => Ok(self.handle),
        }
    }

    /// The manager of `chip_id`: the one paired with its first occurrence
    /// among the chip ids of the live instance.
    pub fn get_manager(&self, chip_id: &String) -> (r: Result<&M, UwbError>)
        requires
            self.wf(),
        ensures
            r is Ok <==> lookup_outcome(self@, chip_id@) is Ok,
            r is Err ==> r->Err_0 == lookup_outcome(self@, chip_id@)->Err_0,
            r is Ok ==> exists|i: int|
                0 <= i < self@.chips.len() && self@.chips[i] == chip_id@ && (forall|j: int|
                    0 <= j < i ==> self@.chips[j] != chip_id@) && *r->Ok_0 == self@.managers[i],
    {
        match self.phase {
            DispatcherPhase::Uninitialized => {
                return Err(UwbError::NotInitialized);
            },
            DispatcherPhase::Destroyed => {
                return Err(UwbError::AlreadyDestroyed);
            },
            DispatcherPhase::Live => {},
        }
        let ghost chips = self@.chips;
        let mut i: usize = 0;
        while i < self.chip_ids.len()
            invariant
                self.wf(),
                chips == self@.chips,
                self@.phase == DispatcherPhase::Live,
                i <= chips.len(),
                forall|j: int| 0 <= j < i ==> chips[j] != chip_id@,
            decreases self.chip_ids.len() - i,
        {
            if self.chip_ids[i] == *chip_id {
                proof {
                    assert(chips[i as int] == chip_id@);
                    assert(chips.contains(chip_id@));
                }
                return Ok(&self.managers[i]);
            }
            i = i + 1;
        }
        proof {
            if chips.contains(chip_id@) {
                let k = choose|k: int| 0 <= k < chips.len() && chips[k] == chip_id@;
                assert(chips[k] != chip_id@);
            }
        }
        Err(UwbError::BadParameters)
    }

    /// Tears down the live instance if `handle` names it, handing back every
    /// manager it owned so that the caller can release them.
    pub fn destroy(&mut self, handle: u64) -> (r: Result<Vec<M>, UwbError>)
        requires
            old(self).wf(),
        ensures
            final(self).wf(),
            final(self)@ == destroy_outcome(old(self)@, handle).0,
            r is Ok <==> destroy_outcome(old(self)@, handle).1 is Ok,
            r is Err ==> r->Err_0 == destroy_outcome(old(self)@, handle).1->Err_0,
            r is Ok ==> r->Ok_0@ == old(self)@.managers,
    {
        match self.phase {
            DispatcherPhase::Uninitialized => {
                return Err(UwbError::NotInitialized);
            },
            DispatcherPhase::Destroyed => {
                return Err(UwbError::AlreadyDestroyed);
            },
            DispatcherPhase::Live => {},
        }
        if self.handle != handle {
            return Err(UwbError::BadParameters);
        }
        let mut released: Vec<M> = Vec::new();
        std::mem::swap(&mut self.managers, &mut released);
        self.chip_ids = Vec::new();
        self.phase = DispatcherPhase::Destroyed;
        proof {
            assert(chips_view(self.chip_ids@) =~= Seq::<Seq<char>>::empty());
        }
        Ok(released)
    }
}

} // verus!
