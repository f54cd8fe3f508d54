use vstd::array::array_fill_for_copy_types;
use vstd::prelude::*;

use crate::error::UwbError;

verus! {

/// Size of a controlee's short address in bytes.
pub const SHORT_ADDRESS_SIZE: usize = 2;

/// Size of a short sub-session key in bytes.
pub const SHORT_KEY_SIZE: usize = 16;

/// Size of a long sub-session key in bytes.
pub const LONG_KEY_SIZE: usize = 32;

/// What a multicast list update does to the controlees it names.
#[derive(Debug, Clone, Copy, PartialEq, Eq, Structural)]
pub enum UpdateMulticastListAction {
    AddControlee,
    RemoveControlee,
    AddControleeWithShortSubSessionKey,
    AddControleeWithLongSubSessionKey,
}

/// The action that a wire code names, if any.
pub open spec fn action_of_code(code: u8) -> Option<UpdateMulticastListAction> {
    if code == 0 {
        Some(UpdateMulticastListAction::AddControlee)
    } else if code == 1 {
        Some(UpdateMulticastListAction::RemoveControlee)
    } else if code == 2 {
        Some(UpdateMulticastListAction::AddControleeWithShortSubSessionKey)
    } else if code == 3 {
        Some(UpdateMulticastListAction::AddControleeWithLongSubSessionKey)
    } else {
        None
    }
}

impl UpdateMulticastListAction {
    /// Decodes an action from its wire code; unknown codes are `BadParameters`.
    pub fn from_code(code: u8) -> (r: Result<UpdateMulticastListAction, UwbError>)
        ensures
            match action_of_code(code) {
                Some(a) => r == Ok::<UpdateMulticastListAction, UwbError>(a),
                None => r == Err::<UpdateMulticastListAction, UwbError>(UwbError::BadParameters),
            },
    {
        match code {
            0 => Ok(UpdateMulticastListAction::AddControlee),
            1 => Ok(UpdateMulticastListAction::RemoveControlee),
            2 => Ok(UpdateMulticastListAction::AddControleeWithShortSubSessionKey),
            3 => Ok(UpdateMulticastListAction::AddControleeWithLongSubSessionKey),
            _ => Err(UwbError::BadParameters),
        }
    }
}

/// Which key material the entries of a controlee list carry.
#[derive(Debug, Clone, Copy, PartialEq, Eq, Structural)]
pub enum KeyKind {
    NoKey,
    ShortKey,
    LongKey,
}

/// Width in bytes of one key of the given kind.
pub open spec fn key_width(kind: KeyKind) -> nat {
    match kind {
        KeyKind::NoKey => 0,
        KeyKind::ShortKey => 16,
        KeyKind::LongKey => 32,
    }
}

/// The key kind that an action asks for when key material is supplied.
pub open spec fn requested_kind(a: UpdateMulticastListAction) -> KeyKind {
    match a {
        UpdateMulticastListAction::AddControleeWithShortSubSessionKey => KeyKind::ShortKey,
        UpdateMulticastListAction::AddControleeWithLongSubSessionKey => KeyKind::LongKey,
        _ => KeyKind::NoKey,
    }
}

/// A controlee without key material.
#[derive(Debug, Clone, Copy, PartialEq, Eq)]
pub struct Controlee {
    pub short_address: [u8; 2],
    pub subsession_id: u32,
}

/// A controlee with a 16-byte sub-session key.
#[derive(Debug, Clone, Copy, PartialEq, Eq)]
pub struct ControleeShortKey {
    pub short_address: [u8; 2],
    pub subsession_id: u32,
    pub subsession_key: [u8; 16],
}

/// A controlee with a 32-byte sub-session key.
#[derive(Debug, Clone, Copy, PartialEq, Eq)]
pub struct ControleeLongKey {
    pub short_address: [u8; 2],
    pub subsession_id: u32,
    pub subsession_key: [u8; 32],
}

/// A controlee list: exactly one of the three key widths.
#[derive(Debug, Clone, PartialEq, Eq)]
pub enum Controlees {
    NoSessionKey(Vec<Controlee>),
    ShortSessionKey(Vec<ControleeShortKey>),
    LongSessionKey(Vec<ControleeLongKey>),
}

/// One entry as address, sub-session id and key (empty where there is none).
pub type EntryModel = (Seq<u8>, u32, Seq<u8>);

impl View for Controlees {
    type V = (KeyKind, Seq<EntryModel>);

    open spec fn view(&self) -> (KeyKind, Seq<EntryModel>) {
        match self {
            Controlees::NoSessionKey(v) => (
                KeyKind::NoKey,
                v@.map_values(|c: Controlee| (c.short_address@, c.subsession_id, Seq::<u8>::empty())),
            ),
            Controlees::ShortSessionKey(v) => (
                KeyKind::ShortKey,
                v@.map_values(
                    |c: ControleeShortKey| (c.short_address@, c.subsession_id, c.subsession_key@),
                ),
            ),
            Controlees::LongSessionKey(v) => (
                KeyKind::LongKey,
                v@.map_values(
                    |c: ControleeLongKey| (c.short_address@, c.subsession_id, c.subsession_key@),
                ),
            ),
        }
    }
}

/// Entry `i`: the `i`-th address pair, the `i`-th id, and the `i`-th key chunk of `width` bytes.
pub open spec fn entry_at(
    addresses: Seq<u8>,
    ids: Seq<i32>,
    keys: Seq<u8>,
    width: nat,
    i: int,
) -> EntryModel {
    (addresses.subrange(2 * i, 2 * i + 2), id_bits(ids[i]), keys.subrange(width * i, width * (i + 1)))
}

/// The two's-complement reinterpretation of a signed sub-session id.
pub open spec fn id_bits(x: i32) -> u32 {
    if x < 0 {
        (x + 0x1_0000_0000) as u32
    } else {
        x as u32
    }
}

/// Reinterprets a signed sub-session id as the unsigned id on the wire.
pub fn subsession_id_of(x: i32) -> (r: u32)
    ensures
        r == id_bits(x),
{
    if x < 0 {
        (x as i64 + 0x1_0000_0000i64) as u32
    } else {
        x as u32
    }
}

/// Number of whole addresses in the address bytes.
pub open spec fn address_count(addresses: Seq<u8>) -> nat {
    addresses.len() / 2
}

/// The controlee list that an update asks for, or the error it gets.
pub open spec fn resolve_spec(
    action: u8,
    no_of_controlee: i8,
    addresses: Seq<u8>,
    ids: Seq<i32>,
    keys: Option<Seq<u8>>,
) -> Result<(KeyKind, Seq<EntryModel>), UwbError> {
    let n = address_count(addresses);
    if n != ids.len() || n != no_of_controlee as int {
        Err(UwbError::BadParameters)
    } else {
        match action_of_code(action) {
            None => Err(UwbError::BadParameters),
            Some(a) => {
                let kind = if keys is None {
                    KeyKind::NoKey
                } else {
                    requested_kind(a)
                };
                let key_bytes = match keys {
                    Some(k) => k,
                    None => Seq::<u8>::empty(),
                };
                let w = key_width(kind);
                if kind != KeyKind::NoKey && key_bytes.len() != w * n {
                    Err(UwbError::BadParameters)
                } else {
                    Ok((kind, Seq::new(n, |i: int| entry_at(addresses, ids, key_bytes, w, i))))
                }
            },
        }
    }
}

/// Under an add-with-short-key action, with one address and one id per
/// controlee: key material of 16 bytes per controlee gives a short-key list of
/// those controlees in input order, no key material gives a list without keys,
/// and key material whose length is not a multiple of 16 is rejected.
pub proof fn lemma_short_key_selection(
    no_of_controlee: i8,
    addresses: Seq<u8>,
    ids: Seq<i32>,
    keys: Seq<u8>,
)
    requires
        address_count(addresses) == ids.len(),
        ids.len() == no_of_controlee as int,
    ensures
        keys.len() == 16 * ids.len() ==> resolve_spec(2, no_of_controlee, addresses, ids, Some(keys))
            == Ok::<(KeyKind, Seq<EntryModel>), UwbError>(
            (
                KeyKind::ShortKey,
                Seq::new(ids.len(), |i: int| entry_at(addresses, ids, keys, 16, i)),
            ),
        ),
        resolve_spec(2, no_of_controlee, addresses, ids, None) is Ok,
        resolve_spec(2, no_of_controlee, addresses, ids, None)->Ok_0.0 == KeyKind::NoKey,
        resolve_spec(2, no_of_controlee, addresses, ids, None)->Ok_0.1.len() == ids.len(),
        keys.len() % 16 != 0 ==> resolve_spec(2, no_of_controlee, addresses, ids, Some(keys))
            == Err::<(KeyKind, Seq<EntryModel>), UwbError>(UwbError::BadParameters),
{
    if keys.len() % 16 != 0 {
        assert(keys.len() != 16 * ids.len());
    }
}

/// Copies `N` bytes of `b` from `start` into an array.
pub(crate) fn copy_array<const N: usize>(b: &[u8], start: usize) -> (r: [u8; N])
    requires
        start + N <= b@.len(),
    ensures
        r@ == b@.subrange(start as int, start + N),
{
    let mut r: [u8; N] = array_fill_for_copy_types(0u8);
    let mut i: usize = 0;
    while i < N
        invariant
            start + N <= b.len(),
            i <= N,
            r@.len() == N,
            forall|j: int| 0 <= j < i ==> r@[j] == b@[start + j],
        decreases N - i,
    {
        r[i] = b[start + i];
        i = i + 1;
    }
    assert(r@ =~= b@.subrange(start as int, start + N));
    r
}

/// Builds the controlee list for a multicast list update.
///
/// `addresses` holds two bytes per controlee, `sub_session_ids` one id per
/// controlee, and `sub_session_keys`, when given, one key per controlee of the
/// width the action asks for. Plain add and remove carry no keys; a keyed add
/// without key material falls back to a list without keys.
pub fn resolve_controlees(
    action: u8,
    no_of_controlee: i8,
    addresses: &[u8],
    sub_session_ids: &[i32],
    sub_session_keys: Option<&[u8]>,
) -> (r: Result<Controlees, UwbError>)
    ensures
        match resolve_spec(
            action,
            no_of_controlee,
            addresses@,
            sub_session_ids@,
            match sub_session_keys {
                Some(k) => Some(k@),
                None => None,
            },
        ) {
            Ok(m) => r is Ok && r->Ok_0@ == m,
            Err(e) => r == Err::<Controlees, UwbError>(e),
        },
{
    let n = addresses.len() / SHORT_ADDRESS_SIZE;
    if n != sub_session_ids.len() || no_of_controlee < 0 || n != no_of_controlee as usize {
        return Err(UwbError::BadParameters);
    }
    let a = UpdateMulticastListAction::from_code(action)?;
    let ghost ids = sub_session_ids@;
    let ghost addrs = addresses@;
    match (a, sub_session_keys) {
        (UpdateMulticastListAction::AddControleeWithShortSubSessionKey, Some(keys)) => {
            if keys.len() / SHORT_KEY_SIZE != n || keys.len() % SHORT_KEY_SIZE != 0 {
                return Err(UwbError::BadParameters);
            }
            let mut out: Vec<ControleeShortKey> = Vec::with_capacity(n);
            let mut i: usize = 0;
            while i < n
                invariant
                    n == addresses.len() / 2,
                    n == sub_session_ids.len(),
                    addrs == addresses@,
                    ids == sub_session_ids@,
                    keys.len() == 16 * n,
                    i <= n,
                    out@.len() == i,
                    forall|j: int|
                        0 <= j < i ==> (#[trigger] out@[j]).short_address@ == addrs.subrange(
                            2 * j,
                            2 * j + 2,
                        ) && out@[j].subsession_id == id_bits(ids[j]) && out@[j].subsession_key@
                            == keys@.subrange(16 * j, 16 * (j + 1)),
                decreases n - i,
            {
                let c = ControleeShortKey {
                    short_address: copy_array::<2>(addresses, 2 * i),
                    subsession_id: subsession_id_of(sub_session_ids[i]),
                    subsession_key: copy_array::<16>(keys, 16 * i),
                };
                out.push(c);
                i = i + 1;
            }
            let r = Controlees::ShortSessionKey(out);
            assert(r@.1 =~= Seq::new(n as nat, |j: int| entry_at(addrs, ids, keys@, 16, j)));
            Ok(r)
        },
        (UpdateMulticastListAction::AddControleeWithLongSubSessionKey, Some(keys)) => {
            if keys.len() / LONG_KEY_SIZE != n || keys.len() % LONG_KEY_SIZE != 0 {
                return Err(UwbError::BadParameters);
            }
            let mut out: Vec<ControleeLongKey> = Vec::with_capacity(n);
            let mut i: usize = 0;
            while i < n
                invariant
                    n == addresses.len() / 2,
                    n == sub_session_ids.len(),
                    addrs == addresses@,
                    ids == sub_session_ids@,
                    keys.len() == 32 * n,
                    i <= n,
                    out@.len() == i,
                    forall|j: int|
                        0 <= j < i ==> (#[trigger] out@[j]).short_address@ == addrs.subrange(
                            2 * j,
                            2 * j + 2,
                        ) && out@[j].subsession_id == id_bits(ids[j]) && out@[j].subsession_key@
                            == keys@.subrange(32 * j, 32 * (j + 1)),
                decreases n - i,
            {
                let c = ControleeLongKey {
                    short_address: copy_array::<2>(addresses, 2 * i),
                    subsession_id: subsession_id_of(sub_session_ids[i]),
                    subsession_key: copy_array::<32>(keys, 32 * i),
                };
                out.push(c);
                i = i + 1;
            }
            let r = Controlees::LongSessionKey(out);
            assert(r@.1 =~= Seq::new(n as nat, |j: int| entry_at(addrs, ids, keys@, 32, j)));
            Ok(r)
        },
        _ => {
            let mut out: Vec<Controlee> = Vec::with_capacity(n);
            let mut i: usize = 0;
            while i < n
                invariant
                    n == addresses.len() / 2,
                    n == sub_session_ids.len(),
                    addrs == addresses@,
                    ids == sub_session_ids@,
                    i <= n,
                    out@.len() == i,
                    forall|j: int|
                        0 <= j < i ==> (#[trigger] out@[j]).short_address@ == addrs.subrange(
                            2 * j,
                            2 * j + 2,
                        ) && out@[j].subsession_id == id_bits(ids[j]),
                decreases n - i,
            {
                let c = Controlee {
                    short_address: copy_array::<2>(addresses, 2 * i),
                    subsession_id: subsession_id_of(sub_session_ids[i]),
                };
                out.push(c);
                i = i + 1;
            }
            let r = Controlees::NoSessionKey(out);
            let ghost key_bytes: Seq<u8> = match sub_session_keys {
                Some(k) => k@,
                None => Seq::empty(),
            };
            assert forall|j: int| 0 <= j < n implies #[trigger] r@.1[j] == entry_at(
                addrs,
                ids,
                key_bytes,
                0,
                j,
            ) by {
                assert(key_bytes.subrange(0 * j, 0 * (j + 1)) =~= Seq::<u8>::empty());
            }
            assert(r@.1 =~= Seq::new(n as nat, |j: int| entry_at(addrs, ids, key_bytes, 0, j)));
            Ok(r)
        },
    }
}

} // verus!
