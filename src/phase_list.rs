use vstd::prelude::*;

use crate::error::UwbError;

verus! {

/// Size of one phase-list record: a 4-byte session handle and two 2-byte slot indexes.
pub const PHASE_LIST_SIZE: usize = 8;

/// One phase of a hybrid session.
#[derive(Debug, Clone, Copy, PartialEq, Eq, Structural)]
pub struct PhaseList {
    pub session_handle: u32,
    pub start_slot_index: u16,
    pub end_slot_index: u16,
}

/// The little-endian 16-bit value at offset `o`.
pub open spec fn le_u16(b: Seq<u8>, o: int) -> int {
    b[o] + 256 * b[o + 1]
}

/// The little-endian 32-bit value at offset `o`.
pub open spec fn le_u32(b: Seq<u8>, o: int) -> int {
    b[o] + 256 * b[o + 1] + 65536 * b[o + 2] + 16777216 * b[o + 3]
}

/// The record held by the `i`-th 8-byte chunk of `b`.
pub open spec fn phase_at(b: Seq<u8>, i: int) -> PhaseList {
    PhaseList {
        session_handle: le_u32(b, 8 * i) as u32,
        start_slot_index: le_u16(b, 8 * i + 4) as u16,
        end_slot_index: le_u16(b, 8 * i + 6) as u16,
    }
}

fn read_le_u16(b: &[u8], o: usize) -> (r: u16)
    requires
        o + 2 <= b@.len(),
    ensures
        r as int == le_u16(b@, o as int),
{
    b[o] as u16 + (b[o + 1] as u16) * 256
}

fn read_le_u32(b: &[u8], o: usize) -> (r: u32)
    requires
        o + 4 <= b@.len(),
    ensures
        r as int == le_u32(b@, o as int),
{
    b[o] as u32 + (b[o + 1] as u32) * 256 + (b[o + 2] as u32) * 65536 + (b[o + 3] as u32)
        * 16777216
}

/// Parses `number_of_phases` phase-list records that fill `byte_array` exactly.
///
/// Fails with `BadParameters` unless the buffer holds `8 * number_of_phases` bytes.
pub fn parse_hybrid_config_phase_list_vec(number_of_phases: usize, byte_array: &[u8]) -> (r:
    Result<Vec<PhaseList>, UwbError>)
    ensures
        r is Ok <==> 8 * number_of_phases == byte_array@.len(),
        r is Err ==> r == Err::<Vec<PhaseList>, UwbError>(UwbError::BadParameters),
        r is Ok ==> r->Ok_0@ == Seq::new(
            number_of_phases as nat,
            |i: int| phase_at(byte_array@, i),
        ),
{
    let len = byte_array.len();
    if len % PHASE_LIST_SIZE != 0 || len / PHASE_LIST_SIZE != number_of_phases {
        return Err(UwbError::BadParameters);
    }
    let mut phase_lists: Vec<PhaseList> = Vec::with_capacity(number_of_phases);
    let mut i: usize = 0;
    while i < number_of_phases
        invariant
            len == byte_array@.len(),
            len == 8 * number_of_phases,
            i <= number_of_phases,
            phase_lists@ == Seq::new(i as nat, |j: int| phase_at(byte_array@, j)),
        decreases number_of_phases - i,
    {
        let o = i * PHASE_LIST_SIZE;
        let phase = PhaseList {
            session_handle: read_le_u32(byte_array, o),
            start_slot_index: read_le_u16(byte_array, o + 4),
            end_slot_index: read_le_u16(byte_array, o + 6),
        };
        phase_lists.push(phase);
        i = i + 1;
        assert(phase_lists@ =~= Seq::new(i as nat, |j: int| phase_at(byte_array@, j)));
    }
    Ok(phase_lists)
}

} // verus!
