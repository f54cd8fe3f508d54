use vstd::prelude::*;

use crate::controlee::copy_array;
use crate::error::UwbError;
use crate::phase_list::{parse_hybrid_config_phase_list_vec, phase_at, PhaseList};

verus! {

/// Size of the update time of a hybrid session configuration.
pub const UPDATE_TIME_SIZE: usize = 8;

/// The checked inputs of a hybrid session configuration.
#[derive(Debug, Clone, PartialEq, Eq)]
pub struct HybridSessionConfig {
    /// The phase count as carried on the wire: its low byte.
    pub number_of_phases: u8,
    pub update_time: [u8; 8],
    pub phase_lists: Vec<PhaseList>,
}

/// Checks and decodes the inputs of a hybrid session configuration.
///
/// The phase list must hold exactly `number_of_phases` 8-byte records and the
/// update time exactly 8 bytes; anything else is `BadParameters`.
pub fn parse_hybrid_session_config(
    number_of_phases: i32,
    update_time: &[u8],
    phase_list: &[u8],
) -> (r: Result<HybridSessionConfig, UwbError>)
    ensures
        r is Ok <==> (number_of_phases >= 0 && 8 * number_of_phases == phase_list@.len()
            && update_time@.len() == 8),
        r is Err ==> r == Err::<HybridSessionConfig, UwbError>(UwbError::BadParameters),
        r is Ok ==> ({
            let c = r->Ok_0;
            &&& c.number_of_phases as int == number_of_phases % 256
            &&& c.update_time@ == update_time@
            &&& c.phase_lists@ == Seq::new(
                number_of_phases as nat,
                |i: int| phase_at(phase_list@, i),
            )
        }),
{
    if number_of_phases < 0 {
        return Err(UwbError::BadParameters);
    }
    let phase_lists = parse_hybrid_config_phase_list_vec(number_of_phases as usize, phase_list)?;
    if update_time.len() != UPDATE_TIME_SIZE {
        return Err(UwbError::BadParameters);
    }
    let update_time_array: [u8; 8] = copy_array::<8>(update_time, 0);
    assert(update_time@.subrange(0, 8) =~= update_time@);
    Ok(
        HybridSessionConfig {
            number_of_phases: (number_of_phases % 256) as u8,
            update_time: update_time_array,
            phase_lists,
        },
    )
}

/// Checks that a country code is exactly two bytes.
pub fn country_code_bytes(country_code: &[u8]) -> (r: Result<[u8; 2], UwbError>)
    ensures
        r is Ok <==> country_code@.len() == 2,
        r is Err ==> r == Err::<[u8; 2], UwbError>(UwbError::BadParameters),
        r is Ok ==> r->Ok_0@ == country_code@,
{
    if country_code.len() != 2 {
        return Err(UwbError::BadParameters);
    }
    let code = copy_array::<2>(country_code, 0);
    assert(country_code@.subrange(0, 2) =~= country_code@);
    Ok(code)
}

/// Index of the last occurrence of `c` in `s`, or -1 when there is none.
pub open spec fn last_index_of(s: Seq<char>, c: char) -> int
    decreases s.len(),
{
    if s.len() == 0 {
        -1
    } else if s.last() == c {
        s.len() - 1
    } else {
        last_index_of(s.drop_last(), c)
    }
}

/// The name of a function, given the path of an item `f` declared in
/// its body (`path::to::function::f`): the trailing `::f` goes, and so does
/// everything up to the last `:`.
pub open spec fn function_name_spec(item_path: Seq<char>) -> Seq<char> {
    let body = item_path.subrange(0, item_path.len() - 3);
    body.subrange(last_index_of(body, ':') + 1, body.len() as int)
}

/// Extracts a function's name from the path of an item declared inside it.
pub fn function_name_of(item_path: &str) -> (r: &str)
    requires
        item_path@.len() >= 3,
    ensures
        r@ == function_name_spec(item_path@),
{
    let end = item_path.unicode_len() - 3;
    let ghost body = item_path@.subrange(0, end as int);
    let mut k: usize = end;
    assert(body.subrange(0, k as int) =~= body);
    while k > 0
        invariant
            k <= end,
            end == item_path@.len() - 3,
            body == item_path@.subrange(0, end as int),
            last_index_of(body, ':') == last_index_of(body.subrange(0, k as int), ':'),
        decreases k,
    {
        let ghost prefix = body.subrange(0, k as int);
        if item_path.get_char(k - 1) == ':' {
            assert(prefix.last() == ':');
            return item_path.substring_char(k, end);
        }
        assert(prefix.drop_last() =~= body.subrange(0, k - 1));
        k = k - 1;
    }
    assert(body.subrange(0, 0) =~= Seq::<char>::empty());
    item_path.substring_char(0, end)
}

} // verus!
