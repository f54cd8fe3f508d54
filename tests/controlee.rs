use uwb_jni_core::controlee::{
    resolve_controlees, subsession_id_of, Controlee, ControleeLongKey, ControleeShortKey,
    Controlees, UpdateMulticastListAction,
};
use uwb_jni_core::error::UwbError;

#[test]
fn plain_add_without_keys() {
    let r = resolve_controlees(0, 2, &[1, 2, 3, 4], &[10, 20], None).unwrap();
    assert_eq!(
        r,
        Controlees::NoSessionKey(vec![
            Controlee { short_address: [1, 2], subsession_id: 10 },
            Controlee { short_address: [3, 4], subsession_id: 20 },
        ])
    );
}

#[test]
fn plain_remove_ignores_keys() {
    let keys = [7u8; 32];
    let r = resolve_controlees(1, 2, &[1, 2, 3, 4], &[10, 20], Some(&keys)).unwrap();
    assert_eq!(
        r,
        Controlees::NoSessionKey(vec![
            Controlee { short_address: [1, 2], subsession_id: 10 },
            Controlee { short_address: [3, 4], subsession_id: 20 },
        ])
    );
}

#[test]
fn short_key_list_in_input_order() {
    let mut keys: Vec<u8> = vec![0xaa; 16];
    keys.extend(vec![0xbb; 16]);
    let r = resolve_controlees(2, 2, &[1, 2, 3, 4], &[10, 20], Some(&keys)).unwrap();
    assert_eq!(
        r,
        Controlees::ShortSessionKey(vec![
            ControleeShortKey { short_address: [1, 2], subsession_id: 10, subsession_key: [0xaa; 16] },
            ControleeShortKey { short_address: [3, 4], subsession_id: 20, subsession_key: [0xbb; 16] },
        ])
    );
}

#[test]
fn short_key_action_without_keys_falls_back() {
    let r = resolve_controlees(2, 1, &[5, 6], &[7], None).unwrap();
    assert_eq!(r, Controlees::NoSessionKey(vec![Controlee { short_address: [5, 6], subsession_id: 7 }]));
    let r = resolve_controlees(3, 1, &[5, 6], &[7], None).unwrap();
    assert_eq!(r, Controlees::NoSessionKey(vec![Controlee { short_address: [5, 6], subsession_id: 7 }]));
}

#[test]
fn short_key_length_not_multiple_fails() {
    let keys = [1u8; 17];
    assert_eq!(
        resolve_controlees(2, 1, &[5, 6], &[7], Some(&keys)),
        Err(UwbError::BadParameters)
    );
    let keys = [1u8; 15];
    assert_eq!(
        resolve_controlees(2, 1, &[5, 6], &[7], Some(&keys)),
        Err(UwbError::BadParameters)
    );
}

#[test]
fn long_key_list() {
    let keys: Vec<u8> = (0..32).collect();
    let r = resolve_controlees(3, 1, &[9, 9], &[-1], Some(&keys)).unwrap();
    let mut key = [0u8; 32];
    for (i, k) in key.iter_mut().enumerate() {
        *k = i as u8;
    }
    assert_eq!(
        r,
        Controlees::LongSessionKey(vec![ControleeLongKey {
            short_address: [9, 9],
            subsession_id: 0xffff_ffff,
            subsession_key: key,
        }])
    );
    assert_eq!(
        resolve_controlees(3, 1, &[9, 9], &[1], Some(&keys[..16])),
        Err(UwbError::BadParameters)
    );
}

#[test]
fn cardinality_mismatch_fails() {
    assert_eq!(resolve_controlees(0, 2, &[1, 2, 3, 4], &[10], None), Err(UwbError::BadParameters));
    assert_eq!(resolve_controlees(0, 1, &[1, 2, 3, 4], &[10, 20], None), Err(UwbError::BadParameters));
    assert_eq!(resolve_controlees(0, -1, &[], &[], None), Err(UwbError::BadParameters));
    assert_eq!(resolve_controlees(0, 0, &[], &[], None), Ok(Controlees::NoSessionKey(vec![])));
}

#[test]
fn unknown_action_fails() {
    assert_eq!(resolve_controlees(4, 1, &[1, 2], &[3], None), Err(UwbError::BadParameters));
    assert_eq!(UpdateMulticastListAction::from_code(9), Err(UwbError::BadParameters));
    assert_eq!(
        UpdateMulticastListAction::from_code(2),
        Ok(UpdateMulticastListAction::AddControleeWithShortSubSessionKey)
    );
}

#[test]
fn negative_ids_wrap_to_unsigned() {
    assert_eq!(subsession_id_of(-2), 0xffff_fffe);
    assert_eq!(subsession_id_of(i32::MIN), 0x8000_0000);
    assert_eq!(subsession_id_of(42), 42);
}
