use uwb_jni_core::command::{
    country_code_bytes, function_name_of, parse_hybrid_session_config, HybridSessionConfig,
};
use uwb_jni_core::error::UwbError;
use uwb_jni_core::phase_list::{parse_hybrid_config_phase_list_vec, PhaseList};
use uwb_jni_core::tlv::{
    parse_app_config_tlv_vec, parse_radar_config_tlv_vec, parse_tlv_sequence,
    serialize_config_status, serialize_tlvs, ConfigStatus, ConfigTlv,
};

fn tlv(cfg_id: u8, v: Vec<u8>) -> ConfigTlv {
    ConfigTlv { cfg_id, v }
}

#[test]
fn test_function_name() {
    assert_eq!(
        function_name_of("uwb_jni_core::tests::test_function_name::f"),
        "test_function_name"
    );
}

#[test]
fn function_name_without_path() {
    assert_eq!(function_name_of("main::f"), "main");
    assert_eq!(function_name_of("run::f"), "run");
}

#[test]
fn test_native_set_app_configurations() {
    let app_config_byte_array: Vec<u8> = vec![
        0, 1, 1, // DeviceType: controller
        1, 1, 1, // RangingRoundUsage: DS_TWR
    ];
    let tlvs = parse_app_config_tlv_vec(2, &app_config_byte_array).unwrap();
    assert_eq!(tlvs, vec![tlv(0, vec![1]), tlv(1, vec![1])]);
}

#[test]
fn two_records_parse_and_trailing_byte_fails() {
    let ok = parse_tlv_sequence(2, &[0, 1, 1, 1, 1, 1]).unwrap();
    assert_eq!(ok, vec![tlv(0, vec![1]), tlv(1, vec![1])]);
    assert_eq!(parse_tlv_sequence(2, &[0, 1, 1, 1, 1, 1, 9]), Err(UwbError::BadParameters));
}

#[test]
fn round_trip_of_serialized_records() {
    let records = vec![tlv(7, vec![]), tlv(3, vec![9, 8, 7]), tlv(255, vec![0; 255])];
    let bytes = serialize_tlvs(&records);
    assert_eq!(bytes.len(), 2 + 5 + 257);
    assert_eq!(&bytes[..7], &[7, 0, 3, 3, 9, 8, 7]);
    assert_eq!(parse_tlv_sequence(3, &bytes).unwrap(), records);
    let mut longer = bytes.clone();
    longer.push(0);
    assert_eq!(parse_tlv_sequence(3, &longer), Err(UwbError::BadParameters));
}

#[test]
fn count_other_than_records_fails() {
    let bytes = serialize_tlvs(&[tlv(1, vec![2]), tlv(2, vec![3, 4])]);
    assert_eq!(parse_tlv_sequence(1, &bytes), Err(UwbError::BadParameters));
    assert_eq!(parse_tlv_sequence(3, &bytes), Err(UwbError::BadParameters));
    assert!(parse_tlv_sequence(2, &bytes).is_ok());
}

#[test]
fn empty_buffer_and_zero_count() {
    assert_eq!(parse_tlv_sequence(0, &[]), Ok(vec![]));
    assert_eq!(parse_tlv_sequence(0, &[1]), Err(UwbError::BadParameters));
    assert_eq!(parse_tlv_sequence(1, &[]), Err(UwbError::BadParameters));
}

#[test]
fn truncated_header_or_value_fails() {
    assert_eq!(parse_tlv_sequence(1, &[5]), Err(UwbError::BadParameters));
    assert_eq!(parse_tlv_sequence(1, &[5, 3, 1, 2]), Err(UwbError::BadParameters));
    assert_eq!(parse_tlv_sequence(1, &[5, 3, 1, 2, 3]), Ok(vec![tlv(5, vec![1, 2, 3])]));
}

#[test]
fn negative_count_asks_for_no_record() {
    assert_eq!(parse_app_config_tlv_vec(-1, &[]), Ok(vec![]));
    assert_eq!(parse_radar_config_tlv_vec(-3, &[0, 0]), Err(UwbError::BadParameters));
    assert_eq!(parse_radar_config_tlv_vec(1, &[0xa0, 2, 1, 0]), Ok(vec![tlv(0xa0, vec![1, 0])]));
}

#[test]
fn phase_list_exact_length() {
    let bytes: Vec<u8> = vec![1, 0, 0, 0, 2, 0, 3, 0, 0x78, 0x56, 0x34, 0x12, 0xff, 0xff, 0, 1];
    let phases = parse_hybrid_config_phase_list_vec(2, &bytes).unwrap();
    assert_eq!(
        phases,
        vec![
            PhaseList { session_handle: 1, start_slot_index: 2, end_slot_index: 3 },
            PhaseList { session_handle: 0x1234_5678, start_slot_index: 0xffff, end_slot_index: 256 },
        ]
    );
    assert_eq!(parse_hybrid_config_phase_list_vec(1, &bytes), Err(UwbError::BadParameters));
    assert_eq!(parse_hybrid_config_phase_list_vec(3, &bytes), Err(UwbError::BadParameters));
    assert_eq!(parse_hybrid_config_phase_list_vec(2, &bytes[..15]), Err(UwbError::BadParameters));
    assert_eq!(parse_hybrid_config_phase_list_vec(0, &[]), Ok(vec![]));
}

#[test]
fn hybrid_session_config_checks() {
    let phases: Vec<u8> = vec![4, 3, 2, 1, 10, 0, 20, 0];
    let update_time: Vec<u8> = vec![1, 2, 3, 4, 5, 6, 7, 8];
    assert_eq!(
        parse_hybrid_session_config(1, &update_time, &phases),
        Ok(HybridSessionConfig {
            number_of_phases: 1,
            update_time: [1, 2, 3, 4, 5, 6, 7, 8],
            phase_lists: vec![PhaseList {
                session_handle: 0x0102_0304,
                start_slot_index: 10,
                end_slot_index: 20
            }],
        })
    );
    assert_eq!(
        parse_hybrid_session_config(1, &update_time[..7], &phases),
        Err(UwbError::BadParameters)
    );
    assert_eq!(parse_hybrid_session_config(-1, &update_time, &phases), Err(UwbError::BadParameters));
    assert_eq!(parse_hybrid_session_config(2, &update_time, &phases), Err(UwbError::BadParameters));
}

#[test]
fn hybrid_phase_count_keeps_low_byte() {
    let phases: Vec<u8> = vec![0; 8 * 257];
    let cfg = parse_hybrid_session_config(257, &[0; 8], &phases).unwrap();
    assert_eq!(cfg.number_of_phases, 1);
    assert_eq!(cfg.phase_lists.len(), 257);
}

#[test]
fn country_code_must_be_two_bytes() {
    assert_eq!(country_code_bytes(b"US"), Ok([b'U', b'S']));
    assert_eq!(country_code_bytes(b"USA"), Err(UwbError::BadParameters));
    assert_eq!(country_code_bytes(b""), Err(UwbError::BadParameters));
}

#[test]
fn config_status_pairs_in_order() {
    let statuses = [ConfigStatus { cfg_id: 4, status: 0 }, ConfigStatus { cfg_id: 9, status: 3 }];
    assert_eq!(serialize_config_status(&statuses), vec![4, 0, 9, 3]);
    assert_eq!(serialize_config_status(&[]), Vec::<u8>::new());
}
