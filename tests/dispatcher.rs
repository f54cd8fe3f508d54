use uwb_jni_core::dispatcher::Dispatcher;
use uwb_jni_core::error::UwbError;

fn chips() -> Vec<String> {
    vec!["default".to_string(), "chip_b".to_string()]
}

#[test]
fn lookup_before_create_is_a_state_error() {
    let d: Dispatcher<u32> = Dispatcher::new();
    assert!(!d.is_live());
    assert_eq!(d.get_manager(&"default".to_string()), Err(UwbError::NotInitialized));
    assert_eq!(d.current_handle(), Err(UwbError::NotInitialized));
}

#[test]
fn second_create_fails_and_keeps_live_instance() {
    let mut d: Dispatcher<u32> = Dispatcher::new();
    let h = d.create(chips(), vec![11, 22]).unwrap();
    assert!(d.is_live());
    assert_eq!(d.create(vec!["other".to_string()], vec![33]), Err(UwbError::BadParameters));
    assert_eq!(d.get_manager(&"default".to_string()), Ok(&11));
    assert_eq!(d.get_manager(&"chip_b".to_string()), Ok(&22));
    assert_eq!(d.get_manager(&"other".to_string()), Err(UwbError::BadParameters));
    assert_eq!(d.current_handle(), Ok(h));
}

#[test]
fn chip_ids_are_case_sensitive() {
    let mut d: Dispatcher<u32> = Dispatcher::new();
    d.create(chips(), vec![11, 22]).unwrap();
    assert_eq!(d.get_manager(&"Default".to_string()), Err(UwbError::BadParameters));
}

#[test]
fn destroy_checks_the_handle() {
    let mut d: Dispatcher<u32> = Dispatcher::new();
    let h = d.create(chips(), vec![11, 22]).unwrap();
    assert_eq!(d.destroy(h + 1), Err(UwbError::BadParameters));
    assert!(d.is_live());
    assert_eq!(d.get_manager(&"default".to_string()), Ok(&11));
    assert_eq!(d.destroy(h), Ok(vec![11, 22]));
    assert!(!d.is_live());
    assert_eq!(d.get_manager(&"default".to_string()), Err(UwbError::AlreadyDestroyed));
    assert_eq!(d.get_manager(&"chip_b".to_string()), Err(UwbError::AlreadyDestroyed));
    assert_eq!(d.destroy(h), Err(UwbError::AlreadyDestroyed));
}

#[test]
fn create_again_after_destroy_gets_a_fresh_handle() {
    let mut d: Dispatcher<u32> = Dispatcher::new();
    let h1 = d.create(chips(), vec![1, 2]).unwrap();
    d.destroy(h1).unwrap();
    let h2 = d.create(vec!["x".to_string()], vec![3]).unwrap();
    assert_ne!(h1, h2);
    assert_eq!(d.destroy(h1), Err(UwbError::BadParameters));
    assert_eq!(d.get_manager(&"x".to_string()), Ok(&3));
}

#[test]
fn create_needs_one_manager_per_chip() {
    let mut d: Dispatcher<u32> = Dispatcher::new();
    assert_eq!(d.create(chips(), vec![1]), Err(UwbError::BadParameters));
    assert!(!d.is_live());
}
