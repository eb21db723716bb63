use detroit_muscle::{discard, Compatibility, FfiResult, HandleTable, Status};

#[test]
fn an_ok_result_can_be_converted_to_an_ffi_result() {
    let mut table = HandleTable::new();
    let result: Result<String, String> = Ok("test".to_owned());
    let ffi = FfiResult::from(result, &mut table);

    assert_eq!(ffi.status, Status::Success);
    assert_eq!(String::from_raw_pointer(ffi.value, &mut table), "test");
}

#[test]
fn an_error_result_can_be_converted_to_an_ffi_result() {
    let mut table = HandleTable::new();
    let result: Result<String, u8> = Err(12);
    let ffi = FfiResult::from(result, &mut table);

    assert_eq!(ffi.status, Status::Failure);
    assert_eq!(String::from_raw_pointer(ffi.value, &mut table), "12");
}

#[test]
fn a_string_can_go_back_and_forth_to_a_raw_pointer() {
    let mut table = HandleTable::new();
    let my_string = "hello world".to_owned();
    let ptr = my_string.into_raw_pointer(&mut table);
    let returned = String::from_raw_pointer(ptr, &mut table);
    assert_eq!(returned, "hello world");
}

#[test]
fn a_raw_pointer_to_a_string_can_be_freed() {
    let mut table = HandleTable::new();
    let ptr = "hello world".to_owned().into_raw_pointer(&mut table);
    String::free_raw_pointer(ptr, &mut table);
}

#[test]
fn freeing_a_string_handle_leaves_nothing_live() {
    let mut table = HandleTable::new();
    let ptr = "hello world".to_owned().into_raw_pointer(&mut table);
    assert!(table.is_live(ptr));
    assert_eq!(table.live_count(), 1);
    String::free_raw_pointer(ptr, &mut table);
    assert!(!table.is_live(ptr));
    assert_eq!(table.live_count(), 0);
}

#[test]
fn reconstructing_a_string_consumes_its_handle() {
    let mut table = HandleTable::new();
    let ptr = "hello world".to_owned().into_raw_pointer(&mut table);
    let _ = String::from_raw_pointer(ptr, &mut table);
    assert!(!table.is_live(ptr));
    assert_eq!(table.live_count(), 0);
}

#[test]
fn text_is_exported_as_nul_terminated_utf8() {
    let mut table = HandleTable::new();
    let ptr = "hé".to_owned().into_raw_pointer(&mut table);
    assert_eq!(table.reclaim(ptr), vec![0x68u8, 0xC3, 0xA9, 0]);
}

#[test]
fn multibyte_text_round_trips() {
    let mut table = HandleTable::new();
    let ptr = "héllo wörld ✓".to_owned().into_raw_pointer(&mut table);
    assert_eq!(String::from_raw_pointer(ptr, &mut table), "héllo wörld ✓");
}

#[test]
fn empty_text_round_trips() {
    let mut table = HandleTable::new();
    let ptr = String::new().into_raw_pointer(&mut table);
    assert_eq!(String::from_raw_pointer(ptr, &mut table), "");
}

#[test]
fn text_with_an_embedded_nul_is_read_up_to_it() {
    let mut table = HandleTable::new();
    let ptr = "ab\0cd".to_owned().into_raw_pointer(&mut table);
    assert_eq!(String::from_raw_pointer(ptr, &mut table), "ab");
}

#[test]
fn handles_are_never_reissued() {
    let mut table = HandleTable::new();
    let first = "a".to_owned().into_raw_pointer(&mut table);
    String::free_raw_pointer(first, &mut table);
    let second = "b".to_owned().into_raw_pointer(&mut table);
    assert_ne!(first, second);
    assert!(!table.is_live(first));
    assert_eq!(String::from_raw_pointer(second, &mut table), "b");
}

#[test]
fn discarding_reconstructs_and_drops() {
    let mut table = HandleTable::new();
    let ptr = "hello world".to_owned().into_raw_pointer(&mut table);
    discard::<String>(ptr, &mut table);
    assert!(!table.is_live(ptr));
    assert_eq!(table.live_count(), 0);
}

#[test]
fn a_text_error_projects_to_a_failure() {
    let mut table = HandleTable::new();
    let result: Result<String, String> = Err("no such key".to_owned());
    let ffi = FfiResult::from_text_error(result, &mut table);
    assert_eq!(ffi.status, Status::Failure);
    assert_eq!(String::from_raw_pointer(ffi.value, &mut table), "no such key");
}

#[test]
fn an_envelope_round_trips_through_its_own_handle() {
    let mut table = HandleTable::new();
    let result: Result<String, u8> = Err(7);
    let ffi = FfiResult::from(result, &mut table);
    let inner = ffi.value;
    let ptr = ffi.into_raw_pointer(&mut table);
    let back = FfiResult::<String>::from_raw_pointer(ptr, &mut table);
    assert_eq!(back.status, Status::Failure);
    assert_eq!(back.value, inner);
    assert_eq!(String::from_raw_pointer(back.value, &mut table), "7");
    assert_eq!(table.live_count(), 0);
}

#[test]
fn an_envelope_is_a_status_byte_and_a_little_endian_handle() {
    let mut table = HandleTable::new();
    let _ = "x".to_owned().into_raw_pointer(&mut table);
    let ok: Result<String, u8> = Ok("test".to_owned());
    let success = FfiResult::from(ok, &mut table);
    assert_eq!(success.value, 1);
    let ptr = success.into_raw_pointer(&mut table);
    assert_eq!(table.reclaim(ptr), vec![0u8, 1, 0, 0, 0, 0, 0, 0, 0]);

    let err: Result<String, u8> = Err(3);
    let failure = FfiResult::from(err, &mut table);
    assert_eq!(failure.value, 3);
    let ptr = failure.into_raw_pointer(&mut table);
    assert_eq!(table.reclaim(ptr), vec![1u8, 3, 0, 0, 0, 0, 0, 0, 0]);
}

#[test]
fn freeing_a_failure_envelope_releases_its_text() {
    let mut table = HandleTable::new();
    let result: Result<String, u8> = Err(12);
    let ffi = FfiResult::from(result, &mut table);
    let inner = ffi.value;
    let ptr = ffi.into_raw_pointer(&mut table);
    assert_eq!(table.live_count(), 2);
    FfiResult::<String>::free_raw_pointer(ptr, &mut table);
    assert!(!table.is_live(ptr));
    assert!(!table.is_live(inner));
    assert_eq!(table.live_count(), 0);
}

#[test]
fn freeing_a_success_envelope_keeps_its_value() {
    let mut table = HandleTable::new();
    let result: Result<String, u8> = Ok("test".to_owned());
    let ffi = FfiResult::from(result, &mut table);
    let inner = ffi.value;
    let ptr = ffi.into_raw_pointer(&mut table);
    FfiResult::<String>::free_raw_pointer(ptr, &mut table);
    assert!(!table.is_live(ptr));
    assert!(table.is_live(inner));
    assert_eq!(table.live_count(), 1);
    assert_eq!(String::from_raw_pointer(inner, &mut table), "test");
    assert_eq!(table.live_count(), 0);
}

#[test]
fn an_envelope_can_carry_an_envelope() {
    let mut table = HandleTable::new();
    let inner_result: Result<String, u8> = Ok("deep".to_owned());
    let inner = FfiResult::from(inner_result, &mut table);
    let outer_result: Result<FfiResult<String>, u8> = Ok(inner);
    let outer = FfiResult::from(outer_result, &mut table);
    assert_eq!(outer.status, Status::Success);
    let back = FfiResult::<String>::from_raw_pointer(outer.value, &mut table);
    assert_eq!(back.status, Status::Success);
    assert_eq!(String::from_raw_pointer(back.value, &mut table), "deep");
    assert_eq!(table.live_count(), 0);
}
