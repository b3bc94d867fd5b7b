use moonlight_bridge::error::{BackendError, ConnectError, OptionalExport, Region, RequiredExport};
use moonlight_bridge::wasm_backend::{
    byte_of_reply, byte_reply, call_error, command_reply, count_reply, done_reply,
    legacy_store_call, negotiate, ring_store_call, value_reply, CapabilitySet, ExportSurvey, Layout, WasmBackend,
    LEGACY_CAPACITY,
};
use moonlight_bridge::sandbox::CallFault;

const MEMORY: &str = r#"(memory (export "memory") 1)"#;

const STATE: &str = r#"
  (global $read (mut i32) (i32.const 0))
  (global $write (mut i32) (i32.const 0))
  (global $checks (mut i32) (i32.const 0))
"#;

const LAYOUT_QUERIES: &str = r#"
  (func (export "get_buffer_size") (result i32) (i32.const 1024))
  (func (export "get_input_buffer_offset") (result i32) (i32.const 2048))
  (func (export "get_output_buffer_offset") (result i32) (i32.const 4096))
"#;

const REQUIRED: &str = r#"
  (func (export "set_write_head") (param $pos i32)
    (if (i32.ge_s (local.get $pos) (i32.const 0))
      (then (global.set $write (i32.and (local.get $pos) (i32.const 1023))))))
  (func (export "process_tensor_stream") (result i32)
    (local $n i32) (local $i i32) (local $p i32)
    (local.set $n (i32.and (i32.sub (global.get $write) (global.get $read)) (i32.const 1023)))
    (local.set $n (i32.sub (local.get $n) (i32.rem_u (local.get $n) (i32.const 3))))
    (block $done
      (loop $next
        (br_if $done (i32.ge_u (local.get $i) (local.get $n)))
        (local.set $p (i32.and (i32.add (global.get $read) (local.get $i)) (i32.const 1023)))
        (i32.store8 (i32.add (i32.const 4096) (local.get $p))
          (i32.xor (i32.load8_u (i32.add (i32.const 2048) (local.get $p))) (i32.const 255)))
        (local.set $i (i32.add (local.get $i) (i32.const 1)))
        (br $next)))
    (global.set $read (i32.and (i32.add (global.get $read) (local.get $n)) (i32.const 1023)))
    (local.get $n))
"#;

const ACCESSORS: &str = r#"
  (func (export "set_input_3_bytes") (param $i i32) (param $x i32) (param $y i32) (param $z i32)
    (i32.store8 (i32.add (i32.const 2048) (i32.and (local.get $i) (i32.const 1023))) (local.get $x))
    (i32.store8 (i32.add (i32.const 2048) (i32.and (i32.add (local.get $i) (i32.const 1)) (i32.const 1023))) (local.get $y))
    (i32.store8 (i32.add (i32.const 2048) (i32.and (i32.add (local.get $i) (i32.const 2)) (i32.const 1023))) (local.get $z)))
  (func (export "get_output_byte") (param $i i32) (result i32)
    (i32.load8_u (i32.add (i32.const 4096) (i32.and (local.get $i) (i32.const 1023)))))
"#;

const OPTIONAL: &str = r#"
  (func (export "vector_add_batch") (param i32) (result i32) (local.get 0))
  (func (export "vector_dot_batch") (param i32) (result i32) (i32.mul (local.get 0) (i32.const 7)))
  (func (export "check_integrity") (result i32) (i32.const 1))
"#;

fn module(parts: &[&str]) -> Vec<u8> {
    let mut text = String::from("(module\n");
    for part in parts {
        text.push_str(part);
        text.push('\n');
    }
    text.push(')');
    text.into_bytes()
}

fn full_module() -> Vec<u8> {
    module(&[MEMORY, STATE, LAYOUT_QUERIES, REQUIRED, ACCESSORS, OPTIONAL])
}

fn connect_error(bytes: &[u8], strict: bool) -> ConnectError {
    match WasmBackend::new(bytes, strict) {
        Ok(_) => panic!("module was connected"),
        Err(e) => e,
    }
}

fn good_survey() -> ExportSurvey {
    ExportSurvey {
        memory_size: Some(65536),
        buffer_size: Some(1024),
        input_offset: Some(2048),
        output_offset: Some(4096),
        set_write_head: true,
        process_tensor_stream: true,
        set_input_3_bytes: true,
        get_output_byte: true,
        vector_add_batch: true,
        vector_dot_batch: true,
        check_integrity: true,
    }
}

#[test]
fn offset_queries_select_zero_copy() {
    let b = WasmBackend::new(&full_module(), true).unwrap();
    assert_eq!(b.get_cap(), 1024);
    assert_eq!(b.get_input_offset(), 2048);
    assert_eq!(b.get_output_offset(), 4096);
    let caps = b.capabilities();
    assert!(caps.zero_copy && caps.dynamic_capacity);
    assert!(caps.batch_add && caps.batch_dot && caps.integrity_check);
    assert!(!b.has_overlap_hazard());
}

#[test]
fn required_functions_only_select_legacy() {
    let bytes = module(&[MEMORY, STATE, REQUIRED, ACCESSORS]);
    let b = WasmBackend::new(&bytes, false).unwrap();
    assert_eq!(b.get_cap(), LEGACY_CAPACITY);
    assert_eq!(b.get_cap(), 1024);
    assert_eq!(b.get_input_offset(), 0);
    assert_eq!(b.get_output_offset(), 0);
    assert_eq!(
        b.capabilities(),
        CapabilitySet {
            batch_add: false,
            batch_dot: false,
            integrity_check: false,
            dynamic_capacity: false,
            zero_copy: false,
        }
    );
}

#[test]
fn one_offset_query_alone_is_legacy() {
    let one = r#"(func (export "get_input_buffer_offset") (result i32) (i32.const 2048))"#;
    let bytes = module(&[MEMORY, STATE, one, REQUIRED, ACCESSORS]);
    let b = WasmBackend::new(&bytes, false).unwrap();
    assert!(!b.capabilities().zero_copy);
    assert_eq!(b.get_input_offset(), 0);
}

#[test]
fn strict_mode_needs_check_integrity() {
    let partial = r#"
      (func (export "vector_add_batch") (param i32) (result i32) (local.get 0))
      (func (export "vector_dot_batch") (param i32) (result i32) (local.get 0))
    "#;
    let bytes = module(&[MEMORY, STATE, LAYOUT_QUERIES, REQUIRED, partial]);
    assert!(matches!(
        connect_error(&bytes, true),
        ConnectError::StrictCapabilityMissing(OptionalExport::CheckIntegrity)
    ));
    assert!(WasmBackend::new(&bytes, false).is_ok());
}

#[test]
fn strict_mode_needs_batch_operations() {
    let bytes = module(&[MEMORY, STATE, LAYOUT_QUERIES, REQUIRED]);
    assert!(matches!(
        connect_error(&bytes, true),
        ConnectError::StrictCapabilityMissing(OptionalExport::VectorAddBatch)
    ));
}

#[test]
fn module_without_memory_is_refused() {
    let idle = r#"
      (func (export "set_write_head") (param i32))
      (func (export "process_tensor_stream") (result i32) (i32.const 0))
    "#;
    let bytes = module(&[STATE, LAYOUT_QUERIES, idle]);
    assert!(matches!(connect_error(&bytes, false), ConnectError::MemoryMissing));
    let misnamed = r#"(memory (export "mem") 1)"#;
    let bytes = module(&[misnamed, LAYOUT_QUERIES, idle]);
    assert!(matches!(connect_error(&bytes, false), ConnectError::MemoryMissing));
}

#[test]
fn module_without_mandatory_function_is_refused() {
    let only_set = r#"(func (export "set_write_head") (param i32))"#;
    let bytes = module(&[MEMORY, LAYOUT_QUERIES, only_set]);
    assert!(matches!(
        connect_error(&bytes, false),
        ConnectError::ExportMissing(RequiredExport::ProcessTensorStream)
    ));
    let bytes = module(&[MEMORY, LAYOUT_QUERIES]);
    assert!(matches!(
        connect_error(&bytes, false),
        ConnectError::ExportMissing(RequiredExport::SetWriteHead)
    ));
}

#[test]
fn mistyped_function_counts_as_missing() {
    let wrong = r#"
      (func (export "set_write_head") (param i32))
      (func (export "process_tensor_stream") (param i32) (result i32) (local.get 0))
    "#;
    let bytes = module(&[MEMORY, LAYOUT_QUERIES, wrong]);
    assert!(matches!(
        connect_error(&bytes, false),
        ConnectError::ExportMissing(RequiredExport::ProcessTensorStream)
    ));
}

#[test]
fn legacy_module_without_accessors_is_refused() {
    let bytes = module(&[MEMORY, STATE, REQUIRED]);
    assert!(matches!(
        connect_error(&bytes, false),
        ConnectError::ExportMissing(RequiredExport::SetInput3Bytes)
    ));
}

#[test]
fn region_beyond_memory_is_refused() {
    let far = r#"
      (func (export "get_buffer_size") (result i32) (i32.const 1024))
      (func (export "get_input_buffer_offset") (result i32) (i32.const 65000))
      (func (export "get_output_buffer_offset") (result i32) (i32.const 0))
    "#;
    let bytes = module(&[MEMORY, STATE, far, REQUIRED]);
    assert!(matches!(
        connect_error(&bytes, false),
        ConnectError::RegionOutOfBounds(Region::Input)
    ));
    let far = r#"
      (func (export "get_buffer_size") (result i32) (i32.const 1024))
      (func (export "get_input_buffer_offset") (result i32) (i32.const 0))
      (func (export "get_output_buffer_offset") (result i32) (i32.const 64513))
    "#;
    let bytes = module(&[MEMORY, STATE, far, REQUIRED]);
    assert!(matches!(
        connect_error(&bytes, false),
        ConnectError::RegionOutOfBounds(Region::Output)
    ));
}

#[test]
fn region_that_ends_with_memory_is_accepted() {
    let edge = r#"
      (func (export "get_buffer_size") (result i32) (i32.const 1024))
      (func (export "get_input_buffer_offset") (result i32) (i32.const 0))
      (func (export "get_output_buffer_offset") (result i32) (i32.const 64512))
    "#;
    let bytes = module(&[MEMORY, STATE, edge, REQUIRED]);
    assert!(WasmBackend::new(&bytes, false).is_ok());
}

#[test]
fn invalid_layout_is_refused() {
    let bad = r#"
      (func (export "get_buffer_size") (result i32) (i32.const 0))
    "#;
    let bytes = module(&[MEMORY, STATE, bad, REQUIRED, ACCESSORS]);
    assert!(matches!(connect_error(&bytes, false), ConnectError::InvalidLayout));
    let bad = r#"
      (func (export "get_buffer_size") (result i32) (i32.const 1024))
      (func (export "get_input_buffer_offset") (result i32) (i32.const -4))
      (func (export "get_output_buffer_offset") (result i32) (i32.const 0))
    "#;
    let bytes = module(&[MEMORY, STATE, bad, REQUIRED]);
    assert!(matches!(connect_error(&bytes, false), ConnectError::InvalidLayout));
}

#[test]
fn trapping_query_is_reported() {
    let bad = r#"(func (export "get_buffer_size") (result i32) unreachable)"#;
    let bytes = module(&[MEMORY, STATE, bad, REQUIRED, ACCESSORS]);
    assert!(matches!(connect_error(&bytes, false), ConnectError::QueryFailed(_)));
}

#[test]
fn garbage_is_no_module() {
    let e = connect_error(b"not a module", false);
    assert!(matches!(e, ConnectError::ModuleRejected(_)));
    assert!(e.message().starts_with("Failed to load Wasm module: "));
}

#[test]
fn module_with_imports_cannot_be_instantiated() {
    let bytes = module(&[r#"(import "env" "f" (func))"#, MEMORY]);
    assert!(matches!(connect_error(&bytes, false), ConnectError::ModuleRejected(_)));
}

#[test]
fn overlapping_regions_are_a_hazard() {
    let overlap = r#"
      (func (export "get_buffer_size") (result i32) (i32.const 1024))
      (func (export "get_input_buffer_offset") (result i32) (i32.const 2048))
      (func (export "get_output_buffer_offset") (result i32) (i32.const 2560))
    "#;
    let bytes = module(&[MEMORY, STATE, overlap, REQUIRED]);
    assert!(WasmBackend::new(&bytes, false).unwrap().has_overlap_hazard());
    let same = r#"
      (func (export "get_buffer_size") (result i32) (i32.const 1024))
      (func (export "get_input_buffer_offset") (result i32) (i32.const 2048))
      (func (export "get_output_buffer_offset") (result i32) (i32.const 2048))
    "#;
    let bytes = module(&[MEMORY, STATE, same, REQUIRED]);
    assert!(!WasmBackend::new(&bytes, false).unwrap().has_overlap_hazard());
}

#[test]
fn zero_copy_write_then_read_round_trips() {
    let mut b = WasmBackend::new(&full_module(), false).unwrap();
    b.write_bytes(2048 + 10, &[1, 2, 3, 4, 5]).unwrap();
    assert_eq!(b.read_bytes(2048 + 10, 5).unwrap(), vec![1, 2, 3, 4, 5]);
    assert_eq!(b.read_bytes(2048 + 9, 3).unwrap(), vec![0, 1, 2]);
    assert_eq!(b.read_bytes(4096, 4).unwrap(), vec![0, 0, 0, 0]);
    assert_eq!(b.read_bytes(2048, 0).unwrap(), Vec::<u8>::new());
}

#[test]
fn zero_copy_access_outside_the_regions_fails() {
    let mut b = WasmBackend::new(&full_module(), false).unwrap();
    assert!(matches!(b.write_bytes(0, &[1]), Err(BackendError::WriteOutOfRegion)));
    assert!(matches!(
        b.write_bytes(2048 + 1022, &[1, 2, 3]),
        Err(BackendError::WriteOutOfRegion)
    ));
    assert!(b.write_bytes(2048 + 1021, &[1, 2, 3]).is_ok());
    assert!(b.write_bytes(4096 + 1021, &[1, 2, 3]).is_ok());
    assert!(matches!(b.read_bytes(4096 + 1022, 3), Err(BackendError::ReadOutOfRegion)));
    assert!(matches!(b.read_bytes(100, 3), Err(BackendError::ReadOutOfRegion)));
    assert!(matches!(b.read_bytes(usize::MAX, 3), Err(BackendError::ReadOutOfRegion)));
}

#[test]
fn zero_copy_stream_is_processed_by_the_module() {
    let mut b = WasmBackend::new(&full_module(), false).unwrap();
    b.write_bytes(2048, &[1, 2, 3, 4, 5, 6, 7]).unwrap();
    b.set_write_head(7).unwrap();
    assert_eq!(b.process_tensor_stream().unwrap(), 6);
    assert_eq!(b.read_bytes(4096, 7).unwrap(), vec![254, 253, 252, 251, 250, 249, 0]);
    assert_eq!(b.process_tensor_stream().unwrap(), 0);
    b.set_write_head(-1).unwrap();
    b.set_write_head(9).unwrap();
    assert_eq!(b.process_tensor_stream().unwrap(), 3);
}

#[test]
fn optional_operations_call_the_module() {
    let mut b = WasmBackend::new(&full_module(), true).unwrap();
    assert!(b.vector_add_batch(5).is_ok());
    assert_eq!(b.vector_dot_batch(5).unwrap(), 35);
    assert_eq!(b.vector_dot_batch(5).unwrap(), 35);
    assert_eq!(b.check_integrity().unwrap(), 1);
}

#[test]
fn absent_operations_have_safe_defaults() {
    let bytes = module(&[MEMORY, STATE, LAYOUT_QUERIES, REQUIRED]);
    let mut b = WasmBackend::new(&bytes, false).unwrap();
    assert!(b.vector_add_batch(5).is_ok());
    assert_eq!(b.vector_dot_batch(5).unwrap(), 0);
    assert_eq!(b.check_integrity().unwrap(), 1);
}

#[test]
fn module_reporting_corruption() {
    let sick = r#"
      (func (export "vector_add_batch") (param i32) (result i32) (local.get 0))
      (func (export "vector_dot_batch") (param i32) (result i32) (local.get 0))
      (func (export "check_integrity") (result i32) (i32.const 0))
    "#;
    let bytes = module(&[MEMORY, STATE, LAYOUT_QUERIES, REQUIRED, sick]);
    let mut b = WasmBackend::new(&bytes, true).unwrap();
    assert_eq!(b.check_integrity().unwrap(), 0);
}

#[test]
fn trap_in_the_module_is_an_error() {
    let traps = r#"
      (func (export "set_write_head") (param i32) unreachable)
      (func (export "process_tensor_stream") (result i32) unreachable)
    "#;
    let bytes = module(&[MEMORY, LAYOUT_QUERIES, traps]);
    let mut b = WasmBackend::new(&bytes, false).unwrap();
    assert!(matches!(b.set_write_head(3), Err(BackendError::EngineTrapped(_))));
    let e = b.process_tensor_stream().unwrap_err();
    assert!(e.message().starts_with("Kernel call failed: "));
}

#[test]
fn legacy_write_and_read_go_through_the_accessors() {
    let bytes = module(&[MEMORY, STATE, REQUIRED, ACCESSORS]);
    let mut b = WasmBackend::new(&bytes, false).unwrap();
    b.write_bytes(3, &[9, 8, 7, 6, 5, 4]).unwrap();
    b.set_write_head(9).unwrap();
    assert_eq!(b.process_tensor_stream().unwrap(), 9);
    assert_eq!(
        b.read_bytes(0, 10).unwrap(),
        vec![255, 255, 255, 246, 247, 248, 249, 250, 251, 0]
    );
}

#[test]
fn legacy_write_of_any_length_from_one_vector_on() {
    let bytes = module(&[MEMORY, STATE, REQUIRED, ACCESSORS]);
    let mut b = WasmBackend::new(&bytes, false).unwrap();
    b.write_bytes(1, &[1, 2, 3, 4]).unwrap();
    b.write_bytes(10, &[11, 12, 13, 14, 15, 16, 17, 18]).unwrap();
    b.set_write_head(18).unwrap();
    assert_eq!(b.process_tensor_stream().unwrap(), 18);
    assert_eq!(
        b.read_bytes(0, 19).unwrap(),
        vec![255, 254, 253, 252, 251, 255, 255, 255, 255, 255, 244, 243, 242, 241, 240, 239, 238, 237, 0]
    );
}

#[test]
fn legacy_write_shorter_than_a_vector_fails() {
    let bytes = module(&[MEMORY, STATE, REQUIRED, ACCESSORS]);
    let mut b = WasmBackend::new(&bytes, false).unwrap();
    assert!(matches!(b.write_bytes(0, &[1, 2]), Err(BackendError::PartialVector)));
    assert!(matches!(b.write_bytes(7, &[1]), Err(BackendError::PartialVector)));
    assert!(matches!(b.write_bytes(1022, &[1, 2, 3]), Err(BackendError::WriteOutOfRegion)));
    assert!(matches!(b.read_bytes(1020, 5), Err(BackendError::ReadOutOfRegion)));
    assert!(b.write_bytes(1021, &[1, 2, 3]).is_ok());
    assert!(b.write_bytes(5, &[]).is_ok());
}

#[test]
fn legacy_read_refuses_what_is_no_byte() {
    let odd = r#"
      (func (export "set_input_3_bytes") (param i32 i32 i32 i32))
      (func (export "get_output_byte") (param i32) (result i32) (i32.const 256))
    "#;
    let bytes = module(&[MEMORY, STATE, REQUIRED, odd]);
    let mut b = WasmBackend::new(&bytes, false).unwrap();
    assert!(matches!(b.read_bytes(0, 1), Err(BackendError::MalformedReply)));
}

#[test]
fn byte_of_reply_accepts_bytes_only() {
    assert_eq!(byte_of_reply(0), Some(0));
    assert_eq!(byte_of_reply(255), Some(255));
    assert_eq!(byte_of_reply(256), None);
    assert_eq!(byte_of_reply(-1), None);
}

#[test]
fn legacy_store_call_arguments() {
    let data = [10u8, 20, 30, 40, 50, 60];
    assert_eq!(legacy_store_call(100, &data, 0), (100, 10, 20, 30));
    assert_eq!(legacy_store_call(100, &data, 1), (103, 40, 50, 60));
    // What is left over after the whole vectors goes with the last call,
    // which is moved back so that it ends with the data.
    let data = [10u8, 20, 30, 40, 50, 60, 70];
    assert_eq!(legacy_store_call(100, &data, 1), (103, 40, 50, 60));
    assert_eq!(legacy_store_call(100, &data, 2), (104, 50, 60, 70));
    let data = [10u8, 20, 30, 40];
    assert_eq!(legacy_store_call(0, &data, 1), (1, 20, 30, 40));
}

#[test]
fn call_error_mapping() {
    assert!(matches!(call_error(CallFault::Missing), BackendError::ExportVanished));
    match call_error(CallFault::Trapped("boom".to_string())) {
        BackendError::EngineTrapped(cause) => assert_eq!(cause, "boom"),
        other => panic!("unexpected {:?}", other),
    }
}

#[test]
fn negotiate_accepts_a_full_survey() {
    let layout = negotiate(&good_survey(), true).unwrap();
    assert_eq!(
        layout,
        Layout {
            cap: 1024,
            input_offset: 2048,
            output_offset: 4096,
            capabilities: CapabilitySet {
                batch_add: true,
                batch_dot: true,
                integrity_check: true,
                dynamic_capacity: true,
                zero_copy: true,
            },
        }
    );
}

#[test]
fn negotiate_orders_its_faults() {
    let mut s = good_survey();
    s.memory_size = None;
    s.set_write_head = false;
    assert!(matches!(negotiate(&s, false), Err(ConnectError::MemoryMissing)));
    let mut s = good_survey();
    s.buffer_size = Some(-1);
    s.process_tensor_stream = false;
    assert!(matches!(negotiate(&s, false), Err(ConnectError::InvalidLayout)));
    let mut s = good_survey();
    s.output_offset = None;
    s.get_output_byte = false;
    s.set_write_head = false;
    assert!(matches!(
        negotiate(&s, false),
        Err(ConnectError::ExportMissing(RequiredExport::GetOutputByte))
    ));
    let mut s = good_survey();
    s.vector_dot_batch = false;
    s.memory_size = Some(10);
    assert!(matches!(
        negotiate(&s, true),
        Err(ConnectError::StrictCapabilityMissing(OptionalExport::VectorDotBatch))
    ));
    assert!(matches!(
        negotiate(&s, false),
        Err(ConnectError::RegionOutOfBounds(Region::Input))
    ));
}

#[test]
fn negotiate_legacy_defaults() {
    let mut s = good_survey();
    s.buffer_size = None;
    s.input_offset = None;
    s.output_offset = None;
    let layout = negotiate(&s, false).unwrap();
    assert_eq!((layout.cap, layout.input_offset, layout.output_offset), (1024, 0, 0));
    assert!(!layout.capabilities.zero_copy && !layout.capabilities.dynamic_capacity);
}

#[test]
fn replies_to_call_outcomes() {
    assert!(matches!(command_reply(Ok(())), Ok(())));
    assert!(matches!(command_reply(Err(CallFault::Missing)), Err(BackendError::ExportVanished)));
    match command_reply(Err(CallFault::Trapped("t".to_string()))) {
        Err(BackendError::EngineTrapped(cause)) => assert_eq!(cause, "t"),
        other => panic!("unexpected {:?}", other),
    }
    assert!(matches!(value_reply(Ok(-7)), Ok(-7)));
    assert!(matches!(value_reply(Err(CallFault::Missing)), Err(BackendError::ExportVanished)));
    assert!(matches!(done_reply(Ok(12)), Ok(())));
    assert!(matches!(
        done_reply(Err(CallFault::Trapped(String::new()))),
        Err(BackendError::EngineTrapped(_))
    ));
    assert!(matches!(count_reply(Ok(0)), Ok(0)));
    assert!(matches!(count_reply(Ok(3072)), Ok(3072)));
    assert!(matches!(count_reply(Ok(4)), Err(BackendError::MalformedReply)));
    assert!(matches!(count_reply(Ok(-3)), Err(BackendError::MalformedReply)));
    assert!(matches!(count_reply(Err(CallFault::Missing)), Err(BackendError::ExportVanished)));
    assert!(matches!(byte_reply(Ok(0)), Ok(0)));
    assert!(matches!(byte_reply(Ok(255)), Ok(255)));
    assert!(matches!(byte_reply(Ok(256)), Err(BackendError::MalformedReply)));
    assert!(matches!(byte_reply(Ok(-1)), Err(BackendError::MalformedReply)));
    assert!(matches!(
        byte_reply(Err(CallFault::Trapped(String::new()))),
        Err(BackendError::EngineTrapped(_))
    ));
}

#[test]
fn negative_write_head_never_reaches_the_module() {
    let traps = r#"
      (func (export "set_write_head") (param i32) unreachable)
      (func (export "process_tensor_stream") (result i32) (i32.const 0))
    "#;
    let bytes = module(&[MEMORY, LAYOUT_QUERIES, traps]);
    let mut b = WasmBackend::new(&bytes, false).unwrap();
    assert!(b.set_write_head(-1).is_ok());
    assert!(b.set_write_head(i32::MIN).is_ok());
    assert!(matches!(b.set_write_head(0), Err(BackendError::EngineTrapped(_))));
}

#[test]
fn count_that_is_no_whole_number_of_vectors_is_refused() {
    for (reply, accepted) in [("4", false), ("-3", false), ("-1", false), ("6", true), ("0", true)] {
        let odd = format!(
            r#"
          (func (export "set_write_head") (param i32))
          (func (export "process_tensor_stream") (result i32) (i32.const {reply}))
        "#
        );
        let bytes = module(&[MEMORY, LAYOUT_QUERIES, &odd]);
        let mut b = WasmBackend::new(&bytes, false).unwrap();
        let r = b.process_tensor_stream();
        if accepted {
            assert_eq!(r.unwrap().to_string(), reply);
        } else {
            assert!(matches!(r, Err(BackendError::MalformedReply)));
        }
    }
}

#[test]
fn legacy_access_of_no_bytes_makes_no_call() {
    let traps = r#"
      (func (export "set_write_head") (param i32))
      (func (export "process_tensor_stream") (result i32) (i32.const 0))
      (func (export "set_input_3_bytes") (param i32 i32 i32 i32) unreachable)
      (func (export "get_output_byte") (param i32) (result i32) unreachable)
    "#;
    let bytes = module(&[MEMORY, traps]);
    let mut b = WasmBackend::new(&bytes, false).unwrap();
    assert!(b.write_bytes(10, &[]).is_ok());
    assert_eq!(b.read_bytes(10, 0).unwrap(), Vec::<u8>::new());
    assert!(matches!(b.write_bytes(10, &[1, 2, 3]), Err(BackendError::EngineTrapped(_))));
    assert!(matches!(b.read_bytes(10, 1), Err(BackendError::EngineTrapped(_))));
}

#[test]
fn missing_optional_operation_is_no_refusal_without_strict_mode() {
    let bytes = module(&[MEMORY, STATE, LAYOUT_QUERIES, REQUIRED]);
    assert!(WasmBackend::new(&bytes, false).is_ok());
    assert!(matches!(
        connect_error(&bytes, true),
        ConnectError::StrictCapabilityMissing(_)
    ));
}

#[test]
fn ring_store_call_arguments() {
    let data = [1u8, 2, 3, 4, 5, 6];
    assert_eq!(ring_store_call(1020, &data, 0, 1024), (1020, 1, 2, 3));
    assert_eq!(ring_store_call(1020, &data, 1, 1024), (1023, 4, 5, 6));
    assert_eq!(ring_store_call(1023, &data, 1, 1024), (2, 4, 5, 6));
}

#[test]
fn vectors_are_handed_over_around_the_ring() {
    let bytes = module(&[MEMORY, STATE, REQUIRED, ACCESSORS]);
    let mut b = WasmBackend::new(&bytes, false).unwrap();
    b.write_vectors(1022, &[1, 2, 3, 4, 5, 6]).unwrap();
    b.set_write_head(4).unwrap();
    // The module's read head stands at 0: it consumes the three bytes before 4.
    assert_eq!(b.process_tensor_stream().unwrap(), 3);
    assert_eq!(b.read_bytes(0, 4).unwrap(), vec![252, 251, 250, 0]);
    assert!(matches!(b.write_vectors(1024, &[1, 2, 3]), Err(BackendError::WriteOutOfRegion)));
    assert!(matches!(b.write_vectors(0, &[0; 1025]), Err(BackendError::WriteOutOfRegion)));
    assert!(matches!(b.write_vectors(0, &[1, 2]), Err(BackendError::PartialVector)));
    assert!(b.write_vectors(5, &[]).is_ok());
}
