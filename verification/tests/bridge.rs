use moonlight_bridge::bridge::{
    due_batches, integrity_verdict, noise_at, sample_count, BridgeError, Cycle, DueBatches,
    MoonlightBridge, RunSummary,
};
use moonlight_bridge::error::{BackendError, ConnectError};

const IDLE_ENGINE: &str = r#"(module
  (memory (export "memory") 1)
  (func (export "get_buffer_size") (result i32) (i32.const 4096))
  (func (export "get_input_buffer_offset") (result i32) (i32.const 0))
  (func (export "get_output_buffer_offset") (result i32) (i32.const 8192))
  (func (export "set_write_head") (param i32))
  (func (export "process_tensor_stream") (result i32) (i32.const 0))
)"#;

const LYING_ENGINE: &str = r#"(module
  (memory (export "memory") 1)
  (func (export "get_buffer_size") (result i32) (i32.const 4096))
  (func (export "get_input_buffer_offset") (result i32) (i32.const 0))
  (func (export "get_output_buffer_offset") (result i32) (i32.const 8192))
  (func (export "set_write_head") (param i32))
  (func (export "process_tensor_stream") (result i32) (i32.const 3000))
)"#;

const FAILING_ENGINE: &str = r#"(module
  (memory (export "memory") 1)
  (global $checks (mut i32) (i32.const 0))
  (func (export "get_buffer_size") (result i32) (i32.const 4096))
  (func (export "get_input_buffer_offset") (result i32) (i32.const 0))
  (func (export "get_output_buffer_offset") (result i32) (i32.const 8192))
  (func (export "set_write_head") (param i32))
  (func (export "process_tensor_stream") (result i32) (i32.const 0))
  (func (export "check_integrity") (result i32)
    (global.set $checks (i32.add (global.get $checks) (i32.const 1)))
    (i32.lt_s (global.get $checks) (i32.const 2)))
)"#;

const SICK_ENGINE: &str = r#"(module
  (memory (export "memory") 1)
  (func (export "set_write_head") (param i32))
  (func (export "process_tensor_stream") (result i32) (i32.const 0))
  (func (export "set_input_3_bytes") (param i32 i32 i32 i32))
  (func (export "get_output_byte") (param i32) (result i32) (i32.const 0))
  (func (export "check_integrity") (result i32) (i32.const 0))
)"#;

#[test]
fn noise_pattern() {
    assert_eq!(noise_at(0), 0xAA);
    assert_eq!(noise_at(1), 0xAB);
    assert_eq!(noise_at(254), (254u8) ^ 0xAA);
    assert_eq!(noise_at(255), 0xAA);
    assert_eq!(noise_at(4095), ((4095 % 255) as u8) ^ 0xAA);
}

#[test]
fn integrity_answer_zero_is_fatal() {
    assert!(matches!(integrity_verdict(Ok(1), true), Ok(())));
    assert!(matches!(integrity_verdict(Ok(-1), false), Ok(())));
    assert!(matches!(integrity_verdict(Ok(0), true), Err(BridgeError::StartupIntegrity)));
    assert!(matches!(integrity_verdict(Ok(0), false), Err(BridgeError::FinalIntegrity)));
    assert!(matches!(
        integrity_verdict(Err(BackendError::MemoryFault), true),
        Err(BridgeError::Backend(BackendError::MemoryFault))
    ));
}

#[test]
fn batches_due_every_tenth_and_twentieth_cycle() {
    assert_eq!(due_batches(0, 7), DueBatches { add: Some(7), dot: Some(7) });
    assert_eq!(due_batches(10, 1024), DueBatches { add: Some(1024), dot: None });
    assert_eq!(due_batches(20, 3), DueBatches { add: Some(3), dot: Some(3) });
    assert_eq!(due_batches(5, 3), DueBatches { add: None, dot: None });
    assert_eq!(due_batches(0, 0), DueBatches { add: None, dot: None });
}

#[test]
fn at_most_ten_samples() {
    assert_eq!(sample_count(0), 0);
    assert_eq!(sample_count(7), 7);
    assert_eq!(sample_count(10), 10);
    assert_eq!(sample_count(1024), 10);
}

#[test]
fn without_module_the_native_engine_runs() {
    let bridge = MoonlightBridge::ignite(None, true).unwrap();
    assert!(bridge.is_native());
    assert_eq!(bridge.get_cap(), 65536);
}

#[test]
fn with_module_the_sandboxed_engine_runs() {
    let bridge = MoonlightBridge::ignite(Some(IDLE_ENGINE.as_bytes()), false).unwrap();
    assert!(!bridge.is_native());
    assert_eq!(bridge.get_cap(), 4096);
    assert!(matches!(
        MoonlightBridge::ignite(Some(IDLE_ENGINE.as_bytes()), true),
        Err(ConnectError::StrictCapabilityMissing(_))
    ));
}

#[test]
fn write_batch_advances_the_cursor() {
    let mut bridge = MoonlightBridge::ignite(None, false).unwrap();
    assert_eq!(bridge.write_batch(0, 1024).unwrap(), 3072);
    assert_eq!(bridge.write_batch(65536 - 30, 10).unwrap(), 0);
    assert_eq!(bridge.write_batch(65536 - 20, 10).unwrap(), 10);
    assert_eq!(bridge.write_batch(5, 0).unwrap(), 5);
    // A batch larger than the pattern buffer makes the buffer grow.
    assert_eq!(bridge.write_batch(0, 3000).unwrap(), 9000);
}

#[test]
fn write_batch_that_laps_the_region_fails() {
    let mut bridge = MoonlightBridge::ignite(None, false).unwrap();
    // One lap and two bytes: the second part still fits the region.
    assert_eq!(bridge.write_batch(0, 21846).unwrap(), 2);
    // Exactly two laps from the start fit; one byte more does not.
    assert!(bridge.write_batch(1, 43690).is_ok());
    assert!(matches!(bridge.write_batch(0, 43691), Err(BackendError::WriteOutOfRegion)));
    assert!(matches!(bridge.write_batch(65000, 44000), Err(BackendError::WriteOutOfRegion)));
}

#[test]
fn native_run_completes_and_verifies() {
    let mut bridge = MoonlightBridge::ignite(None, false).unwrap();
    let summary = bridge.run_kinetic_loop(5, 1024, true).unwrap();
    assert_eq!(
        summary,
        RunSummary {
            iterations: 5,
            injected_bytes: 5 * 3072,
            processed_bytes: 5 * 3072,
            sampled: 10,
            mismatched: 0,
            add_batches: 1,
            dot_batches: 1,
        }
    );
}

#[test]
fn native_run_wraps_many_times() {
    let mut bridge = MoonlightBridge::ignite(None, false).unwrap();
    let summary = bridge.run_kinetic_loop(100, 1000, false).unwrap();
    assert_eq!(summary.iterations, 100);
    assert_eq!(summary.injected_bytes, 300_000);
    assert_eq!(summary.processed_bytes, 300_000);
    assert_eq!(summary.sampled, 0);
    assert_eq!(summary.add_batches, 10);
    assert_eq!(summary.dot_batches, 5);
}

#[test]
fn run_without_iterations_or_vectors() {
    let mut bridge = MoonlightBridge::ignite(None, false).unwrap();
    let summary = bridge.run_kinetic_loop(0, 1024, true).unwrap();
    assert_eq!(summary.iterations, 0);
    assert_eq!(summary.injected_bytes, 0);
    let summary = bridge.run_kinetic_loop(3, 0, true).unwrap();
    assert_eq!(summary.processed_bytes, 0);
    assert_eq!(summary.sampled, 0);
    assert_eq!(summary.add_batches, 0);
}

#[test]
fn mismatch_is_counted_and_does_not_stop_the_run() {
    let mut bridge = MoonlightBridge::ignite(Some(IDLE_ENGINE.as_bytes()), false).unwrap();
    let summary = bridge.run_kinetic_loop(3, 100, true).unwrap();
    assert_eq!(summary.iterations, 3);
    assert_eq!(summary.injected_bytes, 900);
    assert_eq!(summary.processed_bytes, 0);
    assert_eq!(summary.sampled, 0);
}

#[test]
fn count_beyond_what_was_injected_is_accepted() {
    let mut bridge = MoonlightBridge::ignite(Some(LYING_ENGINE.as_bytes()), false).unwrap();
    let summary = bridge.run_kinetic_loop(3, 100, false).unwrap();
    assert_eq!(summary.injected_bytes, 900);
    assert_eq!(summary.processed_bytes, 9000);
}

#[test]
fn second_run_on_one_bridge_completes() {
    let mut bridge = MoonlightBridge::ignite(None, false).unwrap();
    let first = bridge.run_kinetic_loop(2, 1024, true).unwrap();
    assert_eq!(first.processed_bytes, 6144);
    // The cursors start at 0 again while the engine's heads stand at 6144: the
    // engine finds 62464 bytes between its read head and the new write head.
    let second = bridge.run_kinetic_loop(2, 1024, true).unwrap();
    assert_eq!(second.iterations, 2);
    assert_eq!(second.injected_bytes, 6144);
    assert_eq!(second.processed_bytes, 62463 + 3072);
}

#[test]
fn batch_of_a_whole_lap_completes() {
    let mut bridge = MoonlightBridge::ignite(None, false).unwrap();
    let summary = bridge.run_kinetic_loop(3, 21845, true).unwrap();
    assert_eq!(summary.injected_bytes, 3 * 65535);
    assert_eq!(summary.sampled, 10);
    assert_eq!(summary.mismatched, 0);
}

#[test]
fn run_fails_where_a_batch_does_not_fit() {
    let mut bridge = MoonlightBridge::ignite(None, false).unwrap();
    // 30000 vectors are 90000 bytes: cycle 0 fits (90000 <= 131072), cycle 1
    // starts at 24464 and fits, cycle 2 starts at 48928 and does not.
    assert!(bridge.run_kinetic_loop(2, 30000, false).is_ok());
    let mut bridge = MoonlightBridge::ignite(None, false).unwrap();
    let e = bridge.run_kinetic_loop(3, 30000, false).unwrap_err();
    assert!(matches!(e, BridgeError::Backend(BackendError::WriteOutOfRegion)));
}

#[test]
fn write_across_the_end_lands_on_both_sides() {
    let mut bridge = MoonlightBridge::ignite(None, false).unwrap();
    assert_eq!(bridge.write_batch(65535, 1).unwrap(), 2);
    assert_eq!(bridge.read_bytes(65535, 1).unwrap(), vec![170]);
    assert_eq!(bridge.read_bytes(0, 2).unwrap(), vec![171, 168]);
    assert_eq!(bridge.read_bytes(2, 1).unwrap(), vec![0]);
    assert_eq!(bridge.read_bytes(65534, 1).unwrap(), vec![0]);
}

#[test]
fn refused_second_part_leaves_the_first_written() {
    let mut bridge = MoonlightBridge::ignite(None, false).unwrap();
    // From 65530 the first part is 6 bytes; the second would be 65538.
    let count = (6 + 65538) / 3;
    assert!(matches!(bridge.write_batch(65530, count), Err(BackendError::WriteOutOfRegion)));
    assert_eq!(bridge.read_bytes(65530, 6).unwrap(), vec![170, 171, 168, 169, 174, 175]);
    assert_eq!(bridge.read_bytes(0, 4).unwrap(), vec![0, 0, 0, 0]);
}

#[test]
fn new_bridge_has_a_new_engine() {
    let mut bridge = MoonlightBridge::ignite(None, false).unwrap();
    assert_eq!(bridge.read_bytes(0, 8).unwrap(), vec![0; 8]);
    assert_eq!(bridge.read_bytes(65536, 8).unwrap(), vec![0; 8]);
    let summary = bridge.run_kinetic_loop(1, 2, true).unwrap();
    assert_eq!(summary.processed_bytes, 6);
    assert_eq!(summary.mismatched, 0);
}

#[test]
fn batched_addition_gets_every_vector_of_the_cycle() {
    let mut bridge = MoonlightBridge::ignite(None, false).unwrap();
    bridge.run_kinetic_loop(1, 2, false).unwrap();
    // Cycle 0 consumed two vectors, and the addition ran on two vectors at the
    // engine's new read head, 6: there the output was 0 and so was the input.
    let normalized = bridge.read_bytes(65536, 6).unwrap();
    let (a, b, c) = moonlight_bridge::normalize::normalize_vector(170, 171, 168);
    assert_eq!(&normalized[0..3], &[a, b, c]);
    assert_eq!(bridge.read_bytes(65536 + 6, 6).unwrap(), vec![0; 6]);
    // A second run starts with the write cursor at 0 again: the engine laps
    // the ring, and the addition adds the input at its read head to the output.
    bridge.run_kinetic_loop(1, 2, false).unwrap();
    let input = bridge.read_bytes(6, 3).unwrap();
    assert_eq!(input, vec![0, 0, 0]);
}

#[test]
fn corruption_at_startup_is_fatal() {
    let mut bridge = MoonlightBridge::ignite(Some(SICK_ENGINE.as_bytes()), false).unwrap();
    let e = bridge.run_kinetic_loop(3, 100, false).unwrap_err();
    assert!(matches!(e, BridgeError::StartupIntegrity));
    assert_eq!(e.message(), "KERNEL PANIC: Integrity Check Failed on Startup!");
}

#[test]
fn corruption_during_the_run_is_fatal() {
    let mut bridge = MoonlightBridge::ignite(Some(FAILING_ENGINE.as_bytes()), false).unwrap();
    let e = bridge.run_kinetic_loop(3, 100, false).unwrap_err();
    assert!(matches!(e, BridgeError::FinalIntegrity));
    assert_eq!(e.message(), "KERNEL PANIC: Integrity Check Failed after Kinetic Loop!");
}

#[test]
fn one_cycle_on_the_native_engine() {
    let mut bridge = MoonlightBridge::ignite(None, false).unwrap();
    let cycle = bridge.run_cycle(0, 0, 0, 4, true).unwrap();
    assert_eq!(
        cycle,
        Cycle {
            write_pos: 12,
            read_pos: 12,
            processed: 12,
            sampled: 4,
            mismatched: 0,
            added: true,
            dotted: true,
        }
    );
    let cycle = bridge.run_cycle(10, 12, 12, 4, true).unwrap();
    assert_eq!(
        cycle,
        Cycle {
            write_pos: 24,
            read_pos: 24,
            processed: 12,
            sampled: 0,
            mismatched: 0,
            added: true,
            dotted: false,
        }
    );
    let cycle = bridge.run_cycle(7, 24, 24, 4, false).unwrap();
    assert!(!cycle.added && !cycle.dotted);
    assert!(!bridge.has_overlap_hazard());
}

#[test]
fn sandboxed_module_output_is_sampled_and_found_different() {
    let copying = r#"(module
      (memory (export "memory") 1)
      (global $read (mut i32) (i32.const 0))
      (global $write (mut i32) (i32.const 0))
      (func (export "get_buffer_size") (result i32) (i32.const 4096))
      (func (export "get_input_buffer_offset") (result i32) (i32.const 0))
      (func (export "get_output_buffer_offset") (result i32) (i32.const 8192))
      (func (export "set_write_head") (param i32) (global.set $write (local.get 0)))
      (func (export "process_tensor_stream") (result i32)
        (local $n i32)
        (local.set $n (i32.and (i32.sub (global.get $write) (global.get $read)) (i32.const 4095)))
        (local.set $n (i32.sub (local.get $n) (i32.rem_u (local.get $n) (i32.const 3))))
        (global.set $read (i32.and (i32.add (global.get $read) (local.get $n)) (i32.const 4095)))
        (local.get $n))
    )"#;
    let mut bridge = MoonlightBridge::ignite(Some(copying.as_bytes()), false).unwrap();
    let summary = bridge.run_kinetic_loop(4, 100, true).unwrap();
    assert_eq!(summary.injected_bytes, 1200);
    assert_eq!(summary.processed_bytes, 1200);
    assert_eq!(summary.sampled, 10);
    assert_eq!(summary.mismatched, 10);
    assert_eq!(summary.add_batches, 1);
    assert_eq!(summary.dot_batches, 1);
}

#[test]
fn legacy_engine_runs_across_the_end_of_its_region() {
    let legacy = r#"(module
      (memory (export "memory") 1)
      (global $read (mut i32) (i32.const 0))
      (global $write (mut i32) (i32.const 0))
      (func (export "set_write_head") (param i32)
        (global.set $write (i32.and (local.get 0) (i32.const 1023))))
      (func (export "process_tensor_stream") (result i32)
        (local $n i32)
        (local.set $n (i32.and (i32.sub (global.get $write) (global.get $read)) (i32.const 1023)))
        (local.set $n (i32.sub (local.get $n) (i32.rem_u (local.get $n) (i32.const 3))))
        (global.set $read (i32.and (i32.add (global.get $read) (local.get $n)) (i32.const 1023)))
        (local.get $n))
      (func (export "set_input_3_bytes") (param $i i32) (param $x i32) (param $y i32) (param $z i32)
        (i32.store8 (i32.and (local.get $i) (i32.const 1023)) (local.get $x))
        (i32.store8 (i32.and (i32.add (local.get $i) (i32.const 1)) (i32.const 1023)) (local.get $y))
        (i32.store8 (i32.and (i32.add (local.get $i) (i32.const 2)) (i32.const 1023)) (local.get $z)))
      (func (export "get_output_byte") (param $i i32) (result i32)
        (i32.load8_u (i32.add (i32.const 2048) (i32.and (local.get $i) (i32.const 1023)))))
    )"#;
    let mut bridge = MoonlightBridge::ignite(Some(legacy.as_bytes()), false).unwrap();
    assert_eq!(bridge.get_cap(), 1024);
    let summary = bridge.run_kinetic_loop(12, 100, true).unwrap();
    assert_eq!(summary.iterations, 12);
    assert_eq!(summary.injected_bytes, 3600);
    assert_eq!(summary.processed_bytes, 3600);
    assert_eq!(summary.sampled, 10);
    // One vector per batch: the cursor reaches 1023, and the vector written
    // there lies across the end of the region.
    let mut bridge = MoonlightBridge::ignite(Some(legacy.as_bytes()), false).unwrap();
    let summary = bridge.run_kinetic_loop(400, 1, false).unwrap();
    assert_eq!(summary.injected_bytes, 1200);
    assert_eq!(summary.processed_bytes, 1200);
}
