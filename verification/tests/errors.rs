use moonlight_bridge::bridge::BridgeError;
use moonlight_bridge::error::{BackendError, ConnectError, OptionalExport, Region, RequiredExport};

#[test]
fn connect_error_messages() {
    assert_eq!(
        ConnectError::ModuleRejected("bad magic".to_string()).message(),
        "Failed to load Wasm module: bad magic"
    );
    assert_eq!(ConnectError::MemoryMissing.message(), "Kernel must export 'memory'");
    assert_eq!(
        ConnectError::ExportMissing(RequiredExport::SetWriteHead).message(),
        "Missing export: set_write_head"
    );
    assert_eq!(
        ConnectError::ExportMissing(RequiredExport::ProcessTensorStream).message(),
        "Missing export: process_tensor_stream"
    );
    assert_eq!(
        ConnectError::ExportMissing(RequiredExport::SetInput3Bytes).message(),
        "Missing export: set_input_3_bytes"
    );
    assert_eq!(
        ConnectError::ExportMissing(RequiredExport::GetOutputByte).message(),
        "Missing export: get_output_byte"
    );
    assert_eq!(
        ConnectError::StrictCapabilityMissing(OptionalExport::VectorAddBatch).message(),
        "STRICT MODE: 'vector_add_batch' missing!"
    );
    assert_eq!(
        ConnectError::StrictCapabilityMissing(OptionalExport::VectorDotBatch).message(),
        "STRICT MODE: 'vector_dot_batch' missing!"
    );
    assert_eq!(
        ConnectError::StrictCapabilityMissing(OptionalExport::CheckIntegrity).message(),
        "STRICT MODE: 'check_integrity' missing!"
    );
    assert_eq!(
        ConnectError::QueryFailed("trap".to_string()).message(),
        "Capability query failed: trap"
    );
    assert_eq!(
        ConnectError::InvalidLayout.message(),
        "Kernel reported an invalid buffer layout"
    );
    assert_eq!(
        ConnectError::RegionOutOfBounds(Region::Input).message(),
        "Input region exceeds kernel memory"
    );
    assert_eq!(
        ConnectError::RegionOutOfBounds(Region::Output).message(),
        "Output region exceeds kernel memory"
    );
}

#[test]
fn backend_error_messages() {
    assert_eq!(BackendError::WriteOutOfRegion.message(), "Write Overflow");
    assert_eq!(BackendError::ReadOutOfRegion.message(), "Read Overflow");
    assert_eq!(
        BackendError::CanaryCorrupted.message(),
        "KERNEL PANIC: Canary corrupted! Memory violation detected."
    );
    assert_eq!(
        BackendError::EngineTrapped("unreachable".to_string()).message(),
        "Kernel call failed: unreachable"
    );
    assert_eq!(BackendError::MemoryFault.message(), "out of bounds memory access");
    assert_eq!(BackendError::PartialVector.message(), "Write is shorter than one vector");
    assert_eq!(BackendError::MalformedReply.message(), "Kernel gave a malformed reply");
    assert_eq!(
        BackendError::ExportVanished.message(),
        "Kernel export is no longer available"
    );
}

#[test]
fn bridge_error_messages() {
    assert_eq!(
        BridgeError::StartupIntegrity.message(),
        "KERNEL PANIC: Integrity Check Failed on Startup!"
    );
    assert_eq!(
        BridgeError::FinalIntegrity.message(),
        "KERNEL PANIC: Integrity Check Failed after Kinetic Loop!"
    );
    assert_eq!(
        BridgeError::Backend(BackendError::ReadOutOfRegion).message(),
        "Read Overflow"
    );
}
