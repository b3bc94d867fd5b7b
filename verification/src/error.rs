//! What can go wrong while a backend is connected and while it runs.

use vstd::prelude::*;

verus! {

/// An export that every sandboxed engine must offer.
#[derive(Clone, Copy, Debug, PartialEq, Eq, Structural)]
pub enum RequiredExport {
    SetWriteHead,
    ProcessTensorStream,
    /// Required only where the regions cannot be reached directly.
    SetInput3Bytes,
    /// Required only where the regions cannot be reached directly.
    GetOutputByte,
}

/// An export that an engine may offer and that strict mode insists on.
#[derive(Clone, Copy, Debug, PartialEq, Eq, Structural)]
pub enum OptionalExport {
    VectorAddBatch,
    VectorDotBatch,
    CheckIntegrity,
}

/// One of the two byte regions of an engine.
#[derive(Clone, Copy, Debug, PartialEq, Eq, Structural)]
pub enum Region {
    Input,
    Output,
}

/// Why a sandboxed engine could not be connected.
#[derive(Debug)]
pub enum ConnectError {
    /// The module could not be compiled or instantiated; the text is the
    /// engine's own account.
    ModuleRejected(String),
    /// The module exports no linear memory named `memory`.
    MemoryMissing,
    /// A mandatory function is not exported with the expected signature.
    ExportMissing(RequiredExport),
    /// Strict mode was asked for and an optional function is absent.
    StrictCapabilityMissing(OptionalExport),
    /// A capability query trapped.
    QueryFailed(String),
    /// The module reported a capacity that is not positive, or a negative
    /// offset.
    InvalidLayout,
    /// A region, as reported, reaches beyond the module's memory.
    RegionOutOfBounds(Region),
}

/// Why an operation on a connected backend failed.
#[derive(Debug)]
pub enum BackendError {
    /// A raw write does not lie within one of the two regions.
    WriteOutOfRegion,
    /// A raw read does not lie within one of the two regions.
    ReadOutOfRegion,
    /// The engine's sentinel bytes were found changed.
    CanaryCorrupted,
    /// A call into the sandboxed engine trapped; the text is the engine's own
    /// account.
    EngineTrapped(String),
    /// The sandbox refused a memory access as out of bounds.
    MemoryFault,
    /// A write through the per-vector accessor is shorter than one vector.
    PartialVector,
    /// The engine answered an accessor with something that is no byte, or
    /// reported progress that the stream cannot have made.
    MalformedReply,
    /// A function that was found when the engine was connected is no longer
    /// exported.
    ExportVanished,
}

impl ConnectError {
    /// The text that describes the error.
    pub open spec fn description(&self) -> Seq<char> {
        match self {
            ConnectError::ModuleRejected(cause) => "Failed to load Wasm module: "@ + cause@,
            ConnectError::MemoryMissing => "Kernel must export 'memory'"@,
            ConnectError::ExportMissing(RequiredExport::SetWriteHead) => {
                "Missing export: set_write_head"@
            },
            ConnectError::ExportMissing(RequiredExport::ProcessTensorStream) => {
                "Missing export: process_tensor_stream"@
            },
            ConnectError::ExportMissing(RequiredExport::SetInput3Bytes) => {
                "Missing export: set_input_3_bytes"@
            },
            ConnectError::ExportMissing(RequiredExport::GetOutputByte) => {
                "Missing export: get_output_byte"@
            },
            ConnectError::StrictCapabilityMissing(OptionalExport::VectorAddBatch) => {
                "STRICT MODE: 'vector_add_batch' missing!"@
            },
            ConnectError::StrictCapabilityMissing(OptionalExport::VectorDotBatch) => {
                "STRICT MODE: 'vector_dot_batch' missing!"@
            },
            ConnectError::StrictCapabilityMissing(OptionalExport::CheckIntegrity) => {
                "STRICT MODE: 'check_integrity' missing!"@
            },
            ConnectError::QueryFailed(cause) => "Capability query failed: "@ + cause@,
            ConnectError::InvalidLayout => "Kernel reported an invalid buffer layout"@,
            ConnectError::RegionOutOfBounds(Region::Input) => {
                "Input region exceeds kernel memory"@
            },
            ConnectError::RegionOutOfBounds(Region::Output) => {
                "Output region exceeds kernel memory"@
            },
        }
    }

    /// A description for the person who runs the host.
    pub fn message(&self) -> (text: String)
        ensures
            text@ == self.description(),
    {
        match self {
            ConnectError::ModuleRejected(cause) => "Failed to load Wasm module: ".to_owned().concat(
                cause.as_str(),
            ),
            ConnectError::MemoryMissing => "Kernel must export 'memory'".to_owned(),
            ConnectError::ExportMissing(RequiredExport::SetWriteHead) => {
                "Missing export: set_write_head".to_owned()
            },
            ConnectError::ExportMissing(RequiredExport::ProcessTensorStream) => {
                "Missing export: process_tensor_stream".to_owned()
            },
            ConnectError::ExportMissing(RequiredExport::SetInput3Bytes) => {
                "Missing export: set_input_3_bytes".to_owned()
            },
            ConnectError::ExportMissing(RequiredExport::GetOutputByte) => {
                "Missing export: get_output_byte".to_owned()
            },
            ConnectError::StrictCapabilityMissing(OptionalExport::VectorAddBatch) => {
                "STRICT MODE: 'vector_add_batch' missing!".to_owned()
            },
            ConnectError::StrictCapabilityMissing(OptionalExport::VectorDotBatch) => {
                "STRICT MODE: 'vector_dot_batch' missing!".to_owned()
            },
            ConnectError::StrictCapabilityMissing(OptionalExport::CheckIntegrity) => {
                "STRICT MODE: 'check_integrity' missing!".to_owned()
            },
            ConnectError::QueryFailed(cause) => "Capability query failed: ".to_owned().concat(
                cause.as_str(),
            ),
            ConnectError::InvalidLayout => "Kernel reported an invalid buffer layout".to_owned(),
            ConnectError::RegionOutOfBounds(Region::Input) => {
                "Input region exceeds kernel memory".to_owned()
            },
            ConnectError::RegionOutOfBounds(Region::Output) => {
                "Output region exceeds kernel memory".to_owned()
            },
        }
    }
}

impl BackendError {
    /// The text that describes the error.
    pub open spec fn description(&self) -> Seq<char> {
        match self {
            BackendError::WriteOutOfRegion => "Write Overflow"@,
            BackendError::ReadOutOfRegion => "Read Overflow"@,
            BackendError::CanaryCorrupted => {
                "KERNEL PANIC: Canary corrupted! Memory violation detected."@
            },
            BackendError::EngineTrapped(cause) => "Kernel call failed: "@ + cause@,
            BackendError::MemoryFault => "out of bounds memory access"@,
            BackendError::PartialVector => "Write is shorter than one vector"@,
            BackendError::MalformedReply => "Kernel gave a malformed reply"@,
            BackendError::ExportVanished => "Kernel export is no longer available"@,
        }
    }

    /// A description for the person who runs the host.
    pub fn message(&self) -> (text: String)
        ensures
            text@ == self.description(),
    {
        match self {
            BackendError::WriteOutOfRegion => "Write Overflow".to_owned(),
            BackendError::ReadOutOfRegion => "Read Overflow".to_owned(),
            BackendError::CanaryCorrupted => {
                "KERNEL PANIC: Canary corrupted! Memory violation detected.".to_owned()
            },
            BackendError::EngineTrapped(cause) => "Kernel call failed: ".to_owned().concat(
                cause.as_str(),
            ),
            BackendError::MemoryFault => "out of bounds memory access".to_owned(),
            BackendError::PartialVector => "Write is shorter than one vector".to_owned(),
            BackendError::MalformedReply => "Kernel gave a malformed reply".to_owned(),
            BackendError::ExportVanished => "Kernel export is no longer available".to_owned(),
        }
    }
}

} // verus!
