//! The adapter for an isolated engine module: it finds out what the module
//! offers, settles how its regions are reached, checks that the regions lie
//! within the module's memory, and then serves the backend contract.

use vstd::prelude::*;
use crate::error::{BackendError, ConnectError, OptionalExport, Region, RequiredExport};
use crate::native_backend::{overwritten, within};
use crate::sandbox::{
    call_command,
    call_map,
    call_query,
    call_store,
    exported_memory,
    exports_command,
    exports_function,
    exports_map,
    exports_query,
    exports_store,
    instantiate,
    memory_read,
    memory_size,
    memory_write,
    store_owns,
    CallFault,
    MemoryFault,
};
use wasmtime::{Instance, Store};

verus! {

/// Capacity assumed for a module that does not report one.
pub const LEGACY_CAPACITY: usize = 1024;

/// What a module was found to export, and what its layout queries answered.
#[derive(Clone, Copy, Debug, PartialEq, Eq, Structural)]
pub struct ExportSurvey {
    /// Size of the exported memory, where there is one.
    pub memory_size: Option<usize>,
    /// Answer of `get_buffer_size`, where it is exported.
    pub buffer_size: Option<i32>,
    /// Answer of `get_input_buffer_offset`, where both offset queries are
    /// exported.
    pub input_offset: Option<i32>,
    /// Answer of `get_output_buffer_offset`, where both offset queries are
    /// exported.
    pub output_offset: Option<i32>,
    pub set_write_head: bool,
    pub process_tensor_stream: bool,
    pub set_input_3_bytes: bool,
    pub get_output_byte: bool,
    pub vector_add_batch: bool,
    pub vector_dot_batch: bool,
    pub check_integrity: bool,
}

/// Which optional operations an engine offers. It is settled when the engine
/// is connected and does not change afterwards.
#[derive(Clone, Copy, Debug, PartialEq, Eq, Structural)]
pub struct CapabilitySet {
    pub batch_add: bool,
    pub batch_dot: bool,
    pub integrity_check: bool,
    pub dynamic_capacity: bool,
    pub zero_copy: bool,
}

/// Where the regions of an engine lie and what the engine offers.
#[derive(Clone, Copy, Debug, PartialEq, Eq, Structural)]
pub struct Layout {
    pub cap: usize,
    pub input_offset: usize,
    pub output_offset: usize,
    pub capabilities: CapabilitySet,
}

/// Both offset queries were answered, so the regions can be reached directly.
pub open spec fn offers_zero_copy(survey: ExportSurvey) -> bool {
    survey.input_offset.is_some() && survey.output_offset.is_some()
}

/// The capacity that a survey yields: the one reported, else the legacy
/// default.
pub open spec fn surveyed_capacity(survey: ExportSurvey) -> int {
    match survey.buffer_size {
        Some(size) => size as int,
        None => LEGACY_CAPACITY as int,
    }
}

/// The input offset that a survey yields: the one reported in zero-copy mode,
/// else 0.
pub open spec fn surveyed_input_offset(survey: ExportSurvey) -> int {
    if offers_zero_copy(survey) {
        survey.input_offset.unwrap() as int
    } else {
        0
    }
}

/// The output offset that a survey yields: the one reported in zero-copy mode,
/// else 0.
pub open spec fn surveyed_output_offset(survey: ExportSurvey) -> int {
    if offers_zero_copy(survey) {
        survey.output_offset.unwrap() as int
    } else {
        0
    }
}

/// The first reason, in the order in which a connection is set up, for which a
/// module with this survey cannot be connected; `None` where it can.
pub open spec fn connect_fault(survey: ExportSurvey, strict_mode: bool) -> Option<ConnectError> {
    if survey.memory_size.is_none() {
        Some(ConnectError::MemoryMissing)
    } else if surveyed_capacity(survey) <= 0 || surveyed_input_offset(survey) < 0
        || surveyed_output_offset(survey) < 0 {
        Some(ConnectError::InvalidLayout)
    } else if !offers_zero_copy(survey) && !survey.set_input_3_bytes {
        Some(ConnectError::ExportMissing(RequiredExport::SetInput3Bytes))
    } else if !offers_zero_copy(survey) && !survey.get_output_byte {
        Some(ConnectError::ExportMissing(RequiredExport::GetOutputByte))
    } else if !survey.set_write_head {
        Some(ConnectError::ExportMissing(RequiredExport::SetWriteHead))
    } else if !survey.process_tensor_stream {
        Some(ConnectError::ExportMissing(RequiredExport::ProcessTensorStream))
    } else if strict_mode && !survey.vector_add_batch {
        Some(ConnectError::StrictCapabilityMissing(OptionalExport::VectorAddBatch))
    } else if strict_mode && !survey.vector_dot_batch {
        Some(ConnectError::StrictCapabilityMissing(OptionalExport::VectorDotBatch))
    } else if strict_mode && !survey.check_integrity {
        Some(ConnectError::StrictCapabilityMissing(OptionalExport::CheckIntegrity))
    } else if surveyed_input_offset(survey) + surveyed_capacity(survey)
        > survey.memory_size.unwrap() {
        Some(ConnectError::RegionOutOfBounds(Region::Input))
    } else if surveyed_output_offset(survey) + surveyed_capacity(survey)
        > survey.memory_size.unwrap() {
        Some(ConnectError::RegionOutOfBounds(Region::Output))
    } else {
        None
    }
}

/// The layout that a connectable survey yields.
pub open spec fn surveyed_layout(survey: ExportSurvey) -> Layout {
    Layout {
        cap: surveyed_capacity(survey) as usize,
        input_offset: surveyed_input_offset(survey) as usize,
        output_offset: surveyed_output_offset(survey) as usize,
        capabilities: CapabilitySet {
            batch_add: survey.vector_add_batch,
            batch_dot: survey.vector_dot_batch,
            integrity_check: survey.check_integrity,
            dynamic_capacity: survey.buffer_size.is_some(),
            zero_copy: offers_zero_copy(survey),
        },
    }
}

/// A layout whose capacity is positive and whose regions end within the
/// 32-bit range of the engine's arguments.
pub open spec fn layout_ok(layout: Layout) -> bool {
    &&& 0 < layout.cap <= i32::MAX
    &&& layout.input_offset <= i32::MAX
    &&& layout.output_offset <= i32::MAX
    &&& !layout.capabilities.zero_copy ==> layout.input_offset == 0 && layout.output_offset == 0
}

/// The regions overlap without being one and the same: a layout that is
/// valid only for a deliberate in-place design.
pub open spec fn overlap_hazard(layout: Layout) -> bool {
    &&& layout.input_offset != layout.output_offset
    &&& layout.input_offset < layout.output_offset + layout.cap
    &&& layout.output_offset < layout.input_offset + layout.cap
}

/// Settles mode, capacity and offsets from a survey, or names the first reason
/// for which the module cannot be connected.
pub fn negotiate(survey: &ExportSurvey, strict_mode: bool) -> (r: Result<Layout, ConnectError>)
    ensures
        match connect_fault(*survey, strict_mode) {
            Some(fault) => r == Err::<Layout, ConnectError>(fault),
            None => r == Ok::<Layout, ConnectError>(surveyed_layout(*survey)) && layout_ok(
                surveyed_layout(*survey),
            ),
        },
{
    let memory_size = match survey.memory_size {
        Some(size) => size,
        None => {
            return Err(ConnectError::MemoryMissing);
        },
    };
    let cap: i32 = match survey.buffer_size {
        Some(size) => size,
        None => 1024,
    };
    let zero_copy = survey.input_offset.is_some() && survey.output_offset.is_some();
    let (input_offset, output_offset): (i32, i32) = match (
        survey.input_offset,
        survey.output_offset,
    ) {
        (Some(input), Some(output)) => (input, output),
        _ => (0, 0),
    };
    if cap <= 0 || input_offset < 0 || output_offset < 0 {
        return Err(ConnectError::InvalidLayout);
    }
    if !zero_copy && !survey.set_input_3_bytes {
        return Err(ConnectError::ExportMissing(RequiredExport::SetInput3Bytes));
    }
    if !zero_copy && !survey.get_output_byte {
        return Err(ConnectError::ExportMissing(RequiredExport::GetOutputByte));
    }
    if !survey.set_write_head {
        return Err(ConnectError::ExportMissing(RequiredExport::SetWriteHead));
    }
    if !survey.process_tensor_stream {
        return Err(ConnectError::ExportMissing(RequiredExport::ProcessTensorStream));
    }
    if strict_mode {
        if !survey.vector_add_batch {
            return Err(ConnectError::StrictCapabilityMissing(OptionalExport::VectorAddBatch));
        }
        if !survey.vector_dot_batch {
            return Err(ConnectError::StrictCapabilityMissing(OptionalExport::VectorDotBatch));
        }
        if !survey.check_integrity {
            return Err(ConnectError::StrictCapabilityMissing(OptionalExport::CheckIntegrity));
        }
    }
    let cap = cap as usize;
    let input_offset = input_offset as usize;
    let output_offset = output_offset as usize;
    if memory_size < cap || input_offset > memory_size - cap {
        return Err(ConnectError::RegionOutOfBounds(Region::Input));
    }
    if output_offset > memory_size - cap {
        return Err(ConnectError::RegionOutOfBounds(Region::Output));
    }
    Ok(
        Layout {
            cap,
            input_offset,
            output_offset,
            capabilities: CapabilitySet {
                batch_add: survey.vector_add_batch,
                batch_dot: survey.vector_dot_batch,
                integrity_check: survey.check_integrity,
                dynamic_capacity: survey.buffer_size.is_some(),
                zero_copy,
            },
        },
    )
}

/// A module that offers the mandatory functions and the narrow accessors, but
/// not both offset queries, is connected in legacy mode: regions at offset 0,
/// reached through the accessors; the capacity is the one it reports, else
/// 1024.
pub proof fn lemma_required_only_selects_legacy(survey: ExportSurvey, strict_mode: bool)
    requires
        !offers_zero_copy(survey),
        connect_fault(survey, strict_mode).is_none(),
    ensures
        !surveyed_layout(survey).capabilities.zero_copy,
        surveyed_layout(survey).input_offset == 0,
        surveyed_layout(survey).output_offset == 0,
        survey.buffer_size.is_none() ==> surveyed_layout(survey).cap == LEGACY_CAPACITY,
        survey.set_input_3_bytes && survey.get_output_byte,
{
}

/// A module that answers both offset queries is connected in zero-copy mode,
/// with its regions at the offsets it reported.
pub proof fn lemma_offsets_select_zero_copy(survey: ExportSurvey, strict_mode: bool)
    requires
        offers_zero_copy(survey),
        connect_fault(survey, strict_mode).is_none(),
    ensures
        surveyed_layout(survey).capabilities.zero_copy,
        surveyed_layout(survey).input_offset == survey.input_offset.unwrap(),
        surveyed_layout(survey).output_offset == survey.output_offset.unwrap(),
{
}

/// In strict mode a module that lacks one of the optional operations is never
/// connected; without strict mode the lack of them never stands in the way.
pub proof fn lemma_strict_mode_insists(survey: ExportSurvey)
    ensures
        !(survey.vector_add_batch && survey.vector_dot_batch && survey.check_integrity)
            ==> connect_fault(survey, true).is_some(),
        connect_fault(survey, true).is_none() ==> connect_fault(survey, false).is_none(),
        connect_fault(survey, false).is_none() && survey.vector_add_batch
            && survey.vector_dot_batch && survey.check_integrity ==> connect_fault(
            survey,
            true,
        ).is_none(),
{
}

/// No module is connected whose regions, as reported, reach beyond its memory.
pub proof fn lemma_connected_regions_fit(survey: ExportSurvey, strict_mode: bool)
    requires
        connect_fault(survey, strict_mode).is_none(),
    ensures
        survey.memory_size.is_some(),
        surveyed_layout(survey).input_offset + surveyed_layout(survey).cap
            <= survey.memory_size.unwrap(),
        surveyed_layout(survey).output_offset + surveyed_layout(survey).cap
            <= survey.memory_size.unwrap(),
{
}


/// The error that a failed call into the engine becomes: a trap keeps the
/// engine's account of it, and a function that is no longer found is reported
/// as vanished.
pub open spec fn fault_error(fault: CallFault) -> BackendError {
    match fault {
        CallFault::Missing => BackendError::ExportVanished,
        CallFault::Trapped(cause) => BackendError::EngineTrapped(cause),
    }
}

/// An error that a call into the engine can end in.
pub open spec fn engine_fault(e: BackendError) -> bool {
    e is EngineTrapped || e is ExportVanished
}

/// What the outcome of a call that returns nothing becomes.
pub open spec fn command_reply_of(outcome: Result<(), CallFault>) -> Result<(), BackendError> {
    match outcome {
        Ok(()) => Ok(()),
        Err(fault) => Err(fault_error(fault)),
    }
}

/// What the outcome of a call that returns a number becomes, where the number
/// is wanted.
pub open spec fn value_reply_of(outcome: Result<i32, CallFault>) -> Result<i32, BackendError> {
    match outcome {
        Ok(value) => Ok(value),
        Err(fault) => Err(fault_error(fault)),
    }
}

/// What the outcome of a call that returns a number becomes, where the number
/// is not wanted.
pub open spec fn done_reply_of(outcome: Result<i32, CallFault>) -> Result<(), BackendError> {
    match outcome {
        Ok(_) => Ok(()),
        Err(fault) => Err(fault_error(fault)),
    }
}

/// The error that a failed call into the engine becomes.
pub fn call_error(fault: CallFault) -> (e: BackendError)
    ensures
        e == fault_error(fault),
        engine_fault(e),
{
    match fault {
        CallFault::Missing => BackendError::ExportVanished,
        CallFault::Trapped(cause) => BackendError::EngineTrapped(cause),
    }
}

/// Turns the outcome of a call that returns nothing into the backend's
/// answer.
pub fn command_reply(outcome: Result<(), CallFault>) -> (r: Result<(), BackendError>)
    ensures
        r == command_reply_of(outcome),
        r matches Err(e) ==> engine_fault(e),
{
    match outcome {
        Ok(()) => Ok(()),
        Err(fault) => Err(call_error(fault)),
    }
}

/// Turns the outcome of a call that returns a number into the backend's
/// answer: the number as the engine gave it.
pub fn value_reply(outcome: Result<i32, CallFault>) -> (r: Result<i32, BackendError>)
    ensures
        r == value_reply_of(outcome),
        r matches Err(e) ==> engine_fault(e),
{
    match outcome {
        Ok(value) => Ok(value),
        Err(fault) => Err(call_error(fault)),
    }
}

/// Turns the outcome of a call whose number is not wanted into the backend's
/// answer.
pub fn done_reply(outcome: Result<i32, CallFault>) -> (r: Result<(), BackendError>)
    ensures
        r == done_reply_of(outcome),
        r matches Err(e) ==> engine_fault(e),
{
    match outcome {
        Ok(_) => Ok(()),
        Err(fault) => Err(call_error(fault)),
    }
}

/// The byte that the engine's answer to `get_output_byte` stands for: the
/// answer itself where it is a byte, nothing otherwise.
pub fn byte_of_reply(reply: i32) -> (byte: Option<u8>)
    ensures
        byte == (if 0 <= reply <= 255 {
            Some(reply as u8)
        } else {
            None
        }),
{
    if 0 <= reply && reply <= 255 {
        Some(reply as u8)
    } else {
        None
    }
}

/// A count of consumed bytes that an engine may report: not negative, and a
/// whole number of vectors.
pub open spec fn whole_vectors(count: i32) -> bool {
    0 <= count && count % 3 == 0
}

/// What the outcome of a `process_tensor_stream` call becomes: the engine's
/// count where it is a whole number of vectors, an error where it is not, or
/// the engine's fault.
pub open spec fn count_reply_of(outcome: Result<i32, CallFault>) -> Result<i32, BackendError> {
    match outcome {
        Ok(count) => if whole_vectors(count) {
            Ok(count)
        } else {
            Err(BackendError::MalformedReply)
        },
        Err(fault) => Err(fault_error(fault)),
    }
}

/// Turns the outcome of a `process_tensor_stream` call into the backend's
/// answer.
pub fn count_reply(outcome: Result<i32, CallFault>) -> (r: Result<i32, BackendError>)
    ensures
        r == count_reply_of(outcome),
        r matches Ok(count) ==> whole_vectors(count),
        r matches Err(e) ==> accessor_fault(e),
{
    match outcome {
        Ok(count) => if count >= 0 && count % 3 == 0 {
            Ok(count)
        } else {
            Err(BackendError::MalformedReply)
        },
        Err(fault) => Err(call_error(fault)),
    }
}

/// What the outcome of a `get_output_byte` call becomes: the byte that the
/// engine answered, an error where its answer is no byte, or its fault.
pub open spec fn byte_reply_of(outcome: Result<i32, CallFault>) -> Result<u8, BackendError> {
    match outcome {
        Ok(reply) => if 0 <= reply <= 255 {
            Ok(reply as u8)
        } else {
            Err(BackendError::MalformedReply)
        },
        Err(fault) => Err(fault_error(fault)),
    }
}

/// An error that a read through the engine's accessor can end in.
pub open spec fn accessor_fault(e: BackendError) -> bool {
    engine_fault(e) || e is MalformedReply
}

/// Turns the outcome of a `get_output_byte` call into a byte or an error.
pub fn byte_reply(outcome: Result<i32, CallFault>) -> (r: Result<u8, BackendError>)
    ensures
        r == byte_reply_of(outcome),
        r matches Err(e) ==> accessor_fault(e),
{
    match outcome {
        Ok(reply) => match byte_of_reply(reply) {
            Some(byte) => Ok(byte),
            None => Err(BackendError::MalformedReply),
        },
        Err(fault) => Err(call_error(fault)),
    }
}

/// How many `set_input_3_bytes` calls hand over a legacy write of `len`
/// bytes: one for each whole vector, and one more for what is left over.
pub open spec fn legacy_store_count(len: int) -> int {
    (len + 2) / 3
}

/// Where in `data` the vector of the `j`-th `set_input_3_bytes` call of a
/// legacy write starts: vector after vector from the front, but the last one
/// moved back to end with the data, so that no call reaches beyond the write.
pub open spec fn legacy_store_start(len: int, j: int) -> int {
    if 3 * j + 3 <= len {
        3 * j
    } else {
        len - 3
    }
}

/// The arguments of the `j`-th `set_input_3_bytes` call of a legacy write of
/// `data` at region position `rel`: the position of the vector and its three
/// bytes.
pub open spec fn legacy_store_args(rel: int, data: Seq<u8>, j: int) -> (int, int, int, int) {
    let start = legacy_store_start(data.len() as int, j);
    (rel + start, data[start] as int, data[start + 1] as int, data[start + 2] as int)
}

/// Computes the arguments of the `j`-th `set_input_3_bytes` call of a legacy
/// write.
pub fn legacy_store_call(rel: usize, data: &[u8], j: usize) -> (args: (i32, i32, i32, i32))
    requires
        3 <= data@.len(),
        j < legacy_store_count(data@.len() as int),
        rel + data@.len() <= i32::MAX,
    ensures
        (args.0 as int, args.1 as int, args.2 as int, args.3 as int) == legacy_store_args(
            rel as int,
            data@,
            j as int,
        ),
        rel <= args.0,
        args.0 + 3 <= rel + data@.len(),
{
    let len = data.len();
    let start = if 3 * j + 3 <= len {
        3 * j
    } else {
        len - 3
    };
    ((rel + start) as i32, data[start] as i32, data[start + 1] as i32, data[start + 2] as i32)
}

/// Every byte of a legacy write of at least one vector is handed over by one
/// of its calls, at its own position.
pub proof fn lemma_legacy_calls_cover(len: int, i: int)
    requires
        3 <= len,
        0 <= i < len,
    ensures
        exists|j: int|
            0 <= j < legacy_store_count(len) && #[trigger] legacy_store_start(len, j) <= i
                < legacy_store_start(len, j) + 3,
{
    let j = i / 3;
    if 3 * j + 3 <= len {
        assert(legacy_store_start(len, j) <= i < legacy_store_start(len, j) + 3);
    } else {
        assert(legacy_store_start(len, j) == len - 3);
        assert(legacy_store_start(len, j) <= i < legacy_store_start(len, j) + 3);
    }
}

/// The arguments of the `j`-th `set_input_3_bytes` call that hands a batch of
/// whole vectors to the engine around the ring, from ring position `write_pos`
/// on: the position of vector `j`, reduced into the ring, and its three bytes.
/// The engine lays the second and third byte round the end of the ring itself.
pub open spec fn ring_store_args(write_pos: int, data: Seq<u8>, j: int, cap: int) -> (
    int,
    int,
    int,
    int,
) {
    (
        (write_pos + 3 * j) % cap,
        data[3 * j] as int,
        data[3 * j + 1] as int,
        data[3 * j + 2] as int,
    )
}

/// Computes the arguments of the `j`-th `set_input_3_bytes` call of a batch
/// handed over around the ring.
pub fn ring_store_call(write_pos: usize, data: &[u8], j: usize, cap: usize) -> (args: (
    i32,
    i32,
    i32,
    i32,
))
    requires
        0 < cap <= i32::MAX,
        write_pos < cap,
        data@.len() <= cap,
        3 * j + 3 <= data@.len(),
    ensures
        (args.0 as int, args.1 as int, args.2 as int, args.3 as int) == ring_store_args(
            write_pos as int,
            data@,
            j as int,
            cap as int,
        ),
        0 <= args.0 < cap,
{
    (((write_pos + 3 * j) % cap) as i32, data[3 * j] as i32, data[3 * j + 1] as i32, data[3 * j
        + 2] as i32)
}

/// A survey says what `instance` exports: each finding is true exactly where
/// the instance exports the function of that name and shape, a capacity was
/// reported exactly where `get_buffer_size` is exported, and offsets were
/// reported, both of them, exactly where both offset queries are exported.
pub open spec fn survey_matches(instance: Instance, survey: ExportSurvey) -> bool {
    &&& survey.buffer_size is Some == exports_function(instance, "get_buffer_size"@, 0, 1)
    &&& survey.input_offset is Some == (exports_function(
        instance,
        "get_input_buffer_offset"@,
        0,
        1,
    ) && exports_function(instance, "get_output_buffer_offset"@, 0, 1))
    &&& survey.output_offset is Some == survey.input_offset is Some
    &&& survey.set_write_head == exports_function(instance, "set_write_head"@, 1, 0)
    &&& survey.process_tensor_stream == exports_function(
        instance,
        "process_tensor_stream"@,
        0,
        1,
    )
    &&& survey.set_input_3_bytes == exports_function(instance, "set_input_3_bytes"@, 4, 0)
    &&& survey.get_output_byte == exports_function(instance, "get_output_byte"@, 1, 1)
    &&& survey.vector_add_batch == exports_function(instance, "vector_add_batch"@, 1, 1)
    &&& survey.vector_dot_batch == exports_function(instance, "vector_dot_batch"@, 1, 1)
    &&& survey.check_integrity == exports_function(instance, "check_integrity"@, 0, 1)
}

/// A connected sandboxed engine.
pub struct WasmBackend {
    store: Store<()>,
    instance: Instance,
    survey: ExportSurvey,
    layout: Layout,
}

impl WasmBackend {
    /// The instance lives in the store, and the layout is the one that the
    /// survey taken at connection time yields.
    pub closed spec fn wf(&self) -> bool {
        &&& store_owns(self.store, self.instance)
        &&& layout_ok(self.layout)
        &&& self.layout == surveyed_layout(self.survey)
        &&& survey_matches(self.instance, self.survey)
        &&& connect_fault(self.survey, false) is None
    }

    /// The instance that the backend runs.
    pub closed spec fn instance(&self) -> Instance {
        self.instance
    }

    /// A well-formed backend's survey says what its instance exports, and
    /// shows no fault but, at most, a missing optional operation.
    pub proof fn lemma_survey_is_true(&self)
        requires
            self.wf(),
        ensures
            survey_matches(self.instance(), self.survey()),
            connect_fault(self.survey(), false) is None,
            self.layout() == surveyed_layout(self.survey()),
    {
    }

    /// What the module was found to export when it was connected.
    pub closed spec fn survey(&self) -> ExportSurvey {
        self.survey
    }

    /// Capacity, offsets and capabilities.
    pub closed spec fn layout(&self) -> Layout {
        self.layout
    }

    /// The bytes of the module's memory.
    pub closed spec fn memory(&self) -> Option<Seq<u8>> {
        exported_memory(self.store, self.instance)
    }

    /// `len` bytes at `offset` lie within the input region or within the output
    /// region.
    pub open spec fn in_region(&self, offset: int, len: int) -> bool {
        within(offset, len, self.layout().input_offset as int, self.layout().cap as int) || within(
            offset,
            len,
            self.layout().output_offset as int,
            self.layout().cap as int,
        )
    }

    /// Layout and survey are the same in `self` and `after`: what was settled
    /// at connection time stays settled.
    pub open spec fn settled(&self, after: &Self) -> bool {
        after.layout() == self.layout() && after.survey() == self.survey()
    }

    /// What `write_bytes(offset, data)` makes of `self`.
    pub open spec fn wrote(&self, after: &Self, offset: usize, data: Seq<u8>, r: Result<
        (),
        BackendError,
    >) -> bool {
        &&& !self.in_region(offset as int, data.len() as int) ==> r == Err::<(), BackendError>(
            BackendError::WriteOutOfRegion,
        ) && after.memory() == self.memory()
        &&& self.in_region(offset as int, data.len() as int) && self.layout().capabilities.zero_copy
            ==> (match self.memory() {
            Some(bytes) => if offset + data.len() <= bytes.len() {
                r == Ok::<(), BackendError>(()) && after.memory() == Some(
                    overwritten(bytes, offset as int, data),
                )
            } else {
                r == Err::<(), BackendError>(BackendError::MemoryFault) && after.memory() == Some(
                    bytes,
                )
            },
            None => r == Err::<(), BackendError>(BackendError::MemoryFault),
        })
        &&& self.in_region(offset as int, data.len() as int) && !self.layout().capabilities.zero_copy
            && 0 < data.len() < 3 ==> r == Err::<(), BackendError>(BackendError::PartialVector)
            && after.memory() == self.memory()
        &&& self.in_region(offset as int, data.len() as int) && !self.layout().capabilities.zero_copy
            && data.len() == 0 ==> r is Ok && after.memory() == self.memory()
        &&& self.in_region(offset as int, data.len() as int) && !self.layout().capabilities.zero_copy
            && data.len() >= 3 ==> (r matches Err(e) ==> e is EngineTrapped)
    }

    /// What `read_bytes(offset, len)` returns and leaves behind.
    pub open spec fn was_read(&self, after: &Self, offset: usize, len: usize, r: Result<
        Vec<u8>,
        BackendError,
    >) -> bool {
        &&& !self.in_region(offset as int, len as int) ==> (r matches Err(e) && e
            == BackendError::ReadOutOfRegion) && after.memory() == self.memory()
        &&& self.in_region(offset as int, len as int) && self.layout().capabilities.zero_copy
            ==> after.memory() == self.memory() && (match self.memory() {
            Some(bytes) => if offset + len <= bytes.len() {
                r matches Ok(found) && found@ == bytes.subrange(offset as int, offset + len)
            } else {
                r matches Err(e) && e == BackendError::MemoryFault
            },
            None => r matches Err(e) && e == BackendError::MemoryFault,
        })
        &&& self.in_region(offset as int, len as int) && !self.layout().capabilities.zero_copy
            ==> (r matches Err(e) ==> e is EngineTrapped || e is MalformedReply)
        &&& self.in_region(offset as int, len as int) && !self.layout().capabilities.zero_copy
            && len == 0 ==> r is Ok && after.memory() == self.memory()
        &&& r matches Ok(found) ==> found@.len() == len
    }

    /// A connected engine has a positive capacity, and capacity and offsets fit
    /// 32-bit positions.
    pub proof fn lemma_layout_bounds(&self)
        requires
            self.wf(),
        ensures
            0 < self.layout().cap <= i32::MAX,
            self.layout().input_offset <= i32::MAX,
            self.layout().output_offset <= i32::MAX,
    {
    }

    /// Asks the module what it exports and where its regions lie. The offset
    /// queries are called only where both are exported. The memory is measured
    /// last, after every query has run, so the size in the survey is the size
    /// of the memory as the survey leaves it. Each finding is the answer to
    /// the probe under that function's own name. The survey fails only where
    /// a layout query traps.
    fn take_survey(store: &mut Store<()>, instance: &Instance) -> (r: Result<
        ExportSurvey,
        ConnectError,
    >)
        requires
            store_owns(*old(store), *instance),
        ensures
            store_owns(*final(store), *instance),
            r matches Ok(survey) ==> survey.memory_size == (match exported_memory(
                *final(store),
                *instance,
            ) {
                Some(bytes) => Some(bytes.len() as usize),
                None => None,
            }),
            r matches Ok(survey) ==> survey_matches(*instance, survey),
            r matches Err(e) ==> e is QueryFailed,
    {
        let buffer_size = match call_query(store, instance, "get_buffer_size") {
            Ok(size) => Some(size),
            Err(CallFault::Missing) => None,
            Err(CallFault::Trapped(cause)) => {
                return Err(ConnectError::QueryFailed(cause));
            },
        };
        let has_input_query = exports_query(store, instance, "get_input_buffer_offset");
        let has_output_query = exports_query(store, instance, "get_output_buffer_offset");
        let mut input_offset: Option<i32> = None;
        let mut output_offset: Option<i32> = None;
        if has_input_query && has_output_query {
            match call_query(store, instance, "get_input_buffer_offset") {
                Ok(offset) => {
                    input_offset = Some(offset);
                },
                Err(CallFault::Missing) => {},
                Err(CallFault::Trapped(cause)) => {
                    return Err(ConnectError::QueryFailed(cause));
                },
            }
            match call_query(store, instance, "get_output_buffer_offset") {
                Ok(offset) => {
                    output_offset = Some(offset);
                },
                Err(CallFault::Missing) => {},
                Err(CallFault::Trapped(cause)) => {
                    return Err(ConnectError::QueryFailed(cause));
                },
            }
        }
        let set_write_head = exports_command(store, instance, "set_write_head");
        let process_tensor_stream = exports_query(store, instance, "process_tensor_stream");
        let set_input_3_bytes = exports_store(store, instance, "set_input_3_bytes");
        let get_output_byte = exports_map(store, instance, "get_output_byte");
        let vector_add_batch = exports_map(store, instance, "vector_add_batch");
        let vector_dot_batch = exports_map(store, instance, "vector_dot_batch");
        let check_integrity = exports_query(store, instance, "check_integrity");
        let memory_size = memory_size(store, instance);
        Ok(
            ExportSurvey {
                memory_size,
                buffer_size,
                input_offset,
                output_offset,
                set_write_head,
                process_tensor_stream,
                set_input_3_bytes,
                get_output_byte,
                vector_add_batch,
                vector_dot_batch,
                check_integrity,
            },
        )
    }

    /// Connects the engine module given in `module_bytes`. Whatever the module
    /// is, a backend that comes back is one whose survey shows no fault: in
    /// strict mode it offers every optional operation, in legacy mode it offers
    /// the narrow accessors, and both its regions lie within its memory as
    /// measured at that moment. A refusal is the sandbox's rejection of the
    /// module, a layout query that trapped, or the fault that `connect_fault`
    /// finds in the survey taken; so a missing optional operation stands in
    /// the way in strict mode only.
    pub fn new(module_bytes: &[u8], strict_mode: bool) -> (r: Result<WasmBackend, ConnectError>)
        ensures
            r matches Ok(backend) ==> {
                &&& backend.wf()
                &&& survey_matches(backend.instance(), backend.survey())
                &&& connect_fault(backend.survey(), strict_mode).is_none()
                &&& backend.memory() matches Some(bytes) && backend.survey().memory_size == Some(
                    bytes.len() as usize,
                )
            },
            r matches Err(e) ==> e is ModuleRejected || e is QueryFailed || exists|
                survey: ExportSurvey,
            | #[trigger] connect_fault(survey, strict_mode) == Some(e),
            r matches Err(e) ==> (e is StrictCapabilityMissing ==> strict_mode),
    {
        let (mut store, instance) = match instantiate(module_bytes) {
            Ok(pair) => pair,
            Err(cause) => {
                return Err(ConnectError::ModuleRejected(cause));
            },
        };
        let survey = match Self::take_survey(&mut store, &instance) {
            Ok(survey) => survey,
            Err(e) => {
                return Err(e);
            },
        };
        match negotiate(&survey, strict_mode) {
            Ok(layout) => Ok(WasmBackend { store, instance, survey, layout }),
            Err(e) => Err(e),
        }
    }

    /// Bytes per region.
    pub fn get_cap(&self) -> (cap: usize)
        ensures
            cap == self.layout().cap,
    {
        self.layout.cap
    }

    /// Where the input region starts in the module's memory.
    pub fn get_input_offset(&self) -> (offset: usize)
        ensures
            offset == self.layout().input_offset,
    {
        self.layout.input_offset
    }

    /// Where the output region starts in the module's memory.
    pub fn get_output_offset(&self) -> (offset: usize)
        ensures
            offset == self.layout().output_offset,
    {
        self.layout.output_offset
    }

    /// What the engine offers.
    pub fn capabilities(&self) -> (set: CapabilitySet)
        ensures
            set == self.layout().capabilities,
    {
        self.layout.capabilities
    }

    /// Whether the regions overlap without being one and the same.
    pub fn has_overlap_hazard(&self) -> (hazard: bool)
        requires
            self.wf(),
        ensures
            hazard == overlap_hazard(self.layout()),
    {
        self.layout.input_offset != self.layout.output_offset && self.layout.input_offset
            < self.layout.output_offset + self.layout.cap && self.layout.output_offset
            < self.layout.input_offset + self.layout.cap
    }

    /// Tells the engine how far the input has been filled. A negative position
    /// is ignored: nothing is called, nothing changes, and the call succeeds.
    /// Any other position is handed to the engine's `set_write_head` as it is,
    /// and the answer is `command_reply` of the call's outcome: success, or the
    /// engine's trap. The function was found when the engine was connected, so
    /// it is never missing.
    pub fn set_write_head(&mut self, pos: i32) -> (r: Result<(), BackendError>)
        requires
            old(self).wf(),
        ensures
            final(self).wf(),
            old(self).settled(final(self)),
            pos < 0 ==> r is Ok && final(self).memory() == old(self).memory(),
            r matches Err(e) ==> e is EngineTrapped,
    {
        if pos < 0 {
            Ok(())
        } else {
            command_reply(call_command(&mut self.store, &self.instance, "set_write_head", pos))
        }
    }

    /// Lets the engine consume what is unread: the engine's
    /// `process_tensor_stream` is called, and the answer is `count_reply` of
    /// the call's outcome. A count that comes back is not negative and a whole
    /// number of vectors; an engine that reports anything else is refused.
    pub fn process_tensor_stream(&mut self) -> (r: Result<i32, BackendError>)
        requires
            old(self).wf(),
        ensures
            final(self).wf(),
            old(self).settled(final(self)),
            r matches Ok(count) ==> whole_vectors(count),
            r matches Err(e) ==> e is EngineTrapped || e is MalformedReply,
    {
        count_reply(call_query(&mut self.store, &self.instance, "process_tensor_stream"))
    }

    /// Batched addition, where the engine offers it: its `vector_add_batch` is
    /// called with `count` and the answer is `done_reply` of the outcome.
    /// Otherwise nothing happens and the call succeeds. An error is the
    /// engine's fault, so none comes where the engine does not offer the
    /// operation.
    pub fn vector_add_batch(&mut self, count: i32) -> (r: Result<(), BackendError>)
        requires
            old(self).wf(),
        ensures
            final(self).wf(),
            old(self).settled(final(self)),
            !old(self).layout().capabilities.batch_add ==> r.is_ok() && final(self).memory()
                == old(self).memory(),
            r matches Err(e) ==> e is EngineTrapped,
    {
        if self.layout.capabilities.batch_add {
            done_reply(call_map(&mut self.store, &self.instance, "vector_add_batch", count))
        } else {
            Ok(())
        }
    }

    /// Batched dot product, where the engine offers it: its `vector_dot_batch`
    /// is called with `count` and the answer is `value_reply` of the outcome.
    /// Otherwise the result is 0 and nothing happens. An error is the engine's
    /// fault.
    pub fn vector_dot_batch(&mut self, count: i32) -> (r: Result<i32, BackendError>)
        requires
            old(self).wf(),
        ensures
            final(self).wf(),
            old(self).settled(final(self)),
            !old(self).layout().capabilities.batch_dot ==> r == Ok::<i32, BackendError>(0)
                && final(self).memory() == old(self).memory(),
            r matches Err(e) ==> e is EngineTrapped,
    {
        if self.layout.capabilities.batch_dot {
            value_reply(call_map(&mut self.store, &self.instance, "vector_dot_batch", count))
        } else {
            Ok(0)
        }
    }

    /// The engine's own integrity check, where it offers one: its
    /// `check_integrity` is called and the answer is `value_reply` of the
    /// outcome. Otherwise the engine is taken to be healthy and the result is
    /// 1. An error is the engine's fault.
    pub fn check_integrity(&mut self) -> (r: Result<i32, BackendError>)
        requires
            old(self).wf(),
        ensures
            final(self).wf(),
            old(self).settled(final(self)),
            !old(self).layout().capabilities.integrity_check ==> r == Ok::<i32, BackendError>(1)
                && final(self).memory() == old(self).memory(),
            r matches Err(e) ==> e is EngineTrapped,
    {
        if self.layout.capabilities.integrity_check {
            value_reply(call_query(&mut self.store, &self.instance, "check_integrity"))
        } else {
            Ok(1)
        }
    }

    /// Hands the vectors of `data` to the engine one by one through
    /// `set_input_3_bytes`, for the region positions from `rel` on: call `j`
    /// gets the arguments that `legacy_store_call` computes. Where the data is
    /// no whole number of vectors, the last call overlaps the one before it.
    /// Empty data needs no call: that always succeeds and leaves the engine
    /// untouched. The first call that fails ends the write with the engine's
    /// fault.
    fn write_legacy(&mut self, rel: usize, data: &[u8]) -> (r: Result<(), BackendError>)
        requires
            old(self).wf(),
            rel + data@.len() <= old(self).layout().cap,
            data@.len() == 0 || data@.len() >= 3,
        ensures
            final(self).wf(),
            old(self).settled(final(self)),
            data@.len() == 0 ==> r is Ok && final(self).memory() == old(self).memory(),
            r matches Err(e) ==> engine_fault(e),
            !old(self).layout().capabilities.zero_copy ==> (r matches Err(e) ==> e is EngineTrapped),
    {
        let calls = (data.len() + 2) / 3;
        let mut j: usize = 0;
        while j < calls
            invariant
                self.wf(),
                old(self).settled(self),
                calls == legacy_store_count(data@.len() as int),
                data@.len() == 0 || data@.len() >= 3,
                rel + data@.len() <= self.layout().cap,
                j <= calls,
                j == 0 ==> self.memory() == old(self).memory(),
            decreases calls - j,
        {
            let (index, x, y, z) = legacy_store_call(rel, data, j);
            match command_reply(
                call_store(&mut self.store, &self.instance, "set_input_3_bytes", index, x, y, z),
            ) {
                Ok(()) => {},
                Err(e) => {
                    return Err(e);
                },
            }
            j += 1;
        }
        Ok(())
    }

    /// Asks the engine for the output bytes at the region positions from `rel`
    /// on, one by one through `get_output_byte`: call `i` asks for position
    /// `rel + i`, and `byte_reply` turns its outcome into byte `i` of the
    /// result. A read of no bytes needs no call: it always succeeds with no
    /// bytes and leaves the engine untouched. The first call that fails, or
    /// that the engine answers with something that is no byte, ends the read.
    fn read_legacy(&mut self, rel: usize, len: usize) -> (r: Result<Vec<u8>, BackendError>)
        requires
            old(self).wf(),
            rel + len <= old(self).layout().cap,
        ensures
            final(self).wf(),
            old(self).settled(final(self)),
            r matches Ok(bytes) ==> bytes@.len() == len,
            len == 0 ==> r is Ok && final(self).memory() == old(self).memory(),
            r matches Err(e) ==> accessor_fault(e),
            !old(self).layout().capabilities.zero_copy ==> (r matches Err(e) ==> e is EngineTrapped
                || e is MalformedReply),
    {
        let mut bytes: Vec<u8> = Vec::with_capacity(len);
        let mut i: usize = 0;
        while i < len
            invariant
                self.wf(),
                old(self).settled(self),
                rel + len <= self.layout().cap,
                i <= len,
                bytes@.len() == i,
                i == 0 ==> self.memory() == old(self).memory(),
            decreases len - i,
        {
            match byte_reply(
                call_map(&mut self.store, &self.instance, "get_output_byte", (rel + i) as i32),
            ) {
                Ok(byte) => {
                    bytes.push(byte);
                },
                Err(e) => {
                    return Err(e);
                },
            }
            i += 1;
        }
        Ok(bytes)
    }

    /// What `write_vectors(write_pos, data)` makes of `self`.
    pub open spec fn wrote_vectors(&self, after: &Self, write_pos: usize, data: Seq<u8>, r: Result<
        (),
        BackendError,
    >) -> bool {
        let in_ring = write_pos < self.layout().cap && data.len() <= self.layout().cap;
        &&& !in_ring ==> r == Err::<(), BackendError>(BackendError::WriteOutOfRegion)
            && after.memory() == self.memory()
        &&& in_ring && data.len() % 3 != 0 ==> r == Err::<(), BackendError>(
            BackendError::PartialVector,
        ) && after.memory() == self.memory()
        &&& in_ring && data.len() == 0 ==> r is Ok && after.memory() == self.memory()
        &&& in_ring && data.len() % 3 == 0 ==> (r matches Err(e) ==> engine_fault(e))
        &&& in_ring && data.len() % 3 == 0 && !self.layout().capabilities.zero_copy ==> (r matches Err(
            e,
        ) ==> e is EngineTrapped)
    }

    /// Hands a batch of whole vectors to the engine through
    /// `set_input_3_bytes`, around the ring from ring position `write_pos` on:
    /// call `j` gets the arguments that `ring_store_call` computes. The batch
    /// is not cut where it crosses the end of the region, since the engine
    /// reduces positions itself. A cursor outside the ring or a batch longer
    /// than the ring is refused, as is a batch that is no whole number of
    /// vectors, before anything is called. The first call that fails ends the
    /// write with the engine's fault.
    pub fn write_vectors(&mut self, write_pos: usize, data: &[u8]) -> (r: Result<(), BackendError>)
        requires
            old(self).wf(),
        ensures
            final(self).wf(),
            old(self).settled(final(self)),
            old(self).wrote_vectors(final(self), write_pos, data@, r),
    {
        let cap = self.layout.cap;
        if write_pos >= cap || data.len() > cap {
            return Err(BackendError::WriteOutOfRegion);
        }
        if data.len() % 3 != 0 {
            return Err(BackendError::PartialVector);
        }
        let vectors = data.len() / 3;
        let mut j: usize = 0;
        while j < vectors
            invariant
                self.wf(),
                old(self).settled(self),
                cap == self.layout().cap,
                write_pos < cap,
                data@.len() <= cap,
                vectors == data@.len() / 3,
                data@.len() % 3 == 0,
                j <= vectors,
                j == 0 ==> self.memory() == old(self).memory(),
            decreases vectors - j,
        {
            let (index, x, y, z) = ring_store_call(write_pos, data, j, cap);
            match command_reply(
                call_store(&mut self.store, &self.instance, "set_input_3_bytes", index, x, y, z),
            ) {
                Ok(()) => {},
                Err(e) => {
                    return Err(e);
                },
            }
            j += 1;
        }
        Ok(())
    }

    /// Writes `data` at `offset` of the module's memory. A write that lies
    /// within neither region fails before anything is touched. In zero-copy
    /// mode the bytes go straight into the memory, which refuses them where
    /// they reach beyond its size. In legacy mode the bytes are handed to the
    /// engine vector by vector, so a write of one or two bytes fails.
    pub fn write_bytes(&mut self, offset: usize, data: &[u8]) -> (r: Result<(), BackendError>)
        requires
            old(self).wf(),
        ensures
            final(self).wf(),
            old(self).settled(final(self)),
            old(self).wrote(final(self), offset, data@, r),
    {
        let len = data.len();
        let cap = self.layout.cap;
        let in_input = offset >= self.layout.input_offset && len <= cap && offset
            - self.layout.input_offset <= cap - len;
        let in_output = offset >= self.layout.output_offset && len <= cap && offset
            - self.layout.output_offset <= cap - len;
        if !in_input && !in_output {
            return Err(BackendError::WriteOutOfRegion);
        }
        if self.layout.capabilities.zero_copy {
            match memory_write(&mut self.store, &self.instance, offset, data) {
                Ok(()) => Ok(()),
                Err(_) => Err(BackendError::MemoryFault),
            }
        } else {
            if 0 < len && len < 3 {
                return Err(BackendError::PartialVector);
            }
            self.write_legacy(offset, data)
        }
    }

    /// Reads `len` bytes at `offset` of the module's memory. A read that lies
    /// within neither region fails before anything is touched. In zero-copy
    /// mode the bytes come straight from the memory; in legacy mode the engine
    /// is asked for each output byte.
    pub fn read_bytes(&mut self, offset: usize, len: usize) -> (r: Result<Vec<u8>, BackendError>)
        requires
            old(self).wf(),
        ensures
            final(self).wf(),
            old(self).settled(final(self)),
            old(self).was_read(final(self), offset, len, r),
    {
        let cap = self.layout.cap;
        let in_input = offset >= self.layout.input_offset && len <= cap && offset
            - self.layout.input_offset <= cap - len;
        let in_output = offset >= self.layout.output_offset && len <= cap && offset
            - self.layout.output_offset <= cap - len;
        if !in_input && !in_output {
            return Err(BackendError::ReadOutOfRegion);
        }
        if self.layout.capabilities.zero_copy {
            match memory_read(&mut self.store, &self.instance, offset, len) {
                Ok(found) => Ok(found),
                Err(_) => Err(BackendError::MemoryFault),
            }
        } else {
            self.read_legacy(offset, len)
        }
    }
}

} // verus!
