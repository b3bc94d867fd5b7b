//! The orchestrator: it injects synthetic vectors into the engine's input
//! region, announces them, lets the engine work, samples the output and
//! exercises the batched operations, iteration after iteration.

use vstd::prelude::*;
use crate::backend::Backend;
use crate::error::{BackendError, ConnectError};
use crate::native_backend::{overwritten, NativeBackend};
use crate::normalize::{length_squared, normalize_vector, scaled_component};
use crate::native_kernel::{accumulated_output, processed_output, BUFFER_SIZE};
use crate::ring::{
    advance,
    advanced,
    consumed,
    first_part,
    lemma_advanced_total,
    lemma_inject_extends_unread,
    split_write,
    unread_between,
};
use crate::wasm_backend::{overlap_hazard, WasmBackend};

verus! {

/// Size of the pattern buffer that a new bridge starts with.
pub const NOISE_SIZE: usize = 4096;

/// Output vectors sampled at most when a run verifies its output.
pub const SAMPLE_LIMIT: usize = 10;

/// The batched addition runs in every iteration whose number is a multiple of
/// this.
pub const ADD_CADENCE: usize = 10;

/// The batched dot product runs in every iteration whose number is a multiple
/// of this.
pub const DOT_CADENCE: usize = 20;

/// Byte `i` of the synthetic input pattern.
pub open spec fn noise_byte(i: int) -> u8 {
    ((i % 255) as u8) ^ 0xAAu8
}

/// Computes byte `i` of the synthetic input pattern.
pub fn noise_at(i: usize) -> (b: u8)
    ensures
        b == noise_byte(i as int),
{
    ((i % 255) as u8) ^ 0xAAu8
}

/// A memory after `bytes` bytes of the pattern have been written into the
/// ring of `cap` bytes that starts at `base`, from ring position `write_pos`
/// on: a ring position less than `bytes` ahead of `write_pos` holds the
/// pattern byte of that distance, and every other byte is as it was.
pub open spec fn injected(memory: Seq<u8>, base: int, write_pos: int, bytes: int, cap: int) -> Seq<
    u8,
> {
    Seq::new(
        memory.len(),
        |p: int|
            if base <= p < base + cap && unread_between(write_pos, p - base, cap) < bytes {
                noise_byte(unread_between(write_pos, p - base, cap))
            } else {
                memory[p]
            },
    )
}

/// `len` bytes of the pattern, from its byte `start` on.
pub open spec fn noise_run(start: int, len: int) -> Seq<u8> {
    Seq::new(len as nat, |i: int| noise_byte(start + i))
}

/// A memory after the two raw writes that put `bytes` bytes of the pattern
/// into the ring of `cap` bytes at `base`: first the part that fits before the
/// end of the ring, at the cursor; then the rest, at the start of the ring.
pub open spec fn split_written(memory: Seq<u8>, base: int, write_pos: int, bytes: int, cap: int) -> Seq<
    u8,
> {
    let first = first_part(write_pos, bytes, cap);
    overwritten(
        overwritten(memory, base + write_pos, noise_run(0, first)),
        base,
        noise_run(first, bytes - first),
    )
}

/// A write of at most one lap, made in two parts, lays the pattern round the
/// ring from the cursor.
pub proof fn lemma_split_written_is_injected(
    memory: Seq<u8>,
    base: int,
    write_pos: int,
    bytes: int,
    cap: int,
)
    requires
        0 <= base,
        0 <= write_pos <= cap,
        0 <= bytes <= cap,
        base + cap <= memory.len(),
    ensures
        split_written(memory, base, write_pos, bytes, cap) == injected(
            memory,
            base,
            write_pos,
            bytes,
            cap,
        ),
{
    assert(split_written(memory, base, write_pos, bytes, cap) =~= injected(
        memory,
        base,
        write_pos,
        bytes,
        cap,
    ));
}

/// Component `c` of what the engine should store for vector `k` of the
/// pattern.
pub open spec fn expected_sample(k: int, c: int) -> u8 {
    scaled_component(
        noise_byte(3 * k + c),
        length_squared(noise_byte(3 * k), noise_byte(3 * k + 1), noise_byte(3 * k + 2)),
    )
}

/// The first `vectors` vectors of an output region hold what the pattern
/// should give.
pub open spec fn output_agrees(output: Seq<u8>, vectors: int) -> bool {
    forall|k: int, c: int|
        0 <= k < vectors && 0 <= c < 3 ==> output[3 * k + c] == #[trigger] expected_sample(k, c)
}

/// An engine that has normalized `count` bytes of the pattern from the start
/// of its regions holds, in its first `count / 3` output vectors, what the
/// pattern should give.
pub proof fn lemma_pattern_output_agrees(
    region: Seq<u8>,
    output: Seq<u8>,
    bytes: int,
    count: int,
)
    requires
        region.len() == BUFFER_SIZE,
        output.len() == BUFFER_SIZE,
        0 <= count <= bytes <= BUFFER_SIZE,
        count % 3 == 0,
    ensures
        output_agrees(
            processed_output(
                injected(region, 0, 0, bytes, BUFFER_SIZE as int),
                output,
                0,
                count,
            ),
            count / 3,
        ),
{
    reveal(processed_output);
    let input = injected(region, 0, 0, bytes, BUFFER_SIZE as int);
    let result = processed_output(input, output, 0, count);
    assert forall|k: int, c: int| 0 <= k < count / 3 && 0 <= c < 3 implies result[3 * k + c]
        == #[trigger] expected_sample(k, c) by {
        let p = 3 * k + c;
        assert(unread_between(0, p, BUFFER_SIZE as int) == p);
        assert(p - p % 3 == 3 * k);
        assert(input[3 * k] == noise_byte(3 * k));
        assert(input[3 * k + 1] == noise_byte(3 * k + 1));
        assert(input[3 * k + 2] == noise_byte(3 * k + 2));
        assert(input[p] == noise_byte(p));
    }
}

/// Why a run ended early.
#[derive(Debug)]
pub enum BridgeError {
    /// The engine was found corrupted before any work was done.
    StartupIntegrity,
    /// The engine was found corrupted after the last iteration.
    FinalIntegrity,
    /// An operation of the backend failed.
    Backend(BackendError),
}

impl BridgeError {
    /// The text that describes the error.
    pub open spec fn description(&self) -> Seq<char> {
        match self {
            BridgeError::StartupIntegrity => "KERNEL PANIC: Integrity Check Failed on Startup!"@,
            BridgeError::FinalIntegrity => {
                "KERNEL PANIC: Integrity Check Failed after Kinetic Loop!"@
            },
            BridgeError::Backend(cause) => cause.description(),
        }
    }

    /// A description for the person who runs the host.
    pub fn message(&self) -> (text: String)
        ensures
            text@ == self.description(),
    {
        match self {
            BridgeError::StartupIntegrity => {
                "KERNEL PANIC: Integrity Check Failed on Startup!".to_owned()
            },
            BridgeError::FinalIntegrity => {
                "KERNEL PANIC: Integrity Check Failed after Kinetic Loop!".to_owned()
            },
            BridgeError::Backend(cause) => cause.message(),
        }
    }
}

/// What a completed run did.
#[derive(Clone, Copy, Debug, PartialEq, Eq, Structural)]
pub struct RunSummary {
    /// Iterations carried out.
    pub iterations: usize,
    /// Bytes written into the input region, over all iterations.
    pub injected_bytes: u128,
    /// Bytes that the engine reported as consumed, over all iterations.
    pub processed_bytes: u128,
    /// Output vectors that were sampled and compared.
    pub sampled: usize,
    /// Sampled vectors that differ from what the input should have given.
    pub mismatched: usize,
    /// Calls of the batched addition.
    pub add_batches: usize,
    /// Calls of the batched dot product.
    pub dot_batches: usize,
}

/// What one cycle of a run did, and where it left the cursors.
#[derive(Clone, Copy, Debug, PartialEq, Eq, Structural)]
pub struct Cycle {
    /// The write cursor after the cycle.
    pub write_pos: usize,
    /// The read cursor after the cycle.
    pub read_pos: usize,
    /// Bytes that the engine consumed.
    pub processed: usize,
    /// Output vectors sampled.
    pub sampled: usize,
    /// Sampled vectors that differ from what the input should have given.
    pub mismatched: usize,
    /// Whether the batched addition ran.
    pub added: bool,
    /// Whether the batched dot product ran.
    pub dotted: bool,
}

/// What an integrity check decides: an engine that answers 0 is corrupted,
/// which is fatal, at start-up as after the last cycle; any other answer lets
/// the run go on; a check that failed ends the run with its error.
pub open spec fn integrity_verdict_of(answer: Result<i32, BackendError>, at_start: bool) -> Result<
    (),
    BridgeError,
> {
    match answer {
        Ok(state) => if state == 0 {
            if at_start {
                Err(BridgeError::StartupIntegrity)
            } else {
                Err(BridgeError::FinalIntegrity)
            }
        } else {
            Ok(())
        },
        Err(e) => Err(BridgeError::Backend(e)),
    }
}

/// Decides on the engine's answer to an integrity check.
pub fn integrity_verdict(answer: Result<i32, BackendError>, at_start: bool) -> (r: Result<
    (),
    BridgeError,
>)
    ensures
        r == integrity_verdict_of(answer, at_start),
{
    match answer {
        Ok(state) => if state == 0 {
            if at_start {
                Err(BridgeError::StartupIntegrity)
            } else {
                Err(BridgeError::FinalIntegrity)
            }
        } else {
            Ok(())
        },
        Err(e) => Err(BridgeError::Backend(e)),
    }
}

/// The counts to hand to the batched operations in one cycle: `None` where an
/// operation is not due.
#[derive(Clone, Copy, Debug, PartialEq, Eq, Structural)]
pub struct DueBatches {
    pub add: Option<i32>,
    pub dot: Option<i32>,
}

/// Which batched operations are due in cycle `i`, and with which count: every
/// vector that the engine consumed in this cycle.
pub fn due_batches(i: usize, processed_vecs: usize) -> (due: DueBatches)
    requires
        processed_vecs <= i32::MAX,
    ensures
        due.add == (if add_due(i as int, processed_vecs as int) {
            Some(processed_vecs as i32)
        } else {
            None
        }),
        due.dot == (if dot_due(i as int, processed_vecs as int) {
            Some(processed_vecs as i32)
        } else {
            None
        }),
{
    DueBatches {
        add: if i % ADD_CADENCE == 0 && processed_vecs > 0 {
            Some(processed_vecs as i32)
        } else {
            None
        },
        dot: if i % DOT_CADENCE == 0 && processed_vecs > 0 {
            Some(processed_vecs as i32)
        } else {
            None
        },
    }
}

/// How many output vectors a verifying iteration samples when the engine has
/// consumed `processed_vecs` vectors.
pub fn sample_count(processed_vecs: usize) -> (n: usize)
    ensures
        n == (if processed_vecs > SAMPLE_LIMIT {
            SAMPLE_LIMIT
        } else {
            processed_vecs
        }),
{
    if processed_vecs > SAMPLE_LIMIT {
        SAMPLE_LIMIT
    } else {
        processed_vecs
    }
}

/// Whether the batched addition is due in iteration `i`.
pub open spec fn add_due(i: int, processed_vecs: int) -> bool {
    i % (ADD_CADENCE as int) == 0 && processed_vecs > 0
}

/// Whether the batched dot product is due in iteration `i`.
pub open spec fn dot_due(i: int, processed_vecs: int) -> bool {
    i % (DOT_CADENCE as int) == 0 && processed_vecs > 0
}

/// The bridge between the host and one engine.
pub struct MoonlightBridge {
    backend: Backend,
    noise_buffer: Vec<u8>,
}

impl MoonlightBridge {
    /// The engine is well formed and the pattern buffer holds the pattern.
    pub closed spec fn wf(&self) -> bool {
        &&& self.backend.wf()
        &&& forall|i: int| 0 <= i < self.noise_buffer@.len() ==> self.noise_buffer@[i] == noise_byte(i)
    }

    /// The engine behind the bridge.
    pub closed spec fn backend(&self) -> Backend {
        self.backend
    }

    /// Bytes per region of the engine.
    pub open spec fn capacity(&self) -> usize {
        self.backend().capacity()
    }

    /// The bridge runs an in-process engine as it is when new: both heads at
    /// the start of the ring, both sentinels in place, both regions zero.
    pub open spec fn newly_set_up(&self) -> bool {
        match self.backend() {
            Backend::Native(native) => {
                &&& native.kernel.read_head == 0
                &&& native.kernel.write_head == 0
                &&& native.kernel.intact()
                &&& native.kernel.buffer@ == Seq::new(BUFFER_SIZE as nat, |i: int| 0u8)
                &&& native.kernel.output_buffer@ == Seq::new(BUFFER_SIZE as nat, |i: int| 0u8)
            },
            Backend::Wasm(_) => false,
        }
    }

    /// A well-formed bridge has a well-formed engine, whose capacity is
    /// positive and fits a 32-bit position.
    pub proof fn lemma_backend_wf(&self)
        requires
            self.wf(),
        ensures
            self.backend().wf(),
            0 < self.capacity() <= i32::MAX,
    {
        self.backend.lemma_layout_bounds();
    }

    /// Sets up a bridge: to the sandboxed engine in `module_bytes` where a
    /// module is given, else to the in-process engine. Without a module the
    /// set-up always succeeds, and the engine is new.
    pub fn ignite(module_bytes: Option<&[u8]>, strict_mode: bool) -> (r: Result<Self, ConnectError>)
        ensures
            r matches Ok(bridge) ==> bridge.wf(),
            module_bytes is None ==> r is Ok && r.unwrap().newly_set_up(),
            r matches Ok(bridge) ==> (module_bytes is Some <==> bridge.backend() is Wasm),
    {
        let backend = match module_bytes {
            Some(bytes) => {
                match WasmBackend::new(bytes, strict_mode) {
                    Ok(wasm) => Backend::Wasm(wasm),
                    Err(e) => {
                        return Err(e);
                    },
                }
            },
            None => Backend::Native(NativeBackend::new()),
        };
        let mut noise_buffer: Vec<u8> = Vec::with_capacity(NOISE_SIZE);
        let mut i: usize = 0;
        while i < NOISE_SIZE
            invariant
                i <= NOISE_SIZE,
                noise_buffer@.len() == i,
                forall|j: int| 0 <= j < i ==> noise_buffer@[j] == noise_byte(j),
            decreases NOISE_SIZE - i,
        {
            noise_buffer.push(noise_at(i));
            i += 1;
        }
        Ok(MoonlightBridge { backend, noise_buffer })
    }

    /// Bytes per region of the engine.
    pub fn get_cap(&self) -> (cap: usize)
        ensures
            cap == self.capacity(),
    {
        self.backend.get_cap()
    }

    /// Whether the bridge runs the in-process engine.
    pub fn is_native(&self) -> (native: bool)
        ensures
            native == (self.backend() is Native),
    {
        match &self.backend {
            Backend::Native(_) => true,
            Backend::Wasm(_) => false,
        }
    }

    /// Whether the engine's regions overlap without being one and the same: a
    /// layout that deserves a warning.
    pub fn has_overlap_hazard(&self) -> (hazard: bool)
        requires
            self.wf(),
        ensures
            hazard == (match self.backend() {
                Backend::Native(_) => false,
                Backend::Wasm(wasm) => overlap_hazard(wasm.layout()),
            }),
    {
        self.backend.has_overlap_hazard()
    }

    /// Raw read at `offset` of the memory that the host addresses, as the
    /// engine's `read_bytes` gives it.
    pub fn read_bytes(&mut self, offset: usize, len: usize) -> (r: Result<Vec<u8>, BackendError>)
        requires
            old(self).wf(),
        ensures
            final(self).wf(),
            old(self).backend().same_engine(&final(self).backend()),
            r matches Ok(found) ==> found@.len() == len,
            match (old(self).backend(), final(self).backend()) {
                (Backend::Native(before), Backend::Native(after)) => final(self).backend() == old(
                    self,
                ).backend() && before.was_read(offset, len, r),
                (Backend::Wasm(before), Backend::Wasm(after)) => before.was_read(
                    &after,
                    offset,
                    len,
                    r,
                ),
                _ => true,
            },
    {
        self.backend.read_bytes(offset, len)
    }

    /// Makes the pattern buffer hold at least `bytes_needed` bytes.
    fn ensure_noise(&mut self, bytes_needed: usize)
        requires
            old(self).wf(),
        ensures
            final(self).wf(),
            final(self).backend() == old(self).backend(),
            final(self).noise_buffer@.len() >= bytes_needed,
    {
        let mut i: usize = self.noise_buffer.len();
        while i < bytes_needed
            invariant
                self.wf(),
                self.backend() == old(self).backend(),
                i == self.noise_buffer@.len(),
            decreases bytes_needed - i,
        {
            self.noise_buffer.push(noise_at(i));
            i += 1;
        }
    }

    /// What `write_batch` makes of the in-process engine when it writes `bytes`
    /// bytes at `write_pos`. The write succeeds exactly where the part after
    /// the end of the region is no longer than the region. Where it does, the
    /// input region holds what the two raw writes put there: for a write of at
    /// most one lap, the pattern laid round the ring from the cursor. Where it
    /// does not, the first part has been written and the second was refused.
    /// Nothing but the input region changes.
    pub open spec fn native_batch_written(
        before: NativeBackend,
        after: NativeBackend,
        write_pos: int,
        bytes: int,
        r: Result<usize, BackendError>,
    ) -> bool {
        let cap = BUFFER_SIZE as int;
        &&& after.kernel.output_buffer@ == before.kernel.output_buffer@
        &&& after.kernel.read_head == before.kernel.read_head
        &&& after.kernel.write_head == before.kernel.write_head
        &&& after.kernel.canary == before.kernel.canary
        &&& after.kernel.tail_canary == before.kernel.tail_canary
        &&& r is Ok <==> write_pos + bytes <= 2 * cap
        &&& r is Ok ==> after.kernel.buffer@ == split_written(
            before.kernel.buffer@,
            0,
            write_pos,
            bytes,
            cap,
        )
        &&& r is Ok && bytes <= cap ==> after.kernel.buffer@ == injected(
            before.kernel.buffer@,
            0,
            write_pos,
            bytes,
            cap,
        )
        &&& r is Err ==> r == Err::<usize, BackendError>(BackendError::WriteOutOfRegion)
            && after.kernel.buffer@ == overwritten(
            before.kernel.buffer@,
            write_pos,
            noise_run(0, cap - write_pos),
        )
    }

    /// What `write_batch` makes of a sandboxed engine whose regions are reached
    /// directly, for a write of at most one lap from a cursor inside the ring.
    pub open spec fn direct_batch_written(
        before: WasmBackend,
        after: WasmBackend,
        write_pos: int,
        bytes: int,
        r: Result<usize, BackendError>,
    ) -> bool {
        write_pos < before.layout().cap && bytes <= before.layout().cap ==> (
        match before.memory() {
            Some(memory) => {
                &&& before.layout().input_offset + before.layout().cap <= memory.len() ==> r is Ok
                &&& r is Ok ==> after.memory() == Some(
                    injected(
                        memory,
                        before.layout().input_offset as int,
                        write_pos,
                        bytes,
                        before.layout().cap as int,
                    ),
                )
            },
            None => r is Err,
        })
    }

    /// What `write_batch` makes of a sandboxed engine in legacy mode: the whole
    /// batch goes to the engine's accessor, vector by vector, and is not cut at
    /// the end of the region.
    pub open spec fn legacy_batch_written(
        before: WasmBackend,
        after: WasmBackend,
        write_pos: int,
        bytes: int,
        r: Result<usize, BackendError>,
    ) -> bool {
        let in_ring = write_pos < before.layout().cap && bytes <= before.layout().cap;
        &&& !in_ring ==> r == Err::<usize, BackendError>(BackendError::WriteOutOfRegion)
            && after.memory() == before.memory()
        &&& in_ring && bytes == 0 ==> r is Ok && after.memory() == before.memory()
        &&& in_ring ==> (r matches Err(e) ==> e is EngineTrapped)
    }

    /// Writes `count` vectors of the input pattern into the input region at
    /// `write_pos` and returns the write cursor after it: `3 * count` bytes
    /// further around the ring. Where the regions are reached directly, the
    /// write is made in two parts where it crosses the end of the region: the
    /// part up to the end at the cursor, the rest at the start of the region.
    /// In legacy mode the whole batch is handed to the engine's accessor. The
    /// first raw write that fails ends the batch with its error.
    pub fn write_batch(&mut self, write_pos: usize, count: usize) -> (r: Result<usize, BackendError>)
        requires
            old(self).wf(),
            write_pos <= old(self).capacity(),
            write_pos + 3 * count <= usize::MAX,
        ensures
            final(self).wf(),
            old(self).backend().same_engine(&final(self).backend()),
            r matches Ok(next) ==> next == advanced(
                write_pos as int,
                3 * count,
                old(self).capacity() as int,
            ),
            match (old(self).backend(), final(self).backend()) {
                (Backend::Native(before), Backend::Native(after)) => Self::native_batch_written(
                    before,
                    after,
                    write_pos as int,
                    3 * count,
                    r,
                ),
                (Backend::Wasm(before), Backend::Wasm(after)) => if before.layout().capabilities.zero_copy {
                    Self::direct_batch_written(before, after, write_pos as int, 3 * count, r)
                } else {
                    Self::legacy_batch_written(before, after, write_pos as int, 3 * count, r)
                },
                _ => true,
            },
    {
        let cap = self.backend.get_cap();
        let input_offset = self.backend.get_input_offset();
        proof {
            self.backend.lemma_layout_bounds();
        }
        let bytes_needed = count * 3;
        self.ensure_noise(bytes_needed);
        let split = split_write(write_pos, bytes_needed, cap);
        let src = vstd::slice::slice_subrange(self.noise_buffer.as_slice(), 0, bytes_needed);
        let ghost start = self.backend;
        assert(src@ =~= noise_run(0, bytes_needed as int));
        let legacy = match &self.backend {
            Backend::Native(_) => false,
            Backend::Wasm(wasm) => !wasm.capabilities().zero_copy,
        };
        if legacy {
            match &mut self.backend {
                Backend::Native(_) => {},
                Backend::Wasm(wasm) => {
                    match wasm.write_vectors(write_pos, src) {
                        Ok(()) => {},
                        Err(e) => {
                            return Err(e);
                        },
                    }
                },
            }
        } else if split.second == 0 {
            match self.backend.write_bytes(input_offset + write_pos, src) {
                Ok(()) => {},
                Err(e) => {
                    return Err(e);
                },
            }
            proof {
                if let (Backend::Native(before), Backend::Native(after)) = (start, self.backend()) {
                    assert(after.kernel.buffer@ =~= split_written(
                        before.kernel.buffer@,
                        0,
                        write_pos as int,
                        3 * count,
                        BUFFER_SIZE as int,
                    ));
                    lemma_split_written_is_injected(
                        before.kernel.buffer@,
                        0,
                        write_pos as int,
                        3 * count,
                        BUFFER_SIZE as int,
                    );
                }
                if let (Backend::Wasm(before), Backend::Wasm(after)) = (start, self.backend()) {
                    if write_pos < cap && 3 * count <= cap {
                        assert(after.memory().unwrap() =~= injected(
                            before.memory().unwrap(),
                            input_offset as int,
                            write_pos as int,
                            3 * count,
                            cap as int,
                        ));
                    }
                }
            }
        } else {
            let head = vstd::slice::slice_subrange(src, 0, split.first);
            assert(head@ =~= noise_run(0, split.first as int));
            match self.backend.write_bytes(input_offset + write_pos, head) {
                Ok(()) => {},
                Err(e) => {
                    return Err(e);
                },
            }
            let tail = vstd::slice::slice_subrange(src, split.first, bytes_needed);
            assert(tail@ =~= noise_run(split.first as int, split.second as int));
            match self.backend.write_bytes(input_offset, tail) {
                Ok(()) => {},
                Err(e) => {
                    return Err(e);
                },
            }
            proof {
                if let (Backend::Native(before), Backend::Native(after)) = (start, self.backend()) {
                    if 3 * count <= BUFFER_SIZE {
                        lemma_split_written_is_injected(
                            before.kernel.buffer@,
                            0,
                            write_pos as int,
                            3 * count,
                            BUFFER_SIZE as int,
                        );
                    }
                }
                if let (Backend::Wasm(before), Backend::Wasm(after)) = (start, self.backend()) {
                    if write_pos < cap && 3 * count <= cap {
                        assert(after.memory().unwrap() =~= injected(
                            before.memory().unwrap(),
                            input_offset as int,
                            write_pos as int,
                            3 * count,
                            cap as int,
                        ));
                    }
                }
            }
        }
        Ok(split.next_pos)
    }

    /// The bridge runs the in-process engine, the engine is intact, its heads
    /// are the cursors of the run, and the `pending` bytes that were injected
    /// and not consumed are a part of a vector.
    pub open spec fn in_step(&self, write_pos: usize, read_pos: usize, pending: int) -> bool {
        match self.backend() {
            Backend::Native(native) => {
                &&& native.kernel.intact()
                &&& native.kernel.write_head == write_pos
                &&& native.kernel.read_head == read_pos
                &&& native.kernel.unread() == pending
                &&& 0 <= pending < 3
            },
            Backend::Wasm(_) => false,
        }
    }

    /// The bridge runs the in-process engine, and both its heads are at the
    /// start of the ring.
    pub open spec fn at_rest(&self) -> bool {
        match self.backend() {
            Backend::Native(native) => native.kernel.read_head == 0 && native.kernel.write_head
                == 0,
            Backend::Wasm(_) => false,
        }
    }

    /// The bridge runs the in-process engine, and its sentinels hold their
    /// values.
    pub open spec fn sentinels_intact(&self) -> bool {
        match self.backend() {
            Backend::Native(native) => native.kernel.intact(),
            Backend::Wasm(_) => false,
        }
    }

    /// Reads up to `SAMPLE_LIMIT` of the `processed_vecs` output vectors that
    /// follow `read_pos` and compares each with what the input pattern, taken
    /// from its start, should have given. Returns how many were read and how
    /// many of them differ. The in-process engine is left as it was; where its
    /// output holds what the pattern should give, no sample differs.
    fn verify_samples(&mut self, read_pos: usize, processed_vecs: usize) -> (r: Result<
        (usize, usize),
        BackendError,
    >)
        requires
            old(self).wf(),
            read_pos < old(self).capacity(),
        ensures
            final(self).wf(),
            old(self).backend().same_engine(&final(self).backend()),
            r matches Ok(counts) ==> counts.0 == (if processed_vecs > SAMPLE_LIMIT {
                SAMPLE_LIMIT
            } else {
                processed_vecs
            }) && counts.1 <= counts.0,
            match (old(self).backend(), final(self).backend()) {
                (Backend::Native(before), Backend::Native(after)) => {
                    &&& after.same_state(&before)
                    &&& (read_pos == 0 ==> r is Ok)
                    &&& read_pos == 0 && output_agrees(
                        before.kernel.output_buffer@,
                        processed_vecs as int,
                    ) ==> (r matches Ok(counts) && counts.1 == 0)
                },
                _ => true,
            },
    {
        let cap = self.backend.get_cap();
        let output_offset = self.backend.get_output_offset();
        proof {
            self.backend.lemma_layout_bounds();
        }
        let limit = sample_count(processed_vecs);
        let ghost start = self.backend;
        let mut mismatched: usize = 0;
        let mut k: usize = 0;
        while k < limit
            invariant
                self.wf(),
                old(self).backend().same_engine(&self.backend()),
                start == old(self).backend(),
                cap == self.capacity(),
                0 < cap <= i32::MAX,
                output_offset == self.backend().output_offset(),
                output_offset <= i32::MAX,
                read_pos < cap,
                limit <= SAMPLE_LIMIT,
                limit <= processed_vecs,
                k <= limit,
                mismatched <= k,
                match (start, self.backend()) {
                    (Backend::Native(before), Backend::Native(after)) => {
                        &&& after.same_state(&before)
                        &&& read_pos == 0 && output_agrees(
                            before.kernel.output_buffer@,
                            processed_vecs as int,
                        ) ==> mismatched == 0
                    },
                    _ => true,
                },
            decreases limit - k,
        {
            let idx = advance(read_pos, k * 3, cap);
            proof {
                if start is Native && read_pos == 0 {
                    assert(cap == BUFFER_SIZE);
                    assert(k < SAMPLE_LIMIT);
                    assert((3 * k) % (BUFFER_SIZE as int) == 3 * k);
                    assert(idx == 3 * k);
                }
            }
            let found = match self.backend.read_bytes(output_offset + idx, 3) {
                Ok(found) => found,
                Err(e) => {
                    return Err(e);
                },
            };
            let expected = normalize_vector(noise_at(k * 3), noise_at(k * 3 + 1), noise_at(k * 3 + 2));
            proof {
                if let (Backend::Native(before), Backend::Native(after)) = (start, self.backend()) {
                    if read_pos == 0 && output_agrees(
                        before.kernel.output_buffer@,
                        processed_vecs as int,
                    ) {
                        assert(found@ == before.kernel.output_buffer@.subrange(
                            3 * k as int,
                            3 * k + 3,
                        ));
                        assert(found@[0] == expected_sample(k as int, 0));
                        assert(found@[1] == expected_sample(k as int, 1));
                        assert(found@[2] == expected_sample(k as int, 2));
                    }
                }
            }
            if found[0] != expected.0 || found[1] != expected.1 || found[2] != expected.2 {
                mismatched += 1;
            }
            k += 1;
        }
        Ok((limit, mismatched))
    }

    /// What feeding makes of an in-process engine that is intact: `bytes` bytes
    /// of the pattern are written at `write_pos`, the write head is set to the
    /// cursor after them, and the engine consumes `count` bytes, which is
    /// every whole vector between its read head and that cursor.
    pub open spec fn native_fed(
        before: NativeBackend,
        after: NativeBackend,
        write_pos: int,
        bytes: int,
        count: int,
    ) -> bool {
        let cap = BUFFER_SIZE as int;
        let next = advanced(write_pos, bytes, cap);
        let unread = unread_between(before.kernel.read_head as int, next, cap);
        &&& count == consumed(unread)
        &&& after.kernel.buffer@ == split_written(before.kernel.buffer@, 0, write_pos, bytes, cap)
        &&& after.kernel.output_buffer@ == processed_output(
            after.kernel.buffer@,
            before.kernel.output_buffer@,
            before.kernel.read_head as int,
            count,
        )
        &&& after.kernel.read_head == (before.kernel.read_head + count) % cap
        &&& after.kernel.write_head == next
        &&& after.kernel.unread() == unread - count
        &&& after.kernel.canary == before.kernel.canary
        &&& after.kernel.tail_canary == before.kernel.tail_canary
    }

    /// What a whole cycle, number `i`, makes of an in-process engine that is
    /// intact: the engine is fed, and where the batched addition is due, every
    /// vector that was consumed in this cycle is added at the engine's new
    /// read head.
    pub open spec fn native_cycled(
        before: NativeBackend,
        after: NativeBackend,
        i: int,
        write_pos: int,
        bytes: int,
        count: int,
    ) -> bool {
        let cap = BUFFER_SIZE as int;
        let next = advanced(write_pos, bytes, cap);
        let unread = unread_between(before.kernel.read_head as int, next, cap);
        let normalized = processed_output(
            after.kernel.buffer@,
            before.kernel.output_buffer@,
            before.kernel.read_head as int,
            count,
        );
        &&& count == consumed(unread)
        &&& after.kernel.buffer@ == split_written(before.kernel.buffer@, 0, write_pos, bytes, cap)
        &&& after.kernel.output_buffer@ == (if add_due(i, count / 3) {
            accumulated_output(
                after.kernel.buffer@,
                normalized,
                after.kernel.read_head as int,
                (count / 3) as nat,
            )
        } else {
            normalized
        })
        &&& after.kernel.read_head == (before.kernel.read_head + count) % cap
        &&& after.kernel.write_head == next
        &&& after.kernel.unread() == unread - count
        &&& after.kernel.canary == before.kernel.canary
        &&& after.kernel.tail_canary == before.kernel.tail_canary
    }

    /// Both sentinels of an in-process engine are the same in `self` and
    /// `after`; of a sandboxed engine nothing is said.
    pub open spec fn same_sentinels(&self, after: &Self) -> bool {
        match (self.backend(), after.backend()) {
            (Backend::Native(before), Backend::Native(then)) => then.kernel.canary
                == before.kernel.canary && then.kernel.tail_canary == before.kernel.tail_canary,
            _ => true,
        }
    }

    /// Injects a batch at `write_pos`, announces it and lets the engine work.
    /// Returns the write cursor after the batch and the engine's count of
    /// consumed bytes. The first step that fails ends the feeding with its
    /// error. On the in-process engine the write fails exactly where the batch
    /// reaches more than a lap beyond the end of the region, and the engine
    /// refuses to work exactly where a sentinel was overwritten.
    fn feed(&mut self, write_pos: usize, batch_size: usize) -> (r: Result<
        (usize, usize),
        BridgeError,
    >)
        requires
            old(self).wf(),
            write_pos < old(self).capacity(),
            old(self).capacity() + 3 * batch_size <= usize::MAX,
        ensures
            final(self).wf(),
            old(self).backend().same_engine(&final(self).backend()),
            old(self).same_sentinels(final(self)),
            r matches Ok(fed) ==> {
                &&& fed.0 == advanced(write_pos as int, 3 * batch_size, old(self).capacity() as int)
                &&& fed.1 <= i32::MAX
                &&& fed.1 % 3 == 0
            },
            match (old(self).backend(), final(self).backend()) {
                (Backend::Native(before), Backend::Native(after)) => {
                    if write_pos + 3 * batch_size > 2 * BUFFER_SIZE {
                        r == Err::<(usize, usize), BridgeError>(
                            BridgeError::Backend(BackendError::WriteOutOfRegion),
                        )
                    } else if !before.kernel.intact() {
                        r == Err::<(usize, usize), BridgeError>(
                            BridgeError::Backend(BackendError::CanaryCorrupted),
                        )
                    } else {
                        r matches Ok(fed) && Self::native_fed(
                            before,
                            after,
                            write_pos as int,
                            3 * batch_size,
                            fed.1 as int,
                        )
                    }
                },
                _ => true,
            },
    {
        let next_write = match self.write_batch(write_pos, batch_size) {
            Ok(next) => next,
            Err(e) => {
                return Err(BridgeError::Backend(e));
            },
        };
        proof {
            self.backend.lemma_layout_bounds();
        }
        match self.backend.set_write_head(next_write as i32) {
            Ok(()) => {},
            Err(e) => {
                return Err(BridgeError::Backend(e));
            },
        }
        let reply = match self.backend.process_tensor_stream() {
            Ok(reply) => reply,
            Err(e) => {
                return Err(BridgeError::Backend(e));
            },
        };
        Ok((next_write, reply as usize))
    }

    /// Samples the output, in the first cycle of a run that verifies, and runs
    /// the batched operations that are due in cycle `i`, each with the count
    /// that `due_batches` gives: every vector consumed in this cycle. Returns
    /// the samples read, the samples that differ, and whether the addition and
    /// the dot product ran. A failure of a read or of a batched operation ends
    /// the cycle with its error. On the in-process engine the batched
    /// operations never fail, and nothing but the output region changes: it
    /// changes by the addition, where that is due.
    fn exercise(
        &mut self,
        i: usize,
        read_pos: usize,
        processed_vecs: usize,
        verify_active: bool,
    ) -> (r: Result<(usize, usize, bool, bool), BridgeError>)
        requires
            old(self).wf(),
            read_pos < old(self).capacity(),
            processed_vecs <= i32::MAX,
        ensures
            final(self).wf(),
            old(self).backend().same_engine(&final(self).backend()),
            old(self).same_sentinels(final(self)),
            r matches Ok(done) ==> {
                &&& done.1 <= done.0 <= SAMPLE_LIMIT
                &&& !(verify_active && i == 0) ==> done.0 == 0
                &&& verify_active && i == 0 ==> done.0 == (if processed_vecs > SAMPLE_LIMIT {
                    SAMPLE_LIMIT
                } else {
                    processed_vecs
                })
                &&& done.2 == add_due(i as int, processed_vecs as int)
                &&& done.3 == dot_due(i as int, processed_vecs as int)
            },
            match (old(self).backend(), final(self).backend()) {
                (Backend::Native(before), Backend::Native(after)) => {
                    &&& after.kernel.buffer@ == before.kernel.buffer@
                    &&& after.kernel.read_head == before.kernel.read_head
                    &&& after.kernel.write_head == before.kernel.write_head
                    &&& (read_pos == 0 || !(verify_active && i == 0) ==> r is Ok)
                    &&& r is Ok ==> after.kernel.output_buffer@ == (if add_due(
                        i as int,
                        processed_vecs as int,
                    ) {
                        accumulated_output(
                            before.kernel.buffer@,
                            before.kernel.output_buffer@,
                            before.kernel.read_head as int,
                            processed_vecs as nat,
                        )
                    } else {
                        before.kernel.output_buffer@
                    })
                    &&& ((read_pos == 0 && output_agrees(
                        before.kernel.output_buffer@,
                        processed_vecs as int,
                    )) || !(verify_active && i == 0) ==> (r matches Ok(done) && done.1 == 0))
                },
                _ => true,
            },
    {
        let mut sampled: usize = 0;
        let mut mismatched: usize = 0;
        if verify_active && i == 0 {
            match self.verify_samples(read_pos, processed_vecs) {
                Ok(counts) => {
                    sampled = counts.0;
                    mismatched = counts.1;
                },
                Err(e) => {
                    return Err(BridgeError::Backend(e));
                },
            }
        }
        let due = due_batches(i, processed_vecs);
        match due.add {
            Some(count) => {
                match self.backend.vector_add_batch(count) {
                    Ok(()) => {},
                    Err(e) => {
                        return Err(BridgeError::Backend(e));
                    },
                }
            },
            None => {},
        }
        match due.dot {
            Some(count) => {
                match self.backend.vector_dot_batch(count) {
                    Ok(_) => {},
                    Err(e) => {
                        return Err(BridgeError::Backend(e));
                    },
                }
            },
            None => {},
        }
        Ok((sampled, mismatched, due.add.is_some(), due.dot.is_some()))
    }

    /// One cycle of a run, number `i`: inject a batch at `write_pos`, announce
    /// it, let the engine work, sample the output in the first cycle where
    /// that is asked for, and run the batched operations that are due. The
    /// first step that fails ends the cycle with its error.
    ///
    /// On the in-process engine the cycle fails exactly where the batch reaches
    /// more than a lap beyond the end of the region, where a sentinel was
    /// overwritten, or where a sample would be read across the end of the
    /// region, which does not happen from read cursor 0. Otherwise the engine
    /// is left as `native_cycled` says. Where the cycle starts with the engine
    /// and both cursors at the start of the ring and writes at most one lap, no
    /// sample differs.
    pub fn run_cycle(
        &mut self,
        i: usize,
        write_pos: usize,
        read_pos: usize,
        batch_size: usize,
        verify_active: bool,
    ) -> (r: Result<Cycle, BridgeError>)
        requires
            old(self).wf(),
            write_pos < old(self).capacity(),
            read_pos < old(self).capacity(),
            old(self).capacity() + 3 * batch_size <= usize::MAX,
        ensures
            final(self).wf(),
            old(self).backend().same_engine(&final(self).backend()),
            old(self).same_sentinels(final(self)),
            r matches Ok(cycle) ==> {
                &&& cycle.write_pos == advanced(
                    write_pos as int,
                    3 * batch_size,
                    old(self).capacity() as int,
                )
                &&& cycle.read_pos == advanced(
                    read_pos as int,
                    cycle.processed as int,
                    old(self).capacity() as int,
                )
                &&& cycle.processed % 3 == 0
                &&& cycle.processed <= i32::MAX
                &&& cycle.mismatched <= cycle.sampled <= SAMPLE_LIMIT
                &&& !(verify_active && i == 0) ==> cycle.sampled == 0
                &&& verify_active && i == 0 ==> cycle.sampled == (if cycle.processed / 3
                    > SAMPLE_LIMIT {
                    SAMPLE_LIMIT
                } else {
                    cycle.processed / 3
                })
                &&& cycle.added == add_due(i as int, cycle.processed as int / 3)
                &&& cycle.dotted == dot_due(i as int, cycle.processed as int / 3)
            },
            match (old(self).backend(), final(self).backend()) {
                (Backend::Native(before), Backend::Native(after)) => {
                    if write_pos + 3 * batch_size > 2 * BUFFER_SIZE {
                        r == Err::<Cycle, BridgeError>(
                            BridgeError::Backend(BackendError::WriteOutOfRegion),
                        )
                    } else if !before.kernel.intact() {
                        r == Err::<Cycle, BridgeError>(
                            BridgeError::Backend(BackendError::CanaryCorrupted),
                        )
                    } else {
                        &&& r is Ok <== read_pos == 0 || !(verify_active && i == 0)
                        &&& r matches Ok(cycle) ==> Self::native_cycled(
                            before,
                            after,
                            i as int,
                            write_pos as int,
                            3 * batch_size,
                            cycle.processed as int,
                        )
                        &&& write_pos == 0 && read_pos == 0 && before.kernel.read_head == 0 && 3
                            * batch_size <= BUFFER_SIZE ==> (r matches Ok(cycle)
                            && cycle.mismatched == 0)
                    }
                },
                _ => true,
            },
    {
        let cap = self.backend.get_cap();
        proof {
            self.backend.lemma_layout_bounds();
        }
        let ghost start = self.backend;
        let (next_write, processed) = match self.feed(write_pos, batch_size) {
            Ok(fed) => fed,
            Err(e) => {
                return Err(e);
            },
        };
        proof {
            if let (Backend::Native(before), Backend::Native(after)) = (start, self.backend()) {
                if write_pos == 0 && read_pos == 0 && before.kernel.read_head == 0 && 3
                    * batch_size <= BUFFER_SIZE {
                    lemma_split_written_is_injected(
                        before.kernel.buffer@,
                        0,
                        0,
                        3 * batch_size,
                        BUFFER_SIZE as int,
                    );
                    let next = advanced(0, 3 * batch_size, BUFFER_SIZE as int);
                    if 3 * batch_size < BUFFER_SIZE {
                        assert((3 * batch_size) % 65536 == 3 * batch_size);
                    } else {
                        assert((3 * batch_size) % 65536 == 0);
                    }
                    assert(0 <= next <= 3 * batch_size);
                    assert(unread_between(0, next, BUFFER_SIZE as int) == next);
                    assert(processed <= 3 * batch_size);
                    lemma_pattern_output_agrees(
                        before.kernel.buffer@,
                        before.kernel.output_buffer@,
                        3 * batch_size,
                        processed as int,
                    );
                }
            }
        }
        let (sampled, mismatched, added, dotted) = match self.exercise(
            i,
            read_pos,
            processed / 3,
            verify_active,
        ) {
            Ok(done) => done,
            Err(e) => {
                return Err(e);
            },
        };
        let next_read = advance(read_pos, processed, cap);
        Ok(
            Cycle {
                write_pos: next_write,
                read_pos: next_read,
                processed,
                sampled,
                mismatched,
                added,
                dotted,
            },
        )
    }

    /// Cycle `i` of a run from write cursor 0, with `bytes` bytes per batch,
    /// writes no more than a lap beyond the end of the in-process engine's
    /// region, so that both parts of its write fit the region.
    pub open spec fn batch_fits(i: int, bytes: int) -> bool {
        (i * bytes) % (BUFFER_SIZE as int) + bytes <= 2 * BUFFER_SIZE
    }

    /// Every cycle of a run of `iterations` cycles fits. A batch of at most one
    /// lap always does.
    pub open spec fn run_fits(iterations: int, bytes: int) -> bool {
        forall|i: int| 0 <= i < iterations ==> #[trigger] Self::batch_fits(i, bytes)
    }

    /// Runs `iterations` cycles of inject, announce, process, sample and
    /// batched operations, with both cursors starting at the start of the
    /// ring. The engine's integrity is checked before the first cycle and
    /// after the last, and `integrity_verdict` decides on each answer: an
    /// engine found corrupted is fatal. The output is sampled in the first
    /// cycle where `verify_active` is set; what the samples show never ends
    /// the run. The batched addition runs every 10th cycle and the batched dot
    /// product every 20th, where the engine consumed at least one vector. The
    /// first step that fails ends the run with its error.
    ///
    /// On the in-process engine: with a sentinel overwritten the run fails
    /// before any work and leaves the engine as it was. Otherwise it completes
    /// exactly where every batch fits, which a batch of at most one lap always
    /// does, and no other failure occurs. From an engine at rest, with room in
    /// the ring for a batch beside a partial vector, every whole vector
    /// injected has been consumed at the end and no sample differs.
    pub fn run_kinetic_loop(&mut self, iterations: usize, batch_size: usize, verify_active: bool) -> (r:
        Result<RunSummary, BridgeError>)
        requires
            old(self).wf(),
            old(self).capacity() + 3 * batch_size <= usize::MAX,
        ensures
            final(self).wf(),
            old(self).backend().same_engine(&final(self).backend()),
            old(self).same_sentinels(final(self)),
            r matches Ok(summary) ==> {
                &&& summary.iterations == iterations
                &&& summary.injected_bytes == iterations * (3 * batch_size)
                &&& summary.processed_bytes % 3 == 0
                &&& summary.mismatched <= summary.sampled <= SAMPLE_LIMIT
                &&& (!verify_active || iterations == 0) ==> summary.sampled == 0
                &&& summary.dot_batches <= summary.add_batches <= iterations
            },
            old(self).backend() is Native ==> {
                &&& !old(self).sentinels_intact() ==> r == Err::<RunSummary, BridgeError>(
                    BridgeError::StartupIntegrity,
                ) && final(self).backend() == old(self).backend()
                &&& old(self).sentinels_intact() ==> (r is Ok <==> Self::run_fits(
                    iterations as int,
                    3 * batch_size,
                ))
                &&& old(self).sentinels_intact() && r is Err ==> r == Err::<
                    RunSummary,
                    BridgeError,
                >(BridgeError::Backend(BackendError::WriteOutOfRegion))
                &&& old(self).sentinels_intact() && 3 * batch_size <= BUFFER_SIZE ==> r is Ok
            },
            old(self).at_rest() && old(self).sentinels_intact() && 3 * batch_size + 2
                < BUFFER_SIZE ==> (r matches Ok(summary) && summary.processed_bytes == consumed(
                summary.injected_bytes as int,
            ) && summary.mismatched == 0 && final(self).in_step(
                (summary.injected_bytes % (BUFFER_SIZE as u128)) as usize,
                (summary.processed_bytes % (BUFFER_SIZE as u128)) as usize,
                summary.injected_bytes - summary.processed_bytes,
            )),
    {
        let ghost native = old(self).backend() is Native;
        let ghost fresh = old(self).at_rest() && old(self).sentinels_intact() && 3 * batch_size
            + 2 < BUFFER_SIZE;
        let answer = self.backend.check_integrity();
        match integrity_verdict(answer, true) {
            Ok(()) => {},
            Err(e) => {
                return Err(e);
            },
        }
        let cap = self.backend.get_cap();
        proof {
            self.backend.lemma_layout_bounds();
            if 3 * batch_size <= BUFFER_SIZE {
                assert forall|j: int| 0 <= j < iterations implies #[trigger] Self::batch_fits(
                    j,
                    3 * batch_size,
                ) by {
                    assert((j * (3 * batch_size)) % (BUFFER_SIZE as int) < BUFFER_SIZE);
                }
            }
        }
        let bytes: usize = batch_size * 3;
        let mut write_pos: usize = 0;
        let mut read_pos: usize = 0;
        let mut summary = RunSummary {
            iterations: 0,
            injected_bytes: 0,
            processed_bytes: 0,
            sampled: 0,
            mismatched: 0,
            add_batches: 0,
            dot_batches: 0,
        };
        let mut i: usize = 0;
        while i < iterations
            invariant
                self.wf(),
                old(self).backend().same_engine(&self.backend()),
                old(self).same_sentinels(self),
                cap == self.capacity(),
                0 < cap <= i32::MAX,
                cap + 3 * batch_size <= usize::MAX,
                bytes == 3 * batch_size,
                write_pos < cap,
                read_pos < cap,
                i <= iterations,
                summary.iterations == i,
                summary.injected_bytes == i * (3 * batch_size),
                summary.processed_bytes <= i * 0x7fff_ffff,
                summary.processed_bytes % 3 == 0,
                summary.mismatched <= summary.sampled <= SAMPLE_LIMIT,
                (!verify_active || i == 0) ==> summary.sampled == 0,
                summary.dot_batches <= summary.add_batches <= i,
                i == 0 ==> write_pos == 0 && read_pos == 0 && summary.injected_bytes == 0
                    && summary.processed_bytes == 0,
                write_pos == summary.injected_bytes % (cap as u128),
                native == (old(self).backend() is Native),
                native ==> old(self).sentinels_intact() && self.sentinels_intact(),
                native ==> forall|j: int| 0 <= j < i ==> #[trigger] Self::batch_fits(j, 3 * batch_size),
                fresh == (old(self).at_rest() && old(self).sentinels_intact() && 3 * batch_size + 2
                    < BUFFER_SIZE),
                fresh ==> {
                    &&& self.in_step(
                        write_pos,
                        read_pos,
                        summary.injected_bytes - summary.processed_bytes,
                    )
                    &&& summary.processed_bytes <= summary.injected_bytes
                    &&& summary.mismatched == 0
                    &&& read_pos == summary.processed_bytes % (BUFFER_SIZE as u128)
                },
            decreases iterations - i,
        {
            assert((i + 1) * (3 * batch_size) == i * (3 * batch_size) + bytes) by (nonlinear_arith)
                requires
                    bytes == 3 * batch_size,
            ;
            assert((i + 1) * (3 * batch_size) <= u128::MAX) by (nonlinear_arith)
                requires
                    i + 1 <= usize::MAX,
                    3 * batch_size <= usize::MAX,
            ;
            assert((i + 1) * 0x7fff_ffff <= u128::MAX) by (nonlinear_arith)
                requires
                    i + 1 <= usize::MAX,
            ;
            assert((i + 1) * 0x7fff_ffff == i * 0x7fff_ffff + 0x7fff_ffff) by (nonlinear_arith);
            proof {
                if native {
                    assert(cap == BUFFER_SIZE);
                    assert(Self::batch_fits(i as int, 3 * batch_size) == (write_pos + bytes <= 2
                        * BUFFER_SIZE));
                }
                if fresh {
                    lemma_inject_extends_unread(
                        read_pos as int,
                        write_pos as int,
                        bytes as int,
                        BUFFER_SIZE as int,
                    );
                }
            }
            let cycle = match self.run_cycle(i, write_pos, read_pos, batch_size, verify_active) {
                Ok(cycle) => cycle,
                Err(e) => {
                    return Err(e);
                },
            };
            proof {
                lemma_advanced_total(summary.injected_bytes as int, bytes as int, cap as int);
                lemma_advanced_total(
                    summary.processed_bytes as int,
                    cycle.processed as int,
                    cap as int,
                );
            }
            write_pos = cycle.write_pos;
            read_pos = cycle.read_pos;
            summary.injected_bytes = summary.injected_bytes + bytes as u128;
            summary.processed_bytes = summary.processed_bytes + cycle.processed as u128;
            if verify_active && i == 0 {
                summary.sampled = cycle.sampled;
                summary.mismatched = cycle.mismatched;
            }
            if cycle.added {
                summary.add_batches = summary.add_batches + 1;
            }
            if cycle.dotted {
                summary.dot_batches = summary.dot_batches + 1;
            }
            summary.iterations = summary.iterations + 1;
            i += 1;
        }

        let answer = self.backend.check_integrity();
        match integrity_verdict(answer, false) {
            Ok(()) => {},
            Err(e) => {
                return Err(e);
            },
        }
        Ok(summary)
    }
}

} // verus!
