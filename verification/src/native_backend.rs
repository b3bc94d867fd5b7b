//! The in-process engine behind the backend contract. The host addresses its
//! two regions as one span: the input region first, the output region after
//! it.

use vstd::prelude::*;
use crate::error::BackendError;
use crate::native_kernel::{
    accumulated_output,
    processed_output,
    vector_count,
    window_dot,
    wrapped_i32,
    NativeKernel,
    BUFFER_SIZE,
};
use crate::ring::consumed;

verus! {

/// `region` with the bytes of `data` put at `at`.
pub open spec fn overwritten(region: Seq<u8>, at: int, data: Seq<u8>) -> Seq<u8> {
    Seq::new(
        region.len(),
        |i: int|
            if at <= i < at + data.len() {
                data[i - at]
            } else {
                region[i]
            },
    )
}

/// Whether `len` bytes at `offset` lie within a region of `size` bytes that
/// starts at `base`.
pub open spec fn within(offset: int, len: int, base: int, size: int) -> bool {
    base <= offset && offset + len <= base + size
}

/// Putting no bytes anywhere leaves a region as it is.
pub proof fn lemma_overwritten_empty(region: Seq<u8>, at: int, data: Seq<u8>)
    requires
        data.len() == 0,
    ensures
        overwritten(region, at, data) == region,
{
    assert(overwritten(region, at, data) =~= region);
}

/// Puts `data` into `region` at `at`.
pub fn copy_into(region: &mut Vec<u8>, at: usize, data: &[u8])
    requires
        at + data@.len() <= old(region)@.len(),
    ensures
        final(region)@ == overwritten(old(region)@, at as int, data@),
{
    let size = region.len();
    let mut i: usize = 0;
    while i < data.len()
        invariant
            i <= data@.len(),
            size == region@.len(),
            region@.len() == old(region)@.len(),
            at + data@.len() <= region@.len(),
            forall|j: int| 0 <= j < region@.len() ==> #[trigger] region@[j] == (if at <= j < at + i {
                data@[j - at]
            } else {
                old(region)@[j]
            }),
        decreases data@.len() - i,
    {
        region[at + i] = data[i];
        i += 1;
    }
    assert(region@ =~= overwritten(old(region)@, at as int, data@));
}

/// Copies `len` bytes of `region` from `at` on.
pub fn copy_out(region: &Vec<u8>, at: usize, len: usize) -> (bytes: Vec<u8>)
    requires
        at + len <= region@.len(),
    ensures
        bytes@ == region@.subrange(at as int, at + len),
{
    let size = region.len();
    let mut bytes: Vec<u8> = Vec::with_capacity(len);
    let mut i: usize = 0;
    while i < len
        invariant
            i <= len,
            size == region@.len(),
            at + len <= region@.len(),
            bytes@ == region@.subrange(at as int, at + i),
        decreases len - i,
    {
        bytes.push(region[at + i]);
        assert(bytes@ =~= region@.subrange(at as int, at + i + 1));
        i += 1;
    }
    bytes
}

/// The in-process engine as a backend.
pub struct NativeBackend {
    pub kernel: NativeKernel,
}

impl NativeBackend {
    /// The engine inside is well formed.
    pub open spec fn wf(&self) -> bool {
        self.kernel.wf()
    }

    /// Heads, regions and sentinels are the same in `self` and `other`.
    pub open spec fn same_state(&self, other: &Self) -> bool {
        &&& self.kernel.buffer@ == other.kernel.buffer@
        &&& self.kernel.output_buffer@ == other.kernel.output_buffer@
        &&& self.kernel.canary == other.kernel.canary
        &&& self.kernel.tail_canary == other.kernel.tail_canary
        &&& self.kernel.read_head == other.kernel.read_head
        &&& self.kernel.write_head == other.kernel.write_head
    }

    /// What `set_write_head(pos)` makes of `self`: a position that is not
    /// negative, reduced into the ring, becomes the write head; nothing else
    /// changes.
    pub open spec fn announced(&self, after: &Self, pos: i32, r: Result<(), BackendError>) -> bool {
        &&& r.is_ok()
        &&& after.kernel.write_head == (if pos >= 0 {
            (pos as int) % (BUFFER_SIZE as int)
        } else {
            self.kernel.write_head as int
        })
        &&& after.kernel.read_head == self.kernel.read_head
        &&& after.kernel.buffer@ == self.kernel.buffer@
        &&& after.kernel.output_buffer@ == self.kernel.output_buffer@
        &&& after.kernel.canary == self.kernel.canary
        &&& after.kernel.tail_canary == self.kernel.tail_canary
    }

    /// What `process_tensor_stream` makes of `self`: with a sentinel
    /// overwritten it fails and changes nothing; otherwise every whole unread
    /// vector is normalized into the output region and the read head moves
    /// past it.
    pub open spec fn streamed(&self, after: &Self, r: Result<i32, BackendError>) -> bool {
        if self.kernel.intact() {
            let count = consumed(self.kernel.unread());
            &&& r == Ok::<i32, BackendError>(count as i32)
            &&& after.kernel.unread() == self.kernel.unread() - count
            &&& after.kernel.read_head == (self.kernel.read_head + count) % (BUFFER_SIZE as int)
            &&& after.kernel.output_buffer@ == processed_output(
                self.kernel.buffer@,
                self.kernel.output_buffer@,
                self.kernel.read_head as int,
                count,
            )
            &&& after.kernel.buffer@ == self.kernel.buffer@
            &&& after.kernel.write_head == self.kernel.write_head
            &&& after.kernel.canary == self.kernel.canary
            &&& after.kernel.tail_canary == self.kernel.tail_canary
        } else {
            r == Err::<i32, BackendError>(BackendError::CanaryCorrupted) && after.same_state(self)
        }
    }

    /// What `vector_add_batch(count)` makes of `self`: the input vectors of
    /// the window at the read head are added to the output region; nothing
    /// else changes.
    pub open spec fn batch_added(&self, after: &Self, count: i32, r: Result<(), BackendError>) -> bool {
        &&& r.is_ok()
        &&& after.kernel.output_buffer@ == accumulated_output(
            self.kernel.buffer@,
            self.kernel.output_buffer@,
            self.kernel.read_head as int,
            vector_count(count),
        )
        &&& after.kernel.buffer@ == self.kernel.buffer@
        &&& after.kernel.canary == self.kernel.canary
        &&& after.kernel.tail_canary == self.kernel.tail_canary
        &&& after.kernel.read_head == self.kernel.read_head
        &&& after.kernel.write_head == self.kernel.write_head
    }

    /// What `vector_dot_batch(count)` returns: the wrapped dot product over
    /// the window at the read head.
    pub open spec fn batch_dot(&self, count: i32) -> i32 {
        wrapped_i32(
            window_dot(
                self.kernel.buffer@,
                self.kernel.output_buffer@,
                self.kernel.read_head as int,
                vector_count(count),
            ),
        ) as i32
    }

    /// What `write_bytes(offset, data)` makes of `self`.
    pub open spec fn wrote(&self, after: &Self, offset: usize, data: Seq<u8>, r: Result<
        (),
        BackendError,
    >) -> bool {
        &&& after.kernel.canary == self.kernel.canary
        &&& after.kernel.tail_canary == self.kernel.tail_canary
        &&& after.kernel.read_head == self.kernel.read_head
        &&& after.kernel.write_head == self.kernel.write_head
        &&& within(offset as int, data.len() as int, 0, BUFFER_SIZE as int) ==> r.is_ok()
            && after.kernel.buffer@ == overwritten(self.kernel.buffer@, offset as int, data)
            && after.kernel.output_buffer@ == self.kernel.output_buffer@
        &&& within(offset as int, data.len() as int, BUFFER_SIZE as int, BUFFER_SIZE as int)
            ==> r.is_ok() && after.kernel.output_buffer@ == overwritten(
            self.kernel.output_buffer@,
            offset - BUFFER_SIZE,
            data,
        ) && after.kernel.buffer@ == self.kernel.buffer@
        &&& !within(offset as int, data.len() as int, 0, BUFFER_SIZE as int) && !within(
            offset as int,
            data.len() as int,
            BUFFER_SIZE as int,
            BUFFER_SIZE as int,
        ) ==> r == Err::<(), BackendError>(BackendError::WriteOutOfRegion) && after.same_state(self)
    }

    /// What `read_bytes(offset, len)` returns.
    pub open spec fn was_read(&self, offset: usize, len: usize, r: Result<Vec<u8>, BackendError>) -> bool {
        &&& within(offset as int, len as int, 0, BUFFER_SIZE as int) ==> r.is_ok() && r.unwrap()@
            == self.kernel.buffer@.subrange(offset as int, offset + len)
        &&& within(offset as int, len as int, BUFFER_SIZE as int, BUFFER_SIZE as int) ==> r.is_ok()
            && r.unwrap()@ == self.kernel.output_buffer@.subrange(
            offset - BUFFER_SIZE,
            offset - BUFFER_SIZE + len,
        )
        &&& !within(offset as int, len as int, 0, BUFFER_SIZE as int) && !within(
            offset as int,
            len as int,
            BUFFER_SIZE as int,
            BUFFER_SIZE as int,
        ) ==> r is Err && r.unwrap_err() == BackendError::ReadOutOfRegion
    }

    pub fn new() -> (backend: Self)
        ensures
            backend.wf(),
            backend.kernel.intact(),
            backend.kernel.read_head == 0,
            backend.kernel.write_head == 0,
            backend.kernel.buffer@ == Seq::new(BUFFER_SIZE as nat, |i: int| 0u8),
            backend.kernel.output_buffer@ == Seq::new(BUFFER_SIZE as nat, |i: int| 0u8),
    {
        NativeBackend { kernel: NativeKernel::new() }
    }

    /// Bytes per region.
    pub fn get_cap(&self) -> (cap: usize)
        ensures
            cap == BUFFER_SIZE,
    {
        BUFFER_SIZE
    }

    /// Where the input region starts in the span that the host addresses.
    pub fn get_input_offset(&self) -> (offset: usize)
        ensures
            offset == 0,
    {
        0
    }

    /// Where the output region starts in the span that the host addresses.
    pub fn get_output_offset(&self) -> (offset: usize)
        ensures
            offset == BUFFER_SIZE,
    {
        BUFFER_SIZE
    }

    /// Announces how far the input has been filled; a negative position is
    /// ignored.
    pub fn set_write_head(&mut self, pos: i32) -> (r: Result<(), BackendError>)
        requires
            old(self).wf(),
        ensures
            final(self).wf(),
            old(self).announced(final(self), pos, r),
    {
        self.kernel.set_write_head(pos);
        Ok(())
    }

    /// Lets the engine consume every whole unread vector. Fails, with nothing
    /// changed, exactly when a sentinel byte has been overwritten.
    pub fn process_tensor_stream(&mut self) -> (r: Result<i32, BackendError>)
        requires
            old(self).wf(),
        ensures
            final(self).wf(),
            old(self).streamed(final(self), r),
    {
        if self.kernel.check_integrity() == 0 {
            return Err(BackendError::CanaryCorrupted);
        }
        Ok(self.kernel.process_tensor_stream())
    }

    /// Adds `count` input vectors at the read head to the output region.
    pub fn vector_add_batch(&mut self, count: i32) -> (r: Result<(), BackendError>)
        requires
            old(self).wf(),
        ensures
            final(self).wf(),
            old(self).batch_added(final(self), count, r),
    {
        self.kernel.vector_add_batch(count);
        Ok(())
    }

    /// Computes the dot product over `count` vectors at the read head; the
    /// engine is left as it was.
    pub fn vector_dot_batch(&mut self, count: i32) -> (r: Result<i32, BackendError>)
        requires
            old(self).wf(),
        ensures
            final(self).wf(),
            *final(self) == *old(self),
            final(self).same_state(old(self)),
            r == Ok::<i32, BackendError>(old(self).batch_dot(count)),
    {
        Ok(self.kernel.vector_dot_batch(count))
    }

    /// 1 while both sentinel bytes hold their values, else 0.
    pub fn check_integrity(&mut self) -> (r: Result<i32, BackendError>)
        requires
            old(self).wf(),
        ensures
            final(self).wf(),
            *final(self) == *old(self),
            final(self).same_state(old(self)),
            r == Ok::<i32, BackendError>(
                if old(self).kernel.intact() {
                    1i32
                } else {
                    0i32
                },
            ),
    {
        Ok(self.kernel.check_integrity())
    }

    /// Writes `data` at `offset` of the span: into the input region where the
    /// write lies within the first `BUFFER_SIZE` bytes, into the output region
    /// where it lies within the second. Any other write fails and changes
    /// nothing.
    pub fn write_bytes(&mut self, offset: usize, data: &[u8]) -> (r: Result<(), BackendError>)
        requires
            old(self).wf(),
        ensures
            final(self).wf(),
            old(self).wrote(final(self), offset, data@, r),
    {
        let len = data.len();
        proof {
            if len == 0 {
                lemma_overwritten_empty(self.kernel.buffer@, offset as int, data@);
                lemma_overwritten_empty(self.kernel.output_buffer@, offset - BUFFER_SIZE, data@);
            }
        }
        if offset < BUFFER_SIZE {
            if len > BUFFER_SIZE - offset {
                return Err(BackendError::WriteOutOfRegion);
            }
            copy_into(&mut self.kernel.buffer, offset, data);
        } else {
            let rel_offset = offset - BUFFER_SIZE;
            if rel_offset > BUFFER_SIZE || len > BUFFER_SIZE - rel_offset {
                return Err(BackendError::WriteOutOfRegion);
            }
            copy_into(&mut self.kernel.output_buffer, rel_offset, data);
        }
        Ok(())
    }

    /// Reads `len` bytes at `offset` of the span, from the region that the
    /// range lies within. A range within neither region fails.
    pub fn read_bytes(&mut self, offset: usize, len: usize) -> (r: Result<Vec<u8>, BackendError>)
        requires
            old(self).wf(),
        ensures
            final(self).wf(),
            *final(self) == *old(self),
            final(self).same_state(old(self)),
            old(self).was_read(offset, len, r),
    {
        if offset < BUFFER_SIZE {
            if len > BUFFER_SIZE - offset {
                return Err(BackendError::ReadOutOfRegion);
            }
            Ok(copy_out(&self.kernel.buffer, offset, len))
        } else {
            let rel_offset = offset - BUFFER_SIZE;
            if rel_offset > BUFFER_SIZE || len > BUFFER_SIZE - rel_offset {
                return Err(BackendError::ReadOutOfRegion);
            }
            let bytes = copy_out(&self.kernel.output_buffer, rel_offset, len);
            proof {
                if len == 0 && offset == BUFFER_SIZE {
                    assert(bytes@ =~= self.kernel.buffer@.subrange(offset as int, offset + len));
                }
            }
            Ok(bytes)
        }
    }
}

} // verus!
