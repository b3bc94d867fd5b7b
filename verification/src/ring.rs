//! Arithmetic of a circular byte buffer: distances between cursors, cursor
//! advancement and the split of a write that crosses the end of the buffer.

use vstd::prelude::*;

verus! {

/// Number of unread bytes between a read head and a write head in a ring of
/// `capacity` bytes. It is also the distance travelled forward from `read` to
/// `write`.
pub open spec fn unread_between(read: int, write: int, capacity: int) -> int {
    if write >= read {
        write - read
    } else {
        (capacity - read) + write
    }
}

/// Unread byte count between two heads of a ring of `cap` bytes.
pub fn diff(read: usize, write: usize, cap: usize) -> (n: usize)
    requires
        read < cap,
        write < cap,
    ensures
        n == unread_between(read as int, write as int, cap as int),
        n < cap,
{
    if write >= read {
        write - read
    } else {
        (cap - read) + write
    }
}

/// A cursor moved `bytes` forward from `pos` around a ring of `cap` bytes.
pub open spec fn advanced(pos: int, bytes: int, cap: int) -> int {
    (pos + bytes) % cap
}

/// Moves a cursor `bytes` forward around a ring of `cap` bytes.
pub fn advance(pos: usize, bytes: usize, cap: usize) -> (next: usize)
    requires
        cap > 0,
        pos + bytes <= usize::MAX,
    ensures
        next == advanced(pos as int, bytes as int, cap as int),
        next < cap,
{
    (pos + bytes) % cap
}

/// A cursor that has travelled `total` bytes from the start of the ring and
/// moves `bytes` further stands where one stands that has travelled
/// `total + bytes`.
pub proof fn lemma_advanced_total(total: int, bytes: int, cap: int)
    requires
        cap > 0,
    ensures
        advanced(total % cap, bytes, cap) == (total + bytes) % cap,
{
    vstd::arithmetic::div_mod::lemma_add_mod_noop_right(bytes, total, cap);
}

/// The two contiguous parts into which a write of `first + second` bytes is
/// cut, and the cursor after it. The first part starts at the write cursor;
/// the second, if there is one, starts at the beginning of the region.
#[derive(Clone, Copy, Debug, PartialEq, Eq, Structural)]
pub struct WriteSplit {
    pub first: usize,
    pub second: usize,
    pub next_pos: usize,
}

/// Length of the part of a write of `bytes` bytes at `write_pos` that fits
/// before the end of a region of `cap` bytes.
pub open spec fn first_part(write_pos: int, bytes: int, cap: int) -> int {
    if write_pos + bytes <= cap {
        bytes
    } else {
        cap - write_pos
    }
}

/// Cuts a write of `bytes` bytes at `write_pos` where it crosses the end of a
/// region of `cap` bytes. Whatever the cut, both parts together are the whole
/// write and the cursor ends `bytes` further around the ring.
pub fn split_write(write_pos: usize, bytes: usize, cap: usize) -> (s: WriteSplit)
    requires
        cap > 0,
        write_pos <= cap,
        write_pos + bytes <= usize::MAX,
    ensures
        s.first == first_part(write_pos as int, bytes as int, cap as int),
        s.first + s.second == bytes,
        s.next_pos == advanced(write_pos as int, bytes as int, cap as int),
        write_pos + bytes > cap ==> write_pos + s.first == cap,
{
    let end_pos = write_pos + bytes;
    if end_pos <= cap {
        WriteSplit { first: bytes, second: 0, next_pos: end_pos % cap }
    } else {
        let first = cap - write_pos;
        WriteSplit { first, second: bytes - first, next_pos: end_pos % cap }
    }
}

/// Byte `i` of a split write that does not lap the region lands on the ring
/// position `i` bytes ahead of the write cursor: bytes of the first part at
/// `write_pos + i`, bytes of the second part at `i - first`.
pub proof fn lemma_split_covers(write_pos: int, bytes: int, cap: int, i: int)
    requires
        cap > 0,
        0 <= write_pos < cap,
        0 <= i < bytes <= cap,
    ensures
        i < first_part(write_pos, bytes, cap) ==> write_pos + i == advanced(write_pos, i, cap),
        i >= first_part(write_pos, bytes, cap) ==> i - first_part(write_pos, bytes, cap)
            == advanced(write_pos, i, cap),
{
    let first = first_part(write_pos, bytes, cap);
    if i < first {
        assert((write_pos + i) % cap == write_pos + i) by (nonlinear_arith)
            requires
                0 <= write_pos + i < cap,
        ;
    } else {
        assert((write_pos + i) % cap == write_pos + i - cap) by (nonlinear_arith)
            requires
                cap <= write_pos + i < 2 * cap,
        ;
    }
}

/// One step of a stream: the host announces `n` more bytes, or the engine
/// consumes every whole vector that is unread.
pub enum StreamOp {
    Inject(nat),
    Process,
}

/// Running totals of a stream.
pub struct Progress {
    pub unread: int,
    pub injected: int,
    pub processed: int,
}

/// Bytes that the engine consumes when `unread` bytes are unread: the whole
/// vectors among them.
pub open spec fn consumed(unread: int) -> int {
    unread - unread % 3
}

/// The totals after one step. An announcement of `n` bytes with room for them
/// adds `n` to what is unread (`lemma_inject_extends_unread`); a processing
/// step consumes `consumed(unread)` bytes, as the engine's contract has it.
pub open spec fn step(p: Progress, op: StreamOp) -> Progress {
    match op {
        StreamOp::Inject(n) => Progress {
            unread: p.unread + n,
            injected: p.injected + n,
            processed: p.processed,
        },
        StreamOp::Process => Progress {
            unread: p.unread - consumed(p.unread),
            injected: p.injected,
            processed: p.processed + consumed(p.unread),
        },
    }
}

/// The totals after a sequence of steps on a stream that starts empty.
pub open spec fn run(ops: Seq<StreamOp>) -> Progress
    decreases ops.len(),
{
    if ops.len() == 0 {
        Progress { unread: 0, injected: 0, processed: 0 }
    } else {
        step(run(ops.drop_last()), ops.last())
    }
}

/// No step announces more than the ring can hold beside what is unread.
pub open spec fn no_overwrite(ops: Seq<StreamOp>, cap: int) -> bool
    decreases ops.len(),
{
    if ops.len() == 0 {
        true
    } else {
        &&& no_overwrite(ops.drop_last(), cap)
        &&& match ops.last() {
            StreamOp::Inject(n) => run(ops.drop_last()).unread + n < cap,
            StreamOp::Process => true,
        }
    }
}

/// Conservation: after any sequence of injects and processing steps in which
/// no unread byte is overwritten, the bytes processed never exceed the bytes
/// injected; what separates the two totals is what is still unread.
pub proof fn lemma_conservation(ops: Seq<StreamOp>, cap: int)
    requires
        cap > 0,
        no_overwrite(ops, cap),
    ensures
        run(ops).processed <= run(ops).injected,
        run(ops).injected - run(ops).processed == run(ops).unread,
        0 <= run(ops).unread < cap,
        run(ops).processed % 3 == 0,
    decreases ops.len(),
{
    if ops.len() > 0 {
        lemma_conservation(ops.drop_last(), cap);
    }
}

/// Announcing `n` more bytes, with room for them, adds `n` to the distance
/// between the heads.
pub proof fn lemma_inject_extends_unread(read: int, write: int, n: int, cap: int)
    requires
        cap > 0,
        0 <= read < cap,
        0 <= write < cap,
        0 <= n,
        unread_between(read, write, cap) + n < cap,
    ensures
        unread_between(read, advanced(write, n, cap), cap) == unread_between(read, write, cap) + n,
{
    if write + n < cap {
        assert((write + n) % cap == write + n) by (nonlinear_arith)
            requires
                0 <= write + n < cap,
        ;
    } else {
        assert((write + n) % cap == write + n - cap) by (nonlinear_arith)
            requires
                cap <= write + n < 2 * cap,
        ;
    }
}

/// Consuming `k` of the unread bytes takes `k` off the distance between the
/// heads.
pub proof fn lemma_consume_shrinks_unread(read: int, write: int, k: int, cap: int)
    requires
        cap > 0,
        0 <= read < cap,
        0 <= write < cap,
        0 <= k <= unread_between(read, write, cap),
    ensures
        unread_between(advanced(read, k, cap), write, cap) == unread_between(read, write, cap) - k,
{
    if read + k < cap {
        assert((read + k) % cap == read + k) by (nonlinear_arith)
            requires
                0 <= read + k < cap,
        ;
    } else {
        assert((read + k) % cap == read + k - cap) by (nonlinear_arith)
            requires
                cap <= read + k < 2 * cap,
        ;
    }
}

} // verus!
