//! The in-process reference engine: two byte regions of fixed size, a read
//! head and a write head, and two sentinel bytes that guard the state.

use vstd::prelude::*;
use vstd::wrapping::i32_specs;
use crate::normalize::{length_squared, normalize_vector, scaled_component};
use crate::ring::{consumed, lemma_consume_shrinks_unread, unread_between};

verus! {

/// Bytes in each of the two regions of the in-process engine.
pub const BUFFER_SIZE: usize = 65536;

/// Bit mask that reduces a position into `[0, BUFFER_SIZE)`.
pub const MASK: usize = BUFFER_SIZE - 1;

/// Sentinel stored ahead of the engine state.
pub const HEAD_CANARY: u8 = 0xAA;

/// Sentinel stored behind the engine state.
pub const TAIL_CANARY: u8 = 0x55;

pub struct NativeKernel {
    pub buffer: Vec<u8>,
    pub output_buffer: Vec<u8>,
    pub canary: u8,
    pub tail_canary: u8,
    pub read_head: usize,
    pub write_head: usize,
}

/// Reduces a position into the ring.
pub fn wrap(pos: usize) -> (r: usize)
    ensures
        r == pos % BUFFER_SIZE,
        r < BUFFER_SIZE,
{
    assert(pos & 0xFFFF == pos % 0x10000) by (bit_vector);
    pos & MASK
}

/// Squared length of the input vector whose first byte lies at ring position
/// `start` (taken modulo the ring size).
pub open spec fn vector_length_squared(input: Seq<u8>, start: int) -> nat {
    length_squared(
        input[start % (BUFFER_SIZE as int)],
        input[(start + 1) % (BUFFER_SIZE as int)],
        input[(start + 2) % (BUFFER_SIZE as int)],
    )
}

/// The output region after the engine has normalized the `count` input bytes
/// that follow `head`, three at a time: a position less than `count` bytes
/// ahead of `head` holds the scaled component of the vector that covers it, and
/// every other position keeps its byte.
#[verifier::opaque]
pub open spec fn processed_output(input: Seq<u8>, output: Seq<u8>, head: int, count: int) -> Seq<
    u8,
> {
    Seq::new(
        output.len(),
        |p: int|
            {
                let ahead = unread_between(head, p, BUFFER_SIZE as int);
                if ahead < count {
                    scaled_component(input[p], vector_length_squared(input, head + ahead - ahead % 3))
                } else {
                    output[p]
                }
            },
    )
}

/// Normalizing `a` bytes from `head` and then `b` bytes from where that ended
/// is normalizing `a + b` bytes from `head`, as long as the run stays within
/// one lap and `a` is a whole number of vectors.
pub proof fn lemma_processed_output_append(
    input: Seq<u8>,
    output: Seq<u8>,
    head: int,
    a: int,
    b: int,
)
    requires
        input.len() == BUFFER_SIZE,
        output.len() == BUFFER_SIZE,
        0 <= head < BUFFER_SIZE,
        0 <= a,
        0 <= b,
        a + b <= BUFFER_SIZE,
        a % 3 == 0,
    ensures
        processed_output(
            input,
            processed_output(input, output, head, a),
            (head + a) % (BUFFER_SIZE as int),
            b,
        ) == processed_output(input, output, head, a + b),
{
    reveal(processed_output);
    let cap = BUFFER_SIZE as int;
    let mid = (head + a) % cap;
    let first = processed_output(input, output, head, a);
    let both = processed_output(input, first, mid, b);
    let whole = processed_output(input, output, head, a + b);
    assert forall|p: int| 0 <= p < cap implies both[p] == whole[p] by {
        let ahead = unread_between(head, p, cap);
        let ahead_mid = unread_between(mid, p, cap);
        if ahead >= a {
            assert(ahead_mid == ahead - a);
            let start = head + ahead - ahead % 3;
            let start_mid = mid + ahead_mid - ahead_mid % 3;
            assert(start_mid % cap == start % cap);
            assert((start_mid + 1) % cap == (start + 1) % cap);
            assert((start_mid + 2) % cap == (start + 2) % cap);
        } else {
            assert(ahead_mid >= b);
        }
    }
    assert(both =~= whole);
}

/// Normalizing no bytes leaves the output region as it is.
pub proof fn lemma_processed_output_none(input: Seq<u8>, output: Seq<u8>, head: int)
    requires
        0 <= head < BUFFER_SIZE,
        output.len() == BUFFER_SIZE,
    ensures
        processed_output(input, output, head, 0) == output,
{
    reveal(processed_output);
    assert(processed_output(input, output, head, 0) =~= output);
}


/// The output region after the input bytes of the `count` positions that
/// follow `head` have been added, saturating at 255, to the output bytes at
/// the same positions.
#[verifier::opaque]
pub open spec fn added_output(input: Seq<u8>, output: Seq<u8>, head: int, count: int) -> Seq<u8> {
    Seq::new(
        output.len(),
        |p: int|
            if unread_between(head, p, BUFFER_SIZE as int) < count {
                if output[p] + input[p] > 255 {
                    255u8
                } else {
                    (output[p] + input[p]) as u8
                }
            } else {
                output[p]
            },
    )
}

/// The output region after `n` vectors, starting at `head` and following each
/// other around the ring, have been added one after the other. After a full
/// lap the window overlaps itself and positions are added again.
pub open spec fn accumulated_output(input: Seq<u8>, output: Seq<u8>, head: int, n: nat) -> Seq<u8>
    decreases n,
{
    if n == 0 {
        output
    } else {
        added_output(
            input,
            accumulated_output(input, output, head, (n - 1) as nat),
            (head + 3 * (n - 1)) % (BUFFER_SIZE as int),
            3,
        )
    }
}

/// Sum of the products of input and output bytes over the three positions of
/// the vector that starts at ring position `start`.
pub open spec fn vector_dot(input: Seq<u8>, output: Seq<u8>, start: int) -> int {
    let second = (start + 1) % (BUFFER_SIZE as int);
    let third = (start + 2) % (BUFFER_SIZE as int);
    input[start] * output[start] + input[second] * output[second] + input[third] * output[third]
}

/// Sum of `vector_dot` over `n` vectors that start at `head` and follow each
/// other around the ring.
pub open spec fn window_dot(input: Seq<u8>, output: Seq<u8>, head: int, n: nat) -> int
    decreases n,
{
    if n == 0 {
        0
    } else {
        window_dot(input, output, head, (n - 1) as nat) + vector_dot(
            input,
            output,
            (head + 3 * (n - 1)) % (BUFFER_SIZE as int),
        )
    }
}

/// The 32-bit two's complement number that `v` wraps to.
pub open spec fn wrapped_i32(v: int) -> int {
    (v + 0x8000_0000) % 0x1_0000_0000 - 0x8000_0000
}

/// A count taken as a number of vectors: a negative count selects none.
pub open spec fn vector_count(count: i32) -> nat {
    if count > 0 {
        count as nat
    } else {
        0
    }
}

/// Within one lap, adding `n` vectors one after the other adds every byte of
/// the window exactly once.
pub proof fn lemma_accumulated_within_lap(input: Seq<u8>, output: Seq<u8>, head: int, n: nat)
    requires
        input.len() == BUFFER_SIZE,
        output.len() == BUFFER_SIZE,
        0 <= head < BUFFER_SIZE,
        3 * n <= BUFFER_SIZE,
    ensures
        accumulated_output(input, output, head, n) == added_output(input, output, head, 3 * (n as int)),
    decreases n,
{
    reveal(added_output);
    let cap = BUFFER_SIZE as int;
    if n == 0 {
        assert(added_output(input, output, head, 0) =~= output);
    } else {
        let m = (n - 1) as nat;
        lemma_accumulated_within_lap(input, output, head, m);
        let before = added_output(input, output, head, 3 * (m as int));
        let mid = (head + 3 * m) % cap;
        let after = added_output(input, before, mid, 3);
        let whole = added_output(input, output, head, 3 * (n as int));
        assert forall|p: int| 0 <= p < cap implies after[p] == whole[p] by {
            let ahead = unread_between(head, p, cap);
            let ahead_mid = unread_between(mid, p, cap);
            if ahead >= 3 * m {
                assert(ahead_mid == ahead - 3 * m);
            } else {
                assert(ahead_mid >= 3);
            }
        }
        assert(after =~= whole);
    }
}

/// The byte that a 32-bit value is cut to: its lowest eight bits.
pub open spec fn low_byte(val: i32) -> u8 {
    ((val as int) % 256) as u8
}

/// The ring position that a 32-bit offset is cut to: its lowest sixteen bits.
pub open spec fn low_position(offset: i32) -> int {
    (offset as int) % (BUFFER_SIZE as int)
}

/// Cuts a 32-bit value to its lowest eight bits.
pub fn low_byte_of(val: i32) -> (b: u8)
    ensures
        b == low_byte(val),
{
    if val >= 0 {
        (val % 256) as u8
    } else {
        let rest = (-(val as i64)) % 256;
        if rest == 0 {
            0
        } else {
            (256 - rest) as u8
        }
    }
}

/// Cuts a 32-bit offset to a ring position.
pub fn low_position_of(offset: i32) -> (p: usize)
    ensures
        p == low_position(offset),
        p < BUFFER_SIZE,
{
    if offset >= 0 {
        (offset % 65536) as usize
    } else {
        let rest = (-(offset as i64)) % 65536;
        if rest == 0 {
            0
        } else {
            (65536 - rest) as usize
        }
    }
}

/// Entry (`row`, `col`) of the product of the 4x4 byte matrices that lie row
/// by row at `a` and at `b` of the input region.
pub open spec fn matrix_cell(input: Seq<u8>, a: int, b: int, row: int, col: int) -> int {
    input[a + 4 * row] * input[b + col] + input[a + 4 * row + 1] * input[b + 4 + col] + input[a + 4
        * row + 2] * input[b + 8 + col] + input[a + 4 * row + 3] * input[b + 12 + col]
}

/// The output region after the product of the matrices at `a` and `b`, each
/// entry reduced modulo 255, has been stored row by row at `out`.
pub open spec fn matrix_output(input: Seq<u8>, output: Seq<u8>, a: int, b: int, out: int) -> Seq<
    u8,
> {
    Seq::new(
        output.len(),
        |p: int|
            if out <= p < out + 16 {
                (matrix_cell(input, a, b, (p - out) / 4, (p - out) % 4) % 255) as u8
            } else {
                output[p]
            },
    )
}

/// The batched dot product reads and never writes: on two engines with the
/// same regions and the same read head, such as one engine before and after a
/// call of it, it gives the same result.
pub proof fn lemma_dot_repeatable(first: NativeKernel, second: NativeKernel, count: i32)
    requires
        first.buffer@ == second.buffer@,
        first.output_buffer@ == second.output_buffer@,
        first.read_head == second.read_head,
    ensures
        wrapped_i32(
            window_dot(
                first.buffer@,
                first.output_buffer@,
                first.read_head as int,
                vector_count(count),
            ),
        ) == wrapped_i32(
            window_dot(
                second.buffer@,
                second.output_buffer@,
                second.read_head as int,
                vector_count(count),
            ),
        ),
{
}

/// An engine whose sentinels hold their values is intact, and overwriting
/// either sentinel with any other byte makes it corrupt.
pub proof fn lemma_canary_detects(kernel: NativeKernel)
    ensures
        kernel.canary == HEAD_CANARY && kernel.tail_canary == TAIL_CANARY ==> kernel.intact(),
        kernel.canary != HEAD_CANARY ==> !kernel.intact(),
        kernel.tail_canary != TAIL_CANARY ==> !kernel.intact(),
{
}

/// The product of two bytes is at most `255 * 255`.
pub proof fn lemma_byte_product(a: u8, b: u8)
    ensures
        0 <= a * b <= 255 * 255,
{
    assert(0 <= a * b <= 255 * 255) by (nonlinear_arith)
        requires
            0 <= a <= 255,
            0 <= b <= 255,
    ;
}

/// Adding a 32-bit number with wraparound to a wrapped sum gives the wrapped
/// sum of both.
pub proof fn lemma_wrapped_add(sum: int, term: i32)
    ensures
        i32_specs::wrapping_add(wrapped_i32(sum) as i32, term) == wrapped_i32(sum + term),
{
}

impl NativeKernel {
    /// Both regions have full size and both heads lie inside the ring.
    pub open spec fn wf(&self) -> bool {
        &&& self.buffer@.len() == BUFFER_SIZE
        &&& self.output_buffer@.len() == BUFFER_SIZE
        &&& self.read_head < BUFFER_SIZE
        &&& self.write_head < BUFFER_SIZE
    }

    /// Both sentinels still hold their original values.
    pub open spec fn intact(&self) -> bool {
        self.canary == HEAD_CANARY && self.tail_canary == TAIL_CANARY
    }

    /// Bytes announced by the host and not yet consumed.
    pub open spec fn unread(&self) -> int {
        unread_between(self.read_head as int, self.write_head as int, BUFFER_SIZE as int)
    }

    /// Everything but the output region is the same in `self` and `other`.
    pub open spec fn same_but_output(&self, other: &Self) -> bool {
        &&& self.buffer == other.buffer
        &&& self.canary == other.canary
        &&& self.tail_canary == other.tail_canary
        &&& self.read_head == other.read_head
        &&& self.write_head == other.write_head
    }

    pub fn new() -> (k: Self)
        ensures
            k.wf(),
            k.intact(),
            k.read_head == 0,
            k.write_head == 0,
            k.buffer@ == Seq::new(BUFFER_SIZE as nat, |i: int| 0u8),
            k.output_buffer@ == Seq::new(BUFFER_SIZE as nat, |i: int| 0u8),
    {
        let buffer: Vec<u8> = vec![0u8; BUFFER_SIZE];
        let output_buffer: Vec<u8> = vec![0u8; BUFFER_SIZE];
        assert(buffer@ =~= Seq::new(BUFFER_SIZE as nat, |i: int| 0u8));
        assert(output_buffer@ =~= Seq::new(BUFFER_SIZE as nat, |i: int| 0u8));
        NativeKernel {
            buffer,
            output_buffer,
            canary: HEAD_CANARY,
            tail_canary: TAIL_CANARY,
            read_head: 0,
            write_head: 0,
        }
    }

    /// Tells at run time whether the regions and heads are well formed.
    pub fn is_well_formed(&self) -> (b: bool)
        ensures
            b == self.wf(),
    {
        self.buffer.len() == BUFFER_SIZE && self.output_buffer.len() == BUFFER_SIZE
            && self.read_head < BUFFER_SIZE && self.write_head < BUFFER_SIZE
    }

    pub fn get_buffer_size(&self) -> (n: i32)
        ensures
            n == BUFFER_SIZE,
    {
        BUFFER_SIZE as i32
    }

    /// Announces how far the input region has been filled. A negative position
    /// is ignored; any other is reduced into the ring.
    pub fn set_write_head(&mut self, pos: i32)
        ensures
            old(self).wf() ==> final(self).wf(),
            final(self).write_head == (if pos >= 0 {
                (pos as int) % (BUFFER_SIZE as int)
            } else {
                old(self).write_head as int
            }),
            final(self).read_head == old(self).read_head,
            final(self).buffer == old(self).buffer,
            final(self).output_buffer == old(self).output_buffer,
            final(self).canary == old(self).canary,
            final(self).tail_canary == old(self).tail_canary,
    {
        if pos >= 0 {
            self.write_head = wrap(pos as usize);
        }
    }

    pub fn get_read_head(&self) -> (r: i32)
        requires
            self.wf(),
        ensures
            r == self.read_head,
    {
        self.read_head as i32
    }

    /// The output byte at `index` reduced into the ring, or 0 for a negative
    /// index.
    pub fn get_output_byte(&self, index: i32) -> (b: i32)
        requires
            self.wf(),
        ensures
            b == (if index >= 0 {
                self.output_buffer@[(index as int) % (BUFFER_SIZE as int)] as int
            } else {
                0
            }),
    {
        if index >= 0 {
            let idx = wrap(index as usize);
            self.output_buffer[idx] as i32
        } else {
            0
        }
    }

    /// The input region, for the host to fill.
    pub fn get_buffer_mut(&mut self) -> (region: &mut [u8])
        ensures
            region@ == old(self).buffer@,
            final(self).buffer@ == final(region)@,
            final(self).same_but_input(old(self)),
    {
        self.buffer.as_mut_slice()
    }

    /// The output region, for the host to read.
    pub fn get_output_buffer(&self) -> (region: &[u8])
        ensures
            region@ == self.output_buffer@,
    {
        self.output_buffer.as_slice()
    }

    /// Everything but the input region is the same in `self` and `other`.
    pub open spec fn same_but_input(&self, other: &Self) -> bool {
        &&& self.output_buffer == other.output_buffer
        &&& self.canary == other.canary
        &&& self.tail_canary == other.tail_canary
        &&& self.read_head == other.read_head
        &&& self.write_head == other.write_head
    }

    /// Stores the lowest eight bits of `val` at `index` of the input region,
    /// reduced into the ring. A negative index is ignored.
    pub fn set_input_byte(&mut self, index: i32, val: i32)
        requires
            old(self).wf(),
        ensures
            final(self).wf(),
            final(self).same_but_input(old(self)),
            final(self).buffer@ == (if index >= 0 {
                old(self).buffer@.update((index as int) % (BUFFER_SIZE as int), low_byte(val))
            } else {
                old(self).buffer@
            }),
    {
        if index >= 0 {
            let idx = wrap(index as usize);
            self.buffer[idx] = low_byte_of(val);
        }
    }

    /// Stores the lowest eight bits of `x`, `y` and `z` as the input vector at
    /// `index`, reduced into the ring; the second and third byte follow around
    /// the ring. A negative index is ignored.
    pub fn set_input_3_bytes(&mut self, index: i32, x: i32, y: i32, z: i32)
        requires
            old(self).wf(),
        ensures
            final(self).wf(),
            final(self).same_but_input(old(self)),
            final(self).buffer@ == (if index >= 0 {
                old(self).buffer@.update(
                    (index as int) % (BUFFER_SIZE as int),
                    low_byte(x),
                ).update((index as int + 1) % (BUFFER_SIZE as int), low_byte(y)).update(
                    (index as int + 2) % (BUFFER_SIZE as int),
                    low_byte(z),
                )
            } else {
                old(self).buffer@
            }),
    {
        if index >= 0 {
            let idx = wrap(index as usize);
            self.buffer[idx] = low_byte_of(x);
            self.buffer[wrap(idx + 1)] = low_byte_of(y);
            self.buffer[wrap(idx + 2)] = low_byte_of(z);
        }
    }

    /// Entry (`row`, `col`) of the product of the matrices at `a` and `b`.
    fn matrix_entry(&self, a: usize, b: usize, row: usize, col: usize) -> (sum: u32)
        requires
            self.wf(),
            a + 16 <= BUFFER_SIZE,
            b + 16 <= BUFFER_SIZE,
            row < 4,
            col < 4,
        ensures
            sum == matrix_cell(self.buffer@, a as int, b as int, row as int, col as int),
    {
        let a0 = self.buffer[a + 4 * row];
        let a1 = self.buffer[a + 4 * row + 1];
        let a2 = self.buffer[a + 4 * row + 2];
        let a3 = self.buffer[a + 4 * row + 3];
        let b0 = self.buffer[b + col];
        let b1 = self.buffer[b + 4 + col];
        let b2 = self.buffer[b + 8 + col];
        let b3 = self.buffer[b + 12 + col];
        proof {
            lemma_byte_product(a0, b0);
            lemma_byte_product(a1, b1);
            lemma_byte_product(a2, b2);
            lemma_byte_product(a3, b3);
        }
        (a0 as u32) * (b0 as u32) + (a1 as u32) * (b1 as u32) + (a2 as u32) * (b2 as u32) + (a3
            as u32) * (b3 as u32)
    }

    /// Multiplies the 4x4 byte matrices that lie at `a_offset` and `b_offset`
    /// of the input region and stores the product, each entry modulo 255, at
    /// `out_offset` of the output region. The offsets are reduced into the
    /// ring; where a matrix would reach beyond the end of its region nothing is
    /// done.
    pub fn matrix_multiply_4x4(&mut self, a_offset: i32, b_offset: i32, out_offset: i32)
        requires
            old(self).wf(),
        ensures
            final(self).wf(),
            final(self).same_but_output(old(self)),
            final(self).output_buffer@ == (if low_position(a_offset) + 16 <= BUFFER_SIZE
                && low_position(b_offset) + 16 <= BUFFER_SIZE && low_position(out_offset) + 16
                <= BUFFER_SIZE {
                matrix_output(
                    old(self).buffer@,
                    old(self).output_buffer@,
                    low_position(a_offset),
                    low_position(b_offset),
                    low_position(out_offset),
                )
            } else {
                old(self).output_buffer@
            }),
    {
        let a_idx = low_position_of(a_offset);
        let b_idx = low_position_of(b_offset);
        let out_idx = low_position_of(out_offset);
        if a_idx + 16 > BUFFER_SIZE || b_idx + 16 > BUFFER_SIZE || out_idx + 16 > BUFFER_SIZE {
            return ;
        }
        let mut cell: usize = 0;
        while cell < 16
            invariant
                self.wf(),
                self.same_but_output(old(self)),
                a_idx + 16 <= BUFFER_SIZE,
                b_idx + 16 <= BUFFER_SIZE,
                out_idx + 16 <= BUFFER_SIZE,
                cell <= 16,
                forall|p: int|
                    0 <= p < BUFFER_SIZE ==> #[trigger] self.output_buffer@[p] == (if out_idx <= p
                        < out_idx + cell {
                        (matrix_cell(
                            self.buffer@,
                            a_idx as int,
                            b_idx as int,
                            (p - out_idx) / 4,
                            (p - out_idx) % 4,
                        ) % 255) as u8
                    } else {
                        old(self).output_buffer@[p]
                    }),
            decreases 16 - cell,
        {
            let sum = self.matrix_entry(a_idx, b_idx, cell / 4, cell % 4);
            self.output_buffer[out_idx + cell] = (sum % 255) as u8;
            cell += 1;
        }
        assert(self.output_buffer@ =~= matrix_output(
            old(self).buffer@,
            old(self).output_buffer@,
            a_idx as int,
            b_idx as int,
            out_idx as int,
        ));
    }

    /// Bytes announced by the host and not yet consumed.
    pub fn diff(&self) -> (n: usize)
        requires
            self.wf(),
        ensures
            n == self.unread(),
            n < BUFFER_SIZE,
    {
        crate::ring::diff(self.read_head, self.write_head, BUFFER_SIZE)
    }

    /// Normalizes the vector whose first byte lies at `idx`; its second and
    /// third byte follow around the ring.
    pub fn process_vector_at(&mut self, idx: usize)
        requires
            old(self).wf(),
            idx < BUFFER_SIZE,
        ensures
            final(self).wf(),
            final(self).same_but_output(old(self)),
            final(self).output_buffer@ == processed_output(
                old(self).buffer@,
                old(self).output_buffer@,
                idx as int,
                3,
            ),
    {
        let idx_y = wrap(idx + 1);
        let idx_z = wrap(idx + 2);
        let (nx, ny, nz) = normalize_vector(self.buffer[idx], self.buffer[idx_y], self.buffer[idx_z]);
        self.output_buffer[idx] = nx;
        self.output_buffer[idx_y] = ny;
        self.output_buffer[idx_z] = nz;
        proof {
            reveal(processed_output);
        }
        assert(self.output_buffer@ =~= processed_output(
            old(self).buffer@,
            old(self).output_buffer@,
            idx as int,
            3,
        ));
    }


    /// Normalizes the vector whose three bytes lie at `pos`, `pos + 1` and
    /// `pos + 2`, without wrapping.
    fn normalize_into(input: &Vec<u8>, output: &mut Vec<u8>, pos: usize)
        requires
            input@.len() == BUFFER_SIZE,
            old(output)@.len() == BUFFER_SIZE,
            pos + 3 <= BUFFER_SIZE,
        ensures
            final(output)@.len() == BUFFER_SIZE,
            final(output)@ == processed_output(input@, old(output)@, pos as int, 3),
    {
        let (nx, ny, nz) = normalize_vector(input[pos], input[pos + 1], input[pos + 2]);
        output[pos] = nx;
        output[pos + 1] = ny;
        output[pos + 2] = nz;
        proof {
            reveal(processed_output);
        }
        assert(output@ =~= processed_output(input@, old(output)@, pos as int, 3));
    }

    /// Normalizes `vectors` consecutive vectors that start at `start + done`
    /// and do not wrap, given that `done` bytes from `start` are already
    /// normalized.
    fn normalize_run(
        input: &Vec<u8>,
        output: &mut Vec<u8>,
        start: usize,
        done: usize,
        vectors: usize,
        Ghost(original): Ghost<Seq<u8>>,
    )
        requires
            input@.len() == BUFFER_SIZE,
            original.len() == BUFFER_SIZE,
            start < BUFFER_SIZE,
            done % 3 == 0,
            start + done + 3 * vectors <= BUFFER_SIZE,
            old(output)@.len() == BUFFER_SIZE,
            old(output)@ == processed_output(input@, original, start as int, done as int),
        ensures
            final(output)@.len() == BUFFER_SIZE,
            final(output)@ == processed_output(
                input@,
                original,
                start as int,
                done + 3 * vectors,
            ),
    {
        let mut i: usize = 0;
        while i < vectors
            invariant
                i <= vectors,
                input@.len() == BUFFER_SIZE,
                original.len() == BUFFER_SIZE,
                start < BUFFER_SIZE,
                done % 3 == 0,
                start + done + 3 * vectors <= BUFFER_SIZE,
                output@.len() == BUFFER_SIZE,
                output@ == processed_output(input@, original, start as int, done + 3 * i),
            decreases vectors - i,
        {
            let ghost before = output@;
            Self::normalize_into(input, output, start + done + 3 * i);
            proof {
                lemma_processed_output_append(input@, original, start as int, done + 3 * i, 3);
            }
            i += 1;
        }
    }

    /// Normalizes a run of input that does not wrap: the bytes from `start` on,
    /// in blocks of 16 vectors and then of 4. At most 11 bytes at the end of
    /// the `len` given are left for the caller.
    pub fn process_contiguous_chunk_simd(
        input: &Vec<u8>,
        output: &mut Vec<u8>,
        start: usize,
        len: usize,
    )
        requires
            input@.len() == BUFFER_SIZE,
            old(output)@.len() == BUFFER_SIZE,
            start < BUFFER_SIZE,
            start + len <= BUFFER_SIZE,
        ensures
            final(output)@.len() == BUFFER_SIZE,
            final(output)@ == processed_output(
                input@,
                old(output)@,
                start as int,
                len - len % 12,
            ),
    {
        let ghost original = output@;
        let mut done: usize = 0;
        proof {
            lemma_processed_output_none(input@, original, start as int);
        }
        while len - done >= 48
            invariant
                done <= len,
                done % 12 == 0,
                input@.len() == BUFFER_SIZE,
                original.len() == BUFFER_SIZE,
                start < BUFFER_SIZE,
                start + len <= BUFFER_SIZE,
                output@.len() == BUFFER_SIZE,
                output@ == processed_output(input@, original, start as int, done as int),
            decreases len - done,
        {
            Self::normalize_run(input, output, start, done, 16, Ghost(original));
            done += 48;
        }
        while len - done >= 12
            invariant
                done <= len,
                done % 12 == 0,
                input@.len() == BUFFER_SIZE,
                original.len() == BUFFER_SIZE,
                start < BUFFER_SIZE,
                start + len <= BUFFER_SIZE,
                output@.len() == BUFFER_SIZE,
                output@ == processed_output(input@, original, start as int, done as int),
            decreases len - done,
        {
            Self::normalize_run(input, output, start, done, 4, Ghost(original));
            done += 12;
        }
        assert(done == len - len % 12);
    }

    /// Normalizes `vectors` vectors that start at the read head and follow each
    /// other around the ring. The read head stays where it is.
    fn normalize_wrapped(&mut self, vectors: usize)
        requires
            old(self).wf(),
            3 * vectors <= BUFFER_SIZE,
        ensures
            final(self).wf(),
            final(self).same_but_output(old(self)),
            final(self).output_buffer@ == processed_output(
                old(self).buffer@,
                old(self).output_buffer@,
                old(self).read_head as int,
                3 * vectors,
            ),
    {
        let ghost before = self.output_buffer@;
        let base = self.read_head;
        let mut k: usize = 0;
        proof {
            lemma_processed_output_none(self.buffer@, before, base as int);
        }
        while k < vectors
            invariant
                self.wf(),
                self.same_but_output(old(self)),
                self.read_head == base,
                before.len() == BUFFER_SIZE,
                3 * vectors <= BUFFER_SIZE,
                k <= vectors,
                self.output_buffer@ == processed_output(self.buffer@, before, base as int, 3 * k),
            decreases vectors - k,
        {
            self.process_vector_at(wrap(base + k * 3));
            proof {
                lemma_processed_output_append(self.buffer@, before, base as int, 3 * k, 3);
            }
            k += 1;
        }
    }

    /// Consumes one block of at least four vectors from the read head, given
    /// that `remaining` bytes are unread: a run of 16-vector blocks where the
    /// input does not wrap, else the vectors up to the end of the region, else
    /// four vectors across the end. Returns the number of bytes consumed.
    fn consume_block(&mut self, remaining: usize) -> (step: usize)
        requires
            old(self).wf(),
            48 <= remaining < BUFFER_SIZE,
        ensures
            final(self).wf(),
            12 <= step <= remaining,
            step % 3 == 0,
            final(self).read_head == (old(self).read_head + step) % (BUFFER_SIZE as int),
            final(self).output_buffer@ == processed_output(
                old(self).buffer@,
                old(self).output_buffer@,
                old(self).read_head as int,
                step as int,
            ),
            final(self).buffer == old(self).buffer,
            final(self).write_head == old(self).write_head,
            final(self).canary == old(self).canary,
            final(self).tail_canary == old(self).tail_canary,
    {
        let contiguous_len = BUFFER_SIZE - self.read_head;
        let step: usize;
        if contiguous_len >= 48 {
            let processable = if remaining < contiguous_len {
                remaining
            } else {
                contiguous_len
            };
            step = (processable / 48) * 48;
            Self::process_contiguous_chunk_simd(
                &self.buffer,
                &mut self.output_buffer,
                self.read_head,
                step,
            );
        } else if contiguous_len >= 12 {
            step = (contiguous_len / 12) * 12;
            self.normalize_wrapped(step / 3);
        } else {
            step = 12;
            self.normalize_wrapped(4);
        }
        self.read_head = wrap(self.read_head + step);
        step
    }

    /// Consumes every whole vector between the read head and the write head:
    /// each is normalized into the output region at the position it has in the
    /// input region, and the read head moves past it. Returns the number of
    /// bytes consumed.
    pub fn process_tensor_stream(&mut self) -> (processed: i32)
        requires
            old(self).wf(),
            old(self).intact(),
        ensures
            final(self).wf(),
            processed == consumed(old(self).unread()),
            final(self).unread() == old(self).unread() - processed,
            final(self).read_head == (old(self).read_head + processed) % (BUFFER_SIZE as int),
            final(self).output_buffer@ == processed_output(
                old(self).buffer@,
                old(self).output_buffer@,
                old(self).read_head as int,
                processed as int,
            ),
            final(self).buffer == old(self).buffer,
            final(self).write_head == old(self).write_head,
            final(self).canary == old(self).canary,
            final(self).tail_canary == old(self).tail_canary,
    {
        let ghost original = self.output_buffer@;
        let ghost head = self.read_head as int;
        let mut processed: usize = 0;
        let available = self.diff();
        proof {
            lemma_processed_output_none(self.buffer@, original, head);
        }
        if available < 3 {
            proof {
                lemma_consume_shrinks_unread(head, self.write_head as int, 0, BUFFER_SIZE as int);
            }
            return 0;
        }
        let mut remaining = available;

        while remaining >= 48
            invariant
                self.wf(),
                self.buffer == old(self).buffer,
                self.write_head == old(self).write_head,
                self.canary == old(self).canary,
                self.tail_canary == old(self).tail_canary,
                original.len() == BUFFER_SIZE,
                0 <= head < BUFFER_SIZE,
                available < BUFFER_SIZE,
                processed + remaining == available,
                processed % 3 == 0,
                self.read_head == (head + processed) % (BUFFER_SIZE as int),
                self.output_buffer@ == processed_output(
                    self.buffer@,
                    original,
                    head,
                    processed as int,
                ),
            decreases remaining,
        {
            let step = self.consume_block(remaining);
            proof {
                lemma_processed_output_append(
                    self.buffer@,
                    original,
                    head,
                    processed as int,
                    step as int,
                );
            }
            processed += step;
            remaining -= step;
        }

        while remaining >= 3
            invariant
                self.wf(),
                self.buffer == old(self).buffer,
                self.write_head == old(self).write_head,
                self.canary == old(self).canary,
                self.tail_canary == old(self).tail_canary,
                original.len() == BUFFER_SIZE,
                0 <= head < BUFFER_SIZE,
                available < BUFFER_SIZE,
                processed + remaining == available,
                processed % 3 == 0,
                self.read_head == (head + processed) % (BUFFER_SIZE as int),
                self.output_buffer@ == processed_output(
                    self.buffer@,
                    original,
                    head,
                    processed as int,
                ),
            decreases remaining,
        {
            self.process_vector_at(self.read_head);
            proof {
                lemma_processed_output_append(self.buffer@, original, head, processed as int, 3);
            }
            self.read_head = wrap(self.read_head + 3);
            processed += 3;
            remaining -= 3;
        }
        proof {
            lemma_consume_shrinks_unread(
                head,
                self.write_head as int,
                processed as int,
                BUFFER_SIZE as int,
            );
        }
        processed as i32
    }

    /// Adds the input vector at `idx` to the output vector at `idx`, each
    /// component saturating at 255.
    fn add_vector_at(&mut self, idx: usize)
        requires
            old(self).wf(),
            idx < BUFFER_SIZE,
        ensures
            final(self).wf(),
            final(self).same_but_output(old(self)),
            final(self).output_buffer@ == added_output(
                old(self).buffer@,
                old(self).output_buffer@,
                idx as int,
                3,
            ),
    {
        let idx_y = wrap(idx + 1);
        let idx_z = wrap(idx + 2);
        self.output_buffer[idx] = self.output_buffer[idx].saturating_add(self.buffer[idx]);
        self.output_buffer[idx_y] = self.output_buffer[idx_y].saturating_add(self.buffer[idx_y]);
        self.output_buffer[idx_z] = self.output_buffer[idx_z].saturating_add(self.buffer[idx_z]);
        proof {
            reveal(added_output);
        }
        assert(self.output_buffer@ =~= added_output(
            old(self).buffer@,
            old(self).output_buffer@,
            idx as int,
            3,
        ));
    }

    /// Adds vector number `i` of the window that starts at `head`; `idx` is
    /// its position. Returns the position of the next vector.
    fn add_next(
        &mut self,
        idx: usize,
        Ghost(original): Ghost<Seq<u8>>,
        Ghost(head): Ghost<int>,
        Ghost(i): Ghost<nat>,
    ) -> (next: usize)
        requires
            old(self).wf(),
            0 <= head < BUFFER_SIZE,
            idx == (head + 3 * i) % (BUFFER_SIZE as int),
            old(self).output_buffer@ == accumulated_output(old(self).buffer@, original, head, i),
        ensures
            final(self).wf(),
            final(self).same_but_output(old(self)),
            next == (head + 3 * (i + 1)) % (BUFFER_SIZE as int),
            final(self).output_buffer@ == accumulated_output(
                old(self).buffer@,
                original,
                head,
                i + 1,
            ),
    {
        self.add_vector_at(idx);
        wrap(idx + 3)
    }

    /// Adds `count` input vectors to the output region, starting at the read
    /// head and following the ring. The read head itself does not move, so a
    /// second call works on the same window. A negative count selects no
    /// vector. Returns the number of vectors added.
    pub fn vector_add_batch(&mut self, count: i32) -> (added: i32)
        requires
            old(self).wf(),
        ensures
            final(self).wf(),
            final(self).same_but_output(old(self)),
            added == vector_count(count),
            final(self).output_buffer@ == accumulated_output(
                old(self).buffer@,
                old(self).output_buffer@,
                old(self).read_head as int,
                vector_count(count),
            ),
    {
        let n: usize = if count > 0 {
            count as usize
        } else {
            0
        };
        let ghost original = self.output_buffer@;
        let ghost head = self.read_head as int;
        let mut processed: usize = 0;
        let mut idx = self.read_head;
        let mut i: usize = 0;
        while i + 4 <= n
            invariant
                self.wf(),
                self.same_but_output(old(self)),
                0 <= head < BUFFER_SIZE,
                n <= i32::MAX,
                i <= n,
                processed == i,
                idx == (head + 3 * i) % (BUFFER_SIZE as int),
                self.output_buffer@ == accumulated_output(self.buffer@, original, head, i as nat),
            decreases n - i,
        {
            idx = self.add_next(idx, Ghost(original), Ghost(head), Ghost(i as nat));
            idx = self.add_next(idx, Ghost(original), Ghost(head), Ghost((i + 1) as nat));
            idx = self.add_next(idx, Ghost(original), Ghost(head), Ghost((i + 2) as nat));
            idx = self.add_next(idx, Ghost(original), Ghost(head), Ghost((i + 3) as nat));
            i += 4;
            processed += 4;
        }
        while i < n
            invariant
                self.wf(),
                self.same_but_output(old(self)),
                0 <= head < BUFFER_SIZE,
                n <= i32::MAX,
                i <= n,
                processed == i,
                idx == (head + 3 * i) % (BUFFER_SIZE as int),
                self.output_buffer@ == accumulated_output(self.buffer@, original, head, i as nat),
            decreases n - i,
        {
            idx = self.add_next(idx, Ghost(original), Ghost(head), Ghost(i as nat));
            i += 1;
            processed += 1;
        }
        processed as i32
    }

    /// Products of input and output bytes over the vector at `idx`, summed.
    fn dot_vector_at(&self, idx: usize) -> (term: i32)
        requires
            self.wf(),
            idx < BUFFER_SIZE,
        ensures
            term == vector_dot(self.buffer@, self.output_buffer@, idx as int),
            0 <= term <= 3 * 255 * 255,
    {
        let idx_y = wrap(idx + 1);
        let idx_z = wrap(idx + 2);
        let in_x = self.buffer[idx];
        let in_y = self.buffer[idx_y];
        let in_z = self.buffer[idx_z];
        let out_x = self.output_buffer[idx];
        let out_y = self.output_buffer[idx_y];
        let out_z = self.output_buffer[idx_z];
        proof {
            lemma_byte_product(in_x, out_x);
            lemma_byte_product(in_y, out_y);
            lemma_byte_product(in_z, out_z);
        }
        let term_x = (in_x as i32) * (out_x as i32);
        let term_y = (in_y as i32) * (out_y as i32);
        let term_z = (in_z as i32) * (out_z as i32);
        term_x + term_y + term_z
    }

    /// Adds the dot product of vector number `i` of the window that starts at
    /// `head` to a running sum; `idx` is the vector's position. Returns the new
    /// sum and the position of the next vector.
    fn dot_next(&self, dot_sum: i32, idx: usize, Ghost(head): Ghost<int>, Ghost(i): Ghost<nat>) -> (out:
        (i32, usize))
        requires
            self.wf(),
            0 <= head < BUFFER_SIZE,
            idx == (head + 3 * i) % (BUFFER_SIZE as int),
            dot_sum == wrapped_i32(window_dot(self.buffer@, self.output_buffer@, head, i)),
        ensures
            out.1 == (head + 3 * (i + 1)) % (BUFFER_SIZE as int),
            out.0 == wrapped_i32(window_dot(self.buffer@, self.output_buffer@, head, i + 1)),
    {
        let term = self.dot_vector_at(idx);
        proof {
            lemma_wrapped_add(window_dot(self.buffer@, self.output_buffer@, head, i), term);
        }
        (dot_sum.wrapping_add(term), wrap(idx + 3))
    }

    /// Dot product of input and output over `count` vectors, starting at the
    /// read head and following the ring, summed with 32-bit wraparound. Nothing
    /// is changed. A negative count selects no vector.
    pub fn vector_dot_batch(&self, count: i32) -> (dot_sum: i32)
        requires
            self.wf(),
        ensures
            dot_sum == wrapped_i32(
                window_dot(
                    self.buffer@,
                    self.output_buffer@,
                    self.read_head as int,
                    vector_count(count),
                ),
            ),
    {
        let n: usize = if count > 0 {
            count as usize
        } else {
            0
        };
        let ghost head = self.read_head as int;
        let mut dot_sum: i32 = 0;
        let mut idx = self.read_head;
        let mut i: usize = 0;
        while i + 4 <= n
            invariant
                self.wf(),
                head == self.read_head,
                n <= i32::MAX,
                i <= n,
                idx == (head + 3 * i) % (BUFFER_SIZE as int),
                dot_sum == wrapped_i32(
                    window_dot(self.buffer@, self.output_buffer@, head, i as nat),
                ),
            decreases n - i,
        {
            let (sum, next) = self.dot_next(dot_sum, idx, Ghost(head), Ghost(i as nat));
            let (sum, next) = self.dot_next(sum, next, Ghost(head), Ghost((i + 1) as nat));
            let (sum, next) = self.dot_next(sum, next, Ghost(head), Ghost((i + 2) as nat));
            let (sum, next) = self.dot_next(sum, next, Ghost(head), Ghost((i + 3) as nat));
            dot_sum = sum;
            idx = next;
            i += 4;
        }
        while i < n
            invariant
                self.wf(),
                head == self.read_head,
                n <= i32::MAX,
                i <= n,
                idx == (head + 3 * i) % (BUFFER_SIZE as int),
                dot_sum == wrapped_i32(
                    window_dot(self.buffer@, self.output_buffer@, head, i as nat),
                ),
            decreases n - i,
        {
            let (sum, next) = self.dot_next(dot_sum, idx, Ghost(head), Ghost(i as nat));
            dot_sum = sum;
            idx = next;
            i += 1;
        }
        dot_sum
    }

    pub fn check_integrity(&self) -> (r: i32)
        ensures
            r == (if self.intact() {
                1int
            } else {
                0int
            }),
    {
        if self.canary == HEAD_CANARY && self.tail_canary == TAIL_CANARY {
            1
        } else {
            0
        }
    }
}

} // verus!
