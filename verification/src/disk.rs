//! Raw disk files: growing them, and finding the zero blocks that need no
//! space.
use vstd::prelude::*;

use crate::size::ByteSize;

verus! {

/// The length to give a disk file of `len` bytes so that it has at least
/// `size`; none if it has that already.
pub fn grow_disk(len: u64, size: ByteSize) -> (r: Option<u64>)
    ensures
        r == (if len < size.0 {
            Some(size.0)
        } else {
            None
        }),
{
    if len < size.0 {
        Some(size.0)
    } else {
        None
    }
}

/// The size of the blocks in which the host counts a file's space.
pub const SECTOR: u64 = 512;

/// The space that a file of so many blocks takes up; none if the file can't be
/// looked at. Blocks shared with other files (as clones) count too.
pub fn allocated(blocks: Option<u64>) -> (size: ByteSize)
    requires
        blocks is Some ==> blocks->0 * SECTOR <= u64::MAX,
    ensures
        size.0 == (match blocks {
            Some(n) => n * SECTOR,
            None => 0,
        }),
        blocks is Some ==> size.0 == blocks->0 * 512,
{
    match blocks {
        Some(n) => ByteSize(n * SECTOR),
        None => ByteSize(0),
    }
}

/// The length of a disk file of `len` bytes after growing it to `size`.
pub open spec fn grown(len: u64, size: ByteSize) -> u64 {
    if len < size.0 {
        size.0
    } else {
        len
    }
}

/// Disks never shrink, have the size that was asked for unless they were
/// larger, and growing to the same size again changes nothing.
pub proof fn law_disks_never_shrink(len: u64, size: ByteSize)
    ensures
        grown(len, size) >= len,
        grown(len, size) >= size.0,
        grown(len, size) == len || grown(len, size) == size.0,
        grown(grown(len, size), size) == grown(len, size),
{
}

// ---------------------------------------------------------------------------
// Zero blocks
// ---------------------------------------------------------------------------

/// The unit in which a file's space is given back: 64 KiB.
pub const BLOCK: usize = 0x1_0000;

/// Bytes from `start` on that need no space.
#[derive(Clone, Copy, Debug, PartialEq, Eq, Structural)]
pub struct Hole {
    pub start: u64,
    pub len: u64,
}

/// A walk over a file's blocks.
#[derive(Clone, Copy, Debug, PartialEq, Eq, Structural)]
pub struct ZeroRuns {
    /// The offset of the next block.
    pub offset: u64,
    /// Start of the current run of zero blocks.
    pub zero_run: Option<u64>,
}

/// Whether `bytes` is a whole block of zeros.
pub open spec fn zero_block(bytes: Seq<u8>) -> bool {
    bytes.len() == BLOCK && forall|i: int| 0 <= i < bytes.len() ==> bytes[i] == 0
}

/// The walk after one more block.
pub open spec fn run_next(run: ZeroRuns, block: Seq<u8>) -> ZeroRuns {
    ZeroRuns {
        offset: if block.len() < BLOCK {
            run.offset
        } else {
            (run.offset + BLOCK) as u64
        },
        zero_run: if zero_block(block) {
            if run.zero_run is None {
                Some(run.offset)
            } else {
                run.zero_run
            }
        } else {
            None
        },
    }
}

/// The hole that ends before one more block, if any.
pub open spec fn hole_before(run: ZeroRuns, block: Seq<u8>) -> Option<Hole> {
    match run.zero_run {
        Some(start) => if zero_block(block) {
            None
        } else {
            Some(Hole { start, len: (run.offset - start) as u64 })
        },
        None => None,
    }
}

fn is_zero_block(block: &[u8]) -> (r: bool)
    ensures
        r == zero_block(block@),
{
    if block.len() != BLOCK {
        return false;
    }
    let mut i: usize = 0;
    while i < block.len()
        invariant
            i <= block@.len(),
            forall|j: int| 0 <= j < i ==> block@[j] == 0,
        decreases block.len() - i,
    {
        if block[i] != 0 {
            assert(block@[i as int] != 0);
            return false;
        }
        i += 1;
    }
    true
}

impl ZeroRuns {
    /// A walk from the start of a file.
    pub fn new() -> (r: Self)
        ensures
            r == (ZeroRuns { offset: 0, zero_run: None }),
    {
        ZeroRuns { offset: 0, zero_run: None }
    }

    /// Takes in the next block of the file, and gives the hole that ends
    /// before it, if any. Only whole blocks can be given back; a block that
    /// is shorter ends the file and stays allocated.
    pub fn step(&mut self, block: &[u8]) -> (hole: Option<Hole>)
        requires
            block@.len() <= BLOCK,
            old(self).offset + BLOCK <= u64::MAX,
            old(self).zero_run is Some ==> old(self).zero_run->0 <= old(self).offset,
        ensures
            hole == hole_before(*old(self), block@),
            *final(self) == run_next(*old(self), block@),
            final(self).zero_run is Some ==> final(self).zero_run->0 <= final(self).offset,
    {
        let zero = is_zero_block(block);
        let mut hole: Option<Hole> = None;
        match self.zero_run {
            None => if zero {
                self.zero_run = Some(self.offset);
            },
            Some(start) => if !zero {
                hole = Some(Hole { start, len: self.offset - start });
                self.zero_run = None;
            },
        }
        if block.len() == BLOCK {
            self.offset = self.offset + BLOCK as u64;
        }
        hole
    }
}

// ---------------------------------------------------------------------------
// Laws
// ---------------------------------------------------------------------------

/// The bytes from `from` up to `to`, as far as `data` has them.
pub open spec fn clip(data: Seq<u8>, from: int, to: int) -> Seq<u8> {
    if from >= data.len() {
        Seq::empty()
    } else if to > data.len() {
        data.skip(from)
    } else {
        data.subrange(from, to)
    }
}

/// Block `n` of a file: shorter than a block at the end of the file.
pub open spec fn block_of(data: Seq<u8>, n: nat) -> Seq<u8> {
    clip(data, n * BLOCK, (n + 1) * BLOCK)
}

/// The number of whole blocks of a file.
pub open spec fn whole_blocks(data: Seq<u8>) -> nat {
    data.len() / (BLOCK as nat)
}

/// The walk over the first `n` blocks of a file.
pub open spec fn walked(data: Seq<u8>, n: nat) -> ZeroRuns
    decreases n,
{
    if n == 0 {
        ZeroRuns { offset: 0, zero_run: None }
    } else {
        run_next(walked(data, (n - 1) as nat), block_of(data, (n - 1) as nat))
    }
}

/// Whether byte `i` lies in the hole that ends before block `n`.
pub open spec fn in_hole_before(data: Seq<u8>, n: nat, i: int) -> bool {
    match hole_before(walked(data, n), block_of(data, n)) {
        Some(hole) => hole.start <= i < hole.start + hole.len,
        None => false,
    }
}

/// Whether byte `i` lies in a hole that ends before one of the first `n`
/// blocks.
pub open spec fn in_hole(data: Seq<u8>, n: nat, i: int) -> bool {
    exists|k: int| 0 <= k < n && #[trigger] in_hole_before(data, k as nat, i)
}

proof fn lemma_whole_block(data: Seq<u8>, n: nat)
    ensures
        n < whole_blocks(data) ==> block_of(data, n).len() == BLOCK && n * BLOCK + BLOCK
            <= data.len(),
        n >= whole_blocks(data) ==> block_of(data, n).len() < BLOCK,
{
    let b = BLOCK as int;
    let len = data.len() as int;
    let q = len / b;
    assert(len == q * b + len % b && 0 <= len % b < b) by (nonlinear_arith)
        requires
            b == 0x1_0000,
            q == len / b,
            len >= 0,
    ;
    if n < whole_blocks(data) {
        assert(n * b + b <= q * b) by (nonlinear_arith)
            requires
                n + 1 <= q,
                b == 0x1_0000,
        ;
        assert((n + 1) * b == n * b + b) by (nonlinear_arith);
    } else {
        assert(n * b + b > len) by (nonlinear_arith)
            requires
                n >= q,
                b == 0x1_0000,
                len == q * b + len % b,
                0 <= len % b < b,
        ;
        assert((n + 1) * b == n * b + b) by (nonlinear_arith);
    }
}

/// Where the walk stands after `n` whole blocks, and which bytes before it
/// need no space.
proof fn lemma_walked(data: Seq<u8>, n: nat, i: int)
    requires
        n <= whole_blocks(data),
        data.len() <= u64::MAX,
        0 <= i < n * BLOCK,
    ensures
        walked(data, n).offset == n * BLOCK,
        walked(data, n).zero_run is Some ==> walked(data, n).zero_run->0 < n * BLOCK,
        (in_hole(data, n, i) || (walked(data, n).zero_run is Some && walked(data, n).zero_run->0
            <= i)) <==> zero_block(block_of(data, (i / (BLOCK as int)) as nat)),
    decreases n,
{
    let b = BLOCK as int;
    let m = (n - 1) as nat;
    let block = block_of(data, m);
    lemma_whole_block(data, m);
    lemma_offset(data, m);
    lemma_offset(data, n);
    assert(n * b == m * b + b) by (nonlinear_arith)
        requires
            m == n - 1,
    ;
    let run = walked(data, m);
    let next = walked(data, n);
    assert(next == run_next(run, block));
    if i < m * b {
        lemma_walked(data, m, i);
        assert(in_hole(data, n, i) == (in_hole(data, m, i) || in_hole_before(data, m, i))) by {
            if in_hole(data, m, i) {
                let k = choose|k: int| 0 <= k < m && #[trigger] in_hole_before(data, k as nat, i);
                assert(in_hole_before(data, k as nat, i));
            }
            if in_hole_before(data, m, i) {
                assert(in_hole_before(data, m as int as nat, i));
            }
        }
    } else {
        assert(i / b == m) by (nonlinear_arith)
            requires
                m * b <= i < m * b + b,
                b == 0x1_0000,
        ;
        assert(!in_hole(data, n, i)) by {
            if in_hole(data, n, i) {
                let k = choose|k: int| 0 <= k < n && #[trigger] in_hole_before(data, k as nat, i);
                lemma_offset(data, k as nat);
                assert(k * b <= m * b) by (nonlinear_arith)
                    requires
                        k <= m,
                        b == 0x1_0000,
                ;
            }
        }
    }
}

proof fn lemma_offset(data: Seq<u8>, n: nat)
    requires
        n <= whole_blocks(data),
        data.len() <= u64::MAX,
    ensures
        walked(data, n).offset == n * BLOCK,
        n * BLOCK <= data.len(),
        walked(data, n).zero_run is Some ==> walked(data, n).zero_run->0 < n * BLOCK,
    decreases n,
{
    let b = BLOCK as int;
    if n > 0 {
        let m = (n - 1) as nat;
        lemma_offset(data, m);
        lemma_whole_block(data, m);
        assert(n * b == m * b + b) by (nonlinear_arith)
            requires
                m == n - 1,
        ;
    } else {
        assert(0 * b == 0) by (nonlinear_arith);
    }
}

/// A walk over a whole file, up to the block that ends it, gives back exactly
/// the whole blocks of zeros: a byte lies in a hole if and only if its block
/// is one. So no byte in a hole is other than zero.
pub proof fn law_holes_are_zero_blocks(data: Seq<u8>, i: int)
    requires
        data.len() <= u64::MAX,
        0 <= i < data.len(),
    ensures
        in_hole(data, whole_blocks(data) + 1, i) <==> zero_block(
            block_of(data, (i / (BLOCK as int)) as nat),
        ),
        in_hole(data, whole_blocks(data) + 1, i) ==> data[i] == 0,
{
    let b = BLOCK as int;
    let n = whole_blocks(data);
    lemma_offset(data, n);
    lemma_whole_block(data, n);
    assert(!zero_block(block_of(data, n)));
    let k = (i / b) as nat;
    assert(k * b <= i < k * b + b) by (nonlinear_arith)
        requires
            k == i / b,
            b == 0x1_0000,
    ;
    assert(in_hole(data, n + 1, i) == (in_hole(data, n, i) || in_hole_before(data, n, i))) by {
        if in_hole(data, n, i) {
            let j = choose|j: int| 0 <= j < n && #[trigger] in_hole_before(data, j as nat, i);
            assert(in_hole_before(data, j as nat, i));
        }
        if in_hole_before(data, n, i) {
            assert(in_hole_before(data, n as int as nat, i));
        }
    }
    if i < n * b {
        lemma_walked(data, n, i);
    } else {
        assert(k >= n) by (nonlinear_arith)
            requires
                n * b <= i,
                i < k * b + b,
                b == 0x1_0000,
        ;
        lemma_whole_block(data, k);
        assert(!in_hole(data, n, i)) by {
            if in_hole(data, n, i) {
                let j = choose|j: int| 0 <= j < n && #[trigger] in_hole_before(data, j as nat, i);
                lemma_offset(data, j as nat);
                assert(j * b <= n * b) by (nonlinear_arith)
                    requires
                        j <= n,
                        b == 0x1_0000,
                ;
            }
        }
    }
    if in_hole(data, n + 1, i) {
        let block = block_of(data, k);
        lemma_whole_block(data, k);
        assert((k + 1) * b == k * b + b) by (nonlinear_arith);
        assert(block[i - k * b] == data[i]);
    }
}

} // verus!
