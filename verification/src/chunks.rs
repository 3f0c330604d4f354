//! How the file's bytes are laid out on the wire.
//!
//! The file is sent in `size / BUFFER_SIZE + 1` chunks of exactly
//! `BUFFER_SIZE` bytes each. Every chunk but the last carries a full buffer
//! of file data; the last carries the remaining `size % BUFFER_SIZE` bytes
//! followed by zeros. The receiver keeps, of each chunk, as many bytes as
//! the sender read into it.

use vstd::prelude::*;

verus! {

/// Bytes in one chunk on the wire.
pub const BUFFER_SIZE: u64 = 100000u64;

/// How many chunks a file of `size` bytes takes.
pub open spec fn spec_iterations(size: nat) -> nat {
    size / (BUFFER_SIZE as nat) + 1
}

/// How many file bytes the chunk sent while `remaining` chunks are still to
/// follow carries.
pub open spec fn spec_chunk_len(size: nat, remaining: nat) -> nat {
    if remaining != 0 {
        BUFFER_SIZE as nat
    } else {
        size % (BUFFER_SIZE as nat)
    }
}

/// The file bytes carried by chunk `k`, counting chunks from the first.
pub open spec fn chunk_data_len(size: nat, k: nat) -> nat {
    spec_chunk_len(size, (spec_iterations(size) - 1 - k) as nat)
}

/// File bytes carried by the first `k` chunks together.
pub open spec fn carried(size: nat, k: nat) -> nat
    decreases k,
{
    if k == 0 {
        0
    } else {
        carried(size, (k - 1) as nat) + chunk_data_len(size, (k - 1) as nat)
    }
}

/// `n` zero bytes.
pub open spec fn zeros(n: nat) -> Seq<u8> {
    Seq::new(n, |i: int| 0u8)
}

/// Chunk `k` as the sender puts it on the wire: the file bytes it carries,
/// padded with zeros to a full buffer.
pub open spec fn wire_chunk(file: Seq<u8>, k: nat) -> Seq<u8> {
    let len: nat = chunk_data_len(file.len(), k);
    let start: nat = k * (BUFFER_SIZE as nat);
    file.subrange(start as int, (start + len) as int) + zeros((BUFFER_SIZE as nat - len) as nat)
}

/// The first `k` chunks the sender writes for `file`.
pub open spec fn wire_prefix(file: Seq<u8>, k: nat) -> Seq<u8>
    decreases k,
{
    if k == 0 {
        Seq::empty()
    } else {
        wire_prefix(file, (k - 1) as nat) + wire_chunk(file, (k - 1) as nat)
    }
}

/// Everything the sender writes for `file`.
pub open spec fn sender_wire(file: Seq<u8>) -> Seq<u8> {
    wire_prefix(file, spec_iterations(file.len()))
}

/// What the receiver writes to disk from the first `k` chunks of `wire`,
/// for a file announced as `size` bytes long.
pub open spec fn saved_prefix(wire: Seq<u8>, size: nat, k: nat) -> Seq<u8>
    decreases k,
{
    if k == 0 {
        Seq::empty()
    } else {
        let j: nat = (k - 1) as nat;
        let start: nat = j * (BUFFER_SIZE as nat);
        saved_prefix(wire, size, j) + wire.subrange(start as int, (start + chunk_data_len(size, j)) as int)
    }
}

/// What the receiver writes to disk from all the chunks of `wire`.
pub open spec fn receiver_file(wire: Seq<u8>, size: nat) -> Seq<u8> {
    saved_prefix(wire, size, spec_iterations(size))
}

/// The number of chunks for a file of `size_total` bytes.
pub fn iteration_count(size_total: u64) -> (n: u64)
    ensures
        n == spec_iterations(size_total as nat),
{
    size_total / BUFFER_SIZE + 1
}

/// The number of file bytes in the chunk sent while `remaining` chunks are
/// still to follow: what the sender reads into it and the receiver keeps of it.
pub fn chunk_len(size_total: u64, remaining: u64) -> (len: usize)
    ensures
        len == spec_chunk_len(size_total as nat, remaining as nat),
        len <= BUFFER_SIZE,
{
    if remaining != 0 {
        BUFFER_SIZE as usize
    } else {
        (size_total % BUFFER_SIZE) as usize
    }
}

/// Every chunk but the last carries a full buffer.
proof fn lemma_carried(size: nat, k: nat)
    requires
        k <= spec_iterations(size),
    ensures
        k < spec_iterations(size) ==> carried(size, k) == k * (BUFFER_SIZE as nat),
        k == spec_iterations(size) ==> carried(size, k) == size,
    decreases k,
{
    let b: nat = BUFFER_SIZE as nat;
    if k > 0 {
        lemma_carried(size, (k - 1) as nat);
        if k == spec_iterations(size) {
            assert((size / b) * b + size % b == size) by (nonlinear_arith)
                requires
                    b > 0,
            ;
        }
    }
}

/// The chunks carry exactly the file: their file bytes add up to its size.
pub proof fn lemma_chunks_cover_file(size: nat)
    ensures
        carried(size, spec_iterations(size)) == size,
{
    lemma_carried(size, spec_iterations(size));
}

proof fn lemma_wire_prefix_len(file: Seq<u8>, k: nat)
    requires
        k <= spec_iterations(file.len()),
    ensures
        wire_prefix(file, k).len() == k * (BUFFER_SIZE as nat),
    decreases k,
{
    if k > 0 {
        lemma_wire_prefix_len(file, (k - 1) as nat);
        lemma_carried(file.len(), (k - 1) as nat);
        lemma_carried(file.len(), k);
    }
}

/// Chunk `j` sits at offset `j * BUFFER_SIZE` of every longer wire prefix.
proof fn lemma_wire_prefix_chunk(file: Seq<u8>, k: nat, j: nat)
    requires
        j < k <= spec_iterations(file.len()),
    ensures
        wire_prefix(file, k).subrange(
            (j * (BUFFER_SIZE as nat)) as int,
            ((j + 1) * (BUFFER_SIZE as nat)) as int,
        ) == wire_chunk(file, j),
    decreases k,
{
    let b: nat = BUFFER_SIZE as nat;
    lemma_wire_prefix_len(file, (k - 1) as nat);
    lemma_carried(file.len(), j);
    lemma_carried(file.len(), j + 1);
    let prev = wire_prefix(file, (k - 1) as nat);
    let w = wire_prefix(file, k);
    if j == k - 1 {
        assert(w.subrange((j * b) as int, ((j + 1) * b) as int) =~= wire_chunk(file, j));
    } else {
        lemma_wire_prefix_chunk(file, (k - 1) as nat, j);
        assert(w.subrange((j * b) as int, ((j + 1) * b) as int) =~= prev.subrange(
            (j * b) as int,
            ((j + 1) * b) as int,
        ));
    }
}

proof fn lemma_saved_prefix(file: Seq<u8>, k: nat)
    requires
        k <= spec_iterations(file.len()),
    ensures
        saved_prefix(sender_wire(file), file.len(), k) == file.take(carried(file.len(), k) as int),
    decreases k,
{
    let size: nat = file.len();
    let n: nat = spec_iterations(size);
    let b: nat = BUFFER_SIZE as nat;
    lemma_carried(size, k);
    if k > 0 {
        let j: nat = (k - 1) as nat;
        lemma_saved_prefix(file, j);
        lemma_carried(size, j);
        lemma_wire_prefix_chunk(file, n, j);
        let wire = sender_wire(file);
        let len: nat = chunk_data_len(size, j);
        lemma_wire_prefix_len(file, n);
        assert((j + 1) * b <= n * b) by (nonlinear_arith)
            requires
                j < n,
        ;
        let c = wire.subrange((j * b) as int, ((j + 1) * b) as int);
        assert(c == wire_chunk(file, j));
        assert(len <= b);
        assert(wire.subrange((j * b) as int, (j * b + len) as int) =~= c.subrange(0, len as int));
        assert(wire_chunk(file, j).subrange(0, len as int) =~= file.subrange(
            (j * b) as int,
            (j * b + len) as int,
        ));
        assert(file.take(carried(size, j) as int) + file.subrange(
            (j * b) as int,
            (j * b + len) as int,
        ) =~= file.take(carried(size, k) as int));
    }
}

/// What the receiver writes to disk is exactly the file the sender read.
pub proof fn lemma_receiver_gets_file(file: Seq<u8>)
    ensures
        receiver_file(sender_wire(file), file.len()) == file,
{
    lemma_saved_prefix(file, spec_iterations(file.len()));
    lemma_carried(file.len(), spec_iterations(file.len()));
    assert(file.take(file.len() as int) =~= file);
}

/// The sender writes whole chunks only, and pads with fewer than one chunk's
/// worth of zeros.
pub proof fn lemma_wire_length(file: Seq<u8>)
    ensures
        sender_wire(file).len() == spec_iterations(file.len()) * (BUFFER_SIZE as nat),
        file.len() < sender_wire(file).len() <= file.len() + BUFFER_SIZE,
        forall|r: nat| r > 0 ==> #[trigger] spec_chunk_len(file.len(), r) == 100000,
        spec_chunk_len(file.len(), 0) == file.len() % 100000,
{
    let b: nat = BUFFER_SIZE as nat;
    let size: nat = file.len();
    lemma_wire_prefix_len(file, spec_iterations(size));
    assert((size / b) * b + size % b == size) by (nonlinear_arith)
        requires
            b > 0,
    ;
    assert((size / b + 1) * b == (size / b) * b + b) by (nonlinear_arith);
}

} // verus!
