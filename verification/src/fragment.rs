//! Splitting a response into equal pieces for a datagram transport.
//!
//! A response of `len` bytes is cut into `chunks` pieces of `len / chunks`
//! bytes each, starting with one piece. The pieces go out in order. When the
//! transport refuses a piece the whole partition is given up, `chunks` doubles
//! and sending starts again at the first piece of the finer partition. The
//! bytes beyond `chunks * (len / chunks)` belong to no piece and are never
//! sent: the division rounds down and the remainder is dropped.
//!
//! The fragmenter only decides; the caller owns the socket, transmits the
//! piece it is handed and reports back whether the transport took it.

use vstd::prelude::*;
use vstd::slice::slice_subrange;

verus! {

/// Where a fragmenter stands: the response's length, the number of pieces of
/// the current partition, and how many of them have gone out.
pub struct Progress {
    pub len: nat,
    pub chunks: nat,
    pub next: nat,
}

/// `n` is a power of two.
pub open spec fn is_power_of_two(n: nat) -> bool
    decreases n,
{
    n == 1 || (n > 1 && n % 2 == 0 && is_power_of_two(n / 2))
}

/// The state before anything was sent: one piece, the whole response.
pub open spec fn start(len: nat) -> Progress {
    Progress { len, chunks: 1, next: 0 }
}

/// The length of each piece of the current partition.
pub open spec fn piece_len(p: Progress) -> nat {
    p.len / p.chunks
}

/// Where piece number `index` of the current partition begins.
pub open spec fn piece_begin(p: Progress, index: nat) -> nat {
    index * piece_len(p)
}

/// Where piece number `index` of the current partition ends.
pub open spec fn piece_end(p: Progress, index: nat) -> nat {
    index * piece_len(p) + piece_len(p)
}

/// Every piece of the current partition has gone out.
pub open spec fn done(p: Progress) -> bool {
    p.next == p.chunks
}

/// The state after the transport took the next piece.
pub open spec fn after_success(p: Progress) -> Progress {
    Progress { next: p.next + 1, ..p }
}

/// The state after the transport refused a piece: twice the pieces, none sent.
pub open spec fn after_failure(p: Progress) -> Progress {
    Progress { chunks: p.chunks * 2, next: 0, ..p }
}

/// A state that sending can reach.
pub open spec fn valid(p: Progress) -> bool {
    &&& is_power_of_two(p.chunks)
    &&& p.next <= p.chunks
}

/// How far a failed partition still is from pieces of length zero.
pub open spec fn slack(p: Progress) -> nat {
    if p.len >= p.chunks {
        (p.len - p.chunks + 1) as nat
    } else {
        0
    }
}

/// The state in which sending ends against a transport that takes a piece
/// exactly when it is no longer than `threshold`.
pub open spec fn run(p: Progress, threshold: nat) -> Progress
    recommends
        valid(p),
    decreases slack(p), p.chunks - p.next,
    when p.chunks >= 1 && p.next <= p.chunks
{
    if done(p) {
        p
    } else if piece_len(p) <= threshold {
        run(after_success(p), threshold)
    } else {
        proof {
            lemma_long_pieces(p.len, p.chunks);
        }
        run(after_failure(p), threshold)
    }
}

/// The first chunk count, doubling from `chunks`, whose pieces fit `threshold`.
pub open spec fn settled_chunks(len: nat, threshold: nat, chunks: nat) -> nat
    decreases slack(Progress { len, chunks, next: 0 }),
    when chunks >= 1
{
    if len / chunks <= threshold {
        chunks
    } else {
        proof {
            lemma_long_pieces(len, chunks);
        }
        settled_chunks(len, threshold, chunks * 2)
    }
}

/// Pieces of positive length leave no more pieces than bytes.
pub proof fn lemma_long_pieces(len: nat, chunks: nat)
    requires
        chunks >= 1,
        len / chunks > 0,
    ensures
        chunks <= len,
{
    assert(chunks <= len) by (nonlinear_arith)
        requires
            chunks >= 1,
            len / chunks > 0,
    ;
}

/// The pieces of a partition lie inside the response, one after the other.
pub proof fn lemma_pieces_adjacent(p: Progress, index: nat)
    requires
        p.chunks >= 1,
        index < p.chunks,
    ensures
        piece_begin(p, 0) == 0,
        piece_end(p, index) == piece_begin(p, index + 1),
        piece_end(p, index) <= p.chunks * piece_len(p),
        p.chunks * piece_len(p) <= p.len,
        p.len - p.chunks * piece_len(p) == p.len % p.chunks,
{
    let size = piece_len(p);
    assert(index * size + size == (index + 1) * size) by (nonlinear_arith);
    assert((index + 1) * size <= p.chunks * size) by (nonlinear_arith)
        requires
            index + 1 <= p.chunks,
    ;
    assert(p.chunks * (p.len / p.chunks) + p.len % p.chunks == p.len) by (nonlinear_arith)
        requires
            p.chunks >= 1,
    ;
}

/// The first `count` pieces of `size` bytes each, joined in order.
pub open spec fn joined_pieces(response: Seq<u8>, size: nat, count: nat) -> Seq<u8>
    decreases count,
{
    if count == 0 {
        Seq::<u8>::empty()
    } else {
        joined_pieces(response, size, (count - 1) as nat) + response.subrange(
            (count - 1) * size,
            (count - 1) * size + size,
        )
    }
}

/// Pieces that lie inside the response join to the bytes they span.
pub proof fn lemma_joined_pieces(response: Seq<u8>, size: nat, count: nat)
    requires
        count * size <= response.len(),
    ensures
        joined_pieces(response, size, count) == response.subrange(0, count * size as int),
    decreases count,
{
    if count == 0 {
        assert(count * size == 0) by (nonlinear_arith)
            requires
                count == 0,
        ;
        assert(response.subrange(0, 0) =~= Seq::<u8>::empty());
    } else {
        let before = (count - 1) as nat;
        assert(before * size + size == count * size) by (nonlinear_arith)
            requires
                before == count - 1,
        ;
        lemma_joined_pieces(response, size, before);
        assert(response.subrange(0, before * size as int) + response.subrange(
            before * size as int,
            before * size + size as int,
        ) =~= response.subrange(0, count * size as int));
    }
}

/// What one partition transmits: its pieces, in order, make up the first
/// `chunks * (len / chunks)` bytes of the response. The bytes after them, as
/// many as the division leaves over, are in no piece.
pub proof fn lemma_partition_transmits_prefix(response: Seq<u8>, chunks: nat)
    requires
        chunks >= 1,
    ensures
        chunks * (response.len() / chunks) == response.len() - response.len() % chunks,
        joined_pieces(response, response.len() / chunks, chunks) == response.subrange(
            0,
            response.len() - response.len() % chunks,
        ),
{
    let len = response.len();
    assert(chunks * (len / chunks) + len % chunks == len) by (nonlinear_arith)
        requires
            chunks >= 1,
    ;
    lemma_joined_pieces(response, len / chunks, chunks);
}

/// Between a power of two and its double lies no other power of two.
pub proof fn lemma_power_of_two_gap(a: nat, b: nat)
    requires
        is_power_of_two(a),
        is_power_of_two(b),
        a < b,
    ensures
        2 * a <= b,
    decreases b,
{
    if a > 1 {
        lemma_power_of_two_gap(a / 2, b / 2);
    }
}

/// Doubling from a power of two, the settled chunk count is a power of two
/// no smaller than the start, its pieces fit the threshold, and no power of
/// two between the start and it has pieces that fit.
pub proof fn lemma_settled_chunks(len: nat, threshold: nat, chunks: nat)
    requires
        is_power_of_two(chunks),
    ensures
        is_power_of_two(settled_chunks(len, threshold, chunks)),
        chunks <= settled_chunks(len, threshold, chunks),
        len / settled_chunks(len, threshold, chunks) <= threshold,
        forall|c: nat|
            is_power_of_two(c) && chunks <= c < settled_chunks(len, threshold, chunks) ==> len / c
                > threshold,
    decreases slack(Progress { len, chunks, next: 0 }),
{
    if len / chunks > threshold {
        lemma_long_pieces(len, chunks);
        assert(is_power_of_two(chunks * 2)) by {
            assert((chunks * 2) / 2 == chunks);
        }
        lemma_settled_chunks(len, threshold, chunks * 2);
        assert forall|c: nat|
            is_power_of_two(c) && chunks <= c < settled_chunks(len, threshold, chunks) implies len
            / c > threshold by {
            if c > chunks {
                lemma_power_of_two_gap(chunks, c);
            }
        }
    }
}

/// From any state of a partition that fits the threshold, sending ends with
/// every piece of that partition sent.
pub proof fn lemma_run_fitting(p: Progress, threshold: nat)
    requires
        p.chunks >= 1,
        p.next <= p.chunks,
        piece_len(p) <= threshold,
    ensures
        run(p, threshold) == (Progress { next: p.chunks, ..p }),
    decreases p.chunks - p.next,
{
    if !done(p) {
        lemma_run_fitting(after_success(p), threshold);
    }
}

/// From the first piece of any partition, sending ends in the settled
/// partition with all its pieces sent.
pub proof fn lemma_run_settles(p: Progress, threshold: nat)
    requires
        p.chunks >= 1,
        p.next == 0,
    ensures
        run(p, threshold) == (Progress {
            len: p.len,
            chunks: settled_chunks(p.len, threshold, p.chunks),
            next: settled_chunks(p.len, threshold, p.chunks),
        }),
    decreases slack(p),
{
    if piece_len(p) <= threshold {
        lemma_run_fitting(p, threshold);
    } else {
        lemma_long_pieces(p.len, p.chunks);
        lemma_run_settles(after_failure(p), threshold);
    }
}

/// Against a transport that refuses exactly the pieces longer than
/// `threshold`, sending a response of `len` bytes ends with a chunk count
/// that is the smallest power of two whose pieces fit, and with exactly that
/// many pieces of the last partition sent, in order.
pub proof fn lemma_threshold_convergence(len: nat, threshold: nat)
    ensures
        run(start(len), threshold).len == len,
        run(start(len), threshold).chunks == settled_chunks(len, threshold, 1),
        run(start(len), threshold).next == settled_chunks(len, threshold, 1),
        done(run(start(len), threshold)),
        is_power_of_two(settled_chunks(len, threshold, 1)),
        len / settled_chunks(len, threshold, 1) <= threshold,
        forall|c: nat|
            is_power_of_two(c) && c < settled_chunks(len, threshold, 1) ==> len / c > threshold,
{
    lemma_run_settles(start(len), threshold);
    lemma_settled_chunks(len, threshold, 1);
    assert forall|c: nat|
        is_power_of_two(c) && c < settled_chunks(len, threshold, 1) implies len / c
        > threshold by {
        assert(c >= 1);
    }
}

/// Sends one response piece by piece, resizing when the transport refuses.
pub struct Fragmenter {
    len: usize,
    chunks: usize,
    next: usize,
}

impl View for Fragmenter {
    type V = Progress;

    closed spec fn view(&self) -> Progress {
        Progress { len: self.len as nat, chunks: self.chunks as nat, next: self.next as nat }
    }
}

impl Fragmenter {
    /// The state is one that sending can reach.
    pub open spec fn wf(&self) -> bool {
        valid(self@)
    }

    /// A fragmenter for a response of `len` bytes, before anything was sent.
    pub fn new(len: usize) -> (f: Self)
        ensures
            f.wf(),
            f@ == start(len as nat),
    {
        Fragmenter { len, chunks: 1, next: 0 }
    }

    /// The length of the response.
    pub fn len(&self) -> (r: usize)
        ensures
            r == self@.len,
    {
        self.len
    }

    /// The number of pieces of the current partition.
    pub fn chunks(&self) -> (r: usize)
        ensures
            r == self@.chunks,
    {
        self.chunks
    }

    /// How many pieces of the current partition have gone out.
    pub fn sent(&self) -> (r: usize)
        ensures
            r == self@.next,
    {
        self.next
    }

    /// Whether every piece of the current partition has gone out.
    pub fn is_done(&self) -> (r: bool)
        ensures
            r == done(self@),
    {
        self.next == self.chunks
    }

    /// The byte range of the piece to transmit next.
    pub fn next_range(&self) -> (r: (usize, usize))
        requires
            self.wf(),
            !done(self@),
        ensures
            r.0 == piece_begin(self@, self@.next),
            r.1 == piece_end(self@, self@.next),
            r.0 <= r.1 <= self@.len,
    {
        proof {
            lemma_pieces_adjacent(self@, self@.next);
            assert(self@.chunks >= 1);
        }
        let size: usize = self.len / self.chunks;
        assert(self.next * size <= self.next * size + size);
        let begin: usize = self.next * size;
        (begin, begin + size)
    }

    /// The piece of `response` to transmit next.
    pub fn next_piece<'a>(&self, response: &'a [u8]) -> (piece: &'a [u8])
        requires
            self.wf(),
            !done(self@),
            response@.len() == self@.len,
        ensures
            piece@ == response@.subrange(
                piece_begin(self@, self@.next) as int,
                piece_end(self@, self@.next) as int,
            ),
    {
        let (begin, end) = self.next_range();
        slice_subrange(response, begin, end)
    }

    /// Records that the transport took the piece: the next one is due.
    pub fn piece_sent(&mut self)
        requires
            old(self).wf(),
            !done(old(self)@),
        ensures
            final(self).wf(),
            final(self)@ == after_success(old(self)@),
    {
        self.next = self.next + 1;
    }

    /// Records that the transport refused the piece: the partition is given
    /// up for one of twice as many pieces, starting over at its first piece.
    /// Returns `false`, and changes nothing, when the doubled count no longer
    /// fits the machine's word.
    pub fn piece_failed(&mut self) -> (resized: bool)
        requires
            old(self).wf(),
        ensures
            resized == (old(self)@.chunks * 2 <= usize::MAX),
            resized ==> final(self).wf() && final(self)@ == after_failure(old(self)@),
            !resized ==> *final(self) == *old(self),
    {
        if self.chunks > usize::MAX / 2 {
            return false;
        }
        proof {
            assert((self.chunks * 2) / 2 == self.chunks as int);
            assert(self.chunks >= 1);
        }
        self.chunks = self.chunks * 2;
        self.next = 0;
        true
    }

    /// Sends a response of `len` bytes through a transport that takes a
    /// piece exactly when it is no longer than `threshold`, and returns the
    /// state in which sending ends: the chunk count that such a transport
    /// settles on, with every piece of that partition sent.
    pub fn settle(len: usize, threshold: usize) -> (f: Self)
        requires
            len <= usize::MAX / 2,
        ensures
            f.wf(),
            f@ == run(start(len as nat), threshold as nat),
            done(f@),
            f@.chunks == settled_chunks(len as nat, threshold as nat, 1),
    {
        let mut f = Fragmenter::new(len);
        proof {
            lemma_run_settles(start(len as nat), threshold as nat);
        }
        while !f.is_done()
            invariant
                f.wf(),
                f@.len == len,
                len <= usize::MAX / 2,
                f@.chunks >= 1,
                run(f@, threshold as nat) == run(start(len as nat), threshold as nat),
            decreases slack(f@), f@.chunks - f@.next,
        {
            let (begin, end) = f.next_range();
            if end - begin <= threshold {
                f.piece_sent();
            } else {
                proof {
                    lemma_long_pieces(f@.len, f@.chunks);
                }
                let resized = f.piece_failed();
                assert(resized);
            }
        }
        f
    }
}

} // verus!
