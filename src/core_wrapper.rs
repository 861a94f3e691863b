//! The incremental adapter: a block processor plus a one-block buffer make a
//! byte-stream primitive.
use vstd::arithmetic::div_mod::{
    lemma_div_by_self, lemma_fundamental_div_mod, lemma_mod_multiples_vanish, lemma_small_mod,
};
use vstd::prelude::*;

use crate::init::{InvalidLength, KeyInit, KeySizeUser};
use crate::{
    blocks_of, AlgorithmName, BlockSizeUser, FixedOutput, FixedOutputCore, FixedOutputReset, OutputSizeUser,
    Reset, Update, UpdateCore,
};

verus! {

/// Fold every complete block at the front of `data` into core state `v`, in
/// order; a trailing partial block is ignored.
pub open spec fn absorb_bytes<C: UpdateCore>(v: C::V, data: Seq<u8>) -> C::V
    decreases data.len(),
{
    let n = C::block_len();
    if n == 0 || data.len() < n {
        v
    } else {
        absorb_bytes::<C>(C::absorb(v, data.take(n as int)), data.skip(n as int))
    }
}

/// Adapter state (core state, buffered bytes) after `data` has been fed to
/// adapter state `v`: every block completed by the buffered bytes and `data`
/// goes to the core, and what is left of the last block stays buffered.
pub open spec fn feed<C: UpdateCore>(v: (C::V, Seq<u8>), data: Seq<u8>) -> (C::V, Seq<u8>) {
    let all = v.1 + data;
    (absorb_bytes::<C>(v.0, all), all.skip(all.len() - all.len() % C::block_len()))
}

/// Feeding several pieces one after another, starting from a well-formed
/// adapter state.
pub open spec fn feed_all<C: UpdateCore>(v: (C::V, Seq<u8>), pieces: Seq<Seq<u8>>) -> (
    C::V,
    Seq<u8>,
)
    decreases pieces.len(),
{
    if pieces.len() == 0 {
        v
    } else {
        feed::<C>(feed_all::<C>(v, pieces.drop_last()), pieces.last())
    }
}

/// Core state and buffered bytes held by a well-formed adapter.
pub open spec fn buffer_fits<C: UpdateCore>(v: (C::V, Seq<u8>)) -> bool {
    C::block_len() > 0 && v.1.len() < C::block_len()
}

proof fn lemma_absorb_short<C: UpdateCore>(v: C::V, data: Seq<u8>)
    requires
        data.len() < C::block_len(),
    ensures
        absorb_bytes::<C>(v, data) == v,
{
}

proof fn lemma_absorb_split<C: UpdateCore>(v: C::V, f: Seq<u8>, y: Seq<u8>)
    requires
        C::block_len() > 0,
        f.len() % C::block_len() == 0,
    ensures
        absorb_bytes::<C>(v, f + y) == absorb_bytes::<C>(absorb_bytes::<C>(v, f), y),
    decreases f.len(),
{
    let n = C::block_len();
    if f.len() == 0 {
        assert(f + y =~= y);
    } else {
        lemma_fundamental_div_mod(f.len() as int, n as int);
        let q = f.len() as int / n as int;
        assert(f.len() >= n) by (nonlinear_arith)
            requires
                f.len() as int == n as int * q + 0,
                f.len() > 0,
                n > 0,
        ;
        let g = f.skip(n as int);
        assert((f + y).take(n as int) =~= f.take(n as int));
        assert((f + y).skip(n as int) =~= g + y);
        lemma_mod_multiples_vanish(-1, f.len() as int, n as int);
        assert(g.len() % n == 0);
        lemma_absorb_split::<C>(C::absorb(v, f.take(n as int)), g, y);
    }
}

proof fn lemma_full_part<C: UpdateCore>(x: Seq<u8>)
    requires
        C::block_len() > 0,
    ensures
        ({
            let k = x.len() - x.len() % C::block_len();
            &&& 0 <= k <= x.len()
            &&& k % C::block_len() as int == 0
            &&& x == x.take(k) + x.skip(k)
            &&& x.skip(k).len() < C::block_len()
        }),
{
    let n = C::block_len() as int;
    let l = x.len() as int;
    lemma_fundamental_div_mod(l, n);
    let k = l - l % n;
    assert(k == n * (l / n));
    lemma_mod_multiples_vanish(l / n, 0, n);
    assert(x =~= x.take(k) + x.skip(k));
}

/// Feeding one byte: it joins the buffer, and a buffer that becomes full is
/// handed to the core as one block and emptied.
proof fn lemma_feed_byte<C: UpdateCore>(v: (C::V, Seq<u8>), b: u8)
    requires
        buffer_fits::<C>(v),
    ensures
        feed::<C>(v, seq![b]) == (if v.1.len() + 1 == C::block_len() {
            (C::absorb(v.0, v.1.push(b)), Seq::<u8>::empty())
        } else {
            (v.0, v.1.push(b))
        }),
{
    let n = C::block_len();
    let all = v.1 + seq![b];
    assert(all =~= v.1.push(b));
    if all.len() == n {
        lemma_mod_multiples_vanish(1, 0, n as int);
        assert(all.len() % n == 0);
        assert(all.take(n as int) =~= all);
        assert(all.skip(n as int) =~= Seq::<u8>::empty());
        assert(absorb_bytes::<C>(C::absorb(v.0, all), Seq::<u8>::empty()) == C::absorb(v.0, all));
    } else {
        lemma_small_mod(all.len(), n);
        assert(all.skip(0) =~= all);
    }
}

/// Feeding `a` and then `b` is feeding `a + b`.
pub proof fn lemma_feed_concat<C: UpdateCore>(v: (C::V, Seq<u8>), a: Seq<u8>, b: Seq<u8>)
    requires
        buffer_fits::<C>(v),
    ensures
        feed::<C>(feed::<C>(v, a), b) == feed::<C>(v, a + b),
        buffer_fits::<C>(feed::<C>(v, a)),
{
    let n = C::block_len();
    let x = v.1 + a;
    lemma_full_part::<C>(x);
    let k = x.len() - x.len() % n;
    let f = x.take(k);
    let r = x.skip(k);
    lemma_absorb_split::<C>(v.0, f, r);
    lemma_absorb_short::<C>(absorb_bytes::<C>(v.0, f), r);
    assert(v.1 + (a + b) =~= f + (r + b));
    lemma_absorb_split::<C>(v.0, f, r + b);
    let z = r + b;
    let m = z.len() - z.len() % n;
    lemma_full_part::<C>(z);
    lemma_mod_multiples_vanish(f.len() as int / n as int, z.len() as int, n as int);
    lemma_fundamental_div_mod(f.len() as int, n as int);
    assert((f + z).len() % n == z.len() % n);
    assert((f + z).skip(f.len() + m) =~= z.skip(m));
}

/// Chunking invariance: feeding the pieces one by one leaves the adapter in
/// the same state as feeding their concatenation at once.
pub proof fn lemma_chunking_invariance<C: UpdateCore>(v: (C::V, Seq<u8>), pieces: Seq<Seq<u8>>)
    requires
        buffer_fits::<C>(v),
    ensures
        feed_all::<C>(v, pieces) == feed::<C>(v, pieces.flatten()),
        buffer_fits::<C>(feed_all::<C>(v, pieces)),
    decreases pieces.len(),
{
    if pieces.len() == 0 {
        assert(v.1 + Seq::<u8>::empty() =~= v.1);
        lemma_full_part::<C>(v.1);
        lemma_small_mod(v.1.len(), C::block_len());
        assert(v.1.skip(0) =~= v.1);
    } else {
        let init = pieces.drop_last();
        lemma_chunking_invariance::<C>(v, init);
        lemma_feed_concat::<C>(v, init.flatten(), pieces.last());
        init.lemma_flatten_push(pieces.last());
        assert(init.push(pieces.last()) =~= pieces);
        lemma_feed_concat::<C>(v, pieces.flatten(), Seq::<u8>::empty());
    }
}

/// No over-buffering: whatever the adapter state and the data fed to it,
/// fewer bytes than one block stay buffered afterwards.
pub proof fn lemma_feed_fits<C: UpdateCore>(v: (C::V, Seq<u8>), data: Seq<u8>)
    requires
        C::block_len() > 0,
    ensures
        buffer_fits::<C>(feed::<C>(v, data)),
{
    lemma_full_part::<C>(v.1 + data);
}

/// Folding blocks in never changes the state that `reset` returns to.
pub proof fn lemma_absorb_keeps_reset<C: UpdateCore>(v: C::V, data: Seq<u8>)
    ensures
        C::reset_state(absorb_bytes::<C>(v, data)) == C::reset_state(v),
    decreases data.len(),
{
    let n = C::block_len();
    if n == 0 || data.len() < n {
    } else {
        C::lemma_absorb_keeps_reset_state(v, data.take(n as int));
        lemma_absorb_keeps_reset::<C>(C::absorb(v, data.take(n as int)), data.skip(n as int));
    }
}

proof fn lemma_fold_one_block<C: UpdateCore>(v: C::V, block: Seq<u8>)
    requires
        C::block_len() > 0,
        block.len() == C::block_len(),
    ensures
        blocks_of(block, C::block_len()).fold_left(
            v,
            |acc: C::V, b: Seq<u8>| C::absorb(acc, b),
        ) == C::absorb(v, block),
{
    let n = C::block_len();
    lemma_div_by_self(n as int);
    let bs = blocks_of(block, n);
    assert(bs.len() == 1);
    assert(bs[0] =~= block);
    assert(bs.drop_last() =~= Seq::<Seq<u8>>::empty());
    let f = |acc: C::V, b: Seq<u8>| C::absorb(acc, b);
    assert(bs.drop_last().fold_left(v, f) == v);
    assert(bs.fold_left(v, f) == f(bs.drop_last().fold_left(v, f), bs.last()));
}

/// Wraps a block processor and a buffer of fewer than one block of bytes into
/// a primitive that consumes data with byte granularity.
pub struct CoreWrapper<C: UpdateCore> {
    core: C,
    buffer: Vec<u8>,
}

impl<C: UpdateCore> View for CoreWrapper<C> {
    type V = (C::V, Seq<u8>);

    closed spec fn view(&self) -> (C::V, Seq<u8>) {
        (self.core@, self.buffer@)
    }
}

impl<C: UpdateCore> CoreWrapper<C> {
    /// Wrap a block processor, with an empty buffer.
    pub fn from_core(core: C) -> (r: Self)
        ensures
            r@ == (core@, Seq::<u8>::empty()),
    {
        CoreWrapper { core, buffer: Vec::new() }
    }

    /// Number of bytes waiting in the buffer for their block to complete.
    pub fn buffered_len(&self) -> (r: usize)
        ensures
            r == self@.1.len(),
    {
        self.buffer.len()
    }

    /// Feed `data` into an adapter whose buffer holds less than one block.
    fn feed_slice(&mut self, data: &[u8], n: usize)
        requires
            n as nat == C::block_len(),
            n > 0,
            old(self).buffer@.len() < n,
        ensures
            final(self)@ == feed::<C>(old(self)@, data@),
            final(self).buffer@.len() < n,
    {
        let ghost start = self@;
        proof {
            lemma_feed_concat::<C>(start, Seq::<u8>::empty(), Seq::<u8>::empty());
            lemma_full_part::<C>(start.1);
            lemma_small_mod(start.1.len(), n as nat);
            assert(start.1 + Seq::<u8>::empty() =~= start.1);
            assert(start.1.skip(0) =~= start.1);
            lemma_absorb_short::<C>(start.0, start.1);
            assert(data@.take(0) =~= Seq::<u8>::empty());
        }
        let mut i: usize = 0;
        while i < data.len()
            invariant
                n as nat == C::block_len(),
                n > 0,
                i <= data@.len(),
                self.buffer@.len() < n,
                buffer_fits::<C>(start),
                self@ == feed::<C>(start, data@.take(i as int)),
            decreases data@.len() - i,
        {
            let b = data[i];
            proof {
                lemma_feed_byte::<C>(self@, b);
                lemma_feed_concat::<C>(start, data@.take(i as int), seq![b]);
                assert(data@.take(i as int) + seq![b] =~= data@.take(i + 1));
            }
            self.buffer.push(b);
            if self.buffer.len() == n {
                proof {
                    lemma_fold_one_block::<C>(self.core@, self.buffer@);
                }
                self.core.update_blocks(self.buffer.as_slice());
                self.buffer.clear();
            }
            i = i + 1;
        }
        proof {
            assert(data@.take(i as int) =~= data@);
        }
    }
}

impl<C: UpdateCore> BlockSizeUser for CoreWrapper<C> {
    open spec fn block_len() -> nat {
        C::block_len()
    }

    fn block_size() -> (r: usize) {
        C::block_size()
    }
}

impl<C: FixedOutputCore> OutputSizeUser for CoreWrapper<C> {
    open spec fn output_len() -> nat {
        C::output_len()
    }

    fn output_size() -> (r: usize) {
        C::output_size()
    }
}

impl<C: UpdateCore> Reset for CoreWrapper<C> {
    open spec fn reset_state(v: (C::V, Seq<u8>)) -> (C::V, Seq<u8>) {
        (C::reset_state(v.0), Seq::<u8>::empty())
    }

    fn reset(&mut self) {
        self.core.reset();
        self.buffer.clear();
    }
}

impl<C: FixedOutputCore> CoreWrapper<C> {
    /// Finalize the core with the buffered bytes, leaving it dirty.
    fn finalize_core(&mut self, out: &mut Vec<u8>)
        requires
            old(out)@.len() == C::output_len(),
        ensures
            final(out)@ == <Self as FixedOutput>::result(old(self)@),
            final(out)@.len() == C::output_len(),
            C::reset_state(final(self)@.0) == C::reset_state(old(self)@.0),
    {
        let n = C::block_size();
        let empty: Vec<u8> = Vec::new();
        // Make sure fewer bytes than one block are buffered; on any adapter of
        // this type this feeds nothing and changes nothing.
        self.update(empty.as_slice());
        proof {
            lemma_feed_fits::<C>(old(self)@, empty@);
            lemma_absorb_keeps_reset::<C>(old(self)@.0, old(self)@.1 + empty@);
        }
        self.core.finalize_fixed_core(&mut self.buffer, out);
    }
}

impl<C: FixedOutputCore> FixedOutput for CoreWrapper<C> {
    open spec fn result(v: (C::V, Seq<u8>)) -> Seq<u8> {
        let w = feed::<C>(v, Seq::<u8>::empty());
        C::finalized(w.0, w.1)
    }

    fn finalize_into(self, out: &mut Vec<u8>) {
        let mut s = self;
        s.finalize_core(out);
    }
}

impl<C: FixedOutputCore> FixedOutputReset for CoreWrapper<C> {
    fn finalize_into_reset(&mut self, out: &mut Vec<u8>) {
        self.finalize_core(out);
        self.reset();
    }
}

/// What finalization yields for an adapter that buffers less than one block:
/// the core's output for its state and the buffered bytes.
pub proof fn lemma_result_of_fitting<C: FixedOutputCore>(v: (C::V, Seq<u8>))
    requires
        buffer_fits::<C>(v),
    ensures
        <CoreWrapper<C> as FixedOutput>::result(v) == C::finalized(v.0, v.1),
{
    lemma_feed_concat::<C>(v, Seq::<u8>::empty(), Seq::<u8>::empty());
    lemma_full_part::<C>(v.1);
    lemma_small_mod(v.1.len(), C::block_len());
    assert(v.1 + Seq::<u8>::empty() =~= v.1);
    assert(v.1.skip(0) =~= v.1);
    lemma_absorb_short::<C>(v.0, v.1);
}

/// Reset equivalence: for a core state `c0` as construction leaves it, an
/// adapter that has consumed any history `h` and is then reset (as
/// `finalize_into_reset` does) consumes further data `u` exactly as a fresh
/// adapter around `c0` does, and finalizes to the same output.
pub proof fn lemma_reset_equivalence<C: FixedOutputCore>(c0: C::V, h: Seq<u8>, u: Seq<u8>)
    requires
        C::block_len() > 0,
        C::reset_state(c0) == c0,
    ensures
        ({
            let fresh = (c0, Seq::<u8>::empty());
            let again = <CoreWrapper<C> as Reset>::reset_state(feed::<C>(fresh, h));
            &&& again == fresh
            &&& feed::<C>(again, u) == feed::<C>(fresh, u)
            &&& <CoreWrapper<C> as FixedOutput>::result(feed::<C>(again, u))
                == <CoreWrapper<C> as FixedOutput>::result(feed::<C>(fresh, u))
        }),
{
    lemma_absorb_keeps_reset::<C>(c0, Seq::<u8>::empty() + h);
}

impl<C: UpdateCore + KeySizeUser> KeySizeUser for CoreWrapper<C> {
    open spec fn key_len() -> nat {
        C::key_len()
    }

    fn key_size() -> (r: usize) {
        C::key_size()
    }
}

impl<C: UpdateCore + KeyInit> KeyInit for CoreWrapper<C> {
    open spec fn keyed(key: Seq<u8>) -> (C::V, Seq<u8>) {
        (C::keyed(key), Seq::<u8>::empty())
    }

    fn new(key: &[u8]) -> (r: Result<Self, InvalidLength>) {
        match C::new(key) {
            Ok(core) => Ok(Self::from_core(core)),
            Err(e) => Err(e),
        }
    }
}

impl<C: UpdateCore + AlgorithmName> AlgorithmName for CoreWrapper<C> {
    fn alg_name() -> &'static str {
        C::alg_name()
    }
}

impl<C: UpdateCore> Update for CoreWrapper<C> {
    open spec fn updated(v: (C::V, Seq<u8>), data: Seq<u8>) -> (C::V, Seq<u8>) {
        feed::<C>(v, data)
    }

    fn update(&mut self, data: &[u8]) {
        let n = C::block_size();
        if self.buffer.len() < n {
            self.feed_slice(data, n);
            return;
        }
        // Every adapter of this type keeps its buffer below one block, so
        // this only settles a buffer that does not: its bytes are fed again.
        let mut pending: Vec<u8> = Vec::new();
        std::mem::swap(&mut pending, &mut self.buffer);
        let ghost c = self.core@;
        assert(old(self)@ == (c, pending@));
        self.feed_slice(pending.as_slice(), n);
        self.feed_slice(data, n);
        proof {
            let e = (c, Seq::<u8>::empty());
            lemma_feed_concat::<C>(e, pending@, data@);
            assert(Seq::<u8>::empty() + pending@ =~= pending@);
            assert(Seq::<u8>::empty() + (pending@ + data@) =~= pending@ + data@);
            assert(feed::<C>(e, pending@ + data@) == feed::<C>(old(self)@, data@));
            assert(Self::updated(old(self)@, data@) == feed::<C>(old(self)@, data@));
        }
    }
}

} // verus!
