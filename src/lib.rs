//! Common cryptographic traits: byte-wise and block-wise update, fixed-size
//! finalization and reset, together with an adapter that turns a block
//! processor into a streaming primitive.
use vstd::prelude::*;

pub mod core_wrapper;
pub mod ct_output;
pub mod hex;
pub mod init;
pub mod xor_core;

verus! {

/// Types with a fixed block size.
pub trait BlockSizeUser {
    /// Number of bytes in one block.
    spec fn block_len() -> nat;

    /// Number of bytes in one block; never zero.
    fn block_size() -> (r: usize)
        ensures
            r as nat == Self::block_len(),
            r > 0,
    ;
}

/// Types with a fixed output size.
pub trait OutputSizeUser {
    /// Number of bytes of output.
    spec fn output_len() -> nat;

    /// Number of bytes of output.
    fn output_size() -> (r: usize)
        ensures
            r as nat == Self::output_len(),
    ;
}

/// Types which consume data with byte granularity.
pub trait Update: View + Sized {
    /// The abstract state after `data` has been consumed from state `v`.
    spec fn updated(v: Self::V, data: Seq<u8>) -> Self::V;

    /// Update state using the provided data.
    fn update(&mut self, data: &[u8])
        ensures
            final(self)@ == Self::updated(old(self)@, data@),
    ;
}

/// Resettable types.
pub trait Reset: View + Sized {
    /// The state held right after construction, to which `reset` returns.
    spec fn reset_state(v: Self::V) -> Self::V;

    /// Reset state to its initial value.
    fn reset(&mut self)
        ensures
            final(self)@ == Self::reset_state(old(self)@),
    ;
}

/// Types which return fixed-sized result after finalization.
pub trait FixedOutput: OutputSizeUser + View + Sized {
    /// The output that finalization of state `v` produces.
    spec fn result(v: Self::V) -> Seq<u8>;

    /// Consume value and write result into provided array.
    fn finalize_into(self, out: &mut Vec<u8>)
        requires
            old(out)@.len() == Self::output_len(),
        ensures
            final(out)@ == Self::result(self@),
            final(out)@.len() == Self::output_len(),
    ;

    /// Retrieve result and consume the hasher instance.
    fn finalize_fixed(self) -> (r: Vec<u8>)
        ensures
            r@ == Self::result(self@),
            r@.len() == Self::output_len(),
    {
        let mut out = zeroed(Self::output_size());
        self.finalize_into(&mut out);
        out
    }
}

/// Types which return fixed-sized result after finalization and reset
/// state into its initial value.
pub trait FixedOutputReset: FixedOutput + Reset {
    /// Write result into provided array and reset value to its initial state.
    fn finalize_into_reset(&mut self, out: &mut Vec<u8>)
        requires
            old(out)@.len() == Self::output_len(),
        ensures
            final(out)@ == Self::result(old(self)@),
            final(out)@.len() == Self::output_len(),
            final(self)@ == Self::reset_state(old(self)@),
    ;

    /// Retrieve result and reset the hasher instance.
    fn finalize_fixed_reset(&mut self) -> (r: Vec<u8>)
        ensures
            r@ == Self::result(old(self)@),
            r@.len() == Self::output_len(),
            final(self)@ == Self::reset_state(old(self)@),
    {
        let mut out = zeroed(Self::output_size());
        self.finalize_into_reset(&mut out);
        out
    }
}

/// Types which consume data in blocks.
pub trait UpdateCore: BlockSizeUser + Reset {
    /// The abstract state after one block has been folded into state `v`.
    spec fn absorb(v: Self::V, block: Seq<u8>) -> Self::V;

    /// Folding a block in never changes the state that `reset` returns to.
    proof fn lemma_absorb_keeps_reset_state(v: Self::V, block: Seq<u8>)
        ensures
            Self::reset_state(Self::absorb(v, block)) == Self::reset_state(v),
    ;

    /// Update state using the provided data blocks, laid end to end.
    fn update_blocks(&mut self, blocks: &[u8])
        requires
            Self::block_len() > 0,
            blocks@.len() % Self::block_len() == 0,
        ensures
            final(self)@ == blocks_of(blocks@, Self::block_len()).fold_left(
                old(self)@,
                |acc: Self::V, b: Seq<u8>| Self::absorb(acc, b),
            ),
    ;
}

/// Core trait for hash functions with fixed output size.
pub trait FixedOutputCore: UpdateCore + OutputSizeUser {
    /// The output for state `v` with `buffer` left over, shorter than a block.
    spec fn finalized(v: Self::V, buffer: Seq<u8>) -> Seq<u8>;

    /// Finalize state using remaining data stored in the provided block buffer,
    /// write result into provided array and leave `self` in a dirty state,
    /// from which only `reset` is meaningful. The buffer's contents are left
    /// unspecified as well.
    fn finalize_fixed_core(&mut self, buffer: &mut Vec<u8>, out: &mut Vec<u8>)
        requires
            old(buffer)@.len() < Self::block_len(),
            old(out)@.len() == Self::output_len(),
        ensures
            final(out)@ == Self::finalized(old(self)@, old(buffer)@),
            final(out)@.len() == Self::output_len(),
            Self::reset_state(final(self)@) == Self::reset_state(old(self)@),
    ;
}

/// Trait which stores algorithm name constant, used in diagnostic output.
pub trait AlgorithmName {
    /// The algorithm's name.
    fn alg_name() -> &'static str;
}

/// `data` cut into consecutive blocks of `n` bytes; a trailing partial block
/// is dropped.
pub open spec fn blocks_of(data: Seq<u8>, n: nat) -> Seq<Seq<u8>> {
    Seq::new(data.len() / n, |i: int| data.subrange(i * n, i * n + n))
}

/// A vector of `n` zero bytes.
fn zeroed(n: usize) -> (r: Vec<u8>)
    ensures
        r@ == Seq::new(n as nat, |i: int| 0u8),
{
    let mut r: Vec<u8> = Vec::new();
    let mut i: usize = 0;
    while i < n
        invariant
            i <= n,
            r@ == Seq::new(i as nat, |j: int| 0u8),
        decreases n - i,
    {
        r.push(0);
        i = i + 1;
    }
    r
}

} // verus!
