//! A small block processor: four-byte blocks are XORed into a four-byte
//! state, which starts out as the key (all zero without one).
use vstd::prelude::*;

use crate::init::{InvalidLength, KeyInit, KeySizeUser};
use crate::{
    blocks_of, AlgorithmName, BlockSizeUser, FixedOutputCore, OutputSizeUser, Reset, UpdateCore,
};

verus! {

/// Bytewise XOR of two four-byte sequences.
pub open spec fn xor4(a: Seq<u8>, b: Seq<u8>) -> Seq<u8> {
    Seq::new(4, |i: int| a[i] ^ b[i])
}

/// `buffer` padded with zero bytes to four bytes.
pub open spec fn zero_pad4(buffer: Seq<u8>) -> Seq<u8> {
    Seq::new(
        4,
        |i: int|
            if i < buffer.len() {
                buffer[i]
            } else {
                0u8
            },
    )
}

/// The XOR block processor: its view is (state, key).
pub struct XorCore {
    state: [u8; 4],
    key: [u8; 4],
}

impl View for XorCore {
    type V = (Seq<u8>, Seq<u8>);

    closed spec fn view(&self) -> (Seq<u8>, Seq<u8>) {
        (self.state@, self.key@)
    }
}

impl Default for XorCore {
    /// A processor without a key: state and key are all zero.
    fn default() -> (r: Self)
        ensures
            r@ == (seq![0u8, 0u8, 0u8, 0u8], seq![0u8, 0u8, 0u8, 0u8]),
    {
        let r = XorCore { state: [0u8; 4], key: [0u8; 4] };
        assert(r.state@ =~= seq![0u8, 0u8, 0u8, 0u8]);
        assert(r.key@ =~= seq![0u8, 0u8, 0u8, 0u8]);
        r
    }
}

impl XorCore {
    fn xor_into(a: [u8; 4], b: &[u8], start: usize) -> (r: [u8; 4])
        requires
            start + 4 <= b@.len(),
        ensures
            r@ == xor4(a@, b@.subrange(start as int, start + 4)),
    {
        let r = [a[0] ^ b[start], a[1] ^ b[start + 1], a[2] ^ b[start + 2], a[3] ^ b[start + 3]];
        assert(r@ =~= xor4(a@, b@.subrange(start as int, start + 4)));
        r
    }
}

impl BlockSizeUser for XorCore {
    open spec fn block_len() -> nat {
        4
    }

    fn block_size() -> (r: usize) {
        4
    }
}

impl OutputSizeUser for XorCore {
    open spec fn output_len() -> nat {
        4
    }

    fn output_size() -> (r: usize) {
        4
    }
}

impl KeySizeUser for XorCore {
    open spec fn key_len() -> nat {
        4
    }

    fn key_size() -> (r: usize) {
        4
    }
}

impl Reset for XorCore {
    open spec fn reset_state(v: (Seq<u8>, Seq<u8>)) -> (Seq<u8>, Seq<u8>) {
        (v.1, v.1)
    }

    fn reset(&mut self) {
        self.state = self.key;
    }
}

impl UpdateCore for XorCore {
    open spec fn absorb(v: (Seq<u8>, Seq<u8>), block: Seq<u8>) -> (Seq<u8>, Seq<u8>) {
        (xor4(v.0, block), v.1)
    }

    proof fn lemma_absorb_keeps_reset_state(v: (Seq<u8>, Seq<u8>), block: Seq<u8>) {
    }

    fn update_blocks(&mut self, blocks: &[u8]) {
        let ghost f = |acc: (Seq<u8>, Seq<u8>), b: Seq<u8>| Self::absorb(acc, b);
        let ghost bs = blocks_of(blocks@, 4);
        let len = blocks.len();
        let count = len / 4;
        let mut j: usize = 0;
        proof {
            assert(bs.take(0) =~= Seq::<Seq<u8>>::empty());
        }
        while j < count
            invariant
                count == blocks@.len() / 4,
                len == blocks@.len(),
                bs == blocks_of(blocks@, 4),
                f == (|acc: (Seq<u8>, Seq<u8>), b: Seq<u8>| Self::absorb(acc, b)),
                j <= count,
                self@ == bs.take(j as int).fold_left(old(self)@, f),
            decreases count - j,
        {
            proof {
                assert(4 * j + 4 <= blocks@.len()) by (nonlinear_arith)
                    requires
                        j < count,
                        count == blocks@.len() / 4,
                ;
                assert(bs.take(j + 1).drop_last() =~= bs.take(j as int));
                assert(bs.take(j + 1).last() == blocks@.subrange(4 * j, 4 * j + 4));
            }
            let ghost prev = self@;
            self.state = Self::xor_into(self.state, blocks, 4 * j);
            proof {
                let block = blocks@.subrange(4 * j, 4 * j + 4);
                assert(self@ == Self::absorb(prev, block));
                assert(bs.take(j + 1).fold_left(old(self)@, f) == f(
                    bs.take(j as int).fold_left(old(self)@, f),
                    block,
                ));
            }
            j = j + 1;
        }
        proof {
            assert(bs.take(j as int) =~= bs);
        }
    }
}

impl FixedOutputCore for XorCore {
    open spec fn finalized(v: (Seq<u8>, Seq<u8>), buffer: Seq<u8>) -> Seq<u8> {
        xor4(v.0, zero_pad4(buffer))
    }

    fn finalize_fixed_core(&mut self, buffer: &mut Vec<u8>, out: &mut Vec<u8>) {
        let mut i: usize = 0;
        while i < 4
            invariant
                buffer@ == old(buffer)@,
                buffer@.len() < 4,
                out@.len() == 4,
                i <= 4,
                forall|k: int| 0 <= k < i ==> out@[k] == xor4(self.state@, zero_pad4(buffer@))[k],
            decreases 4 - i,
        {
            let pad = if i < buffer.len() {
                buffer[i]
            } else {
                0u8
            };
            out.set(i, self.state[i] ^ pad);
            i = i + 1;
        }
        assert(out@ =~= xor4(self.state@, zero_pad4(buffer@)));
    }
}

impl KeyInit for XorCore {
    open spec fn keyed(key: Seq<u8>) -> (Seq<u8>, Seq<u8>) {
        (key, key)
    }

    fn new(key: &[u8]) -> (r: Result<Self, InvalidLength>) {
        if key.len() != 4 {
            return Err(InvalidLength);
        }
        let k = [key[0], key[1], key[2], key[3]];
        assert(k@ =~= key@);
        Ok(XorCore { state: k, key: k })
    }
}

impl AlgorithmName for XorCore {
    fn alg_name() -> &'static str {
        "Xor4"
    }
}

} // verus!
