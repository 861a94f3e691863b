//! Fixed-size output whose equality test takes time independent of where the
//! compared values differ.
use subtle::ConstantTimeEq;
use vstd::prelude::*;

verus! {

/// Relies on subtle's `ConstantTimeEq::ct_eq` for byte slices and its
/// `From<Choice> for bool`: true exactly when both slices have the same length
/// and the same bytes; for equal lengths every byte pair is compared, with no
/// early exit.
#[verifier::external_body]
fn ct_eq_bytes(a: &[u8], b: &[u8]) -> (r: bool)
    ensures
        r == (a@ == b@),
{
    bool::from(a.ct_eq(b))
}

/// An output value whose `==` is a constant-time comparison.
pub struct CtOutput {
    bytes: Vec<u8>,
}

impl View for CtOutput {
    type V = Seq<u8>;

    closed spec fn view(&self) -> Seq<u8> {
        self.bytes@
    }
}

impl CtOutput {
    /// Wrap an output value.
    pub fn new(bytes: Vec<u8>) -> (r: Self)
        ensures
            r@ == bytes@,
    {
        CtOutput { bytes }
    }

    /// Take the wrapped output value back.
    pub fn into_bytes(self) -> (r: Vec<u8>)
        ensures
            r@ == self@,
    {
        self.bytes
    }
}

impl PartialEq for CtOutput {
    fn eq(&self, o: &CtOutput) -> (r: bool) {
        ct_eq_bytes(self.bytes.as_slice(), o.bytes.as_slice())
    }
}

impl vstd::std_specs::cmp::PartialEqSpecImpl for CtOutput {
    open spec fn obeys_eq_spec() -> bool {
        true
    }

    open spec fn eq_spec(&self, o: &CtOutput) -> bool {
        self@ == o@
    }
}

impl Eq for CtOutput {

}

} // verus!
