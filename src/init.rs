//! Construction protocols: keyed, keyed with an IV, and built around an
//! inner primitive.
use vstd::prelude::*;

verus! {

/// The error returned when a key or IV has the wrong length.
#[derive(Debug, Clone, Copy, PartialEq, Eq)]
pub struct InvalidLength;

/// Types with a fixed key size.
pub trait KeySizeUser {
    /// Number of bytes in a key.
    spec fn key_len() -> nat;

    /// Number of bytes in a key.
    fn key_size() -> (r: usize)
        ensures
            r as nat == Self::key_len(),
    ;
}

/// Types with a fixed IV size.
pub trait IvSizeUser {
    /// Number of bytes in an IV.
    spec fn iv_len() -> nat;

    /// Number of bytes in an IV.
    fn iv_size() -> (r: usize)
        ensures
            r as nat == Self::iv_len(),
    ;
}

/// Types which can be initialized from a key.
pub trait KeyInit: KeySizeUser + View + Sized {
    /// The state right after construction from `key`.
    spec fn keyed(key: Seq<u8>) -> Self::V;

    /// Create a new value from a key; fails unless the key has exactly the
    /// declared key size.
    fn new(key: &[u8]) -> (r: Result<Self, InvalidLength>)
        ensures
            r.is_err() <==> key@.len() != Self::key_len(),
            r matches Ok(k) ==> k@ == Self::keyed(key@),
    ;
}

/// Types which can be initialized from a key and an IV.
pub trait KeyIvInit: KeySizeUser + IvSizeUser + View + Sized {
    /// The state right after construction from `key` and `iv`.
    spec fn keyed_iv(key: Seq<u8>, iv: Seq<u8>) -> Self::V;

    /// Create a new value from a key and an IV; fails unless both have
    /// exactly the declared sizes.
    fn new(key: &[u8], iv: &[u8]) -> (r: Result<Self, InvalidLength>)
        ensures
            r.is_err() <==> (key@.len() != Self::key_len() || iv@.len() != Self::iv_len()),
            r matches Ok(k) ==> k@ == Self::keyed_iv(key@, iv@),
    ;
}

/// Types which can be initialized from another primitive, which they take
/// over (a MAC built on a hash, for instance).
pub trait InnerInit: View + Sized {
    /// The wrapped primitive.
    type Inner: View;

    /// The state right after construction around `inner`.
    spec fn from_inner(inner: <Self::Inner as View>::V) -> Self::V;

    /// Initialize value around the inner primitive.
    fn inner_init(inner: Self::Inner) -> (r: Self)
        ensures
            r@ == Self::from_inner(inner@),
    ;
}

/// Types which can be initialized from another primitive and an IV.
pub trait InnerIvInit: IvSizeUser + View + Sized {
    /// The wrapped primitive.
    type Inner: View;

    /// The state right after construction around `inner` with `iv`.
    spec fn from_inner_iv(inner: <Self::Inner as View>::V, iv: Seq<u8>) -> Self::V;

    /// Initialize value around the inner primitive and an IV; fails unless
    /// the IV has exactly the declared size.
    fn inner_iv_init(inner: Self::Inner, iv: &[u8]) -> (r: Result<Self, InvalidLength>)
        ensures
            r.is_err() <==> iv@.len() != Self::iv_len(),
            r matches Ok(k) ==> k@ == Self::from_inner_iv(inner@, iv@),
    ;
}

} // verus!
