use vstd::prelude::*;

use crate::errors::Error;

verus! {

/// The binary codec capability: every encodable type serializes to its wire
/// form and parses back, each tied to a specification-level byte layout.
pub trait EthABIEncoder: Sized {
    /// The exact wire bytes of a value.
    spec fn spec_encoding(self) -> Seq<u8>;

    /// The exact parse of a byte buffer, success and failure alike.
    spec fn spec_decoding(bz: Seq<u8>) -> Result<Self, Error>;

    fn ethabi_encode(self) -> (r: Vec<u8>)
        ensures
            r@ == self.spec_encoding(),
    ;

    fn ethabi_decode(bz: &[u8]) -> (r: Result<Self, Error>)
        ensures
            r == Self::spec_decoding(bz@),
    ;
}

} // verus!
