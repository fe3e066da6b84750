//! The input file's digest, rendered for the summary view.
//!
//! The digest itself comes from an outside hashing crate and is only named
//! here; rendering it as hexadecimal text is verified.

use vstd::prelude::*;
use vstd::string::*;
use sha2::Digest;
use crate::numfmt::{hex_min_width, spec_hex_min};

verus! {

/// The SHA-256 digest of a byte sequence.
pub uninterp spec fn sha256_of(data: Seq<u8>) -> Seq<u8>;

/// Relies on sha2::Sha256 through the Digest trait: the digest depends on
/// the input bytes alone, and is 32 bytes long.
#[verifier::external_body]
fn sha256(data: &Vec<u8>) -> (r: Vec<u8>)
    ensures
        r@ == sha256_of(data@),
        r@.len() == 32,
{
    sha2::Sha256::digest(data.as_slice()).to_vec()
}

/// A byte sequence as upper-case hexadecimal text, two digits per byte.
pub open spec fn spec_bytes_hex(b: Seq<u8>) -> Seq<char>
    decreases b.len(),
{
    if b.len() == 0 {
        Seq::empty()
    } else {
        spec_bytes_hex(b.drop_last()) + spec_hex_min(b.last() as int, 2)
    }
}

/// The SHA-256 digest of the input bytes, as upper-case hexadecimal text.
pub fn file_hash_hex(data: &Vec<u8>) -> (r: String)
    ensures
        r@ == spec_bytes_hex(sha256_of(data@)),
{
    let d = sha256(data);
    let mut r = String::new();
    let mut i: usize = 0;
    proof {
        assert(d@.take(0) =~= Seq::<u8>::empty());
    }
    while i < d.len()
        invariant
            i <= d@.len(),
            r@ == spec_bytes_hex(d@.take(i as int)),
        decreases d@.len() - i,
    {
        proof {
            assert(d@.take(i + 1).drop_last() =~= d@.take(i as int));
            assert(d@.take(i + 1).last() == d@[i as int]);
        }
        let h = hex_min_width(d[i] as u64, 2);
        r.append(h.as_str());
        i = i + 1;
    }
    proof {
        assert(d@.take(d@.len() as int) =~= d@);
    }
    r
}

} // verus!
