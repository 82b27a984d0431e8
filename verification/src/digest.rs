//! Content digests: SHA-256 through the `sha2` crate, hex rendering verified.
//!
//! A stored artifact is trusted only when the digest recomputed from its
//! bytes matches the digest embedded in its storage key, so the exact shape
//! of the rendered digest string matters throughout the engine.

use vstd::prelude::*;
use sha2::Digest;
use crate::strutil::push_char;

verus! {

/// The SHA-256 digest of a byte sequence; 32 bytes, a function of the input
/// alone.
pub uninterp spec fn spec_sha256(data: Seq<u8>) -> Seq<u8>;

/// Relies on sha2::Sha256 (Digest::digest): the SHA-256 digest is a pure
/// function of the input bytes and is 32 bytes long.
#[verifier::external_body]
pub fn sha256(data: &[u8]) -> (r: Vec<u8>)
    ensures
        r@ == spec_sha256(data@),
        r@.len() == 32,
{
    sha2::Sha256::digest(data).to_vec()
}

/// The lower-case hex digit character for `d`.
pub open spec fn spec_hex_char(d: int) -> char {
    if d == 0 {
        '0'
    } else if d == 1 {
        '1'
    } else if d == 2 {
        '2'
    } else if d == 3 {
        '3'
    } else if d == 4 {
        '4'
    } else if d == 5 {
        '5'
    } else if d == 6 {
        '6'
    } else if d == 7 {
        '7'
    } else if d == 8 {
        '8'
    } else if d == 9 {
        '9'
    } else if d == 10 {
        'a'
    } else if d == 11 {
        'b'
    } else if d == 12 {
        'c'
    } else if d == 13 {
        'd'
    } else if d == 14 {
        'e'
    } else {
        'f'
    }
}

/// The lower-case hex rendering of a byte sequence, two digits per byte.
pub open spec fn spec_hex(data: Seq<u8>) -> Seq<char>
    decreases data.len(),
{
    if data.len() == 0 {
        Seq::<char>::empty()
    } else {
        seq![
            spec_hex_char((data.first() >> 4) as int),
            spec_hex_char((data.first() & 0x0f) as int),
        ] + spec_hex(data.drop_first())
    }
}

fn hex_char(d: u8) -> (r: char)
    requires
        d < 16,
    ensures
        r == spec_hex_char(d as int),
{
    if d == 0 {
        '0'
    } else if d == 1 {
        '1'
    } else if d == 2 {
        '2'
    } else if d == 3 {
        '3'
    } else if d == 4 {
        '4'
    } else if d == 5 {
        '5'
    } else if d == 6 {
        '6'
    } else if d == 7 {
        '7'
    } else if d == 8 {
        '8'
    } else if d == 9 {
        '9'
    } else if d == 10 {
        'a'
    } else if d == 11 {
        'b'
    } else if d == 12 {
        'c'
    } else if d == 13 {
        'd'
    } else if d == 14 {
        'e'
    } else {
        'f'
    }
}

/// Appends the lower-case hex rendering of `data` to `s`.
pub fn push_hex(s: &mut String, data: &[u8])
    ensures
        final(s)@ == old(s)@ + spec_hex(data@),
{
    let len: usize = data.len();
    let mut i: usize = 0;
    proof {
        assert(data@.skip(0) =~= data@);
        assert(old(s)@ + spec_hex(data@) =~= old(s)@ + spec_hex(data@.skip(0)));
    }
    while i < len
        invariant
            len == data@.len(),
            i <= len,
            old(s)@ + spec_hex(data@) =~= s@ + spec_hex(data@.skip(i as int)),
        decreases len - i,
    {
        let b = data[i];
        assert(b >> 4 < 16 && b & 0x0f < 16) by (bit_vector);
        push_char(s, hex_char(b >> 4));
        push_char(s, hex_char(b & 0x0f));
        proof {
            assert(data@.skip(i as int).drop_first() =~= data@.skip(i + 1));
            assert(data@.skip(i as int).first() == data@[i as int]);
        }
        i += 1;
    }
    proof {
        assert(s@ + spec_hex(data@.skip(len as int)) =~= s@);
    }
}

/// The lower-case hex rendering of the SHA-256 digest of `data`.
pub fn sha256_hex(data: &[u8]) -> (r: String)
    ensures
        r@ == spec_hex(spec_sha256(data@)),
{
    let d = sha256(data);
    let mut s = String::new();
    push_hex(&mut s, d.as_slice());
    proof {
        assert(Seq::<char>::empty() + spec_hex(d@) =~= spec_hex(d@));
    }
    s
}

} // verus!
