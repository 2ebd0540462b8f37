//! Content identifier derivation: a version reference for an archive source
//! is the lowercase hex SHA-256 digest of the raw archive bytes.

use vstd::prelude::*;

verus! {

/// The SHA-256 digest of a byte sequence, left abstract: the digest of given
/// bytes is a fixed value, the same in every call and on every machine.
pub uninterp spec fn spec_sha256(data: Seq<u8>) -> Seq<u8>;

/// The lowercase hex digit for a value below 16.
pub open spec fn hex_char_lower(n: u8) -> char {
    if n == 0 {
        '0'
    } else if n == 1 {
        '1'
    } else if n == 2 {
        '2'
    } else if n == 3 {
        '3'
    } else if n == 4 {
        '4'
    } else if n == 5 {
        '5'
    } else if n == 6 {
        '6'
    } else if n == 7 {
        '7'
    } else if n == 8 {
        '8'
    } else if n == 9 {
        '9'
    } else if n == 10 {
        'a'
    } else if n == 11 {
        'b'
    } else if n == 12 {
        'c'
    } else if n == 13 {
        'd'
    } else if n == 14 {
        'e'
    } else {
        'f'
    }
}

/// Lowercase hex encoding: two digits per byte, high nibble first.
pub open spec fn spec_hex_lower(data: Seq<u8>) -> Seq<char>
    decreases data.len(),
{
    if data.len() == 0 {
        Seq::empty()
    } else {
        seq![
            hex_char_lower(data.first() / 16),
            hex_char_lower(data.first() % 16),
        ] + spec_hex_lower(data.drop_first())
    }
}

pub proof fn lemma_hex_lower_len(data: Seq<u8>)
    ensures
        spec_hex_lower(data).len() == 2 * data.len(),
    decreases data.len(),
{
    if data.len() > 0 {
        lemma_hex_lower_len(data.drop_first());
    }
}

/// A lowercase hex digit.
pub open spec fn is_hex_lower_char(c: char) -> bool {
    ||| c == '0'
    ||| c == '1'
    ||| c == '2'
    ||| c == '3'
    ||| c == '4'
    ||| c == '5'
    ||| c == '6'
    ||| c == '7'
    ||| c == '8'
    ||| c == '9'
    ||| c == 'a'
    ||| c == 'b'
    ||| c == 'c'
    ||| c == 'd'
    ||| c == 'e'
    ||| c == 'f'
}

pub proof fn lemma_hex_lower_chars(data: Seq<u8>)
    ensures
        forall|i: int|
            0 <= i < spec_hex_lower(data).len() ==> is_hex_lower_char(
                #[trigger] spec_hex_lower(data)[i],
            ),
    decreases data.len(),
{
    if data.len() > 0 {
        lemma_hex_lower_chars(data.drop_first());
        let s = spec_hex_lower(data);
        let rest = spec_hex_lower(data.drop_first());
        assert forall|i: int| 0 <= i < s.len() implies is_hex_lower_char(#[trigger] s[i]) by {
            if i >= 2 {
                assert(s[i] == rest[i - 2]);
            } else {
                assert(s[0] == hex_char_lower(data.first() / 16));
                assert(s[1] == hex_char_lower(data.first() % 16));
            }
        }
    }
}

/// A hex encoding of at least one byte is a safe directory entry name: it is
/// non-empty, holds no separators, and is not a relative name.
pub proof fn lemma_hex_lower_valid_segment(data: Seq<u8>)
    requires
        data.len() > 0,
    ensures
        crate::paths::valid_segment(spec_hex_lower(data)),
{
    lemma_hex_lower_len(data);
    lemma_hex_lower_chars(data);
    let s = spec_hex_lower(data);
    reveal_strlit(".");
    reveal_strlit("..");
    assert(s.len() >= 2);
    assert("."@.len() == 1);
    assert(s != "."@);
    assert(is_hex_lower_char(s[0]));
    assert(s[0] != '.');
    assert(".."@[0] == '.');
    assert(s != ".."@);
}

/// The version reference of an archive source: the lowercase hex SHA-256
/// digest of its bytes. A function of the bytes alone.
pub open spec fn spec_version_ref(data: Seq<u8>) -> Seq<char> {
    spec_hex_lower(spec_sha256(data))
}

/// Relies on sha2::Sha256 through the Digest trait: the digest is a function
/// of the input bytes alone and is 32 bytes long.
#[verifier::external_body]
fn sha256_digest(data: &[u8]) -> (r: Vec<u8>)
    ensures
        r@ == spec_sha256(data@),
        r@.len() == 32,
{
    let digest = <sha2::Sha256 as sha2::Digest>::digest(data);
    digest.to_vec()
}

/// Relies on hex::encode: one pair of lowercase hex digits per input byte,
/// high nibble first, in input order.
#[verifier::external_body]
fn hex_encode_lower(data: &[u8]) -> (r: String)
    ensures
        r@ == spec_hex_lower(data@),
{
    hex::encode(data)
}

/// Derive the content identifier of an archive: the lowercase hex SHA-256
/// digest of its bytes, 64 characters long.
pub fn content_version_ref(data: &[u8]) -> (r: String)
    ensures
        r@ == spec_version_ref(data@),
        r@.len() == 64,
{
    let digest = sha256_digest(data);
    let r = hex_encode_lower(digest.as_slice());
    proof {
        lemma_hex_lower_len(spec_sha256(data@));
    }
    r
}

} // verus!
