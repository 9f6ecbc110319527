//! Content digests of chunk files.
//!
//! The hash itself comes from an outside implementation and is only
//! named; the hex rendering of its bytes is verified library code, so a
//! manifest's digest string is pinned down to the named hash value.

use sha2::Digest;
use vstd::prelude::*;
use vstd::string::StringExecFns;

verus! {

/// The SHA-256 digest of a byte string.
pub uninterp spec fn sha256_of(data: Seq<u8>) -> Seq<u8>;

/// Relies on sha2::Sha256 through the Digest trait: the SHA-256 digest
/// of the input, which is 32 bytes and depends on the input alone.
#[verifier::external_body]
fn sha256_raw(data: &[u8]) -> (r: Vec<u8>)
    ensures
        r@ == sha256_of(data@),
        r@.len() == 32,
{
    sha2::Sha256::digest(data).to_vec()
}

/// The character for one hex digit value, lower case.
pub open spec fn spec_hex_digit(d: int) -> char {
    if d == 0 {
        '0'
    } else if d == 1 {
        '1'
    } else if d == 2 {
        '2'
    } else if d == 3 {
        '3'
    } else if d == 4 {
        '4'
    } else if d == 5 {
        '5'
    } else if d == 6 {
        '6'
    } else if d == 7 {
        '7'
    } else if d == 8 {
        '8'
    } else if d == 9 {
        '9'
    } else if d == 10 {
        'a'
    } else if d == 11 {
        'b'
    } else if d == 12 {
        'c'
    } else if d == 13 {
        'd'
    } else if d == 14 {
        'e'
    } else {
        'f'
    }
}

/// The lower-case hex rendering of a byte string, two digits per byte.
pub open spec fn spec_hex(data: Seq<u8>) -> Seq<char>
    decreases data.len(),
{
    if data.len() == 0 {
        Seq::empty()
    } else {
        spec_hex(data.drop_last()) + seq![
            spec_hex_digit(data.last() as int / 16),
            spec_hex_digit(data.last() as int % 16),
        ]
    }
}

/// The one-character string for a hex digit value.
fn hex_digit_str(d: u8) -> (s: &'static str)
    requires
        d < 16,
    ensures
        s@ == seq![spec_hex_digit(d as int)],
{
    proof {
        reveal_strlit("0");
        reveal_strlit("1");
        reveal_strlit("2");
        reveal_strlit("3");
        reveal_strlit("4");
        reveal_strlit("5");
        reveal_strlit("6");
        reveal_strlit("7");
        reveal_strlit("8");
        reveal_strlit("9");
        reveal_strlit("a");
        reveal_strlit("b");
        reveal_strlit("c");
        reveal_strlit("d");
        reveal_strlit("e");
        reveal_strlit("f");
    }
    match d {
        0 => "0",
        1 => "1",
        2 => "2",
        3 => "3",
        4 => "4",
        5 => "5",
        6 => "6",
        7 => "7",
        8 => "8",
        9 => "9",
        10 => "a",
        11 => "b",
        12 => "c",
        13 => "d",
        14 => "e",
        _ => "f",
    }
}

/// Renders bytes as lower-case hex.
pub fn to_hex(data: &Vec<u8>) -> (r: String)
    ensures
        r@ == spec_hex(data@),
{
    let mut r = String::new();
    let mut i: usize = 0;
    proof {
        assert(spec_hex(data@.subrange(0, 0)) =~= Seq::<char>::empty());
    }
    while i < data.len()
        invariant
            0 <= i <= data@.len(),
            r@ == spec_hex(data@.subrange(0, i as int)),
        decreases data@.len() - i,
    {
        let b = data[i];
        r.append(hex_digit_str(b / 16));
        r.append(hex_digit_str(b % 16));
        proof {
            let prefix = data@.subrange(0, i as int);
            let prefix1 = data@.subrange(0, i + 1);
            assert(prefix1.drop_last() =~= prefix);
            assert(prefix1.last() == data@[i as int]);
            assert(r@ =~= spec_hex(prefix1));
        }
        i += 1;
    }
    proof {
        assert(data@.subrange(0, data@.len() as int) =~= data@);
    }
    r
}

/// The SHA-256 digest of a byte string, as the manifest records it.
pub open spec fn spec_digest_hex(data: Seq<u8>) -> Seq<char> {
    spec_hex(sha256_of(data))
}

/// Computes the content digest of a serialized chunk: the lower-case hex
/// SHA-256 of its bytes.
pub fn sha256_hex(data: &[u8]) -> (r: String)
    ensures
        r@ == spec_digest_hex(data@),
        r@.len() == 64,
{
    let raw = sha256_raw(data);
    let hex = to_hex(&raw);
    proof {
        lemma_hex_len(raw@);
    }
    hex
}

/// Hex rendering doubles the length.
proof fn lemma_hex_len(data: Seq<u8>)
    ensures
        spec_hex(data).len() == 2 * data.len(),
    decreases data.len(),
{
    if data.len() > 0 {
        lemma_hex_len(data.drop_last());
    }
}

} // verus!
