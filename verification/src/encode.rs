//! Percent-encoding of one path segment of a download URL.

use vstd::prelude::*;
use vstd::string::StringSliceAdditionalSpecFns;

verus! {

/// The upper-case hexadecimal digit of a value below 16, in ASCII.
pub open spec fn hex_digit(n: nat) -> u8
    recommends
        n < 16,
{
    if n < 10 {
        (48 + n) as u8
    } else {
        (55 + n) as u8
    }
}

/// The escape of one byte: a percent sign and its two hexadecimal digits.
pub open spec fn escape(byte: u8) -> Seq<u8> {
    seq![37u8, hex_digit(byte as nat / 16), hex_digit(byte as nat % 16)]
}

/// The bytes that are escaped in a path segment: everything outside
/// ASCII, the control characters, and space, double quote, number sign,
/// less-than, greater-than, question mark, backtick and the two braces.
pub open spec fn must_escape(byte: u8) -> bool {
    ||| byte >= 127
    ||| byte < 32
    ||| byte == 32
    ||| byte == 34
    ||| byte == 35
    ||| byte == 60
    ||| byte == 62
    ||| byte == 63
    ||| byte == 96
    ||| byte == 123
    ||| byte == 125
}

/// The encoding of a byte string: each byte as it is, or its escape.
pub open spec fn encoded(bytes: Seq<u8>) -> Seq<u8>
    decreases bytes.len(),
{
    if bytes.len() == 0 {
        Seq::empty()
    } else {
        encoded(bytes.drop_last()) + if must_escape(bytes.last()) {
            escape(bytes.last())
        } else {
            seq![bytes.last()]
        }
    }
}

/// Calls `percent_encoding::percent_encode_byte`, which looks the byte up
/// in a table of all 256 escapes: the result is the percent sign followed
/// by the byte's two upper-case hexadecimal digits.
#[verifier::external_body]
fn escape_byte(byte: u8) -> (out: Vec<u8>)
    ensures
        out@ == escape(byte),
{
    percent_encoding::percent_encode_byte(byte).as_bytes().to_vec()
}

/// Whether a byte is escaped in a path segment.
pub fn needs_escape(byte: u8) -> (b: bool)
    ensures
        b == must_escape(byte),
{
    byte >= 127 || byte <= 32 || byte == 34 || byte == 35 || byte == 60 || byte == 62 || byte
        == 63 || byte == 96 || byte == 123 || byte == 125
}

/// Encodes a file name for use as one segment of a URL's path. The result
/// is ASCII.
pub fn encode_path_segment(s: &str) -> (out: Vec<u8>)
    ensures
        out@ == encoded(s.spec_bytes()),
{
    let bytes = s.as_bytes();
    let mut out: Vec<u8> = Vec::new();
    let mut i: usize = 0;
    proof {
        assert(bytes@.subrange(0, 0) =~= Seq::<u8>::empty());
    }
    while i < bytes.len()
        invariant
            i <= bytes@.len(),
            bytes@ == s.spec_bytes(),
            out@ == encoded(bytes@.subrange(0, i as int)),
        decreases bytes@.len() - i,
    {
        let byte: u8 = bytes[i];
        proof {
            assert(bytes@.subrange(0, i + 1).drop_last() =~= bytes@.subrange(0, i as int));
        }
        if needs_escape(byte) {
            let mut esc = escape_byte(byte);
            out.append(&mut esc);
        } else {
            out.push(byte);
            proof {
                assert(out@ =~= encoded(bytes@.subrange(0, i as int)) + seq![byte]);
            }
        }
        i = i + 1;
    }
    proof {
        assert(bytes@.subrange(0, i as int) =~= bytes@);
    }
    out
}

} // verus!
