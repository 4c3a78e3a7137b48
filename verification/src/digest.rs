//! The fixed 20-byte digest value with raw-byte and hexadecimal accessors.

use vstd::prelude::*;

verus! {

/// A hash digest: an immutable 20-byte value.
#[derive(Clone, Copy, PartialEq, Eq, Debug)]
pub struct Digest {
    bytes: [u8; 20],
}

impl View for Digest {
    type V = Seq<u8>;

    /// The 20 digest bytes.
    closed spec fn view(&self) -> Seq<u8> {
        self.bytes@
    }
}

/// The lowercase hexadecimal digit for a nibble.
pub open spec fn spec_hex_digit_lower(n: u8) -> char {
    if n == 0 {
        '0'
    } else if n == 1 {
        '1'
    } else if n == 2 {
        '2'
    } else if n == 3 {
        '3'
    } else if n == 4 {
        '4'
    } else if n == 5 {
        '5'
    } else if n == 6 {
        '6'
    } else if n == 7 {
        '7'
    } else if n == 8 {
        '8'
    } else if n == 9 {
        '9'
    } else if n == 10 {
        'a'
    } else if n == 11 {
        'b'
    } else if n == 12 {
        'c'
    } else if n == 13 {
        'd'
    } else if n == 14 {
        'e'
    } else {
        'f'
    }
}

/// The uppercase hexadecimal digit for a nibble.
pub open spec fn spec_hex_digit_upper(n: u8) -> char {
    if n == 0 {
        '0'
    } else if n == 1 {
        '1'
    } else if n == 2 {
        '2'
    } else if n == 3 {
        '3'
    } else if n == 4 {
        '4'
    } else if n == 5 {
        '5'
    } else if n == 6 {
        '6'
    } else if n == 7 {
        '7'
    } else if n == 8 {
        '8'
    } else if n == 9 {
        '9'
    } else if n == 10 {
        'A'
    } else if n == 11 {
        'B'
    } else if n == 12 {
        'C'
    } else if n == 13 {
        'D'
    } else if n == 14 {
        'E'
    } else {
        'F'
    }
}

/// Lowercase hexadecimal rendering: two digits per byte, most significant
/// nibble first.
pub open spec fn spec_hex_lower(bytes: Seq<u8>) -> Seq<char> {
    Seq::new(
        2 * bytes.len(),
        |i: int|
            if i % 2 == 0 {
                spec_hex_digit_lower(bytes[i / 2] >> 4)
            } else {
                spec_hex_digit_lower(bytes[i / 2] & 0xf)
            },
    )
}

/// Uppercase hexadecimal rendering: two digits per byte, most significant
/// nibble first.
pub open spec fn spec_hex_upper(bytes: Seq<u8>) -> Seq<char> {
    Seq::new(
        2 * bytes.len(),
        |i: int|
            if i % 2 == 0 {
                spec_hex_digit_upper(bytes[i / 2] >> 4)
            } else {
                spec_hex_digit_upper(bytes[i / 2] & 0xf)
            },
    )
}

/// Maps the six lowercase hexadecimal letters to their uppercase form and
/// leaves every other character alone.
pub open spec fn spec_upper_hex_char(c: char) -> char {
    if c == 'a' {
        'A'
    } else if c == 'b' {
        'B'
    } else if c == 'c' {
        'C'
    } else if c == 'd' {
        'D'
    } else if c == 'e' {
        'E'
    } else if c == 'f' {
        'F'
    } else {
        c
    }
}

/// The two hexadecimal renderings of the same bytes differ only in letter
/// case: position by position, the uppercase rendering is the case-mapped
/// lowercase one.
pub proof fn lemma_hex_case(bytes: Seq<u8>)
    ensures
        spec_hex_upper(bytes).len() == spec_hex_lower(bytes).len(),
        forall|i: int|
            0 <= i < spec_hex_lower(bytes).len() ==> spec_hex_upper(bytes)[i]
                == spec_upper_hex_char(spec_hex_lower(bytes)[i]),
{
}

/// The lowercase hexadecimal digit for a nibble.
fn hex_digit_lower(n: u8) -> (c: char)
    ensures
        c == spec_hex_digit_lower(n),
{
    if n == 0 {
        '0'
    } else if n == 1 {
        '1'
    } else if n == 2 {
        '2'
    } else if n == 3 {
        '3'
    } else if n == 4 {
        '4'
    } else if n == 5 {
        '5'
    } else if n == 6 {
        '6'
    } else if n == 7 {
        '7'
    } else if n == 8 {
        '8'
    } else if n == 9 {
        '9'
    } else if n == 10 {
        'a'
    } else if n == 11 {
        'b'
    } else if n == 12 {
        'c'
    } else if n == 13 {
        'd'
    } else if n == 14 {
        'e'
    } else {
        'f'
    }
}

/// The uppercase hexadecimal digit for a nibble.
fn hex_digit_upper(n: u8) -> (c: char)
    ensures
        c == spec_hex_digit_upper(n),
{
    if n == 0 {
        '0'
    } else if n == 1 {
        '1'
    } else if n == 2 {
        '2'
    } else if n == 3 {
        '3'
    } else if n == 4 {
        '4'
    } else if n == 5 {
        '5'
    } else if n == 6 {
        '6'
    } else if n == 7 {
        '7'
    } else if n == 8 {
        '8'
    } else if n == 9 {
        '9'
    } else if n == 10 {
        'A'
    } else if n == 11 {
        'B'
    } else if n == 12 {
        'C'
    } else if n == 13 {
        'D'
    } else if n == 14 {
        'E'
    } else {
        'F'
    }
}

/// Relies on `String::push`: appends the given character to the end of the
/// string.
#[verifier::external_body]
fn push_char(s: &mut String, c: char)
    ensures
        final(s)@ == old(s)@.push(c),
{
    s.push(c);
}

impl Digest {
    /// Creates a new digest from its raw 20 bytes.
    pub fn new(digest: [u8; 20]) -> (r: Self)
        ensures
            r@ == digest@,
    {
        Self { bytes: digest }
    }

    /// Returns a byte slice of the digest's contents.
    pub fn as_bytes(&self) -> (r: &[u8])
        ensures
            r@ == self@,
    {
        self.bytes.as_slice()
    }

    /// Consumes the digest, returning the digest bytes.
    pub fn into_inner(self) -> (r: [u8; 20])
        ensures
            r@ == self@,
    {
        self.bytes
    }

    /// Returns a string in the lowercase hexadecimal representation.
    pub fn to_hex_lowercase(&self) -> (r: String)
        ensures
            r@ == spec_hex_lower(self@),
    {
        let mut s = String::new();
        let mut i: usize = 0;
        while i < 20
            invariant
                i <= 20,
                s@.len() == 2 * i,
                forall|j: int| 0 <= j < 2 * i ==> s@[j] == spec_hex_lower(self@)[j],
            decreases 20 - i,
        {
            let b = self.bytes[i];
            push_char(&mut s, hex_digit_lower(b >> 4));
            push_char(&mut s, hex_digit_lower(b & 0xf));
            proof {
                assert((2 * i as int) % 2 == 0 && (2 * i as int) / 2 == i as int);
                assert((2 * i as int + 1) % 2 == 1 && (2 * i as int + 1) / 2 == i as int);
            }
            i += 1;
        }
        proof {
            assert(s@ =~= spec_hex_lower(self@));
        }
        s
    }

    /// Returns a string in the uppercase hexadecimal representation.
    pub fn to_hex_uppercase(&self) -> (r: String)
        ensures
            r@ == spec_hex_upper(self@),
    {
        let mut s = String::new();
        let mut i: usize = 0;
        while i < 20
            invariant
                i <= 20,
                s@.len() == 2 * i,
                forall|j: int| 0 <= j < 2 * i ==> s@[j] == spec_hex_upper(self@)[j],
            decreases 20 - i,
        {
            let b = self.bytes[i];
            push_char(&mut s, hex_digit_upper(b >> 4));
            push_char(&mut s, hex_digit_upper(b & 0xf));
            proof {
                assert((2 * i as int) % 2 == 0 && (2 * i as int) / 2 == i as int);
                assert((2 * i as int + 1) % 2 == 1 && (2 * i as int + 1) / 2 == i as int);
            }
            i += 1;
        }
        proof {
            assert(s@ =~= spec_hex_upper(self@));
        }
        s
    }
}

impl From<[u8; 20]> for Digest {
    /// Wraps raw digest bytes.
    fn from(digest: [u8; 20]) -> (r: Self) {
        Self { bytes: digest }
    }
}

impl vstd::std_specs::convert::FromSpecImpl<[u8; 20]> for Digest {
    open spec fn obeys_from_spec() -> bool {
        true
    }

    closed spec fn from_spec(digest: [u8; 20]) -> Self {
        (Digest { bytes: digest })
    }
}

} // verus!
