//! Lowercase hexadecimal rendering of byte sequences.
//!
//! Digests leave the registry as raw bytes; every public surface of the
//! library speaks of their lowercase hex form, defined here.

use vstd::prelude::*;

verus! {

/// The lowercase hexadecimal digit for a nibble value. Values outside
/// `0..16` never arise; the final arm keeps the function total.
pub open spec fn hex_char_of(n: int) -> char {
    if n == 0 {
        '0'
    } else if n == 1 {
        '1'
    } else if n == 2 {
        '2'
    } else if n == 3 {
        '3'
    } else if n == 4 {
        '4'
    } else if n == 5 {
        '5'
    } else if n == 6 {
        '6'
    } else if n == 7 {
        '7'
    } else if n == 8 {
        '8'
    } else if n == 9 {
        '9'
    } else if n == 10 {
        'a'
    } else if n == 11 {
        'b'
    } else if n == 12 {
        'c'
    } else if n == 13 {
        'd'
    } else if n == 14 {
        'e'
    } else {
        'f'
    }
}

/// A lowercase hexadecimal digit.
pub open spec fn is_hex_char(c: char) -> bool {
    ('0' <= c && c <= '9') || ('a' <= c && c <= 'f')
}

/// Every character of the sequence is a lowercase hexadecimal digit.
pub open spec fn all_hex_chars(s: Seq<char>) -> bool {
    forall|i: int| 0 <= i < s.len() ==> is_hex_char(#[trigger] s[i])
}

/// The lowercase hex encoding of a byte sequence: two digits per byte,
/// high nibble first.
pub open spec fn hex_encoding(data: Seq<u8>) -> Seq<char>
    decreases data.len(),
{
    if data.len() == 0 {
        Seq::empty()
    } else {
        seq![
            hex_char_of((data.first() >> 4u8) as int),
            hex_char_of((data.first() & 0x0fu8) as int),
        ] + hex_encoding(data.drop_first())
    }
}

/// A hex encoding is twice as long as the bytes it renders.
proof fn lemma_hex_encoding_len(data: Seq<u8>)
    ensures
        hex_encoding(data).len() == 2 * data.len(),
    decreases data.len(),
{
    if data.len() > 0 {
        lemma_hex_encoding_len(data.drop_first());
    }
}

/// A hex encoding consists of lowercase hexadecimal digits only.
proof fn lemma_hex_encoding_hex(data: Seq<u8>)
    ensures
        all_hex_chars(hex_encoding(data)),
    decreases data.len(),
{
    if data.len() > 0 {
        lemma_hex_encoding_hex(data.drop_first());
    }
}

/// Lowercase hexadecimal digits are ASCII characters.
pub(crate) proof fn lemma_hex_chars_ascii(s: Seq<char>)
    requires
        all_hex_chars(s),
    ensures
        vstd::utf8::is_ascii_chars(s),
{
}

/// Appending one byte extends the encoding by that byte's two digits.
proof fn lemma_hex_encoding_push(data: Seq<u8>, b: u8)
    ensures
        hex_encoding(data.push(b)) == hex_encoding(data) + seq![
            hex_char_of((b >> 4u8) as int),
            hex_char_of((b & 0x0fu8) as int),
        ],
    decreases data.len(),
{
    if data.len() == 0 {
        assert(data.push(b).first() == b);
        assert(data.push(b).drop_first() =~= Seq::<u8>::empty());
        assert(hex_encoding(Seq::<u8>::empty()) =~= Seq::<char>::empty());
        assert(hex_encoding(data.push(b)) =~= hex_encoding(data) + seq![
            hex_char_of((b >> 4u8) as int),
            hex_char_of((b & 0x0fu8) as int),
        ]);
    } else {
        assert(data.push(b).first() == data.first());
        assert(data.push(b).drop_first() =~= data.drop_first().push(b));
        lemma_hex_encoding_push(data.drop_first(), b);
        assert(hex_encoding(data.push(b)) =~= hex_encoding(data) + seq![
            hex_char_of((b >> 4u8) as int),
            hex_char_of((b & 0x0fu8) as int),
        ]);
    }
}

/// Relies on `String::push`: appends the character at the end of the string.
#[verifier::external_body]
fn push_char(s: &mut String, c: char)
    ensures
        final(s)@ == old(s)@.push(c),
{
    s.push(c);
}

/// The lowercase hexadecimal digit for a nibble value.
fn hex_char(n: u8) -> (c: char)
    requires
        n < 16,
    ensures
        c == hex_char_of(n as int),
{
    if n == 0 {
        '0'
    } else if n == 1 {
        '1'
    } else if n == 2 {
        '2'
    } else if n == 3 {
        '3'
    } else if n == 4 {
        '4'
    } else if n == 5 {
        '5'
    } else if n == 6 {
        '6'
    } else if n == 7 {
        '7'
    } else if n == 8 {
        '8'
    } else if n == 9 {
        '9'
    } else if n == 10 {
        'a'
    } else if n == 11 {
        'b'
    } else if n == 12 {
        'c'
    } else if n == 13 {
        'd'
    } else if n == 14 {
        'e'
    } else {
        'f'
    }
}

/// Renders a byte sequence as its lowercase hex string.
pub fn to_hex(data: &Vec<u8>) -> (r: String)
    ensures
        r@ == hex_encoding(data@),
        r@.len() == 2 * data@.len(),
        all_hex_chars(r@),
{
    let mut r = String::new();
    let mut i: usize = 0;
    while i < data.len()
        invariant
            i <= data@.len(),
            r@ == hex_encoding(data@.take(i as int)),
        decreases data@.len() - i,
    {
        let b = data[i];
        assert(b >> 4u8 < 16) by (bit_vector);
        assert(b & 0x0fu8 < 16) by (bit_vector);
        let hi = hex_char(b >> 4);
        let lo = hex_char(b & 0x0f);
        push_char(&mut r, hi);
        push_char(&mut r, lo);
        proof {
            lemma_hex_encoding_push(data@.take(i as int), b);
            assert(data@.take(i as int).push(b) =~= data@.take(i + 1));
        }
        i = i + 1;
    }
    proof {
        assert(data@.take(data@.len() as int) =~= data@);
        lemma_hex_encoding_len(data@);
        lemma_hex_encoding_hex(data@);
    }
    r
}

} // verus!
