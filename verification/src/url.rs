//! Percent-encoding of texts in URLs.

use crate::organizer;
use crate::text;
use vstd::prelude::*;

verus! {

/// A byte that stands for itself.
pub open spec fn unreserved(b: u8) -> bool {
    (65 <= b && b <= 90) || (97 <= b && b <= 122) || (48 <= b && b <= 57) || b == 45 || b == 95
        || b == 46 || b == 126
}

/// A hexadecimal digit in upper case.
pub open spec fn upper_hex(d: int) -> char {
    if d < 10 {
        (48 + d) as char
    } else {
        (55 + d) as char
    }
}

/// What is written for a byte.
pub open spec fn encoded_byte(b: u8) -> Seq<char> {
    if unreserved(b) {
        seq![b as char]
    } else {
        seq!['%', upper_hex((b / 16) as int), upper_hex((b % 16) as int)]
    }
}

pub open spec fn encoded_bytes(bytes: Seq<u8>) -> Seq<char>
    decreases bytes.len(),
{
    if bytes.len() == 0 {
        Seq::empty()
    } else {
        encoded_bytes(bytes.drop_last()) + encoded_byte(bytes.last())
    }
}

/// A text as it stands in a URL.
pub open spec fn encoded(s: Seq<char>) -> Seq<char> {
    encoded_bytes(vstd::utf8::encode_utf8(s))
}

fn hex_char(d: u8) -> (r: char)
    requires
        d < 16,
    ensures
        r == upper_hex(d as int),
{
    if d < 10 {
        (48 + d) as char
    } else {
        (55 + d) as char
    }
}

/// A text as it stands in a URL: letters, digits and `-_.~` as they are, every other byte as `%`
/// and two hexadecimal digits.
pub fn urlencode(s: &str) -> (r: String)
    ensures
        r@ == encoded(s@),
{
    let bytes = s.as_bytes();
    let mut out = String::new();
    let mut i: usize = 0;
    assert(bytes@.take(0) == Seq::<u8>::empty());
    while i < bytes.len()
        invariant
            i <= bytes@.len(),
            out@ == encoded_bytes(bytes@.take(i as int)),
        decreases bytes@.len() - i,
    {
        let b: u8 = bytes[i];
        let ghost before = out@;
        proof {
            assert(bytes@.take(i + 1).drop_last() == bytes@.take(i as int));
            assert(bytes@.take(i + 1).last() == b);
        }
        if (65 <= b && b <= 90) || (97 <= b && b <= 122) || (48 <= b && b <= 57) || b == 45 || b
            == 95 || b == 46 || b == 126 {
            out.push(b as char);
            assert(out@ == before + encoded_byte(b));
        } else {
            out.push('%');
            out.push(hex_char(b / 16));
            out.push(hex_char(b % 16));
            assert(out@ == before + encoded_byte(b));
        }
        i = i + 1;
    }
    assert(bytes@.take(i as int) == bytes@);
    out
}

/// A character that may stand in an encoded text.
pub open spec fn url_safe(c: char) -> bool {
    (c as u32) < 128 && (unreserved(c as u8) || c == '%')
}

/// An encoded text holds nothing but letters, digits, `-_.~` and `%`.
pub proof fn encoding_is_safe(bytes: Seq<u8>)
    ensures
        forall|i: int|
            0 <= i < encoded_bytes(bytes).len() ==> url_safe(#[trigger] encoded_bytes(bytes)[i]),
    decreases bytes.len(),
{
    if bytes.len() > 0 {
        encoding_is_safe(bytes.drop_last());
        let rest = encoded_bytes(bytes.drop_last());
        let b = bytes.last();
        assert forall|i: int| 0 <= i < encoded_bytes(bytes).len() implies url_safe(
            #[trigger] encoded_bytes(bytes)[i],
        ) by {
            if i < rest.len() {
                assert(encoded_bytes(bytes)[i] == rest[i]);
            } else {
                assert(encoded_bytes(bytes)[i] == encoded_byte(b)[i - rest.len()]);
            }
        }
    }
}

/// The value of a hexadecimal digit in upper case.
pub open spec fn hex_value(c: char) -> int {
    if (c as u32) < 58 {
        (c as u32) - 48
    } else {
        (c as u32) - 55
    }
}

/// The bytes that an encoded text stands for.
pub open spec fn decoded(s: Seq<char>) -> Seq<u8>
    decreases s.len(),
{
    if s.len() == 0 {
        Seq::empty()
    } else if s[0] == '%' && s.len() >= 3 {
        seq![(16 * hex_value(s[1]) + hex_value(s[2])) as u8] + decoded(s.skip(3))
    } else {
        seq![s[0] as u8] + decoded(s.skip(1))
    }
}

/// Decoding an encoded text gives its bytes again, so no two texts are encoded alike.
pub proof fn decoding_undoes_encoding(bytes: Seq<u8>)
    ensures
        decoded(encoded_bytes(bytes)) == bytes,
{
    decoding_continues(bytes, Seq::empty());
    assert(encoded_bytes(bytes) + Seq::<char>::empty() == encoded_bytes(bytes));
    assert(decoded(Seq::<char>::empty()) == Seq::<u8>::empty());
    assert(bytes + Seq::<u8>::empty() == bytes);
}

proof fn decoding_continues(bytes: Seq<u8>, rest: Seq<char>)
    ensures
        decoded(encoded_bytes(bytes) + rest) == bytes + decoded(rest),
    decreases bytes.len(),
{
    if bytes.len() == 0 {
        assert(encoded_bytes(bytes) + rest == rest);
        assert(bytes + decoded(rest) == decoded(rest));
    } else {
        let b = bytes.last();
        let one = encoded_byte(b);
        decoding_continues(bytes.drop_last(), one + rest);
        assert(encoded_bytes(bytes) + rest == encoded_bytes(bytes.drop_last()) + (one + rest));
        assert(decoded(one + rest) == seq![b] + decoded(rest)) by {
            if unreserved(b) {
                assert((one + rest).skip(1) == rest);
                assert((one + rest)[0] == b as char);
                assert((b as char) as u8 == b);
            } else {
                assert((one + rest).skip(3) == rest);
                assert((one + rest)[0] == '%');
                assert((one + rest)[1] == upper_hex((b / 16) as int));
                assert((one + rest)[2] == upper_hex((b % 16) as int));
                assert(16 * (b / 16) + b % 16 == b);
            }
        }
        assert(bytes.drop_last() + (seq![b] + decoded(rest)) == bytes + decoded(rest));
    }
}

/// `key=value`, both encoded.
pub open spec fn pair_text(p: (Seq<char>, Seq<char>)) -> Seq<char> {
    encoded(p.0) + "="@ + encoded(p.1)
}

/// The pairs as a form: encoded, with `&` between them.
pub open spec fn form(params: Seq<(Seq<char>, Seq<char>)>) -> Seq<char> {
    text::joined(params.map_values(|p: (Seq<char>, Seq<char>)| pair_text(p)), "&"@)
}

/// The pairs as the body of a form.
pub fn form_body(params: &Vec<(String, String)>) -> (r: String)
    ensures
        r@ == form(organizer::pair_views(params@)),
{
    let ghost all = organizer::pair_views(params@);
    let ghost f = |p: (Seq<char>, Seq<char>)| pair_text(p);
    let mut parts: Vec<String> = Vec::new();
    let mut i: usize = 0;
    assert(text::views(parts@) == all.take(0).map_values(f));
    while i < params.len()
        invariant
            i <= params@.len(),
            all == organizer::pair_views(params@),
            f == (|p: (Seq<char>, Seq<char>)| pair_text(p)),
            text::views(parts@) == all.take(i as int).map_values(f),
        decreases params@.len() - i,
    {
        let mut s = urlencode(params[i].0.as_str());
        s.append("=");
        s.append(urlencode(params[i].1.as_str()).as_str());
        proof {
            text::views_push(parts@, s);
            assert(all.take(i + 1) == all.take(i as int).push(all[i as int]));
            assert(s@ == f(all[i as int]));
            assert(all.take(i + 1).map_values(f) == all.take(i as int).map_values(f).push(s@));
        }
        parts.push(s);
        i = i + 1;
    }
    assert(all.take(i as int) == all);
    text::join(&parts, "&")
}

} // verus!
