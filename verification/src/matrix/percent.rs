//! File names as a URL takes them.

use vstd::prelude::*;
use vstd::string::*;
use vstd::utf8::*;

verus! {

/// The hexadecimal digit for a number below sixteen.
pub open spec fn hex_digit(d: int) -> char {
    if d < 10 {
        crate::text::digit(d as nat)
    } else if d == 10 {
        'A'
    } else if d == 11 {
        'B'
    } else if d == 12 {
        'C'
    } else if d == 13 {
        'D'
    } else if d == 14 {
        'E'
    } else {
        'F'
    }
}

/// A byte as a percent sign and two hexadecimal digits.
pub open spec fn percent_byte(b: u8) -> Seq<char> {
    seq!['%', hex_digit(b as int / 16), hex_digit(b as int % 16)]
}

/// `percent_encoding::percent_encode_byte` looks a byte up in a table of all bytes, each as a
/// percent sign and two hexadecimal digits, the letters among them in upper case.
pub assume_specification[ percent_encoding::percent_encode_byte ](byte: u8) -> (r: &'static str)
    ensures
        r@ == percent_byte(byte),
;

/// Whether a byte cannot stand in the fragment of a URL: a control character, a space, one of
/// `"`, `<`, `>` and a backquote, or no ASCII.
/// <https://url.spec.whatwg.org/#fragment-percent-encode-set>
pub open spec fn in_fragment_set(b: u8) -> bool {
    ||| b < 0x20
    ||| b >= 0x7f
    ||| b == 0x20
    ||| b == 0x22
    ||| b == 0x3c
    ||| b == 0x3e
    ||| b == 0x60
}

/// Bytes with those that cannot stand in the fragment of a URL percent-encoded.
pub open spec fn encoded_bytes(bytes: Seq<u8>) -> Seq<char>
    decreases bytes.len(),
{
    if bytes.len() == 0 {
        Seq::empty()
    } else {
        let b = bytes.last();
        encoded_bytes(bytes.drop_last()) + if in_fragment_set(b) {
            percent_byte(b)
        } else {
            seq![b as char]
        }
    }
}

/// A text as the fragment of a URL takes it.
pub open spec fn percent_encoded(s: Seq<char>) -> Seq<char> {
    encoded_bytes(encode_utf8(s))
}

/// A text as the fragment of a URL takes it.
pub fn percent_encode(text: &str) -> (r: String)
    ensures
        r@ == percent_encoded(text@),
{
    let bytes = text.as_bytes();
    let mut r = String::new();
    let mut i: usize = 0;
    assert(bytes@.take(0) =~= Seq::empty());
    while i < bytes.len()
        invariant
            i <= bytes@.len(),
            r@ == encoded_bytes(bytes@.take(i as int)),
        decreases bytes@.len() - i,
    {
        assert(bytes@.take(i + 1).drop_last() =~= bytes@.take(i as int));
        let b: u8 = bytes[i];
        if b < 0x20 || b >= 0x7f || b == 0x20 || b == 0x22 || b == 0x3c || b == 0x3e || b == 0x60 {
            r.append(percent_encoding::percent_encode_byte(b));
        } else {
            r.push(b as char);
            assert(r@ =~= encoded_bytes(bytes@.take(i as int)) + seq![b as char]);
        }
        i = i + 1;
    }
    assert(bytes@.take(i as int) =~= bytes@);
    r
}

/// Whether a character can stand in the fragment of a URL.
pub open spec fn fits_fragment(c: char) -> bool {
    &&& ' ' < c < '\u{7f}'
    &&& c != '"'
    &&& c != '<'
    &&& c != '>'
    &&& c != '`'
}

/// Percent-encoding leaves only characters that can stand in the fragment of a URL, whatever
/// the text was.
pub proof fn encoded_fits_a_fragment(s: Seq<char>)
    ensures
        forall|i: int| 0 <= i < percent_encoded(s).len() ==> fits_fragment(#[trigger] percent_encoded(s)[i]),
{
    lemma_encoded_fits(encode_utf8(s));
}

proof fn lemma_encoded_fits(bytes: Seq<u8>)
    ensures
        forall|i: int| 0 <= i < encoded_bytes(bytes).len() ==> fits_fragment(#[trigger] encoded_bytes(bytes)[i]),
    decreases bytes.len(),
{
    if bytes.len() > 0 {
        let before = encoded_bytes(bytes.drop_last());
        lemma_encoded_fits(bytes.drop_last());
        assert forall|i: int| 0 <= i < encoded_bytes(bytes).len() implies fits_fragment(
            #[trigger] encoded_bytes(bytes)[i],
        ) by {
            if i < before.len() {
                assert(encoded_bytes(bytes)[i] == before[i]);
            } else if in_fragment_set(bytes.last()) {
                assert(encoded_bytes(bytes)[i] == percent_byte(bytes.last())[i - before.len()]);
            } else {
                assert(encoded_bytes(bytes)[i] == bytes.last() as char);
            }
        }
    }
}

/// The number that a hexadecimal digit stands for.
pub open spec fn hex_value(c: char) -> int {
    if '0' <= c <= '9' {
        c as int - '0' as int
    } else {
        c as int - 'A' as int + 10
    }
}

/// A text is encoded byte by byte: two texts one after the other give what each gives. A byte
/// that can stand in the fragment of a URL stays the character that it is, and any other byte
/// becomes a percent sign and two digits, upper case, that stand for it.
pub proof fn bytes_are_encoded_one_by_one(a: Seq<u8>, c: Seq<u8>, b: u8)
    ensures
        encoded_bytes(a + c) == encoded_bytes(a) + encoded_bytes(c),
        encoded_bytes(Seq::empty()) == Seq::<char>::empty(),
        b < 128 ==> (fits_fragment(b as char) <==> 33 <= b <= 126 && !(seq!['"', '<', '>', '`'].contains(
            b as char,
        ))),
        b < 128 && fits_fragment(b as char) ==> encoded_bytes(seq![b]) == seq![b as char],
        !(b < 128 && fits_fragment(b as char)) ==> ({
            let e = encoded_bytes(seq![b]);
            &&& e.len() == 3 && e[0] == '%'
            &&& 16 * hex_value(e[1]) + hex_value(e[2]) == b
            &&& forall|i: int| 1 <= i < 3 ==> '0' <= #[trigger] e[i] <= '9' || 'A' <= e[i] <= 'F'
        }),
    decreases c.len(),
{
    reveal_with_fuel(encoded_bytes, 2);
    let apart = seq!['"', '<', '>', '`'];
    assert(apart[0] == '"' && apart[1] == '<' && apart[2] == '>' && apart[3] == '`');
    if c.len() == 0 {
        assert(a + c =~= a);
        assert(encoded_bytes(a) + encoded_bytes(c) =~= encoded_bytes(a));
    } else {
        bytes_are_encoded_one_by_one(a, c.drop_last(), b);
        assert((a + c).drop_last() =~= a + c.drop_last());
        assert(encoded_bytes(a + c) =~= encoded_bytes(a) + encoded_bytes(c));
    }
    assert(seq![b].drop_last() =~= Seq::empty());
    let e = encoded_bytes(seq![b]);
    if in_fragment_set(b) {
        assert(e =~= percent_byte(b));
    } else {
        assert(e =~= seq![b as char]);
    }
}

/// A text is encoded by the bytes that it has in UTF-8, so that a text of characters that can
/// stand in the fragment of a URL stays as it is.
pub proof fn plain_names_stay(s: Seq<char>, t: Seq<char>)
    ensures
        percent_encoded(s) == encoded_bytes(encode_utf8(s)),
        percent_encoded(s + t) == percent_encoded(s) + percent_encoded(t),
        (forall|i: int| 0 <= i < s.len() ==> fits_fragment(#[trigger] s[i])) ==> percent_encoded(s)
            == s,
    decreases s.len(),
{
    crate::ircd::proto::lemma_encode_concat(s, t);
    bytes_are_encoded_one_by_one(encode_utf8(s), encode_utf8(t), 0);
    if s.len() > 0 && (forall|i: int| 0 <= i < s.len() ==> fits_fragment(#[trigger] s[i])) {
        let head = s.drop_last();
        let c = s.last();
        let one = seq![c];
        assert(fits_fragment(s[s.len() - 1]));
        assert forall|i: int| 0 <= i < head.len() implies fits_fragment(#[trigger] head[i]) by {
            assert(fits_fragment(s[i]));
        }
        plain_names_stay(head, one);
        assert(s =~= head + one);
        is_ascii_chars_encode_utf8(one);
        assert(encode_utf8(one) =~= seq![c as u8]);
        bytes_are_encoded_one_by_one(Seq::empty(), Seq::empty(), c as u8);
        assert((c as u8) as char == c);
        assert(percent_encoded(one) =~= one);
    } else if s.len() == 0 {
        bytes_are_encoded_one_by_one(Seq::empty(), Seq::empty(), 0);
        assert(encode_utf8(s) =~= Seq::empty());
        assert(percent_encoded(s) =~= s);
    }
}

} // verus!
