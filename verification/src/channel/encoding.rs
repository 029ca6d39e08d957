//! Percent-encoding and other small text forms that requests are made of.

use crate::text::{chars_of, owned, slice_chars};
use vstd::prelude::*;
use vstd::utf8::encode_utf8;

verus! {

/// The byte stands for itself in a URL: a letter, a digit or one of `-_.~`.
pub open spec fn unreserved(b: u8) -> bool {
    ||| 65 <= b <= 90
    ||| 97 <= b <= 122
    ||| 48 <= b <= 57
    ||| b == 45
    ||| b == 95
    ||| b == 46
    ||| b == 126
}

/// The capital hexadecimal digit of a number below sixteen.
pub open spec fn hex_capital(n: int) -> char {
    if n < 10 {
        (48 + n) as char
    } else {
        (55 + n) as char
    }
}

/// A byte as it stands in a URL.
pub open spec fn encoded_byte(b: u8) -> Seq<char> {
    if unreserved(b) {
        seq![b as char]
    } else {
        seq!['%', hex_capital(b as int / 16), hex_capital(b as int % 16)]
    }
}

/// Bytes as they stand in a URL.
pub open spec fn encoded_bytes(bytes: Seq<u8>) -> Seq<char>
    decreases bytes.len(),
{
    if bytes.len() == 0 {
        Seq::empty()
    } else {
        encoded_bytes(bytes.drop_last()) + encoded_byte(bytes.last())
    }
}

/// A text as it stands in a URL.
pub open spec fn url_encoded(s: Seq<char>) -> Seq<char> {
    encoded_bytes(encode_utf8(s))
}

fn hex_char(n: u8) -> (r: char)
    requires
        n < 16,
    ensures
        r == hex_capital(n as int),
{
    if n < 10 {
        (48 + n) as char
    } else {
        (55 + n) as char
    }
}

/// Percent-encodes a text for a path or query segment.
pub fn urlencoding_encode(s: &str) -> (r: String)
    ensures
        r@ == url_encoded(s@),
{
    let bytes = s.as_bytes();
    let mut out = String::new();
    let mut i: usize = 0;
    assert(bytes@.take(0) =~= Seq::<u8>::empty());
    while i < bytes.len()
        invariant
            i <= bytes@.len(),
            out@ == encoded_bytes(bytes@.take(i as int)),
        decreases bytes@.len() - i,
    {
        let b: u8 = bytes[i];
        assert(bytes@.take(i + 1).drop_last() =~= bytes@.take(i as int));
        let ghost was = out@;
        if (65 <= b && b <= 90) || (97 <= b && b <= 122) || (48 <= b && b <= 57) || b == 45 || b == 95
            || b == 46 || b == 126 {
            out.push(b as char);
            assert(out@ =~= was + encoded_byte(b));
        } else {
            out.push('%');
            out.push(hex_char(b / 16));
            out.push(hex_char(b % 16));
            assert(out@ =~= was + encoded_byte(b));
        }
        i = i + 1;
    }
    assert(bytes@.take(bytes@.len() as int) =~= bytes@);
    out
}

/// A character that may stand in an encoded text.
pub open spec fn url_safe(c: char) -> bool {
    c == '%' || (c < '\u{80}' && unreserved(c as u8))
}

/// An encoded text holds nothing that means something in a URL: no slash, no
/// space, no question mark.
pub proof fn encoded_text_is_safe(s: Seq<char>)
    ensures
        forall|i: int| 0 <= i < url_encoded(s).len() ==> url_safe(#[trigger] url_encoded(s)[i]),
{
    encoded_bytes_are_safe(encode_utf8(s));
}

proof fn encoded_bytes_are_safe(bytes: Seq<u8>)
    ensures
        forall|i: int| 0 <= i < encoded_bytes(bytes).len() ==> url_safe(#[trigger] encoded_bytes(bytes)[i]),
    decreases bytes.len(),
{
    if bytes.len() > 0 {
        let rest = encoded_bytes(bytes.drop_last());
        let tail = encoded_byte(bytes.last());
        encoded_bytes_are_safe(bytes.drop_last());
        assert forall|i: int| 0 <= i < encoded_bytes(bytes).len() implies url_safe(
            #[trigger] encoded_bytes(bytes)[i],
        ) by {
            if i < rest.len() {
                assert(encoded_bytes(bytes)[i] == rest[i]);
            } else {
                assert(encoded_bytes(bytes)[i] == tail[i - rest.len()]);
            }
        }
    }
}

/// A capital hexadecimal digit.
pub open spec fn is_hex_capital(c: char) -> bool {
    '0' <= c <= '9' || 'A' <= c <= 'F'
}

/// In an encoded text every percent sign starts an escape: two capital
/// hexadecimal digits follow it.
pub proof fn percent_signs_start_escapes(s: Seq<char>)
    ensures
        forall|i: int|
            0 <= i < url_encoded(s).len() && #[trigger] url_encoded(s)[i] == '%' ==> i + 2
                < url_encoded(s).len() && is_hex_capital(url_encoded(s)[i + 1]) && is_hex_capital(
                url_encoded(s)[i + 2],
            ),
{
    escapes_are_whole(encode_utf8(s));
}

proof fn escapes_are_whole(bytes: Seq<u8>)
    ensures
        forall|i: int|
            0 <= i < encoded_bytes(bytes).len() && #[trigger] encoded_bytes(bytes)[i] == '%' ==> i
                + 2 < encoded_bytes(bytes).len() && is_hex_capital(encoded_bytes(bytes)[i + 1])
                && is_hex_capital(encoded_bytes(bytes)[i + 2]),
    decreases bytes.len(),
{
    if bytes.len() > 0 {
        let rest = encoded_bytes(bytes.drop_last());
        let tail = encoded_byte(bytes.last());
        let all = encoded_bytes(bytes);
        escapes_are_whole(bytes.drop_last());
        assert forall|i: int| 0 <= i < all.len() && #[trigger] all[i] == '%' implies i + 2
            < all.len() && is_hex_capital(all[i + 1]) && is_hex_capital(all[i + 2]) by {
            if i < rest.len() {
                assert(rest[i] == '%');
                assert(all[i + 1] == rest[i + 1] && all[i + 2] == rest[i + 2]);
            } else {
                assert(tail[i - rest.len()] == '%');
                assert(i == rest.len());
                assert(all[i + 1] == tail[1] && all[i + 2] == tail[2]);
            }
        }
    }
}

/// The bytes of a text that stand for themselves.
pub open spec fn kept_bytes(bytes: Seq<u8>) -> Seq<u8> {
    bytes.filter(|b: u8| unreserved(b))
}

/// A byte that stands for itself takes one character, every other byte three.
pub proof fn encoded_length(s: Seq<char>)
    ensures
        kept_bytes(encode_utf8(s)).len() <= encode_utf8(s).len(),
        url_encoded(s).len() == kept_bytes(encode_utf8(s)).len() + 3 * (encode_utf8(s).len()
            - kept_bytes(encode_utf8(s)).len()),
{
    encoded_bytes_length(encode_utf8(s));
}

proof fn encoded_bytes_length(bytes: Seq<u8>)
    ensures
        kept_bytes(bytes).len() <= bytes.len(),
        encoded_bytes(bytes).len() == kept_bytes(bytes).len() + 3 * (bytes.len() - kept_bytes(
            bytes,
        ).len()),
    decreases bytes.len(),
{
    reveal(Seq::filter);
    if bytes.len() > 0 {
        encoded_bytes_length(bytes.drop_last());
    }
}

/// Encoding goes piece by piece: an encoded text is its parts, encoded.
pub proof fn encoding_distributes(s: Seq<char>, t: Seq<char>)
    ensures
        url_encoded(s + t) == url_encoded(s) + url_encoded(t),
{
    utf8_distributes(s, t);
    encoded_bytes_distribute(encode_utf8(s), encode_utf8(t));
}

proof fn utf8_distributes(s: Seq<char>, t: Seq<char>)
    ensures
        encode_utf8(s + t) == encode_utf8(s) + encode_utf8(t),
    decreases s.len(),
{
    if s.len() == 0 {
        assert(s + t =~= t);
        assert(encode_utf8(s) + encode_utf8(t) =~= encode_utf8(t));
    } else {
        utf8_distributes(s.drop_first(), t);
        assert((s + t).drop_first() =~= s.drop_first() + t);
        assert((s + t)[0] == s[0]);
        assert(encode_utf8(s + t) =~= encode_utf8(s) + encode_utf8(t));
    }
}

proof fn encoded_bytes_distribute(a: Seq<u8>, b: Seq<u8>)
    ensures
        encoded_bytes(a + b) == encoded_bytes(a) + encoded_bytes(b),
    decreases b.len(),
{
    if b.len() == 0 {
        assert(a + b =~= a);
        assert(encoded_bytes(a) + encoded_bytes(b) =~= encoded_bytes(a));
    } else {
        encoded_bytes_distribute(a, b.drop_last());
        assert((a + b).drop_last() =~= a + b.drop_last());
        assert((a + b).last() == b.last());
        assert(encoded_bytes(a + b) =~= encoded_bytes(a) + encoded_bytes(b));
    }
}

/// An encoded text can be read back: no two texts are encoded alike.
pub proof fn encoding_is_readable(s: Seq<char>, t: Seq<char>)
    requires
        url_encoded(s) == url_encoded(t),
    ensures
        s == t,
{
    encoded_bytes_are_readable(encode_utf8(s), encode_utf8(t));
    vstd::utf8::encode_utf8_decode_utf8(s);
    vstd::utf8::encode_utf8_decode_utf8(t);
}

proof fn encoded_bytes_are_readable(a: Seq<u8>, b: Seq<u8>)
    requires
        encoded_bytes(a) == encoded_bytes(b),
    ensures
        a == b,
    decreases a.len(),
{
    if a.len() > 0 {
        first_byte_first(a);
    }
    if b.len() > 0 {
        first_byte_first(b);
    }
    if a.len() > 0 && b.len() > 0 {
        let x = encoded_byte(a[0]);
        let y = encoded_byte(b[0]);
        let p = encoded_bytes(a);
        let q = encoded_bytes(b);
        assert(p[0] == x[0]);
        assert(q[0] == y[0]);
        if x[0] == '%' {
            assert(p[1] == x[1] && p[2] == x[2]);
            assert(q[1] == y[1] && q[2] == y[2]);
            assert(a[0] as int / 16 == b[0] as int / 16);
            assert(a[0] as int % 16 == b[0] as int % 16);
        }
        assert(a[0] == b[0]);
        assert(p.skip(x.len() as int) =~= encoded_bytes(a.drop_first()));
        assert(q.skip(y.len() as int) =~= encoded_bytes(b.drop_first()));
        encoded_bytes_are_readable(a.drop_first(), b.drop_first());
        assert(a =~= seq![a[0]] + a.drop_first());
        assert(b =~= seq![b[0]] + b.drop_first());
    } else {
        assert(a.len() > 0 ==> encoded_bytes(a).len() > 0);
        assert(b.len() > 0 ==> encoded_bytes(b).len() > 0);
        assert(a =~= b);
    }
}

proof fn first_byte_first(bytes: Seq<u8>)
    requires
        bytes.len() > 0,
    ensures
        encoded_bytes(bytes) == encoded_byte(bytes[0]) + encoded_bytes(bytes.drop_first()),
        unreserved(bytes[0]) ==> encoded_byte(bytes[0])[0] != '%',
{
    let head = seq![bytes[0]];
    assert(bytes =~= head + bytes.drop_first());
    encoded_bytes_distribute(head, bytes.drop_first());
    assert(head.drop_last() =~= Seq::<u8>::empty());
    assert(encoded_bytes(head.drop_last()) =~= Seq::<char>::empty());
    assert(encoded_bytes(head) =~= encoded_byte(bytes[0]));
}

/// `s` without the characters at its start that `drop` picks.
pub open spec fn without_leading(s: Seq<char>, drop: spec_fn(char) -> bool) -> Seq<char>
    decreases s.len(),
{
    if s.len() > 0 && drop(s[0]) {
        without_leading(s.drop_first(), drop)
    } else {
        s
    }
}

/// The marks that a heading or a list item starts with.
pub open spec fn is_mark() -> spec_fn(char) -> bool {
    |c: char| c == '#' || c == '*' || c == '-' || c == ' '
}

pub open spec fn is_slash() -> spec_fn(char) -> bool {
    |c: char| c == '/'
}

pub open spec fn is_hash() -> spec_fn(char) -> bool {
    |c: char| c == '#'
}

/// Dropping characters at the start leaves an end of the text.
pub proof fn leading_leaves_the_end(s: Seq<char>, drop: spec_fn(char) -> bool)
    ensures
        without_leading(s, drop).len() <= s.len(),
        without_leading(s, drop) == s.skip(s.len() - without_leading(s, drop).len()),
    decreases s.len(),
{
    if s.len() > 0 && drop(s[0]) {
        leading_leaves_the_end(s.drop_first(), drop);
        let n: int = s.len() - without_leading(s, drop).len();
        assert(s.drop_first().skip(n - 1) =~= s.skip(n));
    } else {
        assert(s.skip(0) =~= s);
    }
}

/// What may be dropped from the start of a text.
#[derive(Debug, Clone, Copy, PartialEq, Eq, Structural)]
pub enum Leading {
    Marks,
    Slashes,
    Hashes,
}

pub open spec fn dropped(kind: Leading) -> spec_fn(char) -> bool {
    match kind {
        Leading::Marks => is_mark(),
        Leading::Slashes => is_slash(),
        Leading::Hashes => is_hash(),
    }
}

/// `s` without the characters of a kind at its start.
pub fn drop_leading(s: &str, kind: Leading) -> (r: String)
    ensures
        r@ == without_leading(s@, dropped(kind)),
{
    let v = chars_of(s);
    let ghost f = dropped(kind);
    let mut lo: usize = 0;
    assert(s@.skip(0) =~= s@);
    while lo < v.len()
        invariant_except_break
            f == dropped(kind),
            v@ == s@,
            lo <= v@.len(),
            without_leading(s@, f) == without_leading(s@.skip(lo as int), f),
        ensures
            lo <= v@.len(),
            v@ == s@,
            without_leading(s@, f) == s@.skip(lo as int),
        decreases v@.len() - lo,
    {
        let c = v[lo];
        assert(s@.skip(lo as int)[0] == c);
        let drop = match kind {
            Leading::Marks => c == '#' || c == '*' || c == '-' || c == ' ',
            Leading::Slashes => c == '/',
            Leading::Hashes => c == '#',
        };
        assert(drop == f(c));
        if !drop {
            break;
        }
        assert(s@.skip(lo as int).drop_first() =~= s@.skip(lo + 1));
        lo = lo + 1;
    }
    let r = slice_chars(v.as_slice(), lo, v.len());
    assert(r@ =~= s@.skip(lo as int));
    r
}

/// The text of a failed request: what failed, the status and what came back.
pub open spec fn failure(what: Seq<char>, status: Seq<char>, body: Seq<char>) -> Seq<char> {
    what + " ("@ + status + "): "@ + body
}

/// The text of a failed request.
pub fn failure_text(what: &str, status: &str, body: &str) -> (r: String)
    ensures
        r@ == failure(what@, status@, body@),
{
    let mut out = owned(what);
    out.append(" (");
    out.append(status);
    out.append("): ");
    out.append(body);
    out
}

} // verus!
