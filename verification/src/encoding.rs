//! Base64 (standard and URL-safe) and percent encoding of bytes.
use vstd::prelude::*;
use vstd::utf8::{encode_scalar, encode_utf8, has_width_1_encoding, leading_byte_width_1};
use crate::text::push_char;

verus! {

/// The character for sextet `i` (0..64) in the standard or the URL-safe alphabet.
pub open spec fn alphabet(i: u8, url_safe: bool) -> char {
    if i < 26 {
        ((65 + i) as u32) as char
    } else if i < 52 {
        ((97 + i - 26) as u32) as char
    } else if i < 62 {
        ((48 + i - 52) as u32) as char
    } else if i == 62 {
        if url_safe { '-' } else { '+' }
    } else {
        if url_safe { '_' } else { '/' }
    }
}

pub open spec fn sextet0(b0: u8) -> u8 {
    b0 >> 2
}

pub open spec fn sextet1(b0: u8, b1: u8) -> u8 {
    ((b0 & 3) << 4) | (b1 >> 4)
}

pub open spec fn sextet2(b1: u8, b2: u8) -> u8 {
    ((b1 & 15) << 2) | (b2 >> 6)
}

pub open spec fn sextet3(b2: u8) -> u8 {
    b2 & 63
}

/// Encoding of one group of one to three bytes. The standard form pads a short
/// group with `=` to four characters; the URL-safe form leaves it short.
pub open spec fn encode_group(g: Seq<u8>, url_safe: bool) -> Seq<char> {
    let b0 = g[0];
    let b1: u8 = if g.len() > 1 { g[1] } else { 0 };
    let b2: u8 = if g.len() > 2 { g[2] } else { 0 };
    let head = seq![alphabet(sextet0(b0), url_safe), alphabet(sextet1(b0, b1), url_safe)];
    if g.len() >= 3 {
        head + seq![alphabet(sextet2(b1, b2), url_safe), alphabet(sextet3(b2), url_safe)]
    } else if g.len() == 2 {
        if url_safe {
            head + seq![alphabet(sextet2(b1, b2), url_safe)]
        } else {
            head + seq![alphabet(sextet2(b1, b2), url_safe), '=']
        }
    } else {
        if url_safe {
            head
        } else {
            head + seq!['=', '=']
        }
    }
}

/// Base64 of `b`, three bytes at a time.
pub open spec fn base64_of(b: Seq<u8>, url_safe: bool) -> Seq<char>
    decreases b.len(),
{
    if b.len() == 0 {
        seq![]
    } else if b.len() <= 3 {
        encode_group(b, url_safe)
    } else {
        encode_group(b.take(3), url_safe) + base64_of(b.skip(3), url_safe)
    }
}

fn alphabet_char(i: u8, url_safe: bool) -> (c: char)
    ensures
        c == alphabet(i, url_safe),
{
    if i < 26 {
        (65u8 + i) as char
    } else if i < 52 {
        (97u8 + (i - 26)) as char
    } else if i < 62 {
        (48u8 + (i - 52)) as char
    } else if i == 62 {
        if url_safe { '-' } else { '+' }
    } else {
        if url_safe { '_' } else { '/' }
    }
}

/// Shared encoder behind `base64` and `base64url`.
pub fn encode_base64(input: &[u8], url_safe: bool) -> (out: String)
    ensures
        out@ == base64_of(input@, url_safe),
{
    let n: usize = input.len();
    let mut out = String::new();
    let mut i: usize = 0;
    assert(input@.skip(0) == input@);
    while i < n
        invariant
            n == input@.len(),
            i <= n,
            out@ + base64_of(input@.skip(i as int), url_safe) == base64_of(input@, url_safe),
        decreases n - i,
    {
        let ghost rest = input@.skip(i as int);
        let len: usize = if n - i >= 3 { 3 } else { n - i };
        let b0 = input[i];
        let b1: u8 = if len > 1 { input[i + 1] } else { 0 };
        let b2: u8 = if len > 2 { input[i + 2] } else { 0 };
        let ghost g = rest.take(len as int);
        assert(g[0] == b0);
        assert(len > 1 ==> g[1] == b1);
        assert(len > 2 ==> g[2] == b2);
        let ghost pre = out@;
        push_char(&mut out, alphabet_char(b0 >> 2, url_safe));
        push_char(&mut out, alphabet_char(((b0 & 3) << 4) | (b1 >> 4), url_safe));
        if len > 1 {
            push_char(&mut out, alphabet_char(((b1 & 15) << 2) | (b2 >> 6), url_safe));
        } else if !url_safe {
            push_char(&mut out, '=');
        }
        if len > 2 {
            push_char(&mut out, alphabet_char(b2 & 63, url_safe));
        } else if !url_safe {
            push_char(&mut out, '=');
        }
        assert(out@ == pre + encode_group(g, url_safe));
        proof {
            if rest.len() <= 3 {
                assert(g == rest);
                assert(input@.skip(i + len) =~= Seq::<u8>::empty());
            } else {
                assert(rest.skip(3) == input@.skip(i + 3));
            }
        }
        i = i + len;
    }
    assert(out@ + base64_of(input@.skip(n as int), url_safe) == out@ + Seq::<char>::empty());
    out
}


/// Bytes left as they are by percent encoding (RFC 3986 unreserved).
pub open spec fn unreserved(b: u8) -> bool {
    (48 <= b <= 57) || (65 <= b <= 90) || (97 <= b <= 122) || b == 45 || b == 95 || b == 46
        || b == 126
}

/// Upper-case hex digit for `d < 16`.
pub open spec fn hex_upper(d: u8) -> char {
    if d < 10 {
        ((48 + d) as u32) as char
    } else {
        ((55 + d) as u32) as char
    }
}

/// How one byte is written in a percent-encoded query value.
pub open spec fn encode_byte(b: u8) -> Seq<char> {
    if unreserved(b) {
        seq![(b as u32) as char]
    } else {
        seq!['%', hex_upper(b >> 4), hex_upper(b & 15)]
    }
}

/// Percent encoding of `b`: unreserved bytes kept, all others as `%XX`.
pub open spec fn percent_encode(b: Seq<u8>) -> Seq<char>
    decreases b.len(),
{
    if b.len() == 0 {
        seq![]
    } else {
        encode_byte(b[0]) + percent_encode(b.skip(1))
    }
}

/// Value of a hex digit byte (either case), as `char::to_digit(16)`.
pub open spec fn hex_value(b: u8) -> Option<u8> {
    if 48 <= b <= 57 {
        Some((b - 48) as u8)
    } else if 97 <= b <= 102 {
        Some((b - 87) as u8)
    } else if 65 <= b <= 70 {
        Some((b - 55) as u8)
    } else {
        None
    }
}

/// Percent decoding: `%XX` with two hex digits becomes that byte, `+` becomes a
/// space, and every other byte (a lone `%` too) is kept.
pub open spec fn percent_decode(b: Seq<u8>) -> Seq<u8>
    decreases b.len(),
{
    if b.len() == 0 {
        seq![]
    } else if b[0] == 37 && 2 < b.len() && hex_value(b[1]) is Some && hex_value(b[2]) is Some {
        seq![(hex_value(b[1])->0 * 16 + hex_value(b[2])->0) as u8] + percent_decode(b.skip(3))
    } else if b[0] == 43 {
        seq![32u8] + percent_decode(b.skip(1))
    } else {
        seq![b[0]] + percent_decode(b.skip(1))
    }
}

fn hex_upper_char(d: u8) -> (c: char)
    requires
        d < 16,
    ensures
        c == hex_upper(d),
{
    if d < 10 {
        (48u8 + d) as char
    } else {
        (55u8 + d) as char
    }
}

fn is_unreserved(b: u8) -> (r: bool)
    ensures
        r == unreserved(b),
{
    (48 <= b && b <= 57) || (65 <= b && b <= 90) || (97 <= b && b <= 122) || b == 45 || b == 95
        || b == 46 || b == 126
}

/// Percent-encodes `input`.
pub fn percent_encode_bytes(input: &[u8]) -> (out: String)
    ensures
        out@ == percent_encode(input@),
{
    let n: usize = input.len();
    let mut out = String::new();
    let mut i: usize = 0;
    assert(input@.skip(0) == input@);
    while i < n
        invariant
            n == input@.len(),
            i <= n,
            out@ + percent_encode(input@.skip(i as int)) == percent_encode(input@),
        decreases n - i,
    {
        let b = input[i];
        let ghost pre = out@;
        if is_unreserved(b) {
            push_char(&mut out, b as char);
        } else {
            assert(b >> 4 < 16 && b & 15 < 16) by (bit_vector);
            push_char(&mut out, '%');
            push_char(&mut out, hex_upper_char(b >> 4));
            push_char(&mut out, hex_upper_char(b & 15));
        }
        assert(out@ == pre + encode_byte(b));
        assert(input@.skip(i as int).skip(1) == input@.skip(i + 1));
        assert(input@.skip(i as int)[0] == b);
        i = i + 1;
    }
    assert(out@ + percent_encode(input@.skip(n as int)) == out@ + Seq::<char>::empty());
    out
}

fn hex_digit(b: u8) -> (r: Option<u8>)
    ensures
        r == hex_value(b),
{
    if 48 <= b && b <= 57 {
        Some(b - 48)
    } else if 97 <= b && b <= 102 {
        Some(b - 87)
    } else if 65 <= b && b <= 70 {
        Some(b - 55)
    } else {
        None
    }
}

/// Percent-decodes `input` into bytes.
pub fn percent_decode_bytes(input: &[u8]) -> (out: Vec<u8>)
    ensures
        out@ == percent_decode(input@),
{
    let n: usize = input.len();
    let mut out: Vec<u8> = Vec::new();
    let mut i: usize = 0;
    assert(input@.skip(0) == input@);
    while i < n
        invariant
            n == input@.len(),
            i <= n,
            out@ + percent_decode(input@.skip(i as int)) == percent_decode(input@),
        decreases n - i,
    {
        let ghost rest = input@.skip(i as int);
        let ghost pre = out@;
        let b = input[i];
        if b == 37 && 2 < n - i {
            let hi = hex_digit(input[i + 1]);
            let lo = hex_digit(input[i + 2]);
            if let (Some(h), Some(l)) = (hi, lo) {
                out.push(h * 16 + l);
                assert(rest.skip(3) == input@.skip(i + 3));
                assert(out@ == pre + seq![(h * 16 + l) as u8]);
                i = i + 3;
                continue;
            }
        }
        if b == 43 {
            out.push(32);
        } else {
            out.push(b);
        }
        assert(rest.skip(1) == input@.skip(i + 1));
        i = i + 1;
    }
    assert(percent_decode(input@.skip(n as int)) == Seq::<u8>::empty());
    assert(out@ + Seq::<u8>::empty() == out@);
    out
}

/// What `String::from_utf8_lossy` makes of a byte sequence.
pub uninterp spec fn utf8_lossy(b: Seq<u8>) -> Seq<char>;

/// `String::from_utf8_lossy`: the bytes decoded as UTF-8, with invalid
/// sequences replaced by U+FFFD. The contract names the result, and states that
/// valid UTF-8 decodes to the characters that encode to it.
#[verifier::external_body]
pub(crate) fn from_utf8_lossy(b: &[u8]) -> (r: String)
    ensures
        r@ == utf8_lossy(b@),
        vstd::utf8::valid_utf8(b@) ==> vstd::utf8::encode_utf8(r@) == b@,
{
    String::from_utf8_lossy(b).into_owned()
}

/// The byte of the ASCII hex digit for `d < 16`, upper case.
pub open spec fn hex_byte(d: u8) -> u8 {
    if d < 10 {
        (48 + d) as u8
    } else {
        (55 + d) as u8
    }
}

/// The bytes one byte is written as: itself when unreserved, else `%XX`.
pub open spec fn encoded_bytes(b: u8) -> Seq<u8> {
    if unreserved(b) {
        seq![b]
    } else {
        seq![37u8, hex_byte(b >> 4), hex_byte(b & 15)]
    }
}

pub proof fn lemma_encode_utf8_append(a: Seq<char>, b: Seq<char>)
    ensures
        encode_utf8(a + b) == encode_utf8(a) + encode_utf8(b),
    decreases a.len(),
{
    if a.len() == 0 {
        assert(a + b =~= b);
        assert(encode_utf8(a) =~= Seq::<u8>::empty());
        assert(encode_utf8(a) + encode_utf8(b) =~= encode_utf8(b));
    } else {
        lemma_encode_utf8_append(a.drop_first(), b);
        assert((a + b).drop_first() =~= a.drop_first() + b);
        assert((a + b)[0] == a[0]);
        assert(encode_utf8(a + b) =~= encode_scalar(a[0] as u32) + encode_utf8(a.drop_first() + b));
        assert(encode_utf8(a + b) =~= encode_utf8(a) + encode_utf8(b));
    }
}

/// An ASCII character is its own single byte in UTF-8.
proof fn lemma_ascii(b: u8)
    requires
        b < 128,
    ensures
        encode_utf8(seq![(b as u32) as char]) == seq![b],
{
    let c = (b as u32) as char;
    assert(c as u32 == b as u32);
    assert(has_width_1_encoding(b as u32));
    assert(leading_byte_width_1(b as u32) == b) by (bit_vector)
        requires
            b < 128,
    ;
    assert(seq![c].drop_first() =~= Seq::<char>::empty());
    assert(encode_utf8(seq![c]) =~= encode_scalar(c as u32) + encode_utf8(Seq::<char>::empty()));
}

/// How one byte's encoding reads in UTF-8.
proof fn lemma_encode_byte_bytes(b: u8)
    ensures
        encode_utf8(encode_byte(b)) == encoded_bytes(b),
{
    if unreserved(b) {
        lemma_ascii(b);
    } else {
        let hi = b >> 4;
        let lo = b & 15;
        assert(b >> 4 < 16 && b & 15 < 16) by (bit_vector);
        assert(hex_upper(hi) == (hex_byte(hi) as u32) as char);
        assert(hex_upper(lo) == (hex_byte(lo) as u32) as char);
        lemma_ascii(37);
        lemma_ascii(hex_byte(hi));
        lemma_ascii(hex_byte(lo));
        assert('%' == (37u8 as u32) as char);
        let c0 = seq!['%'];
        let c1 = seq![hex_upper(hi)];
        let c2 = seq![hex_upper(lo)];
        assert(encode_byte(b) =~= c0 + c1 + c2);
        lemma_encode_utf8_append(c0 + c1, c2);
        lemma_encode_utf8_append(c0, c1);
        assert(encode_utf8(encode_byte(b)) =~= encoded_bytes(b));
    }
}

proof fn lemma_hex_byte(d: u8)
    requires
        d < 16,
    ensures
        hex_value(hex_byte(d)) == Some(d),
{
}

/// Not a query delimiter: neither `&`, `=` nor `?`.
pub open spec fn plain_query_char(c: char) -> bool {
    c != '&' && c != '=' && c != '?'
}

/// A hex digit is no query delimiter.
proof fn lemma_hex_upper_plain(d: u8)
    requires
        d < 16,
    ensures
        plain_query_char(hex_upper(d)),
{
    if d < 10 {
        assert(((48 + d) as u32) as char != '&' && ((48 + d) as u32) as char != '=' && ((48 + d) as u32) as char != '?');
    } else {
        assert(((55 + d) as u32) as char != '&' && ((55 + d) as u32) as char != '=' && ((55 + d) as u32) as char != '?');
    }
}

/// Percent-encoded text holds no `&`, `=` or `?`, so an encoded value stays
/// inside its query parameter.
pub proof fn lemma_percent_encode_plain(b: Seq<u8>)
    ensures
        forall|i: int| 0 <= i < percent_encode(b).len() ==> plain_query_char(#[trigger] percent_encode(b)[i]),
    decreases b.len(),
{
    if b.len() > 0 {
        lemma_percent_encode_plain(b.skip(1));
        let b0 = b[0];
        let e = encode_byte(b0);
        if unreserved(b0) {
            assert(plain_query_char((b0 as u32) as char));
        } else {
            assert(b0 >> 4 < 16 && b0 & 15 < 16) by (bit_vector);
            lemma_hex_upper_plain(b0 >> 4);
            lemma_hex_upper_plain(b0 & 15);
        }
        assert forall|i: int| 0 <= i < e.len() implies plain_query_char(#[trigger] e[i]) by {}
        let r = percent_encode(b.skip(1));
        assert(percent_encode(b) == e + r);
        assert forall|i: int| 0 <= i < percent_encode(b).len() implies plain_query_char(#[trigger] percent_encode(b)[i]) by {
            if i < e.len() {
                assert(percent_encode(b)[i] == e[i]);
            } else {
                assert(percent_encode(b)[i] == r[i - e.len()]);
            }
        }
    }
}

/// Decoding what [`percent_encode`] wrote gives the bytes back.
pub proof fn lemma_percent_roundtrip(b: Seq<u8>)
    ensures
        percent_decode(encode_utf8(percent_encode(b))) == b,
    decreases b.len(),
{
    if b.len() == 0 {
        assert(encode_utf8(Seq::<char>::empty()) =~= Seq::<u8>::empty());
    } else {
        let b0 = b[0];
        let rest = b.skip(1);
        lemma_percent_roundtrip(rest);
        lemma_encode_byte_bytes(b0);
        lemma_encode_utf8_append(encode_byte(b0), percent_encode(rest));
        let r = encode_utf8(percent_encode(rest));
        let all = encoded_bytes(b0) + r;
        assert(encode_utf8(percent_encode(b)) == all);
        if unreserved(b0) {
            assert(all[0] == b0);
            assert(all.skip(1) =~= r);
            assert(percent_decode(all) == seq![b0] + percent_decode(r));
        } else {
            let hi = b0 >> 4;
            let lo = b0 & 15;
            assert(b0 >> 4 < 16 && b0 & 15 < 16) by (bit_vector);
            lemma_hex_byte(hi);
            lemma_hex_byte(lo);
            assert(all[0] == 37u8);
            assert(all[1] == hex_byte(hi));
            assert(all[2] == hex_byte(lo));
            assert(all.skip(3) =~= r);
            assert((hi * 16 + lo) as u8 == b0) by (bit_vector)
                requires
                    hi == b0 >> 4,
                    lo == b0 & 15,
            ;
            assert(percent_decode(all) == seq![b0] + percent_decode(r));
        }
        assert(seq![b0] + rest =~= b);
    }
}

/// `c` in the URL-safe alphabet: `+` becomes `-`, `/` becomes `_`.
pub open spec fn to_url_char(c: char) -> char {
    if c == '+' {
        '-'
    } else if c == '/' {
        '_'
    } else {
        c
    }
}

/// Standard base64 text turned URL-safe: padding dropped, `+` and `/`
/// replaced.
pub open spec fn url_safe_form(s: Seq<char>) -> Seq<char>
    decreases s.len(),
{
    if s.len() == 0 {
        seq![]
    } else if s.last() == '=' {
        url_safe_form(s.drop_last())
    } else {
        url_safe_form(s.drop_last()).push(to_url_char(s.last()))
    }
}

/// Whether `c` may appear in URL-safe base64 text (no `=`, `+` or `/`).
pub open spec fn url_safe_char(c: char) -> bool {
    c != '=' && c != '+' && c != '/'
}

proof fn lemma_url_safe_form_append(a: Seq<char>, b: Seq<char>)
    ensures
        url_safe_form(a + b) == url_safe_form(a) + url_safe_form(b),
    decreases b.len(),
{
    if b.len() == 0 {
        assert(a + b =~= a);
        assert(url_safe_form(a) + url_safe_form(b) =~= url_safe_form(a));
    } else {
        lemma_url_safe_form_append(a, b.drop_last());
        assert((a + b).drop_last() =~= a + b.drop_last());
        assert((a + b).last() == b.last());
        if b.last() == '=' {
        } else {
            assert(url_safe_form(a) + url_safe_form(b) =~= (url_safe_form(a) + url_safe_form(b.drop_last())).push(
                to_url_char(b.last()),
            ));
        }
    }
}

proof fn lemma_alphabet(i: u8)
    requires
        i < 64,
    ensures
        alphabet(i, false) != '=',
        to_url_char(alphabet(i, false)) == alphabet(i, true),
        url_safe_char(alphabet(i, true)),
{
}

proof fn lemma_sextets(b0: u8, b1: u8, b2: u8)
    ensures
        sextet0(b0) < 64,
        sextet1(b0, b1) < 64,
        sextet2(b1, b2) < 64,
        sextet3(b2) < 64,
{
    assert(b0 >> 2 < 64) by (bit_vector);
    assert(((b0 & 3) << 4) | (b1 >> 4) < 64) by (bit_vector);
    assert(((b1 & 15) << 2) | (b2 >> 6) < 64) by (bit_vector);
    assert(b2 & 63 < 64) by (bit_vector);
}

proof fn lemma_group_url_safe(g: Seq<u8>)
    requires
        1 <= g.len(),
    ensures
        url_safe_form(encode_group(g, false)) == encode_group(g, true),
        forall|k: int| 0 <= k < encode_group(g, true).len() ==> url_safe_char(#[trigger] encode_group(g, true)[k]),
{
    let b0 = g[0];
    let b1: u8 = if g.len() > 1 { g[1] } else { 0 };
    let b2: u8 = if g.len() > 2 { g[2] } else { 0 };
    lemma_sextets(b0, b1, b2);
    lemma_alphabet(sextet0(b0));
    lemma_alphabet(sextet1(b0, b1));
    lemma_alphabet(sextet2(b1, b2));
    lemma_alphabet(sextet3(b2));
    let c0 = alphabet(sextet0(b0), false);
    let c1 = alphabet(sextet1(b0, b1), false);
    let c2 = alphabet(sextet2(b1, b2), false);
    let c3 = alphabet(sextet3(b2), false);
    let e = encode_group(g, false);
    let s1 = seq![c0];
    let s2 = seq![c0, c1];
    assert(s1.drop_last() =~= Seq::<char>::empty());
    assert(url_safe_form(Seq::<char>::empty()) =~= Seq::<char>::empty());
    assert(url_safe_form(s1.drop_last()) =~= Seq::<char>::empty());
    assert(s1.last() == c0);
    assert(c0 != '=');
    assert(url_safe_form(s1) =~= seq![to_url_char(c0)]);
    assert(s2.drop_last() =~= s1);
    assert(s2.last() == c1);
    assert(url_safe_form(s2) =~= seq![to_url_char(c0), to_url_char(c1)]);
    if g.len() >= 3 {
        let s3 = seq![c0, c1, c2];
        assert(s3.drop_last() =~= s2);
        assert(s3.last() == c2);
        assert(url_safe_form(s3) =~= seq![to_url_char(c0), to_url_char(c1), to_url_char(c2)]);
        assert(e =~= seq![c0, c1, c2, c3]);
        assert(e.drop_last() =~= s3);
        assert(e.last() == c3);
        assert(url_safe_form(e) =~= encode_group(g, true));
    } else if g.len() == 2 {
        let s3 = seq![c0, c1, c2];
        assert(s3.drop_last() =~= s2);
        assert(s3.last() == c2);
        assert(url_safe_form(s3) =~= seq![to_url_char(c0), to_url_char(c1), to_url_char(c2)]);
        assert(e =~= seq![c0, c1, c2, '=']);
        assert(e.drop_last() =~= s3);
        assert(e.last() == '=');
        assert(url_safe_form(e) =~= encode_group(g, true));
    } else {
        let s3 = seq![c0, c1, '='];
        assert(s3.drop_last() =~= s2);
        assert(s3.last() == '=');
        assert(url_safe_form(s3) =~= url_safe_form(s2));
        assert(e =~= seq![c0, c1, '=', '=']);
        assert(e.drop_last() =~= s3);
        assert(e.last() == '=');
        assert(url_safe_form(e) =~= encode_group(g, true));
    }
}

/// URL-safe base64 is standard base64 with the padding dropped and `+`, `/`
/// written `-`, `_`; its text never holds `=`, `+` or `/`.
pub proof fn law_base64url_is_url_safe_base64(b: Seq<u8>)
    ensures
        base64_of(b, true) == url_safe_form(base64_of(b, false)),
        forall|k: int| 0 <= k < base64_of(b, true).len() ==> url_safe_char(#[trigger] base64_of(b, true)[k]),
    decreases b.len(),
{
    if b.len() == 0 {
    } else if b.len() <= 3 {
        lemma_group_url_safe(b);
    } else {
        law_base64url_is_url_safe_base64(b.skip(3));
        lemma_group_url_safe(b.take(3));
        lemma_url_safe_form_append(encode_group(b.take(3), false), base64_of(b.skip(3), false));
        let head = encode_group(b.take(3), true);
        let tail = base64_of(b.skip(3), true);
        assert forall|k: int| 0 <= k < (head + tail).len() implies url_safe_char(#[trigger] (head + tail)[k]) by {
            if k < head.len() {
                assert((head + tail)[k] == head[k]);
            } else {
                assert((head + tail)[k] == tail[k - head.len()]);
            }
        }
    }
}

} // verus!
