//! Base64 encoding and decoding (RFC 4648, standard and URL-safe variants).

use vstd::prelude::*;
use vstd::utf8::*;
use crate::text::{push_char, lemma_encode_concat};

verus! {

/// The ASCII code of the symbol for the six-bit value `v` in the standard alphabet.
pub open spec fn b64_symbol(v: u8) -> u8 {
    if v < 26 {
        (v + 65) as u8
    } else if v < 52 {
        (v + 71) as u8
    } else if v < 62 {
        (v - 4) as u8
    } else if v == 62 {
        43u8
    } else {
        47u8
    }
}

/// The ASCII code of the padding symbol `=`.
pub open spec fn pad() -> u8 {
    61u8
}

/// The four ASCII codes that encode one group of one to three bytes.
pub open spec fn encode_group(g: Seq<u8>) -> Seq<u8> {
    if g.len() >= 3 {
        seq![
            b64_symbol(g[0] >> 2),
            b64_symbol(((g[0] & 3) << 4) | (g[1] >> 4)),
            b64_symbol(((g[1] & 15) << 2) | ((g[2] & 192) >> 6)),
            b64_symbol(g[2] & 63),
        ]
    } else if g.len() == 2 {
        seq![
            b64_symbol(g[0] >> 2),
            b64_symbol(((g[0] & 3) << 4) | (g[1] >> 4)),
            b64_symbol((g[1] & 15) << 2),
            pad(),
        ]
    } else {
        seq![b64_symbol(g[0] >> 2), b64_symbol((g[0] & 3) << 4), pad(), pad()]
    }
}

/// The ASCII codes of the padded base64 encoding of `data`, group by group.
pub open spec fn encode_bytes(data: Seq<u8>) -> Seq<u8>
    decreases data.len(),
{
    if data.len() == 0 {
        Seq::empty()
    } else if data.len() <= 3 {
        encode_group(data)
    } else {
        encode_group(data.take(3)) + encode_bytes(data.skip(3))
    }
}

/// The text of the padded standard base64 encoding of `data`.
pub open spec fn b64_encode(data: Seq<u8>) -> Seq<char> {
    encode_bytes(data).map_values(|b: u8| b as char)
}

/// The six-bit value of a base64 symbol, and 64 for a byte outside the alphabet.
pub open spec fn symbol_value(c: u8) -> u8 {
    if 65 <= c <= 90 {
        (c - 65) as u8
    } else if 97 <= c <= 122 {
        (c - 71) as u8
    } else if 48 <= c <= 57 {
        (c + 4) as u8
    } else if c == 43 {
        62u8
    } else if c == 47 {
        63u8
    } else {
        64u8
    }
}

/// A byte that the decoder accepts: a symbol of the alphabet or the padding `=`.
pub open spec fn accepted(c: u8) -> bool {
    symbol_value(c) != 64 || c == pad()
}

/// Every byte of `s` is accepted by the decoder.
pub open spec fn all_accepted(s: Seq<u8>) -> bool {
    forall|i: int| 0 <= i < s.len() ==> #[trigger] accepted(s[i])
}

/// The bytes that one group of four symbols decodes to; a padded third or fourth
/// position contributes no byte.
pub open spec fn decode_group(c: Seq<u8>) -> Seq<u8> {
    let v0 = symbol_value(c[0]);
    let v1 = symbol_value(c[1]);
    let v2 = symbol_value(c[2]);
    let v3 = symbol_value(c[3]);
    seq![(v0 << 2) | (v1 >> 4)]
        + (if c[2] != pad() { seq![((v1 & 15) << 4) | (v2 >> 2)] } else { Seq::empty() })
        + (if c[3] != pad() { seq![((v2 & 3) << 6) | v3] } else { Seq::empty() })
}

/// The bytes that a sequence of whole groups of four symbols decodes to.
pub open spec fn decode_groups(s: Seq<u8>) -> Seq<u8>
    decreases s.len(),
{
    if s.len() < 4 {
        Seq::empty()
    } else {
        decode_group(s.take(4)) + decode_groups(s.skip(4))
    }
}

/// What the decoder gives for the bytes `s`: nothing at all as soon as one byte lies
/// outside the alphabet and is not padding, and else the decoded groups.
pub open spec fn decode_bytes(s: Seq<u8>) -> Seq<u8> {
    if all_accepted(s) {
        decode_groups(s)
    } else {
        Seq::empty()
    }
}

/// The decoder can run on `s`: it stops before a short final group, which happens
/// exactly when some byte is outside the alphabet.
pub open spec fn decodable(s: Seq<u8>) -> bool {
    !all_accepted(s) || s.len() % 4 == 0
}

/// The base64 decoding of the text `text`, read as its UTF-8 bytes.
pub open spec fn b64_decode(text: Seq<char>) -> Seq<u8> {
    decode_bytes(encode_utf8(text))
}

fn symbol_char(v: u8) -> (c: char)
    requires
        v < 64,
    ensures
        c == b64_symbol(v) as char,
{
    if v < 26 {
        (v + 65) as char
    } else if v < 52 {
        (v + 71) as char
    } else if v < 62 {
        (v - 4) as char
    } else if v == 62 {
        '+'
    } else {
        '/'
    }
}

/// Encodes `input` in padded standard base64.
pub fn to_base64(input: Vec<u8>) -> (out: String)
    ensures
        out@ == b64_encode(input@),
{
    let n = input.len();
    let mut out = String::new();
    let ghost mut acc: Seq<u8> = Seq::empty();
    let mut i: usize = 0;
    assert(input@.skip(0) =~= input@);
    while i < n
        invariant
            n == input@.len(),
            i <= n,
            acc + encode_bytes(input@.skip(i as int)) == encode_bytes(input@),
            out@ =~= acc.map_values(|b: u8| b as char),
        decreases n - i,
    {
        let ghost rest = input@.skip(i as int);
        let b0 = input[i];
        if n - i >= 3 {
            let b1 = input[i + 1];
            let b2 = input[i + 2];
            let s0 = b0 >> 2;
            let s1 = ((b0 & 3) << 4) | (b1 >> 4);
            let s2 = ((b1 & 15) << 2) | ((b2 & 192) >> 6);
            let s3 = b2 & 63;
            assert(s0 < 64 && s1 < 64 && s2 < 64 && s3 < 64) by (bit_vector)
                requires
                    s0 == b0 >> 2,
                    s1 == ((b0 & 3) << 4) | (b1 >> 4),
                    s2 == ((b1 & 15) << 2) | ((b2 & 192) >> 6),
                    s3 == b2 & 63,
            ;
            push_char(&mut out, symbol_char(s0));
            push_char(&mut out, symbol_char(s1));
            push_char(&mut out, symbol_char(s2));
            push_char(&mut out, symbol_char(s3));
            proof {
                let g = encode_group(rest.take(3));
                assert(rest.take(3)[0] == b0 && rest.take(3)[1] == b1 && rest.take(3)[2] == b2);
                if rest.len() > 3 {
                    assert(rest.skip(3) =~= input@.skip(i + 3));
                    assert(encode_bytes(rest) == g + encode_bytes(input@.skip(i + 3)));
                } else {
                    assert(rest.take(3) =~= rest);
                    assert(input@.skip(i + 3) =~= Seq::<u8>::empty());
                    assert(encode_bytes(rest) == g + encode_bytes(input@.skip(i + 3)));
                }
                assert(acc + g + encode_bytes(input@.skip(i + 3)) == encode_bytes(input@));
                acc = acc + g;
            }
            i = i + 3;
        } else if n - i == 2 {
            let b1 = input[i + 1];
            let s0 = b0 >> 2;
            let s1 = ((b0 & 3) << 4) | (b1 >> 4);
            let s2 = (b1 & 15) << 2;
            assert(s0 < 64 && s1 < 64 && s2 < 64) by (bit_vector)
                requires
                    s0 == b0 >> 2,
                    s1 == ((b0 & 3) << 4) | (b1 >> 4),
                    s2 == (b1 & 15) << 2,
            ;
            push_char(&mut out, symbol_char(s0));
            push_char(&mut out, symbol_char(s1));
            push_char(&mut out, symbol_char(s2));
            push_char(&mut out, '=');
            proof {
                let g = encode_group(rest);
                assert(input@.skip(i + 2) =~= Seq::<u8>::empty());
                assert(acc + g + encode_bytes(input@.skip(i + 2)) == encode_bytes(input@));
                acc = acc + g;
            }
            i = i + 2;
        } else {
            let s0 = b0 >> 2;
            let s1 = (b0 & 3) << 4;
            assert(s0 < 64 && s1 < 64) by (bit_vector)
                requires
                    s0 == b0 >> 2,
                    s1 == (b0 & 3) << 4,
            ;
            push_char(&mut out, symbol_char(s0));
            push_char(&mut out, symbol_char(s1));
            push_char(&mut out, '=');
            push_char(&mut out, '=');
            proof {
                let g = encode_group(rest);
                assert(input@.skip(i + 1) =~= Seq::<u8>::empty());
                assert(acc + g + encode_bytes(input@.skip(i + 1)) == encode_bytes(input@));
                acc = acc + g;
            }
            i = i + 1;
        }
    }
    assert(input@.skip(n as int) =~= Seq::<u8>::empty());
    assert(acc =~= encode_bytes(input@));
    out
}


fn symbol_value_of(c: u8) -> (v: u8)
    ensures
        v == symbol_value(c),
{
    if 65u8 <= c && c <= 90u8 {
        c - 65u8
    } else if 97u8 <= c && c <= 122u8 {
        c - 71
    } else if 48u8 <= c && c <= 57u8 {
        c + 4
    } else if c == 43u8 {
        62
    } else if c == 47u8 {
        63
    } else {
        64
    }
}

/// Decodes the bytes of a padded base64 text. The result is empty as soon as one byte
/// is neither a symbol of the alphabet nor `=`.
fn decode_from_bytes(bytes: &[u8]) -> (out: Vec<u8>)
    requires
        decodable(bytes@),
    ensures
        out@ == decode_bytes(bytes@),
{
    let n = bytes.len();
    let mut out: Vec<u8> = Vec::with_capacity(n);
    let mut i: usize = 0;
    assert(bytes@.skip(0) =~= bytes@);
    while i < n
        invariant
            n == bytes@.len(),
            i <= n,
            i % 4 == 0,
            decodable(bytes@),
            forall|k: int| 0 <= k < i ==> #[trigger] accepted(bytes@[k]),
            out@ + decode_groups(bytes@.skip(i as int)) == decode_groups(bytes@),
        decreases n - i,
    {
        let end = if n - i < 4 { n } else { i + 4 };
        let mut j = i;
        while j < end
            invariant
                n == bytes@.len(),
                i <= j <= end <= n,
                end == (if n - i < 4 { n as int } else { i + 4 }),
                forall|k: int| 0 <= k < j ==> #[trigger] accepted(bytes@[k]),
            decreases end - j,
        {
            if symbol_value_of(bytes[j]) == 64 && bytes[j] != 61u8 {
                proof {
                    assert(!accepted(bytes@[j as int]));
                    assert(!all_accepted(bytes@));
                }
                return Vec::new();
            }
            j = j + 1;
        }
        if n - i < 4 {
            proof {
                assert(all_accepted(bytes@));
                assert(n % 4 != 0);
            }
        }
        let v0 = symbol_value_of(bytes[i]);
        let v1 = symbol_value_of(bytes[i + 1]);
        let v2 = symbol_value_of(bytes[i + 2]);
        let v3 = symbol_value_of(bytes[i + 3]);
        let ghost before = out@;
        let ghost rest = bytes@.skip(i as int);
        out.push((v0 << 2) | (v1 >> 4));
        if bytes[i + 2] != 61u8 {
            out.push(((v1 & 15) << 4) | (v2 >> 2));
        }
        if bytes[i + 3] != 61u8 {
            out.push(((v2 & 3) << 6) | v3);
        }
        proof {
            let c = rest.take(4);
            assert(c[0] == bytes@[i as int] && c[1] == bytes@[i + 1] && c[2] == bytes@[i + 2]
                && c[3] == bytes@[i + 3]);
            assert(rest.skip(4) =~= bytes@.skip(i + 4));
            assert(decode_groups(rest) == decode_group(c) + decode_groups(bytes@.skip(i + 4)));
            assert(out@ =~= before + decode_group(c));
            assert(out@ + decode_groups(bytes@.skip(i + 4)) == decode_groups(bytes@));
        }
        i = i + 4;
    }
    proof {
        assert(all_accepted(bytes@));
        assert(bytes@.skip(n as int) =~= Seq::<u8>::empty());
        assert(out@ =~= decode_groups(bytes@));
    }
    out
}

/// Decodes a padded standard base64 text. The result is empty when a character lies
/// outside the alphabet and is not `=`.
pub fn from_base64(input: String) -> (out: Vec<u8>)
    requires
        decodable(encode_utf8(input@)),
    ensures
        out@ == b64_decode(input@),
{
    let bytes = input.as_str().as_bytes();
    decode_from_bytes(bytes)
}


/// The URL-safe alphabet's character for a character of the standard encoding.
pub open spec fn url_char(c: char) -> char {
    if c == '+' {
        '-'
    } else if c == '/' {
        '_'
    } else if c == '=' {
        '.'
    } else {
        c
    }
}

/// The standard alphabet's character for a character of the URL-safe encoding.
pub open spec fn std_char(c: char) -> char {
    if c == '-' {
        '+'
    } else if c == '_' {
        '/'
    } else if c == '.' {
        '='
    } else {
        c
    }
}

/// The text of the URL-safe encoding of `data`: the standard encoding with `+`, `/`
/// and `=` written as `-`, `_` and `.`.
pub open spec fn b64url_encode(data: Seq<char>) -> Seq<char> {
    data.map_values(|c: char| url_char(c))
}

/// The standard text that a URL-safe text stands for.
pub open spec fn url_to_std(text: Seq<char>) -> Seq<char> {
    text.map_values(|c: char| std_char(c))
}

fn map_url_chars(s: &str, to_url: bool) -> (out: String)
    ensures
        to_url ==> out@ == s@.map_values(|c: char| url_char(c)),
        !to_url ==> out@ == s@.map_values(|c: char| std_char(c)),
{
    broadcast use vstd::string::group_string_axioms;

    let mut out = String::new();
    for c in it: s.chars()
        invariant
            it.seq() == s@,
            to_url ==> out@ =~= it.seq().take(it.index() as int).map_values(|c: char| url_char(c)),
            !to_url ==> out@ =~= it.seq().take(it.index() as int).map_values(|c: char| std_char(c)),
    {
        let d = if to_url {
            if c == '+' {
                '-'
            } else if c == '/' {
                '_'
            } else if c == '=' {
                '.'
            } else {
                c
            }
        } else {
            if c == '-' {
                '+'
            } else if c == '_' {
                '/'
            } else if c == '.' {
                '='
            } else {
                c
            }
        };
        push_char(&mut out, d);
    }
    proof {
        assert(s@.take(s@.len() as int) =~= s@);
    }
    out
}

/// Encodes `input` in URL-safe base64, keeping the padding as `.`.
pub fn to_base64url(input: Vec<u8>) -> (out: String)
    ensures
        out@ == b64url_encode(b64_encode(input@)),
{
    let standard = to_base64(input);
    map_url_chars(standard.as_str(), true)
}

/// The number of `=` that a text of `n` bytes lacks to end on a whole group of four.
pub open spec fn missing_padding(n: nat) -> nat {
    ((4 - n % 4) % 4) as nat
}

/// `text` followed by the `=` that its last group of four bytes lacks.
pub open spec fn with_padding(text: Seq<char>) -> Seq<char> {
    text + Seq::new(missing_padding(encode_utf8(text).len()), |_i: int| '=')
}

proof fn lemma_with_padding(text: Seq<char>)
    ensures
        encode_utf8(with_padding(text)).len() % 4 == 0,
        decodable(encode_utf8(with_padding(text))),
        encode_utf8(text).len() % 4 == 0 ==> with_padding(text) == text,
{
    let n = encode_utf8(text).len();
    let eqs = Seq::new(missing_padding(n), |_i: int| '=');
    assert(is_ascii_chars(eqs));
    is_ascii_chars_encode_utf8(eqs);
    lemma_encode_concat(text, eqs);
    if n % 4 == 0 {
        assert(eqs.len() == 0);
        assert(with_padding(text) =~= text);
    }
}

/// Decodes a URL-safe base64 text: `-`, `_` and `.` are read as `+`, `/` and `=`, the
/// missing `=` padding is restored, and the result is decoded as standard base64.
pub fn from_base64url(input: String) -> (out: Vec<u8>)
    ensures
        out@ == b64_decode(with_padding(url_to_std(input@))),
{
    let mut standard = map_url_chars(input.as_str(), false);
    let ghost base = standard@;
    let n = standard.as_str().as_bytes().len();
    let missing = (4 - n % 4) % 4;
    let mut i: usize = 0;
    while i < missing
        invariant
            i <= missing,
            missing == missing_padding(encode_utf8(base).len()),
            standard@ == base + Seq::new(i as nat, |_j: int| '='),
        decreases missing - i,
    {
        push_char(&mut standard, '=');
        proof {
            assert(Seq::new((i + 1) as nat, |_j: int| '=') =~= Seq::new(i as nat, |_j: int| '=').push(
                '=',
            ));
        }
        i = i + 1;
    }
    proof {
        lemma_with_padding(base);
        assert(standard@ =~= with_padding(base));
    }
    from_base64(standard)
}


proof fn lemma_symbol(v: u8)
    requires
        v < 64,
    ensures
        symbol_value(b64_symbol(v)) == v,
        b64_symbol(v) != pad(),
        b64_symbol(v) < 128,
        accepted(b64_symbol(v)),
{
}

proof fn lemma_group(g: Seq<u8>)
    requires
        1 <= g.len() <= 3,
    ensures
        encode_group(g).len() == 4,
        all_accepted(encode_group(g)),
        forall|k: int| 0 <= k < 4 ==> #[trigger] encode_group(g)[k] < 128,
        decode_group(encode_group(g)) == g,
{
    let e = encode_group(g);
    assert(pad() < 128 && accepted(pad()) && symbol_value(pad()) == 64);
    if g.len() == 3 {
        let b0 = g[0];
        let b1 = g[1];
        let b2 = g[2];
        let s0 = b0 >> 2;
        let s1 = ((b0 & 3) << 4) | (b1 >> 4);
        let s2 = ((b1 & 15) << 2) | ((b2 & 192) >> 6);
        let s3 = b2 & 63;
        assert(s0 < 64 && s1 < 64 && s2 < 64 && s3 < 64
            && ((s0 << 2) | (s1 >> 4)) == b0
            && (((s1 & 15) << 4) | (s2 >> 2)) == b1
            && (((s2 & 3) << 6) | s3) == b2) by (bit_vector)
            requires
                s0 == b0 >> 2,
                s1 == ((b0 & 3) << 4) | (b1 >> 4),
                s2 == ((b1 & 15) << 2) | ((b2 & 192) >> 6),
                s3 == b2 & 63,
        ;
        lemma_symbol(s0);
        lemma_symbol(s1);
        lemma_symbol(s2);
        lemma_symbol(s3);
        assert(decode_group(e) =~= g);
    } else if g.len() == 2 {
        let b0 = g[0];
        let b1 = g[1];
        let s0 = b0 >> 2;
        let s1 = ((b0 & 3) << 4) | (b1 >> 4);
        let s2 = (b1 & 15) << 2;
        assert(s0 < 64 && s1 < 64 && s2 < 64
            && ((s0 << 2) | (s1 >> 4)) == b0
            && (((s1 & 15) << 4) | (s2 >> 2)) == b1) by (bit_vector)
            requires
                s0 == b0 >> 2,
                s1 == ((b0 & 3) << 4) | (b1 >> 4),
                s2 == (b1 & 15) << 2,
        ;
        lemma_symbol(s0);
        lemma_symbol(s1);
        lemma_symbol(s2);
        assert(decode_group(e) =~= g);
    } else {
        let b0 = g[0];
        let s0 = b0 >> 2;
        let s1 = (b0 & 3) << 4;
        assert(s0 < 64 && s1 < 64 && ((s0 << 2) | (s1 >> 4)) == b0) by (bit_vector)
            requires
                s0 == b0 >> 2,
                s1 == (b0 & 3) << 4,
        ;
        lemma_symbol(s0);
        lemma_symbol(s1);
        assert(decode_group(e) =~= g);
    }
}

proof fn lemma_encode_bytes(data: Seq<u8>)
    ensures
        encode_bytes(data).len() == 4 * ((data.len() + 2) / 3),
        all_accepted(encode_bytes(data)),
        forall|k: int| 0 <= k < encode_bytes(data).len() ==> #[trigger] encode_bytes(data)[k] < 128,
        decode_groups(encode_bytes(data)) == data,
    decreases data.len(),
{
    if data.len() == 0 {
        assert(decode_groups(encode_bytes(data)) =~= data);
    } else if data.len() <= 3 {
        lemma_group(data);
        let e = encode_bytes(data);
        assert(e.take(4) =~= e);
        assert(e.skip(4) =~= Seq::<u8>::empty());
        assert(decode_groups(e.skip(4)) == Seq::<u8>::empty());
        assert(decode_groups(e) == decode_group(e) + decode_groups(e.skip(4)));
        assert(decode_groups(e) =~= data);
    } else {
        let g = data.take(3);
        let rest = data.skip(3);
        lemma_group(g);
        lemma_encode_bytes(rest);
        let e = encode_bytes(data);
        let eg = encode_group(g);
        let er = encode_bytes(rest);
        assert(e == eg + er);
        assert(e.take(4) =~= eg);
        assert(e.skip(4) =~= er);
        assert forall|k: int| 0 <= k < e.len() implies #[trigger] accepted(e[k]) && e[k] < 128 by {
            if k < 4 {
                assert(e[k] == eg[k]);
            } else {
                assert(e[k] == er[k - 4]);
            }
        }
        assert(decode_groups(e) =~= g + rest);
        assert(g + rest =~= data);
    }
}

proof fn lemma_encode_text(data: Seq<u8>)
    ensures
        is_ascii_chars(b64_encode(data)),
        encode_utf8(b64_encode(data)) == encode_bytes(data),
{
    lemma_encode_bytes(data);
    let t = b64_encode(data);
    let e = encode_bytes(data);
    assert forall|i: int| 0 <= i < t.len() implies '\0' <= #[trigger] t[i] <= '\u{7f}' by {
        assert(e[i] < 128);
    }
    is_ascii_chars_encode_utf8(t);
    assert(encode_utf8(t) =~= e);
}

/// Decoding undoes encoding: every byte string comes back unchanged from its padded
/// standard base64 text, and that text is one the decoder accepts.
pub proof fn law_decode_inverts_encode(data: Seq<u8>)
    ensures
        decodable(encode_utf8(b64_encode(data))),
        b64_decode(b64_encode(data)) == data,
{
    lemma_encode_bytes(data);
    lemma_encode_text(data);
}

/// The URL-safe decoder undoes the URL-safe encoder: the encoded text needs no padding
/// restored, and decodes to the bytes it was made from.
pub proof fn law_url_decode_inverts_url_encode(data: Seq<u8>)
    ensures
        with_padding(url_to_std(b64url_encode(b64_encode(data)))) == b64_encode(data),
        b64_decode(with_padding(url_to_std(b64url_encode(b64_encode(data))))) == data,
{
    lemma_encode_bytes(data);
    lemma_encode_text(data);
    let t = b64_encode(data);
    let e = encode_bytes(data);
    assert forall|i: int| 0 <= i < t.len() implies std_char(url_char(#[trigger] t[i])) == t[i] by {
        assert(accepted(e[i]));
        assert(t[i] == e[i] as char);
    }
    assert(url_to_std(b64url_encode(t)) =~= t);
    assert(encode_utf8(t).len() % 4 == 0) by (nonlinear_arith)
        requires
            encode_utf8(t).len() == 4 * ((data.len() + 2) / 3),
    ;
    lemma_with_padding(t);
}

proof fn lemma_encode_bytes_concat(a: Seq<u8>, b: Seq<u8>)
    requires
        a.len() % 3 == 0,
    ensures
        encode_bytes(a + b) == encode_bytes(a) + encode_bytes(b),
    decreases a.len(),
{
    if a.len() == 0 {
        assert(a + b =~= b);
        assert(encode_bytes(a) + encode_bytes(b) =~= encode_bytes(b));
    } else {
        let ab = a + b;
        assert(ab.take(3) =~= a.take(3));
        assert(ab.skip(3) =~= a.skip(3) + b);
        lemma_encode_bytes_concat(a.skip(3), b);
        if a.len() == 3 {
            assert(a.take(3) =~= a);
            assert(a.skip(3) =~= Seq::<u8>::empty());
            if b.len() == 0 {
                assert(ab =~= a);
                assert(encode_bytes(a) + encode_bytes(b) =~= encode_bytes(a));
            } else {
                assert(encode_bytes(a.skip(3)) =~= Seq::<u8>::empty());
                assert(encode_bytes(ab) =~= encode_bytes(a) + encode_bytes(b));
            }
        } else {
            assert(encode_bytes(ab) =~= encode_bytes(a) + encode_bytes(b));
        }
    }
}

/// Base64 works in groups of three bytes: the encoding of a byte string whose first
/// part is a whole number of groups is the encoding of that part followed by the
/// encoding of the rest.
pub proof fn law_encode_whole_groups_prefix(a: Seq<u8>, b: Seq<u8>)
    requires
        a.len() % 3 == 0,
    ensures
        b64_encode(a + b) == b64_encode(a) + b64_encode(b),
{
    lemma_encode_bytes_concat(a, b);
    let f = |x: u8| x as char;
    assert((encode_bytes(a) + encode_bytes(b)).map_values(f) =~= encode_bytes(a).map_values(f)
        + encode_bytes(b).map_values(f));
}

/// `text` without the padding dots at its end.
pub open spec fn without_trailing_dots(text: Seq<char>) -> Seq<char>
    decreases text.len(),
{
    if text.len() > 0 && text.last() == '.' {
        without_trailing_dots(text.drop_last())
    } else {
        text
    }
}

proof fn lemma_last_group(data: Seq<u8>)
    requires
        data.len() > 0,
    ensures
        ({
            let e = encode_bytes(data);
            let n = e.len();
            let r = data.len() % 3;
            &&& n >= 4
            &&& e[n - 1] == pad() <==> r != 0
            &&& e[n - 2] == pad() <==> r == 1
            &&& e[n - 3] != pad()
        }),
{
    let k = (data.len() - 1) / 3;
    let a = data.take(3 * k);
    let b = data.skip(3 * k);
    assert(data =~= a + b);
    lemma_encode_bytes_concat(a, b);
    lemma_group(b);
    assert(encode_bytes(b) == encode_group(b));
    let e = encode_bytes(data);
    let ea = encode_bytes(a);
    let n = e.len();
    assert(n == ea.len() + 4);
    assert(e[n - 1] == encode_group(b)[3]);
    assert(e[n - 2] == encode_group(b)[2]);
    assert(e[n - 3] == encode_group(b)[1]);
    assert(data.len() % 3 == b.len() % 3);
}

/// The URL-safe decoder restores the padding that a text leaves off: the URL-safe text
/// of any bytes, with its trailing padding dots dropped, still decodes to those bytes.
pub proof fn law_url_decode_restores_padding(data: Seq<u8>)
    ensures
        b64_decode(with_padding(url_to_std(without_trailing_dots(b64url_encode(b64_encode(data))))))
            == data,
{
    lemma_encode_bytes(data);
    lemma_encode_text(data);
    law_decode_inverts_encode(data);
    let e = encode_bytes(data);
    let t = b64_encode(data);
    let u = b64url_encode(t);
    let n = t.len();
    if data.len() == 0 {
        assert(t.len() == 0);
        assert(u.len() == 0);
        assert(without_trailing_dots(u) == u);
        lemma_with_padding(url_to_std(u));
        assert(url_to_std(u) =~= t);
    } else {
        lemma_last_group(data);
        let p: int = if data.len() % 3 == 0 {
            0
        } else if data.len() % 3 == 2 {
            1
        } else {
            2
        };
        assert forall|i: int| 0 <= i < n implies (#[trigger] u[i] == '.') == (e[i] == pad()) by {
            assert(accepted(e[i]));
            assert(t[i] == e[i] as char);
        }
        assert(u[n - 3] != '.');
        let kept = u.take(n - p);
        assert(kept.last() != '.');
        assert(without_trailing_dots(kept) == kept);
        if p == 0 {
            assert(kept =~= u);
        } else if p == 1 {
            assert(u.last() == '.');
            assert(u.drop_last() =~= kept);
        } else {
            assert(u.last() == '.');
            assert(u.drop_last().last() == '.');
            assert(u.drop_last().drop_last() =~= kept);
            assert(without_trailing_dots(u.drop_last()) == kept);
        }
        assert(without_trailing_dots(u) == kept);
        assert forall|i: int| 0 <= i < n implies std_char(url_char(#[trigger] t[i])) == t[i] by {
            assert(accepted(e[i]));
            assert(t[i] == e[i] as char);
        }
        let front = t.take(n - p);
        assert(url_to_std(kept) =~= front);
        assert(is_ascii_chars(front));
        is_ascii_chars_encode_utf8(front);
        assert(n % 4 == 0) by (nonlinear_arith)
            requires
                n == 4 * ((data.len() + 2) / 3),
        ;
        assert(missing_padding(encode_utf8(front).len()) == p);
        assert forall|i: int| n - p <= i < n implies #[trigger] t[i] == '=' by {
            assert(e[i] == pad());
        }
        assert(with_padding(front) =~= t);
    }
}

/// A padded standard encoding takes four characters for every started group of three
/// bytes, and all of them are ASCII.
pub proof fn law_encoded_length(data: Seq<u8>)
    ensures
        b64_encode(data).len() == 4 * ((data.len() + 2) / 3),
        is_ascii_chars(b64_encode(data)),
{
    lemma_encode_bytes(data);
    lemma_encode_text(data);
}


/// Tells whether the decoder can run on a text (see `decodable`).
pub fn is_decodable(input: &String) -> (ok: bool)
    ensures
        ok == decodable(encode_utf8(input@)),
{
    let bytes = input.as_str().as_bytes();
    let n = bytes.len();
    let mut i: usize = 0;
    while i < n
        invariant
            n == bytes@.len(),
            bytes@ == encode_utf8(input@),
            i <= n,
            forall|k: int| 0 <= k < i ==> #[trigger] accepted(bytes@[k]),
        decreases n - i,
    {
        if symbol_value_of(bytes[i]) == 64 && bytes[i] != 61u8 {
            assert(!accepted(bytes@[i as int]));
            assert(!all_accepted(bytes@));
            return true;
        }
        i = i + 1;
    }
    n % 4 == 0
}


/// Rewrites a standard base64 text in the URL-safe alphabet.
pub fn base64_to_base64url(input: String) -> (out: String)
    ensures
        out@ == b64url_encode(input@),
{
    map_url_chars(input.as_str(), true)
}

/// The RFC 4648 base64 alphabet, in the order of the six-bit values.
pub open spec fn rfc4648_alphabet() -> Seq<char> {
    "ABCDEFGHIJKLMNOPQRSTUVWXYZabcdefghijklmnopqrstuvwxyz0123456789+/"@
}

/// The encoder writes the six-bit value `v` as the `v`-th character of the RFC 4648
/// alphabet, and the decoder reads that character back as `v`.
pub proof fn law_symbols_follow_rfc4648(v: u8)
    requires
        v < 64,
    ensures
        rfc4648_alphabet().len() == 64,
        b64_symbol(v) as char == rfc4648_alphabet()[v as int],
        symbol_value(rfc4648_alphabet()[v as int] as u8) == v,
{
    reveal_strlit("ABCDEFGHIJKLMNOPQRSTUVWXYZabcdefghijklmnopqrstuvwxyz0123456789+/");
}

/// The decoder gives a six-bit value only for a character of the RFC 4648 alphabet, and
/// then the value of its place in it.
pub proof fn law_decoder_reads_rfc4648(c: u8)
    ensures
        symbol_value(c) < 64 ==> rfc4648_alphabet()[symbol_value(c) as int] == c as char,
        symbol_value(c) >= 64 ==> forall|v: int|
            0 <= v < 64 ==> #[trigger] rfc4648_alphabet()[v] != c as char,
{
    reveal_strlit("ABCDEFGHIJKLMNOPQRSTUVWXYZabcdefghijklmnopqrstuvwxyz0123456789+/");
}

/// One byte encodes as the symbols of its top six bits and of its low two bits followed
/// by four zero bits, then two `=`.
pub proof fn law_encode_one_byte(b: u8)
    ensures
        b64_encode(seq![b]) == seq![
            rfc4648_alphabet()[(b >> 2) as int],
            rfc4648_alphabet()[((b & 3) << 4) as int],
            '=',
            '=',
        ],
{
    let s0 = b >> 2;
    let s1 = (b & 3) << 4;
    assert(s0 < 64 && s1 < 64) by (bit_vector)
        requires
            s0 == b >> 2,
            s1 == (b & 3) << 4,
    ;
    law_symbols_follow_rfc4648(s0);
    law_symbols_follow_rfc4648(s1);
    assert(b64_encode(seq![b]) =~= seq![
        rfc4648_alphabet()[(b >> 2) as int],
        rfc4648_alphabet()[((b & 3) << 4) as int],
        '=',
        '=',
    ]);
}

/// Two bytes encode as the symbols of their sixteen bits, split six, six and four (the
/// last followed by two zero bits), then one `=`.
pub proof fn law_encode_two_bytes(b0: u8, b1: u8)
    ensures
        b64_encode(seq![b0, b1]) == seq![
            rfc4648_alphabet()[(b0 >> 2) as int],
            rfc4648_alphabet()[(((b0 & 3) << 4) | (b1 >> 4)) as int],
            rfc4648_alphabet()[((b1 & 15) << 2) as int],
            '=',
        ],
{
    let s0 = b0 >> 2;
    let s1 = ((b0 & 3) << 4) | (b1 >> 4);
    let s2 = (b1 & 15) << 2;
    assert(s0 < 64 && s1 < 64 && s2 < 64) by (bit_vector)
        requires
            s0 == b0 >> 2,
            s1 == ((b0 & 3) << 4) | (b1 >> 4),
            s2 == (b1 & 15) << 2,
    ;
    law_symbols_follow_rfc4648(s0);
    law_symbols_follow_rfc4648(s1);
    law_symbols_follow_rfc4648(s2);
    assert(b64_encode(seq![b0, b1]) =~= seq![
        rfc4648_alphabet()[(b0 >> 2) as int],
        rfc4648_alphabet()[(((b0 & 3) << 4) | (b1 >> 4)) as int],
        rfc4648_alphabet()[((b1 & 15) << 2) as int],
        '=',
    ]);
}

/// Three bytes encode as the symbols of their twenty-four bits, six at a time, from the
/// most significant.
pub proof fn law_encode_three_bytes(b0: u8, b1: u8, b2: u8)
    ensures
        b64_encode(seq![b0, b1, b2]) == seq![
            rfc4648_alphabet()[(b0 >> 2) as int],
            rfc4648_alphabet()[(((b0 & 3) << 4) | (b1 >> 4)) as int],
            rfc4648_alphabet()[(((b1 & 15) << 2) | (b2 >> 6)) as int],
            rfc4648_alphabet()[(b2 & 63) as int],
        ],
{
    let s0 = b0 >> 2;
    let s1 = ((b0 & 3) << 4) | (b1 >> 4);
    let s2 = ((b1 & 15) << 2) | ((b2 & 192) >> 6);
    let s3 = b2 & 63;
    assert(s0 < 64 && s1 < 64 && s2 < 64 && s3 < 64 && s2 == ((b1 & 15) << 2) | (b2 >> 6))
        by (bit_vector)
        requires
            s0 == b0 >> 2,
            s1 == ((b0 & 3) << 4) | (b1 >> 4),
            s2 == ((b1 & 15) << 2) | ((b2 & 192) >> 6),
            s3 == b2 & 63,
    ;
    law_symbols_follow_rfc4648(s0);
    law_symbols_follow_rfc4648(s1);
    law_symbols_follow_rfc4648(s2);
    law_symbols_follow_rfc4648(s3);
    assert(b64_encode(seq![b0, b1, b2]) =~= seq![
        rfc4648_alphabet()[(b0 >> 2) as int],
        rfc4648_alphabet()[(((b0 & 3) << 4) | (b1 >> 4)) as int],
        rfc4648_alphabet()[(((b1 & 15) << 2) | (b2 >> 6)) as int],
        rfc4648_alphabet()[(b2 & 63) as int],
    ]);
}

/// The URL-safe text writes `-`, `_` and `.` where the standard text has `+`, `/` and
/// `=`, and every other character as it is.
pub proof fn law_url_alphabet(text: Seq<char>)
    ensures
        b64url_encode(text).len() == text.len(),
        forall|i: int|
            0 <= i < text.len() ==> #[trigger] b64url_encode(text)[i] == (if text[i] == '+' {
                '-'
            } else if text[i] == '/' {
                '_'
            } else if text[i] == '=' {
                '.'
            } else {
                text[i]
            }),
{
}

} // verus!
