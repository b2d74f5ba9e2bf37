//! Small string helpers shared by the rest of the library.

use vstd::prelude::*;
use vstd::string::StringExecFns;
use vstd::utf8::{encode_scalar, encode_utf8};

verus! {

/// `String::push`: appends one character to the end of the string.
#[verifier::external_body]
pub(crate) fn push_char(s: &mut String, c: char)
    ensures
        final(s)@ == old(s)@.push(c),
{
    s.push(c);
}

/// The character of a decimal digit.
pub open spec fn digit_char(d: nat) -> char {
    (d + 48) as char
}

/// The decimal numeral of `n`, without leading zeros.
pub open spec fn decimal(n: nat) -> Seq<char>
    decreases n,
{
    if n < 10 {
        seq![digit_char(n)]
    } else {
        decimal(n / 10).push(digit_char(n % 10))
    }
}

/// Appends the decimal numeral of `n`.
pub(crate) fn push_decimal(s: &mut String, n: u64)
    ensures
        final(s)@ == old(s)@ + decimal(n as nat),
    decreases n,
{
    if n >= 10 {
        push_decimal(s, n / 10);
    }
    let d = (n % 10) as u8;
    push_char(s, (d + 48) as char);
    proof {
        if n >= 10 {
            assert(final(s)@ =~= old(s)@ + decimal(n as nat));
        } else {
            assert(final(s)@ =~= old(s)@ + decimal(n as nat));
        }
    }
}


/// Whether Unicode counts the character as numeric (`char::is_numeric`).
pub uninterp spec fn unicode_numeric(c: char) -> bool;

/// Whether Unicode counts the character as alphabetic or numeric
/// (`char::is_alphanumeric`).
pub uninterp spec fn unicode_alphanumeric(c: char) -> bool;

/// `char::is_numeric`: the answer is the named Unicode property.
#[verifier::external_body]
pub(crate) fn is_numeric(c: char) -> (b: bool)
    ensures
        b == unicode_numeric(c),
{
    c.is_numeric()
}

/// `char::is_alphanumeric`: the answer is the named Unicode property.
#[verifier::external_body]
pub(crate) fn is_alphanumeric(c: char) -> (b: bool)
    ensures
        b == unicode_alphanumeric(c),
{
    c.is_alphanumeric()
}


/// `String::from_utf8`: the text that the bytes encode when they are valid UTF-8, and
/// `None` when they are not, as the standard library documents.
#[verifier::external_body]
pub(crate) fn utf8_to_string(bytes: Vec<u8>) -> (res: Option<String>)
    ensures
        res is Some <==> vstd::utf8::valid_utf8(bytes@),
        res matches Some(s) ==> s@ == vstd::utf8::decode_utf8(bytes@),
{
    String::from_utf8(bytes).ok()
}


/// Whether the character has Unicode's `White_Space` property (PropList.txt): tab to
/// carriage return, space, next line, no-break space, ogham space mark, the spaces from
/// en quad to hair space, line and paragraph separators, narrow no-break space, medium
/// mathematical space and ideographic space.
#[verifier::opaque]
pub open spec fn unicode_whitespace(c: char) -> bool {
    let v = c as u32;
    ||| 0x09 <= v <= 0x0D
    ||| v == 0x20
    ||| v == 0x85
    ||| v == 0xA0
    ||| v == 0x1680
    ||| 0x2000 <= v <= 0x200A
    ||| v == 0x2028
    ||| v == 0x2029
    ||| v == 0x202F
    ||| v == 0x205F
    ||| v == 0x3000
}

/// Whether the character is white space, as `char::is_whitespace` answers: the standard
/// library documents that method as Unicode's `White_Space` property, written out here.
pub(crate) fn is_whitespace(c: char) -> (b: bool)
    ensures
        b == unicode_whitespace(c),
{
    proof {
        reveal(unicode_whitespace);
    }
    let v = c as u32;
    (0x09 <= v && v <= 0x0D) || v == 0x20 || v == 0x85 || v == 0xA0 || v == 0x1680 || (0x2000
        <= v && v <= 0x200A) || v == 0x2028 || v == 0x2029 || v == 0x202F || v == 0x205F || v
        == 0x3000
}

/// The length of the run of non-white-space characters that `s` starts with.
pub open spec fn word_len(s: Seq<char>) -> nat
    decreases s.len(),
{
    if s.len() == 0 || unicode_whitespace(s[0]) {
        0
    } else {
        1 + word_len(s.drop_first())
    }
}

pub proof fn lemma_word_len(s: Seq<char>)
    ensures
        word_len(s) <= s.len(),
        s.len() > 0 && !unicode_whitespace(s[0]) ==> word_len(s) >= 1,
        forall|i: int| 0 <= i < word_len(s) ==> !unicode_whitespace(#[trigger] s[i]),
        word_len(s) < s.len() ==> unicode_whitespace(s[word_len(s) as int]),
    decreases s.len(),
{
    if s.len() > 0 && !unicode_whitespace(s[0]) {
        lemma_word_len(s.drop_first());
        assert forall|i: int| 0 <= i < word_len(s) implies !unicode_whitespace(#[trigger] s[i]) by {
            if i > 0 {
                assert(s[i] == s.drop_first()[i - 1]);
            }
        }
        if word_len(s) < s.len() {
            assert(s[word_len(s) as int] == s.drop_first()[word_len(s) - 1]);
        }
    }
}

/// The words of a text: its maximal runs of characters that are not white space, in
/// order (what `str::split_whitespace` yields).
pub open spec fn words(s: Seq<char>) -> Seq<Seq<char>>
    decreases s.len(),
{
    if s.len() == 0 {
        Seq::empty()
    } else if unicode_whitespace(s[0]) {
        words(s.drop_first())
    } else {
        proof {
            lemma_word_len(s);
        }
        seq![s.take(word_len(s) as int)] + words(s.skip(word_len(s) as int))
    }
}

/// The characters of a text.
pub fn chars_of(s: &str) -> (v: Vec<char>)
    ensures
        v@ == s@,
{
    broadcast use vstd::string::group_string_axioms;

    let mut v: Vec<char> = Vec::new();
    for c in it: s.chars()
        invariant
            it.seq() == s@,
            v@ =~= it.seq().take(it.index() as int),
    {
        v.push(c);
    }
    proof {
        assert(s@.take(s@.len() as int) =~= s@);
    }
    v
}

/// The text of the characters `v[from..to]`.
pub fn text_of(v: &Vec<char>, from: usize, to: usize) -> (s: String)
    requires
        from <= to <= v@.len(),
    ensures
        s@ == v@.subrange(from as int, to as int),
{
    let mut s = String::new();
    let mut i = from;
    while i < to
        invariant
            from <= i <= to <= v@.len(),
            s@ =~= v@.subrange(from as int, i as int),
        decreases to - i,
    {
        push_char(&mut s, v[i]);
        i = i + 1;
    }
    s
}

fn split_from(v: &Vec<char>, i: usize, out: &mut Vec<String>)
    requires
        i <= v@.len(),
    ensures
        final(out)@.len() == old(out)@.len() + words(v@.skip(i as int)).len(),
        forall|k: int| 0 <= k < old(out)@.len() ==> final(out)@[k] == old(out)@[k],
        forall|k: int|
            0 <= k < words(v@.skip(i as int)).len() ==> #[trigger] final(out)@[old(out)@.len() + k]@
                == words(v@.skip(i as int))[k],
    decreases v@.len() - i,
{
    let ghost rest = v@.skip(i as int);
    if i == v.len() {
        assert(rest.len() == 0);
        return;
    }
    assert(rest[0] == v@[i as int]);
    if is_whitespace(v[i]) {
        assert(rest.drop_first() =~= v@.skip(i + 1));
        split_from(v, i + 1, out);
        return;
    }
    let mut j = i;
    while j < v.len() && !is_whitespace(v[j])
        invariant
            i <= j <= v@.len(),
            forall|k: int| i <= k < j ==> !unicode_whitespace(#[trigger] v@[k]),
        decreases v@.len() - j,
    {
        j = j + 1;
    }
    proof {
        lemma_word_len(rest);
        let w = word_len(rest) as int;
        assert forall|k: int| 0 <= k < j - i implies !unicode_whitespace(#[trigger] rest[k]) by {
            assert(rest[k] == v@[i + k]);
        }
        if w < j - i {
            assert(rest[w] == v@[i + w]);
        }
        if j - i < w {
            assert(rest[j - i] == v@[j as int]);
        }
        assert(w == j - i);
        assert(rest.take(w) =~= v@.subrange(i as int, j as int));
        assert(rest.skip(w) =~= v@.skip(j as int));
    }
    let word = text_of(v, i, j);
    let ghost before = out@;
    proof {
        assert(words(rest) == seq![v@.subrange(i as int, j as int)] + words(v@.skip(j as int)));
    }
    out.push(word);
    let ghost mid = out@;
    split_from(v, j, out);
    proof {
        assert forall|k: int| 0 <= k < words(rest).len() implies #[trigger] out@[before.len() + k]@
            == words(rest)[k] by {
            if k == 0 {
                assert(out@[before.len() as int] == mid[before.len() as int]);
            } else {
                assert(out@[mid.len() + (k - 1)]@ == words(v@.skip(j as int))[k - 1]);
            }
        }
    }
}

/// The words of a text, as `str::split_whitespace` gives them.
pub fn split_whitespace(s: &str) -> (ws: Vec<String>)
    ensures
        ws@.len() == words(s@).len(),
        forall|k: int| 0 <= k < ws@.len() ==> #[trigger] ws@[k]@ == words(s@)[k],
{
    let v = chars_of(s);
    let mut out: Vec<String> = Vec::new();
    assert(v@.skip(0) =~= v@);
    split_from(&v, 0, &mut out);
    assert forall|k: int| 0 <= k < out@.len() implies #[trigger] out@[k]@ == words(s@)[k] by {
        assert(out@[0 + k]@ == words(v@.skip(0))[k]);
    }
    out
}

/// The number of white-space characters that `s` starts with.
pub open spec fn leading_space(s: Seq<char>) -> nat
    decreases s.len(),
{
    if s.len() > 0 && unicode_whitespace(s[0]) {
        1 + leading_space(s.drop_first())
    } else {
        0
    }
}

/// The number of white-space characters that `s` ends with.
pub open spec fn trailing_space(s: Seq<char>) -> nat
    decreases s.len(),
{
    if s.len() > 0 && unicode_whitespace(s.last()) {
        1 + trailing_space(s.drop_last())
    } else {
        0
    }
}

/// A text without its leading and trailing white space (what `str::trim` gives).
pub open spec fn trimmed(s: Seq<char>) -> Seq<char> {
    let t = s.skip(leading_space(s) as int);
    t.take(t.len() - trailing_space(t))
}

proof fn lemma_leading(s: Seq<char>)
    ensures
        leading_space(s) <= s.len(),
        forall|i: int| 0 <= i < leading_space(s) ==> unicode_whitespace(#[trigger] s[i]),
        leading_space(s) < s.len() ==> !unicode_whitespace(s[leading_space(s) as int]),
    decreases s.len(),
{
    if s.len() > 0 && unicode_whitespace(s[0]) {
        lemma_leading(s.drop_first());
        assert forall|i: int| 0 <= i < leading_space(s) implies unicode_whitespace(#[trigger] s[i]) by {
            if i > 0 {
                assert(s[i] == s.drop_first()[i - 1]);
            }
        }
        if leading_space(s) < s.len() {
            assert(s[leading_space(s) as int] == s.drop_first()[leading_space(s) - 1]);
        }
    }
}

proof fn lemma_trailing(s: Seq<char>)
    ensures
        trailing_space(s) <= s.len(),
        forall|i: int|
            s.len() - trailing_space(s) <= i < s.len() ==> unicode_whitespace(#[trigger] s[i]),
        trailing_space(s) < s.len() ==> !unicode_whitespace(s[s.len() - trailing_space(s) - 1]),
    decreases s.len(),
{
    if s.len() > 0 && unicode_whitespace(s.last()) {
        lemma_trailing(s.drop_last());
        assert forall|i: int| s.len() - trailing_space(s) <= i < s.len() implies unicode_whitespace(
            #[trigger] s[i],
        ) by {
            if i < s.len() - 1 {
                assert(s[i] == s.drop_last()[i]);
            }
        }
        if trailing_space(s) < s.len() {
            assert(s[s.len() - trailing_space(s) - 1] == s.drop_last()[s.len() - trailing_space(s)
                - 1]);
        }
    }
}

/// A text without its leading and trailing white space, as `str::trim` gives it.
pub fn trim(s: &str) -> (t: String)
    ensures
        t@ == trimmed(s@),
{
    let v = chars_of(s);
    let n = v.len();
    let mut start: usize = 0;
    while start < n && is_whitespace(v[start])
        invariant
            start <= n == v@.len(),
            forall|k: int| 0 <= k < start ==> unicode_whitespace(#[trigger] v@[k]),
        decreases n - start,
    {
        start = start + 1;
    }
    let mut end: usize = n;
    while end > start && is_whitespace(v[end - 1])
        invariant
            start <= end <= n == v@.len(),
            forall|k: int| end <= k < n ==> unicode_whitespace(#[trigger] v@[k]),
        decreases end,
    {
        end = end - 1;
    }
    proof {
        let sv = s@;
        lemma_leading(sv);
        let l = leading_space(sv) as int;
        if l < start {
            assert(unicode_whitespace(v@[l]));
        }
        if start < l {
            assert(unicode_whitespace(sv[start as int]));
        }
        assert(l == start);
        let tt = sv.skip(l);
        lemma_trailing(tt);
        let r = trailing_space(tt) as int;
        assert forall|k: int| 0 <= k < tt.len() implies tt[k] == v@[start + k] by {}
        if tt.len() - r > end - start {
            assert(unicode_whitespace(tt[tt.len() - r - 1]));
            assert(tt[tt.len() - r - 1] == v@[start + tt.len() - r - 1]);
        }
        if tt.len() - r < end - start {
            assert(!unicode_whitespace(tt[end - start - 1]));
        }
        assert(tt.take(tt.len() - r) =~= v@.subrange(start as int, end as int));
    }
    text_of(&v, start, end)
}

/// The words joined with single spaces between them (what `[String]::join(" ")` gives).
pub open spec fn joined(ws: Seq<Seq<char>>) -> Seq<char>
    decreases ws.len(),
{
    if ws.len() == 0 {
        Seq::empty()
    } else if ws.len() == 1 {
        ws[0]
    } else {
        joined(ws.drop_last()) + seq![' '] + ws.last()
    }
}

/// Joins `parts[from..]` with single spaces, as `parts[from..].join(" ")` does.
pub fn join_with_spaces(parts: &Vec<String>, from: usize) -> (s: String)
    requires
        from <= parts@.len(),
    ensures
        s@ == joined(parts@.skip(from as int).map_values(|p: String| p@)),
{
    broadcast use vstd::string::group_string_axioms;

    let mut s = String::new();
    let mut i = from;
    while i < parts.len()
        invariant
            from <= i <= parts@.len(),
            s@ == joined(parts@.subrange(from as int, i as int).map_values(|p: String| p@)),
        decreases parts@.len() - i,
    {
        let ghost before = parts@.subrange(from as int, i as int).map_values(|p: String| p@);
        let ghost after = parts@.subrange(from as int, i + 1).map_values(|p: String| p@);
        assert(after.drop_last() =~= before);
        if i > from {
            push_char(&mut s, ' ');
        }
        s.append(parts[i].as_str());
        proof {
            if i == from {
                assert(s@ =~= joined(after));
            } else {
                assert(s@ =~= joined(after));
            }
        }
        i = i + 1;
    }
    assert(parts@.subrange(from as int, parts@.len() as int) =~= parts@.skip(from as int));
    s
}


/// The number of bytes of the UTF-8 encoding of a text.
pub open spec fn utf8_len(s: Seq<char>) -> nat {
    encode_utf8(s).len()
}

/// The number of bytes of the UTF-8 encoding of a character.
pub open spec fn char_width(c: char) -> nat {
    encode_scalar(c as u32).len()
}

/// Each character takes one to four bytes in UTF-8.
pub proof fn lemma_encode_len_bounds(s: Seq<char>)
    ensures
        s.len() <= encode_utf8(s).len() <= 4 * s.len(),
    decreases s.len(),
{
    if s.len() > 0 {
        lemma_encode_len_bounds(s.drop_first());
    }
}

/// Encoding a concatenation concatenates the encodings.
pub proof fn lemma_encode_concat(a: Seq<char>, b: Seq<char>)
    ensures
        encode_utf8(a + b) == encode_utf8(a) + encode_utf8(b),
    decreases a.len(),
{
    if a.len() == 0 {
        assert(a + b =~= b);
        assert(encode_utf8(a) + encode_utf8(b) =~= encode_utf8(b));
    } else {
        assert((a + b).drop_first() =~= a.drop_first() + b);
        lemma_encode_concat(a.drop_first(), b);
        assert(encode_utf8(a + b) =~= encode_utf8(a) + encode_utf8(b));
    }
}

/// Every character takes one to four bytes.
pub proof fn lemma_char_width(c: char)
    ensures
        1 <= char_width(c) <= 4,
        encode_utf8(seq![c]) == encode_scalar(c as u32),
{
    vstd::utf8::char_is_scalar(c);
    let one = seq![c];
    assert(one.drop_first() =~= Seq::<char>::empty());
    assert(encode_utf8(one.drop_first()) == Seq::<u8>::empty());
    assert(encode_utf8(one) == encode_scalar(one[0] as u32) + encode_utf8(one.drop_first()));
    assert(encode_utf8(one) =~= encode_scalar(c as u32));
}

/// The bytes of a prefix grow by the width of the next character.
pub proof fn lemma_prefix_len(s: Seq<char>, i: int)
    requires
        0 <= i < s.len(),
    ensures
        utf8_len(s.take(i + 1)) == utf8_len(s.take(i)) + char_width(s[i]),
{
    assert(s.take(i + 1) =~= s.take(i) + seq![s[i]]);
    lemma_encode_concat(s.take(i), seq![s[i]]);
    lemma_char_width(s[i]);
}

/// Longer prefixes take strictly more bytes.
pub proof fn lemma_prefix_monotone(s: Seq<char>, i: int, j: int)
    requires
        0 <= i < j <= s.len(),
    ensures
        utf8_len(s.take(i)) < utf8_len(s.take(j)),
    decreases j - i,
{
    lemma_prefix_len(s, j - 1);
    lemma_char_width(s[j - 1]);
    if i < j - 1 {
        lemma_prefix_monotone(s, i, j - 1);
    }
}

/// The width of a character in UTF-8, as `char::len_utf8` gives it.
pub fn len_utf8(c: char) -> (n: usize)
    ensures
        n == char_width(c),
{
    proof {
        vstd::utf8::char_is_scalar(c);
    }
    let v = c as u32;
    if v <= 0x7F {
        1
    } else if v <= 0x7FF {
        2
    } else if v <= 0xFFFF {
        3
    } else {
        4
    }
}


/// A text without its trailing white space (what `str::trim_end` gives).
pub open spec fn trimmed_end(s: Seq<char>) -> Seq<char> {
    s.take(s.len() - trailing_space(s))
}

/// A text without its trailing white space, as `str::trim_end` gives it.
pub fn trim_end(s: &str) -> (t: String)
    ensures
        t@ == trimmed_end(s@),
{
    let v = chars_of(s);
    let n = v.len();
    let mut end: usize = n;
    while end > 0 && is_whitespace(v[end - 1])
        invariant
            end <= n == v@.len(),
            forall|k: int| end <= k < n ==> unicode_whitespace(#[trigger] v@[k]),
        decreases end,
    {
        end = end - 1;
    }
    proof {
        let sv = s@;
        lemma_trailing(sv);
        let r = trailing_space(sv) as int;
        if sv.len() - r > end {
            assert(unicode_whitespace(sv[sv.len() - r - 1]));
        }
        if sv.len() - r < end {
            assert(!unicode_whitespace(sv[end - 1]));
        }
        assert(sv.take(sv.len() - r) =~= v@.subrange(0, end as int));
    }
    text_of(&v, 0, end)
}

/// Whether a text contains a character.
pub fn contains_char(s: &str, c: char) -> (b: bool)
    ensures
        b == s@.contains(c),
{
    let v = chars_of(s);
    let mut i: usize = 0;
    while i < v.len()
        invariant
            i <= v@.len(),
            v@ == s@,
            forall|k: int| 0 <= k < i ==> v@[k] != c,
        decreases v@.len() - i,
    {
        if v[i] == c {
            assert(s@[i as int] == c);
            return true;
        }
        i = i + 1;
    }
    false
}

/// Whether a text starts with another.
pub fn starts_with(s: &str, prefix: &str) -> (b: bool)
    ensures
        b == prefix@.is_prefix_of(s@),
{
    let v = chars_of(s);
    let p = chars_of(prefix);
    if p.len() > v.len() {
        return false;
    }
    let mut i: usize = 0;
    while i < p.len()
        invariant
            i <= p@.len() <= v@.len(),
            v@ == s@,
            p@ == prefix@,
            forall|k: int| 0 <= k < i ==> p@[k] == v@[k],
        decreases p@.len() - i,
    {
        if p[i] != v[i] {
            return false;
        }
        i = i + 1;
    }
    assert(p@ =~= v@.take(p@.len() as int));
    true
}

/// Whether two texts are the same text, as `==` on `str` tells.
pub fn same_text(a: &str, b: &str) -> (same: bool)
    ensures
        same == (a@ == b@),
{
    let x = chars_of(a);
    let y = chars_of(b);
    if x.len() != y.len() {
        return false;
    }
    let mut i: usize = 0;
    while i < x.len()
        invariant
            x@ == a@,
            y@ == b@,
            x@.len() == y@.len(),
            i <= x@.len(),
            forall|k: int| 0 <= k < i ==> x@[k] == y@[k],
        decreases x@.len() - i,
    {
        if x[i] != y[i] {
            return false;
        }
        i = i + 1;
    }
    assert(x@ =~= y@);
    true
}

/// The value of a string of decimal digits.
pub open spec fn digits_value(s: Seq<char>) -> int
    decreases s.len(),
{
    if s.len() == 0 {
        0
    } else {
        digits_value(s.drop_last()) * 10 + (s.last() as int - 48)
    }
}

/// Every character is an ASCII digit.
pub open spec fn all_digits(s: Seq<char>) -> bool {
    forall|i: int| 0 <= i < s.len() ==> '0' <= #[trigger] s[i] <= '9'
}

/// What `str::parse::<u64>` gives: an optional `+`, then one or more ASCII digits whose
/// value fits in 64 bits.
pub open spec fn parsed_u64(s: Seq<char>) -> Option<u64> {
    let d = if s.len() > 0 && s[0] == '+' {
        s.drop_first()
    } else {
        s
    };
    if d.len() > 0 && all_digits(d) && digits_value(d) <= u64::MAX {
        Some(digits_value(d) as u64)
    } else {
        None
    }
}

proof fn lemma_digits_grow(s: Seq<char>, i: int)
    requires
        0 <= i <= s.len(),
        all_digits(s),
    ensures
        0 <= digits_value(s.take(i)) <= digits_value(s),
    decreases s.len() - i,
{
    if i < s.len() {
        lemma_digits_grow(s, i + 1);
        assert(s.take(i + 1).drop_last() =~= s.take(i));
    } else {
        assert(s.take(i) =~= s);
    }
    if i > 0 {
        lemma_digits_nonneg(s.take(i));
    }
}

proof fn lemma_digits_nonneg(s: Seq<char>)
    requires
        all_digits(s),
    ensures
        digits_value(s) >= 0,
    decreases s.len(),
{
    if s.len() > 0 {
        lemma_digits_nonneg(s.drop_last());
    }
}

/// Reads a decimal number as `str::parse::<u64>` does.
pub fn parse_u64(s: &str) -> (v: Option<u64>)
    ensures
        v == parsed_u64(s@),
{
    let chars = chars_of(s);
    let n = chars.len();
    let start: usize = if n > 0 && chars[0] == '+' {
        1
    } else {
        0
    };
    let ghost d = if s@.len() > 0 && s@[0] == '+' {
        s@.drop_first()
    } else {
        s@
    };
    proof {
        assert(d =~= chars@.skip(start as int));
    }
    if start == n {
        return None;
    }
    let mut acc: u128 = 0;
    let mut i = start;
    while i < n
        invariant
            start <= i <= n == chars@.len(),
            chars@ == s@,
            d == chars@.skip(start as int),
            d == (if s@.len() > 0 && s@[0] == '+' {
                s@.drop_first()
            } else {
                s@
            }),
            forall|k: int| start <= k < i ==> '0' <= #[trigger] chars@[k] <= '9',
            acc == digits_value(chars@.subrange(start as int, i as int)),
            acc <= u64::MAX,
        decreases n - i,
    {
        let c = chars[i];
        if c < '0' || c > '9' {
            proof {
                assert(d[i - start] == c);
                assert(!all_digits(d));
            }
            return None;
        }
        let digit = (c as u32 - 48) as u128;
        proof {
            assert(chars@.subrange(start as int, i + 1).drop_last() =~= chars@.subrange(
                start as int,
                i as int,
            ));
        }
        acc = acc * 10 + digit;
        if acc > 18446744073709551615u128 {
            proof {
                let j = i + 1 - start;
                assert(chars@.subrange(start as int, i + 1) =~= d.take(j));
                if all_digits(d) {
                    lemma_digits_grow(d, j);
                }
            }
            return None;
        }
        i = i + 1;
    }
    proof {
        assert(chars@.subrange(start as int, n as int) =~= d);
        assert forall|k: int| 0 <= k < d.len() implies '0' <= #[trigger] d[k] <= '9' by {
            assert(d[k] == chars@[start + k]);
        }
    }
    Some(acc as u64)
}

/// Trimming cuts only white space, and all of it from both ends: the trimmed text is a
/// stretch of the text with only white space before and after it, and it neither starts
/// nor ends with white space.
pub proof fn law_trim_cuts_white_space_at_the_ends(s: Seq<char>)
    ensures
        exists|a: int, b: int|
            0 <= a <= b <= s.len() && #[trigger] s.subrange(a, b) == trimmed(s) && (forall|i: int|
                0 <= i < a ==> unicode_whitespace(#[trigger] s[i])) && (forall|i: int|
                b <= i < s.len() ==> unicode_whitespace(#[trigger] s[i])),
        trimmed(s).len() > 0 ==> !unicode_whitespace(trimmed(s)[0]) && !unicode_whitespace(
            trimmed(s).last(),
        ),
{
    let a = leading_space(s) as int;
    lemma_leading(s);
    let t = s.skip(a);
    lemma_trailing(t);
    let b = a + t.len() - trailing_space(t);
    assert(s.subrange(a, b) =~= trimmed(s));
    assert forall|i: int| b <= i < s.len() implies unicode_whitespace(#[trigger] s[i]) by {
        assert(s[i] == t[i - a]);
    }
    if trimmed(s).len() > 0 {
        assert(trimmed(s)[0] == s[a]);
        assert(trimmed(s).last() == t[t.len() - trailing_space(t) - 1]);
    }
}

/// The words of a text are non-empty and hold no white space.
pub proof fn law_words_hold_no_white_space(s: Seq<char>)
    ensures
        forall|i: int| 0 <= i < words(s).len() ==> (#[trigger] words(s)[i]).len() > 0,
        forall|i: int, k: int|
            0 <= i < words(s).len() && 0 <= k < words(s)[i].len() ==> !unicode_whitespace(
                #[trigger] words(s)[i][k],
            ),
    decreases s.len(),
{
    if s.len() > 0 {
        if unicode_whitespace(s[0]) {
            law_words_hold_no_white_space(s.drop_first());
            assert(words(s) == words(s.drop_first()));
        } else {
            lemma_word_len(s);
            let w = s.take(word_len(s) as int);
            let rest = s.skip(word_len(s) as int);
            law_words_hold_no_white_space(rest);
            assert(words(s) == seq![w] + words(rest));
            assert forall|i: int| 0 <= i < words(s).len() implies (#[trigger] words(s)[i]).len()
                > 0 by {
                if i > 0 {
                    assert(words(s)[i] == words(rest)[i - 1]);
                }
            }
            assert forall|i: int, k: int|
                0 <= i < words(s).len() && 0 <= k < words(s)[i].len() implies !unicode_whitespace(
                #[trigger] words(s)[i][k],
            ) by {
                if i > 0 {
                    assert(words(s)[i] == words(rest)[i - 1]);
                } else {
                    assert(words(s)[i] == w);
                    assert(w[k] == s[k]);
                }
            }
        }
    }
}

proof fn lemma_decimal_value(n: nat)
    ensures
        decimal(n).len() > 0,
        all_digits(decimal(n)),
        digits_value(decimal(n)) == n,
        n >= 10 ==> decimal(n)[0] != '0',
    decreases n,
{
    if n >= 10 {
        lemma_decimal_value(n / 10);
        let p = decimal(n / 10);
        let d = decimal(n);
        assert(d.drop_last() =~= p);
        assert(d[0] == p[0]);
        assert forall|i: int| 0 <= i < d.len() implies '0' <= #[trigger] d[i] <= '9' by {
            if i < p.len() {
                assert(d[i] == p[i]);
            }
        }
        assert(digit_char((n % 10) as nat) as int - 48 == n % 10);
        assert(d.last() == digit_char((n % 10) as nat));
        assert(digits_value(d) == digits_value(d.drop_last()) * 10 + (d.last() as int - 48));
        assert(digits_value(d.drop_last()) == n / 10);
        assert(n == (n / 10) * 10 + n % 10) by (nonlinear_arith);
        if n / 10 < 10 {
            assert(p[0] == digit_char(n / 10));
        }
    } else {
        assert(digit_char(n) as int - 48 == n);
        assert(decimal(n).drop_last() =~= Seq::<char>::empty());
        assert(digits_value(decimal(n)) == digits_value(decimal(n).drop_last()) * 10 + (decimal(
            n,
        ).last() as int - 48));
    }
}

/// Reading a number back from its decimal numeral gives the number.
pub proof fn law_parse_reads_the_decimal_numeral(n: u64)
    ensures
        parsed_u64(decimal(n as nat)) == Some(n),
{
    lemma_decimal_value(n as nat);
    let d = decimal(n as nat);
    assert(d[0] != '+');
}

} // verus!
