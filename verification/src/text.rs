use vstd::prelude::*;
use vstd::string::{StrSliceExecFns, StringSliceAdditionalSpecFns};
use vstd::utf8::{decode_utf8, encode_utf8, valid_utf8, encode_utf8_decode_utf8, decode_utf8_encode_utf8};

verus! {

/// Builds a `String` from characters with `FromIterator<char>`; the
/// contract claims that the string holds exactly those characters in order.
#[verifier::external_body]
pub(crate) fn string_from_chars(chars: &[char]) -> (out: String)
    ensures
        out@ == chars@,
{
    chars.iter().collect()
}

/// Calls `std::str::from_utf8`; the contract claims what its documentation
/// says: it succeeds exactly on valid UTF-8, and the text it returns has the
/// input as its bytes.
#[verifier::external_body]
pub(crate) fn utf8_str(bytes: &[u8]) -> (out: Option<&str>)
    ensures
        out is Some <==> valid_utf8(bytes@),
        out matches Some(s) ==> s.spec_bytes() == bytes@,
{
    std::str::from_utf8(bytes).ok()
}

/// Whether a character has the Unicode `White_Space` property.
pub open spec fn is_ws(c: char) -> bool {
    let u = c as u32;
    (9 <= u <= 13) || u == 32 || u == 0x85 || u == 0xa0 || u == 0x1680 || (0x2000 <= u <= 0x200a)
        || u == 0x2028 || u == 0x2029 || u == 0x202f || u == 0x205f || u == 0x3000
}

/// Whether a character has the Unicode `White_Space` property.
pub fn is_whitespace(c: char) -> (out: bool)
    ensures
        out == is_ws(c),
{
    let u = c as u32;
    (9 <= u && u <= 13) || u == 32 || u == 0x85 || u == 0xa0 || u == 0x1680 || (0x2000 <= u && u <= 0x200a)
        || u == 0x2028 || u == 0x2029 || u == 0x202f || u == 0x205f || u == 0x3000
}

/// The end of the run of non-whitespace characters that starts at `i`.
pub open spec fn word_end(s: Seq<char>, i: int) -> int
    decreases s.len() - i,
{
    if 0 <= i < s.len() && !is_ws(s[i]) {
        word_end(s, i + 1)
    } else {
        i
    }
}

pub proof fn lemma_word_end_bounds(s: Seq<char>, i: int)
    requires
        0 <= i <= s.len(),
    ensures
        i <= word_end(s, i) <= s.len(),
        forall|j: int| i <= j < word_end(s, i) ==> !is_ws(#[trigger] s[j]),
        word_end(s, i) < s.len() ==> is_ws(s[word_end(s, i)]),
    decreases s.len() - i,
{
    if i < s.len() && !is_ws(s[i]) {
        lemma_word_end_bounds(s, i + 1);
    }
}

/// The whitespace-separated words of `s` from position `i` on.
pub open spec fn words_from(s: Seq<char>, i: int) -> Seq<Seq<char>>
    decreases s.len() - i,
{
    if i < 0 || i >= s.len() {
        Seq::empty()
    } else if is_ws(s[i]) {
        words_from(s, i + 1)
    } else {
        let k = word_end(s, i + 1);
        proof {
            lemma_word_end_bounds(s, i + 1);
        }
        seq![s.subrange(i, k)] + words_from(s, k)
    }
}

/// The whitespace-separated words of `s`, as `str::split_whitespace` gives them.
pub open spec fn words(s: Seq<char>) -> Seq<Seq<char>> {
    words_from(s, 0)
}

/// The words of `text` separated by Unicode whitespace.
pub fn split_whitespace<'a>(text: &'a str) -> (out: Vec<&'a str>)
    ensures
        out@.map_values(|w: &str| w@) == words(text@),
{
    let n = text.unicode_len();
    let mut out: Vec<&'a str> = Vec::new();
    let mut i: usize = 0;
    while i < n
        invariant
            n == text@.len(),
            i <= n,
            out@.map_values(|w: &str| w@) + words_from(text@, i as int) == words(text@),
        decreases n - i,
    {
        let c = text.get_char(i);
        if is_whitespace(c) {
            i += 1;
        } else {
            let mut k: usize = i + 1;
            proof {
                lemma_word_end_bounds(text@, i + 1);
            }
            while k < n && !is_whitespace(text.get_char(k))
                invariant
                    n == text@.len(),
                    i < k <= n,
                    word_end(text@, k as int) == word_end(text@, i + 1),
                decreases n - k,
            {
                k += 1;
            }
            let word = text.substring_char(i, k);
            let ghost before = out@.map_values(|w: &str| w@);
            out.push(word);
            proof {
                assert(out@.map_values(|w: &str| w@) =~= before.push(text@.subrange(i as int, k as int)));
                assert(words_from(text@, i as int) == seq![text@.subrange(i as int, k as int)] + words_from(text@, k as int));
                assert(before + words_from(text@, i as int) =~= before.push(text@.subrange(i as int, k as int))
                    + words_from(text@, k as int));
            }
            i = k;
        }
    }
    assert(words_from(text@, i as int) =~= Seq::<Seq<char>>::empty());
    assert(out@.map_values(|w: &str| w@) + Seq::<Seq<char>>::empty() =~= out@.map_values(|w: &str| w@));
    out
}

/// The first position at or after `i` that holds `sep`, or the length.
pub open spec fn field_end(s: Seq<char>, i: int, sep: char) -> int
    decreases s.len() - i,
{
    if 0 <= i < s.len() && s[i] != sep {
        field_end(s, i + 1, sep)
    } else {
        i
    }
}

pub proof fn lemma_field_end_bounds(s: Seq<char>, i: int, sep: char)
    requires
        0 <= i <= s.len(),
    ensures
        i <= field_end(s, i, sep) <= s.len(),
        forall|j: int| i <= j < field_end(s, i, sep) ==> #[trigger] s[j] != sep,
        field_end(s, i, sep) < s.len() ==> s[field_end(s, i, sep)] == sep,
    decreases s.len() - i,
{
    if i < s.len() && s[i] != sep {
        lemma_field_end_bounds(s, i + 1, sep);
    }
}

/// The pieces of `s` from position `i` on, cut at every `sep`.
pub open spec fn split_from(s: Seq<char>, i: int, sep: char) -> Seq<Seq<char>>
    decreases s.len() - i,
{
    if i < 0 || i > s.len() {
        Seq::empty()
    } else {
        let k = field_end(s, i, sep);
        proof {
            lemma_field_end_bounds(s, i, sep);
        }
        if k >= s.len() {
            seq![s.subrange(i, s.len() as int)]
        } else {
            seq![s.subrange(i, k)] + split_from(s, k + 1, sep)
        }
    }
}

/// The pieces of `s` cut at every `sep`, as `str::split` gives them.
pub open spec fn split_on(s: Seq<char>, sep: char) -> Seq<Seq<char>> {
    split_from(s, 0, sep)
}

/// The pieces of `text` cut at every `sep`; there is always one more piece
/// than there are separators.
pub fn split_char<'a>(text: &'a str, sep: char) -> (out: Vec<&'a str>)
    ensures
        out@.map_values(|w: &str| w@) == split_on(text@, sep),
{
    let n = text.unicode_len();
    let mut out: Vec<&'a str> = Vec::new();
    let mut i: usize = 0;
    loop
        invariant
            n == text@.len(),
            i <= n,
            out@.map_values(|w: &str| w@) + split_from(text@, i as int, sep) == split_on(text@, sep),
        decreases n - i,
    {
        let mut k: usize = i;
        proof {
            lemma_field_end_bounds(text@, i as int, sep);
        }
        while k < n && text.get_char(k) != sep
            invariant
                n == text@.len(),
                i <= k <= n,
                field_end(text@, k as int, sep) == field_end(text@, i as int, sep),
            decreases n - k,
        {
            k += 1;
        }
        let piece = text.substring_char(i, k);
        let ghost before = out@.map_values(|w: &str| w@);
        out.push(piece);
        assert(out@.map_values(|w: &str| w@) =~= before.push(text@.subrange(i as int, k as int)));
        if k >= n {
            assert(split_from(text@, i as int, sep) == seq![text@.subrange(i as int, n as int)]);
            assert(before + split_from(text@, i as int, sep) =~= out@.map_values(|w: &str| w@));
            return out;
        }
        assert(split_from(text@, i as int, sep) == seq![text@.subrange(i as int, k as int)]
            + split_from(text@, k + 1, sep));
        assert(before + split_from(text@, i as int, sep) =~= before.push(text@.subrange(i as int, k as int))
            + split_from(text@, k + 1, sep));
        i = k + 1;
    }
}

proof fn lemma_split_from_nonempty(s: Seq<char>, i: int, sep: char)
    requires
        0 <= i <= s.len(),
    ensures
        split_from(s, i, sep).len() >= 1,
    decreases s.len() - i,
{
    lemma_field_end_bounds(s, i, sep);
    let k = field_end(s, i, sep);
    if k < s.len() {
        lemma_split_from_nonempty(s, k + 1, sep);
    }
}

/// A line without the carriage return of a `\r\n` ending.
pub open spec fn strip_cr(l: Seq<char>) -> Seq<char> {
    if l.len() > 0 && l[l.len() - 1] == '\r' { l.drop_last() } else { l }
}

/// The lines of `s` as `str::lines` gives them: cut at `\n`, a `\r` before
/// the `\n` dropped, and no empty line after a final `\n`.
pub open spec fn text_lines(s: Seq<char>) -> Seq<Seq<char>> {
    let p = split_on(s, '\n');
    let body = p.drop_last().map_values(|l: Seq<char>| strip_cr(l));
    if p.last().len() == 0 { body } else { body.push(p.last()) }
}

/// The lines of `text`.
pub fn lines<'a>(text: &'a str) -> (out: Vec<&'a str>)
    ensures
        out@.map_values(|w: &str| w@) == text_lines(text@),
{
    let parts = split_char(text, '\n');
    let ghost views = parts@.map_values(|w: &str| w@);
    proof {
        lemma_split_from_nonempty(text@, 0, '\n');
    }
    let n = parts.len();
    let ghost body = views.drop_last().map_values(|l: Seq<char>| strip_cr(l));
    let mut out: Vec<&'a str> = Vec::new();
    let mut i: usize = 0;
    while i + 1 < n
        invariant
            n == parts@.len(),
            n >= 1,
            views == parts@.map_values(|w: &str| w@),
            views == split_on(text@, '\n'),
            body == views.drop_last().map_values(|l: Seq<char>| strip_cr(l)),
            i < n,
            out@.map_values(|w: &str| w@) == body.subrange(0, i as int),
        decreases n - i,
    {
        let l = parts[i];
        assert(views[i as int] == l@);
        let len = l.unicode_len();
        let line = if len > 0 && l.get_char(len - 1) == '\r' { l.substring_char(0, len - 1) } else { l };
        assert(line@ == strip_cr(l@)) by {
            if len > 0 && l@[len - 1] == '\r' {
                assert(line@ =~= l@.drop_last());
            }
        }
        let ghost before = out@;
        out.push(line);
        assert(out@.map_values(|w: &str| w@) =~= before.map_values(|w: &str| w@).push(line@));
        assert(body.subrange(0, i + 1) =~= body.subrange(0, i as int).push(body[i as int]));
        i += 1;
    }
    assert(body.subrange(0, i as int) =~= body);
    let last = parts[n - 1];
    assert(views[n - 1] == last@);
    assert(views.last() == last@);
    if last.unicode_len() > 0 {
        let ghost before = out@;
        out.push(last);
        assert(out@.map_values(|w: &str| w@) =~= before.map_values(|w: &str| w@).push(last@));
    }
    out
}

/// Whether two byte slices are equal.
pub fn bytes_eq(a: &[u8], b: &[u8]) -> (eq: bool)
    ensures
        eq == (a@ == b@),
{
    if a.len() != b.len() {
        return false;
    }
    let mut i: usize = 0;
    while i < a.len()
        invariant
            a@.len() == b@.len(),
            i <= a@.len(),
            forall|j: int| 0 <= j < i ==> a@[j] == b@[j],
        decreases a@.len() - i,
    {
        if a[i] != b[i] {
            return false;
        }
        i += 1;
    }
    assert(a@ =~= b@);
    true
}

/// Whether two texts are equal.
pub fn str_eq(a: &str, b: &str) -> (eq: bool)
    ensures
        eq == (a@ == b@),
{
    let r = bytes_eq(a.as_bytes(), b.as_bytes());
    proof {
        encode_utf8_decode_utf8(a@);
        encode_utf8_decode_utf8(b@);
    }
    r
}

/// Whether every byte is an ASCII decimal digit.
pub open spec fn all_digits(d: Seq<u8>) -> bool {
    forall|i: int| 0 <= i < d.len() ==> 48 <= #[trigger] d[i] <= 57
}

/// The number spelled by decimal digits.
pub open spec fn digits_value(d: Seq<u8>) -> nat
    decreases d.len(),
{
    if d.len() == 0 {
        0
    } else {
        digits_value(d.drop_last()) * 10 + (d.last() - 48) as nat
    }
}

/// The digits of a number text: the text without one leading `+`.
pub open spec fn unsigned_digits(b: Seq<u8>) -> Seq<u8> {
    if b.len() >= 1 && b[0] == 43 {
        b.subrange(1, b.len() as int)
    } else {
        b
    }
}

/// The value of a decimal text as `str::parse` reads an unsigned integer no
/// larger than `max`: optional `+`, at least one digit, nothing else.
pub open spec fn spec_parse_unsigned(b: Seq<u8>, max: nat) -> Option<nat> {
    let d = unsigned_digits(b);
    if d.len() == 0 || !all_digits(d) || digits_value(d) > max {
        None
    } else {
        Some(digits_value(d))
    }
}

proof fn lemma_digits_value_monotone(d: Seq<u8>, i: int)
    requires
        0 <= i <= d.len(),
        all_digits(d),
    ensures
        digits_value(d.subrange(0, i)) <= digits_value(d),
    decreases d.len() - i,
{
    if i < d.len() {
        lemma_digits_value_monotone(d, i + 1);
        assert(d.subrange(0, i + 1).drop_last() =~= d.subrange(0, i));
    } else {
        assert(d.subrange(0, i) =~= d);
    }
}

/// Reads a decimal `u64` as `str::parse::<u64>` does.
pub fn parse_u64_text(b: &[u8]) -> (out: Option<u64>)
    ensures
        match spec_parse_unsigned(b@, u64::MAX as nat) {
            Some(v) => out == Some(v as u64),
            None => out is None,
        },
{
    let start: usize = if b.len() >= 1 && b[0] == 43 { 1 } else { 0 };
    let ghost d = unsigned_digits(b@);
    assert(d =~= b@.subrange(start as int, b@.len() as int));
    if start >= b.len() {
        return None;
    }
    let mut value: u64 = 0;
    let mut i: usize = start;
    while i < b.len()
        invariant
            start <= i <= b@.len(),
            d == unsigned_digits(b@),
            d == b@.subrange(start as int, b@.len() as int),
            all_digits(b@.subrange(start as int, i as int)),
            value == digits_value(b@.subrange(start as int, i as int)),
        decreases b@.len() - i,
    {
        let c = b[i];
        let ghost prefix = b@.subrange(start as int, i + 1);
        assert(prefix.drop_last() =~= b@.subrange(start as int, i as int));
        if c < 48 || c > 57 {
            assert(!all_digits(d)) by {
                assert(d[i - start] == c);
            }
            return None;
        }
        let digit = (c - 48) as u64;
        if value > (u64::MAX - digit) / 10 {
            proof {
                assert(all_digits(prefix));
                assert(digits_value(prefix) == value * 10 + digit);
                assert(value * 10 + digit > u64::MAX) by (nonlinear_arith)
                    requires
                        value > (u64::MAX - digit) / 10,
                        digit <= 9,
                ;
                if all_digits(d) {
                    assert(prefix =~= d.subrange(0, i + 1 - start));
                    lemma_digits_value_monotone(d, i + 1 - start);
                }
            }
            return None;
        }
        assert(value * 10 + digit <= u64::MAX) by (nonlinear_arith)
            requires
                value <= (u64::MAX - digit) / 10,
                digit <= 9,
        ;
        value = value * 10 + digit;
        i += 1;
    }
    Some(value)
}

/// Reads a decimal `usize` as `str::parse::<usize>` does.
pub fn parse_usize_text(b: &[u8]) -> (out: Option<usize>)
    ensures
        match spec_parse_unsigned(b@, usize::MAX as nat) {
            Some(v) => out == Some(v as usize),
            None => out is None,
        },
{
    match parse_u64_text(b) {
        Some(v) => {
            if v as u128 > usize::MAX as u128 {
                None
            } else {
                Some(v as usize)
            }
        },
        None => None,
    }
}

} // verus!
