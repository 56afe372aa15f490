use vstd::prelude::*;
use vstd::string::{StrSliceExecFns, StringSliceAdditionalSpecFns};
use crate::error::{Result, TvmError};
use crate::record_fields::{exact_comma_fields, exact_record};
use crate::testnet::public_services::PublicServiceKind;
use crate::text::{
    field_end, is_ws, is_whitespace, lemma_field_end_bounds, lines, parse_u64_text, parse_usize_text, spec_parse_unsigned,
    split_on, str_eq, text_lines,
};
use crate::types::{Hash32, HashHexParseError, spec_parse_hash_hex};

verus! {

/// Whether text has whitespace at either end, so that trimming changes it.
pub open spec fn padded(s: Seq<char>) -> bool {
    s.len() > 0 && (is_ws(s[0]) || is_ws(s[s.len() - 1]))
}

pub fn is_padded(s: &str) -> (out: bool)
    ensures
        out == padded(s@),
{
    let n = s.unicode_len();
    n > 0 && (is_whitespace(s.get_char(0)) || is_whitespace(s.get_char(n - 1)))
}

/// Refuses a manifest key with whitespace at either end.
pub fn reject_manifest_key_whitespace(key: &str) -> (out: Result<()>)
    ensures
        padded(key@) ==> out == Err::<(), TvmError>(TvmError::InvalidReceipt("malformed manifest field key")),
        !padded(key@) ==> out is Ok,
{
    if is_padded(key) {
        return Err(TvmError::InvalidReceipt("malformed manifest field key"));
    }
    Ok(())
}

/// The fields of a manifest record of `expected_fields` exact fields, or
/// `error`.
pub fn exact_manifest_record_fields<'a>(value: &'a str, expected_fields: usize, error: &'static str) -> (out: Result<Vec<&'a str>>)
    ensures
        !exact_record(value@, expected_fields as nat) ==> out == Err::<Vec<&'a str>, TvmError>(TvmError::InvalidReceipt(error)),
        exact_record(value@, expected_fields as nat) ==> (out matches Ok(v) && v@.map_values(|w: &str| w@) == split_on(value@, ',')),
{
    match exact_comma_fields(value, expected_fields) {
        Some(fields) => Ok(fields),
        None => Err(TvmError::InvalidReceipt(error)),
    }
}

/// A manifest scalar, refused where it has whitespace at either end.
pub fn exact_manifest_scalar(value: &str) -> (out: Result<&str>)
    ensures
        padded(value@) ==> out == Err::<&str, TvmError>(TvmError::InvalidReceipt("malformed manifest scalar value")),
        !padded(value@) ==> out == Ok::<&str, TvmError>(value),
{
    if is_padded(value) {
        return Err(TvmError::InvalidReceipt("malformed manifest scalar value"));
    }
    Ok(value)
}

/// The service kind a manifest names.
pub open spec fn spec_parse_service_kind(value: Seq<char>) -> core::result::Result<PublicServiceKind, &'static str> {
    if value == "rpc"@ {
        Ok(PublicServiceKind::Rpc)
    } else if value == "explorer"@ {
        Ok(PublicServiceKind::Explorer)
    } else if value == "faucet"@ {
        Ok(PublicServiceKind::Faucet)
    } else if value == "telemetry"@ {
        Ok(PublicServiceKind::Telemetry)
    } else {
        Err("unknown service evidence kind")
    }
}

/// Lifts a specification result to the library's error type.
pub open spec fn receipt_result<T>(r: core::result::Result<T, &'static str>) -> Result<T> {
    match r {
        Ok(v) => Ok(v),
        Err(m) => Err(TvmError::InvalidReceipt(m)),
    }
}

pub fn parse_service_kind(value: &str) -> (out: Result<PublicServiceKind>)
    ensures
        out == receipt_result(spec_parse_service_kind(value@)),
{
    if str_eq(value, "rpc") {
        Ok(PublicServiceKind::Rpc)
    } else if str_eq(value, "explorer") {
        Ok(PublicServiceKind::Explorer)
    } else if str_eq(value, "faucet") {
        Ok(PublicServiceKind::Faucet)
    } else if str_eq(value, "telemetry") {
        Ok(PublicServiceKind::Telemetry)
    } else {
        Err(TvmError::InvalidReceipt("unknown service evidence kind"))
    }
}

/// The digest a manifest field spells, with the manifest's error messages.
pub open spec fn spec_parse_evidence_hash(value: Seq<char>) -> core::result::Result<Seq<u8>, &'static str> {
    match spec_parse_hash_hex(vstd::utf8::encode_utf8(value)) {
        Ok(h) => Ok(h),
        Err(HashHexParseError::InvalidLength) => Err("invalid evidence hash length"),
        Err(HashHexParseError::InvalidHex) => Err("invalid evidence hash hex"),
    }
}

pub fn parse_hash_hex(value: &str) -> (out: Result<Hash32>)
    ensures
        match (out, spec_parse_evidence_hash(value@)) {
            (Ok(h), Ok(v)) => h@ == v,
            (Err(e), Err(m)) => e == TvmError::InvalidReceipt(m),
            _ => false,
        },
{
    match crate::types::parse_hash_hex(value) {
        Ok(hash) => Ok(hash),
        Err(HashHexParseError::InvalidLength) => Err(TvmError::InvalidReceipt("invalid evidence hash length")),
        Err(HashHexParseError::InvalidHex) => Err(TvmError::InvalidReceipt("invalid evidence hash hex")),
    }
}

/// The unsigned number a manifest field spells, up to `max`.
pub open spec fn spec_parse_number(value: Seq<char>, max: nat) -> core::result::Result<nat, &'static str> {
    match spec_parse_unsigned(vstd::utf8::encode_utf8(value), max) {
        Some(v) => Ok(v),
        None => Err("invalid evidence manifest number"),
    }
}

pub fn parse_manifest_u64(value: &str) -> (out: Result<u64>)
    ensures
        match (out, spec_parse_number(value@, u64::MAX as nat)) {
            (Ok(v), Ok(n)) => v == n,
            (Err(e), Err(m)) => e == TvmError::InvalidReceipt(m),
            _ => false,
        },
{
    match parse_u64_text(value.as_bytes()) {
        Some(v) => Ok(v),
        None => Err(TvmError::InvalidReceipt("invalid evidence manifest number")),
    }
}

pub fn parse_manifest_usize(value: &str) -> (out: Result<usize>)
    ensures
        match (out, spec_parse_number(value@, usize::MAX as nat)) {
            (Ok(v), Ok(n)) => v == n,
            (Err(e), Err(m)) => e == TvmError::InvalidReceipt(m),
            _ => false,
        },
{
    match parse_usize_text(value.as_bytes()) {
        Some(v) => Ok(v),
        None => Err(TvmError::InvalidReceipt("invalid evidence manifest number")),
    }
}

/// The boolean a manifest field spells.
pub open spec fn spec_parse_bool(value: Seq<char>) -> core::result::Result<bool, &'static str> {
    if value == "true"@ {
        Ok(true)
    } else if value == "false"@ {
        Ok(false)
    } else {
        Err("invalid evidence manifest boolean")
    }
}

pub fn parse_manifest_bool(value: &str) -> (out: Result<bool>)
    ensures
        out == receipt_result(spec_parse_bool(value@)),
{
    if str_eq(value, "true") {
        Ok(true)
    } else if str_eq(value, "false") {
        Ok(false)
    } else {
        Err(TvmError::InvalidReceipt("invalid evidence manifest boolean"))
    }
}

/// The position of the first character that is not whitespace.
pub open spec fn first_non_ws(s: Seq<char>, i: int) -> int
    decreases s.len() - i,
{
    if 0 <= i < s.len() && is_ws(s[i]) {
        first_non_ws(s, i + 1)
    } else {
        i
    }
}

/// A blank line or a comment, which a manifest skips.
pub open spec fn skipped_line(line: Seq<char>) -> bool {
    let i = first_non_ws(line, 0);
    i >= line.len() || line[i] == '#'
}

pub(crate) fn skips_line(line: &str) -> (out: bool)
    ensures
        out == skipped_line(line@),
{
    let n = line.unicode_len();
    let mut i: usize = 0;
    while i < n && is_whitespace(line.get_char(i))
        invariant
            n == line@.len(),
            i <= n,
            first_non_ws(line@, i as int) == first_non_ws(line@, 0),
        decreases n - i,
    {
        i += 1;
    }
    i >= n || line.get_char(i) == '#'
}

pub(crate) fn find_char(line: &str, c: char) -> (out: usize)
    ensures
        out == field_end(line@, 0, c),
        out <= line@.len(),
{
    proof {
        lemma_field_end_bounds(line@, 0, c);
    }
    let n = line.unicode_len();
    let mut i: usize = 0;
    while i < n && line.get_char(i) != c
        invariant
            n == line@.len(),
            i <= n,
            field_end(line@, i as int, c) == field_end(line@, 0, c),
        decreases n - i,
    {
        i += 1;
    }
    i
}

pub(crate) fn contains_key(seen: &[&str], key: &str) -> (out: bool)
    ensures
        out == seen@.map_values(|w: &str| w@).to_set().contains(key@),
{
    let ghost views = seen@.map_values(|w: &str| w@);
    let mut i: usize = 0;
    while i < seen.len()
        invariant
            i <= seen@.len(),
            views == seen@.map_values(|w: &str| w@),
            forall|j: int| 0 <= j < i ==> views[j] != key@,
        decreases seen@.len() - i,
    {
        if str_eq(seen[i], key) {
            assert(views[i as int] == key@);
            assert(views.to_set().contains(key@));
            return true;
        }
        i += 1;
    }
    assert(!views.to_set().contains(key@)) by {
        if views.to_set().contains(key@) {
            let j = choose|j: int| 0 <= j < views.len() && views[j] == key@;
        }
    }
    false
}

/// One `key=value` line of a manifest, borrowed from the manifest text.
pub struct ManifestEntry<'a> {
    pub key: &'a str,
    pub value: &'a str,
}

/// A manifest entry as the contracts see it: its key and its value.
pub open spec fn entry_view<'a>(e: ManifestEntry<'a>) -> (Seq<char>, Seq<char>) {
    (e.key@, e.value@)
}

/// The effect of one line on the entries read so far and the keys that may
/// not come again: blank lines and comments change nothing; any other line
/// must hold an `=`, its key must not be padded, and a key outside
/// `repeatable` may come only once.
pub open spec fn spec_entry_line(
    st: (Seq<(Seq<char>, Seq<char>)>, Set<Seq<char>>),
    line: Seq<char>,
    repeatable: Seq<Seq<char>>,
    malformed_line_error: &'static str,
    duplicate_field_error: &'static str,
) -> core::result::Result<(Seq<(Seq<char>, Seq<char>)>, Set<Seq<char>>), &'static str> {
    if skipped_line(line) {
        Ok(st)
    } else {
        let k = field_end(line, 0, '=');
        if k >= line.len() {
            Err(malformed_line_error)
        } else {
            let key = line.subrange(0, k);
            let value = line.subrange(k + 1, line.len() as int);
            if padded(key) {
                Err("malformed manifest field key")
            } else if !repeatable.contains(key) && st.1.contains(key) {
                Err(duplicate_field_error)
            } else {
                let seen = if repeatable.contains(key) { st.1 } else { st.1.insert(key) };
                Ok((st.0.push((key, value)), seen))
            }
        }
    }
}

/// The effect of a sequence of lines, from no entries and no keys.
pub open spec fn spec_entry_lines(
    lines: Seq<Seq<char>>,
    repeatable: Seq<Seq<char>>,
    malformed_line_error: &'static str,
    duplicate_field_error: &'static str,
) -> core::result::Result<(Seq<(Seq<char>, Seq<char>)>, Set<Seq<char>>), &'static str>
    decreases lines.len(),
{
    if lines.len() == 0 {
        Ok((Seq::empty(), Set::empty()))
    } else {
        match spec_entry_lines(lines.drop_last(), repeatable, malformed_line_error, duplicate_field_error) {
            Ok(st) => spec_entry_line(st, lines.last(), repeatable, malformed_line_error, duplicate_field_error),
            Err(m) => Err(m),
        }
    }
}

/// The entries of a manifest text in order, or the error of its first bad
/// line.
pub open spec fn spec_parse_manifest_entries(
    input: Seq<char>,
    repeatable: Seq<Seq<char>>,
    malformed_line_error: &'static str,
    duplicate_field_error: &'static str,
) -> core::result::Result<Seq<(Seq<char>, Seq<char>)>, &'static str> {
    match spec_entry_lines(text_lines(input), repeatable, malformed_line_error, duplicate_field_error) {
        Ok(st) => Ok(st.0),
        Err(m) => Err(m),
    }
}

proof fn lemma_entry_error_propagates(
    ls: Seq<Seq<char>>,
    j: int,
    repeatable: Seq<Seq<char>>,
    malformed_line_error: &'static str,
    duplicate_field_error: &'static str,
    m: &'static str,
)
    requires
        0 <= j <= ls.len(),
        spec_entry_lines(ls.take(j), repeatable, malformed_line_error, duplicate_field_error)
            == Err::<(Seq<(Seq<char>, Seq<char>)>, Set<Seq<char>>), &'static str>(m),
    ensures
        spec_entry_lines(ls, repeatable, malformed_line_error, duplicate_field_error)
            == Err::<(Seq<(Seq<char>, Seq<char>)>, Set<Seq<char>>), &'static str>(m),
    decreases ls.len() - j,
{
    if j < ls.len() {
        assert(ls.take(j + 1).drop_last() =~= ls.take(j));
        lemma_entry_error_propagates(ls, j + 1, repeatable, malformed_line_error, duplicate_field_error, m);
    } else {
        assert(ls.take(j) =~= ls);
    }
}

proof fn lemma_seen_push(before: Seq<&str>, after: Seq<&str>, key: &str)
    requires
        after == before.push(key),
    ensures
        after.map_values(|w: &str| w@).to_set() == before.map_values(|w: &str| w@).to_set().insert(key@),
{
    let a = after.map_values(|w: &str| w@);
    let b = before.map_values(|w: &str| w@);
    assert(a =~= b.push(key@));
    assert forall|x: Seq<char>| a.to_set().contains(x) <==> b.to_set().insert(key@).contains(x) by {
        if a.to_set().contains(x) {
            let j = choose|j: int| 0 <= j < a.len() && a[j] == x;
            if j < b.len() {
                assert(b[j] == x);
            }
        }
        if b.to_set().contains(x) {
            let j = choose|j: int| 0 <= j < b.len() && b[j] == x;
            assert(a[j] == x);
        }
        if x == key@ {
            assert(a[b.len() as int] == x);
        }
    }
    assert(a.to_set() =~= b.to_set().insert(key@));
}

/// Reads the `key=value` entries of a manifest in order. Blank lines and
/// lines whose first non-blank character is `#` are skipped; every other
/// line is cut at its first `=` (`malformed_line_error` where it has none),
/// its key must have no whitespace at either end, and a key not listed in
/// `repeatable` may appear only once (`duplicate_field_error`).
pub fn parse_manifest_entries<'a>(
    input: &'a str,
    repeatable: &[&str],
    malformed_line_error: &'static str,
    duplicate_field_error: &'static str,
) -> (out: Result<Vec<ManifestEntry<'a>>>)
    ensures
        match spec_parse_manifest_entries(
            input@,
            repeatable@.map_values(|w: &str| w@),
            malformed_line_error,
            duplicate_field_error,
        ) {
            Ok(es) => out matches Ok(v) && v@.map_values(|e: ManifestEntry<'a>| entry_view(e)) == es,
            Err(m) => out == Err::<Vec<ManifestEntry<'a>>, TvmError>(TvmError::InvalidReceipt(m)),
        },
{
    let all = lines(input);
    let ghost views = all@.map_values(|w: &str| w@);
    let ghost reps = repeatable@.map_values(|w: &str| w@);
    let mut entries: Vec<ManifestEntry<'a>> = Vec::new();
    let mut seen: Vec<&str> = Vec::new();
    assert(views.take(0) =~= Seq::<Seq<char>>::empty());
    assert(seen@.map_values(|w: &str| w@).to_set() =~= Set::<Seq<char>>::empty());
    assert(entries@.map_values(|e: ManifestEntry<'a>| entry_view(e)) =~= Seq::<(Seq<char>, Seq<char>)>::empty());
    let mut i: usize = 0;
    while i < all.len()
        invariant
            views == all@.map_values(|w: &str| w@),
            views == text_lines(input@),
            reps == repeatable@.map_values(|w: &str| w@),
            i <= all@.len(),
            spec_entry_lines(views.take(i as int), reps, malformed_line_error, duplicate_field_error)
                == Ok::<(Seq<(Seq<char>, Seq<char>)>, Set<Seq<char>>), &'static str>((
                entries@.map_values(|e: ManifestEntry<'a>| entry_view(e)),
                seen@.map_values(|w: &str| w@).to_set(),
            )),
        decreases all@.len() - i,
    {
        let raw = all[i];
        proof {
            assert(views.take(i + 1).drop_last() =~= views.take(i as int));
            assert(views.take(i + 1).last() == raw@);
        }
        if !skips_line(raw) {
            let n = raw.unicode_len();
            let k = find_char(raw, '=');
            if k >= n {
                proof {
                    lemma_entry_error_propagates(views, i + 1, reps, malformed_line_error, duplicate_field_error, malformed_line_error);
                }
                return Err(TvmError::InvalidReceipt(malformed_line_error));
            }
            let key = raw.substring_char(0, k);
            let value = raw.substring_char(k + 1, n);
            match reject_manifest_key_whitespace(key) {
                Ok(()) => {},
                Err(e) => {
                    proof {
                        lemma_entry_error_propagates(views, i + 1, reps, malformed_line_error, duplicate_field_error, "malformed manifest field key");
                    }
                    return Err(e);
                },
            }
            let repeated = contains_key(repeatable, key);
            proof {
                assert(reps.to_set().contains(key@) == reps.contains(key@));
            }
            if !repeated {
                if contains_key(seen.as_slice(), key) {
                    proof {
                        lemma_entry_error_propagates(views, i + 1, reps, malformed_line_error, duplicate_field_error, duplicate_field_error);
                    }
                    return Err(TvmError::InvalidReceipt(duplicate_field_error));
                }
                let ghost before = seen@;
                seen.push(key);
                proof {
                    lemma_seen_push(before, seen@, key);
                }
            }
            let ghost before_entries = entries@;
            entries.push(ManifestEntry { key, value });
            proof {
                assert(entries@.map_values(|e: ManifestEntry<'a>| entry_view(e))
                    =~= before_entries.map_values(|e: ManifestEntry<'a>| entry_view(e)).push((key@, value@)));
            }
        }
        i += 1;
    }
    assert(views.take(all@.len() as int) =~= views);
    Ok(entries)
}

pub fn required_u64(value: Option<u64>) -> (out: Result<u64>)
    ensures
        match value {
            Some(v) => out == Ok::<u64, TvmError>(v),
            None => out == Err::<u64, TvmError>(TvmError::InvalidReceipt("missing evidence manifest number")),
        },
{
    match value {
        Some(v) => Ok(v),
        None => Err(TvmError::InvalidReceipt("missing evidence manifest number")),
    }
}

pub fn required_usize(value: Option<usize>) -> (out: Result<usize>)
    ensures
        match value {
            Some(v) => out == Ok::<usize, TvmError>(v),
            None => out == Err::<usize, TvmError>(TvmError::InvalidReceipt("missing evidence manifest number")),
        },
{
    match value {
        Some(v) => Ok(v),
        None => Err(TvmError::InvalidReceipt("missing evidence manifest number")),
    }
}

pub fn required_bool(value: Option<bool>) -> (out: Result<bool>)
    ensures
        match value {
            Some(v) => out == Ok::<bool, TvmError>(v),
            None => out == Err::<bool, TvmError>(TvmError::InvalidReceipt("missing evidence manifest boolean")),
        },
{
    match value {
        Some(v) => Ok(v),
        None => Err(TvmError::InvalidReceipt("missing evidence manifest boolean")),
    }
}

pub fn required_hash(value: Option<Hash32>) -> (out: Result<Hash32>)
    ensures
        match value {
            Some(v) => out == Ok::<Hash32, TvmError>(v),
            None => out == Err::<Hash32, TvmError>(TvmError::InvalidReceipt("missing evidence manifest hash")),
        },
{
    match value {
        Some(v) => Ok(v),
        None => Err(TvmError::InvalidReceipt("missing evidence manifest hash")),
    }
}

pub fn required_string(value: Option<String>) -> (out: Result<String>)
    ensures
        match value {
            Some(v) => out == Ok::<String, TvmError>(v),
            None => out == Err::<String, TvmError>(TvmError::InvalidReceipt("missing evidence manifest string")),
        },
{
    match value {
        Some(v) => Ok(v),
        None => Err(TvmError::InvalidReceipt("missing evidence manifest string")),
    }
}

} // verus!
