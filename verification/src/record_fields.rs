use vstd::prelude::*;
use vstd::string::{StrSliceExecFns, StringSliceAdditionalSpecFns};
use crate::text::{is_ws, is_whitespace, split_char, split_on};

verus! {

/// A field that is not empty and has no whitespace at either end.
pub open spec fn exact_field(f: Seq<char>) -> bool {
    f.len() > 0 && !is_ws(f[0]) && !is_ws(f[f.len() - 1])
}

/// Whether a record splits at commas into exactly `expected_len` exact fields.
pub open spec fn exact_record(value: Seq<char>, expected_len: nat) -> bool {
    let fields = split_on(value, ',');
    fields.len() == expected_len && forall|i: int| 0 <= i < fields.len() ==> exact_field(#[trigger] fields[i])
}

/// Splits a record at its commas; `None` unless it has exactly
/// `expected_len` fields, none empty and none with surrounding whitespace.
pub fn exact_comma_fields<'a>(value: &'a str, expected_len: usize) -> (out: Option<Vec<&'a str>>)
    ensures
        out is Some <==> exact_record(value@, expected_len as nat),
        out matches Some(v) ==> v@.map_values(|w: &str| w@) == split_on(value@, ','),
{
    let fields = split_char(value, ',');
    let ghost views = fields@.map_values(|w: &str| w@);
    if fields.len() != expected_len {
        return None;
    }
    let mut i: usize = 0;
    while i < fields.len()
        invariant
            views == fields@.map_values(|w: &str| w@),
            views == split_on(value@, ','),
            i <= fields.len(),
            forall|j: int| 0 <= j < i ==> exact_field(#[trigger] views[j]),
        decreases fields.len() - i,
    {
        let f = fields[i];
        assert(views[i as int] == f@);
        let n = f.unicode_len();
        if n == 0 || is_whitespace(f.get_char(0)) || is_whitespace(f.get_char(n - 1)) {
            return None;
        }
        i += 1;
    }
    Some(fields)
}

} // verus!
