//! Version reporting, and the reading of a newer version number out of a
//! fetched manifest text.

use vstd::prelude::*;

use crate::text::{
    chars_eq, chars_vec, seg1_chars, seg1_spec, split_lines, split_lines_vec, starts_with_chars,
    starts_with_seq, string_of_chars, trim_char_spec, trim_char_vec, trim_spec, trim_vec,
};

verus! {

/// The version this crate reports for itself.
pub fn current_version() -> (r: &'static str)
    ensures
        r@ == "0.1.0"@,
{
    "0.1.0"
}

/// What the first `version` line of a manifest text offers: the value
/// after its first `=`, trimmed and stripped of surrounding double quotes;
/// it is reported only when it differs from `current`.  A version line
/// without `=`, or none at all, offers nothing.
pub open spec fn version_lines_spec(
    lines: Seq<Seq<char>>,
    i: int,
    current: Seq<char>,
) -> Option<Seq<char>>
    decreases lines.len() - i when 0 <= i <= lines.len()
{
    if i >= lines.len() {
        None
    } else if starts_with_seq(lines[i], "version"@) {
        match seg1_spec(lines[i]) {
            None => None,
            Some(v0) => {
                let val = trim_char_spec(trim_spec(v0), '"');
                if val != current {
                    Some(val)
                } else {
                    None
                }
            },
        }
    } else {
        version_lines_spec(lines, i + 1, current)
    }
}

pub open spec fn newer_version_spec(manifest: Seq<char>, current: Seq<char>) -> Option<Seq<char>> {
    version_lines_spec(split_lines(manifest), 0, current)
}

/// Scans a manifest text for its version line, per `newer_version_spec`.
pub fn newer_version(manifest: &str, current: &str) -> (r: Option<String>)
    ensures
        match newer_version_spec(manifest@, current@) {
            Some(v) => r is Some && r->0@ == v,
            None => r is None,
        },
{
    let manifest_chars = chars_vec(manifest);
    let lines = split_lines_vec(&manifest_chars);
    let ghost lseq = split_lines(manifest@);
    let marker = chars_vec("version");
    let cur = chars_vec(current);
    let mut k: usize = 0;
    proof {
        assert(lines.deep_view() == lseq);
    }
    while k < lines.len()
        invariant
            k <= lines@.len(),
            lines.deep_view() == lseq,
            lseq == split_lines(manifest@),
            marker@ == "version"@,
            cur@ == current@,
            version_lines_spec(lseq, 0, current@) == version_lines_spec(lseq, k as int, current@),
        decreases lines@.len() - k,
    {
        proof {
            assert(lines@[k as int]@ == lseq[k as int]);
        }
        if starts_with_chars(&lines[k], &marker) {
            match seg1_chars(&lines[k]) {
                None => {
                    return None;
                },
                Some(v0) => {
                    let t = trim_vec(&v0);
                    let t = trim_char_vec(&t, '"');
                    if !chars_eq(&t, &cur) {
                        return Some(string_of_chars(t.as_slice()));
                    } else {
                        return None;
                    }
                },
            }
        }
        k = k + 1;
    }
    None
}

} // verus!
