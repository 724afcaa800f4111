//! Citation extraction: a finished assistant reply is scanned for inline
//! `[file:line]` references, which are collected in order of first
//! appearance and deduplicated by exact (file, line) pair.
//!
//! A reference is a `[`, then at least one character other than `]`, then a
//! `:`, then at least one decimal digit, then the closing `]`; the file part
//! is greedy, so the digits are the maximal digit run before the `]`.
//! References are found left to right and do not overlap.

use vstd::prelude::*;

use crate::text::{
    chars_vec, digits_val, find_ch, find_char_from, is_digit, is_digit_char, lemma_find_ch,
    parse_digits, string_of_chars, subvec,
};

verus! {

/// A `file:line` reference found in an assistant reply.
#[derive(Debug, Clone)]
pub struct Citation {
    pub file: String,
    pub line: usize,
}

impl View for Citation {
    type V = (Seq<char>, int);

    open spec fn view(&self) -> (Seq<char>, int) {
        (self.file@, self.line as int)
    }
}

/// The views of a sequence of citations.
pub open spec fn cit_views(s: Seq<Citation>) -> Seq<(Seq<char>, int)> {
    s.map_values(|c: Citation| c@)
}

/// Start of the maximal run of decimal digits that ends `s`; `s.len()` when
/// `s` does not end in a digit.
pub open spec fn digit_suffix_start(s: Seq<char>) -> int
    decreases s.len(),
{
    if s.len() == 0 {
        0
    } else if is_digit(s.last()) {
        digit_suffix_start(s.drop_last())
    } else {
        s.len() as int
    }
}

/// Whether the text between a `[` and the next `]` is a well-formed
/// reference body: a non-empty file part, a colon, then only digits.
pub open spec fn body_valid(s: Seq<char>) -> bool {
    let d = digit_suffix_start(s);
    d < s.len() && d >= 2 && s[d - 1] == ':'
}

/// The file part of a well-formed reference body.
pub open spec fn body_file(s: Seq<char>) -> Seq<char> {
    s.take(digit_suffix_start(s) - 1)
}

/// The line number of a well-formed reference body: the digit run read in
/// base ten, or 1 when its value does not fit in `usize`.
pub open spec fn body_line(s: Seq<char>) -> int {
    let v = digits_val(s.skip(digit_suffix_start(s)));
    if v <= usize::MAX {
        v as int
    } else {
        1
    }
}

/// Every reference of `s` at or after position `i`, leftmost first,
/// non-overlapping, in order of appearance and with duplicates kept.
pub open spec fn raw_citations(s: Seq<char>, i: int) -> Seq<(Seq<char>, int)>
    decreases s.len() - i when 0 <= i <= s.len() via raw_citations_dec
{
    if i >= s.len() {
        Seq::empty()
    } else if s[i] == '[' {
        let r = i + 1 + find_ch(s.skip(i + 1), ']');
        if r >= s.len() {
            Seq::empty()
        } else {
            let body = s.subrange(i + 1, r);
            if body_valid(body) {
                seq![(body_file(body), body_line(body))] + raw_citations(s, r + 1)
            } else {
                raw_citations(s, i + 1)
            }
        }
    } else {
        raw_citations(s, i + 1)
    }
}

#[via_fn]
proof fn raw_citations_dec(s: Seq<char>, i: int) {
    if 0 <= i < s.len() {
        lemma_find_ch(s.skip(i + 1), ']');
    }
}

/// A sequence with every later repetition of an element removed.
pub open spec fn dedup_keep_first<A>(s: Seq<A>) -> Seq<A>
    decreases s.len(),
{
    if s.len() == 0 {
        Seq::empty()
    } else {
        let pre = dedup_keep_first(s.drop_last());
        if pre.contains(s.last()) {
            pre
        } else {
            pre.push(s.last())
        }
    }
}

/// The citations of a finished reply: every reference, deduplicated by
/// exact (file, line) pair, first appearance first.
pub open spec fn citations_spec(text: Seq<char>) -> Seq<(Seq<char>, int)> {
    dedup_keep_first(raw_citations(text, 0))
}

/// Whether `out` already holds a citation with this exact file and line.
fn contains_citation(out: &Vec<Citation>, file: &String, line: usize) -> (r: bool)
    ensures
        r == cit_views(out@).contains((file@, line as int)),
{
    let mut k: usize = 0;
    while k < out.len()
        invariant
            k <= out@.len(),
            forall|j: int| 0 <= j < k ==> #[trigger] cit_views(out@)[j] != (file@, line as int),
        decreases out@.len() - k,
    {
        if out[k].line == line && out[k].file == *file {
            proof {
                assert(cit_views(out@)[k as int] == (file@, line as int));
            }
            return true;
        }
        proof {
            assert(cit_views(out@)[k as int] == (out@[k as int].file@, out@[k as int].line as int));
        }
        k = k + 1;
    }
    proof {
        assert(forall|j: int|
            0 <= j < cit_views(out@).len() ==> #[trigger] cit_views(out@)[j] != (
            file@,
            line as int,
            ));
    }
    false
}

/// Scans `text` for `[file:line]` references and returns them deduplicated
/// by exact pair, in order of first appearance.
pub fn parse_citations(text: &str) -> (r: Vec<Citation>)
    ensures
        cit_views(r@) == citations_spec(text@),
{
    let v = chars_vec(text);
    let mut out: Vec<Citation> = Vec::new();
    let ghost mut raw: Seq<(Seq<char>, int)> = Seq::empty();
    let mut i: usize = 0;
    proof {
        assert(raw + raw_citations(v@, 0) =~= raw_citations(v@, 0));
        assert(cit_views(out@) =~= dedup_keep_first(raw));
    }
    while i < v.len()
        invariant
            i <= v@.len(),
            raw_citations(v@, 0) == raw + raw_citations(v@, i as int),
            cit_views(out@) == dedup_keep_first(raw),
        decreases v@.len() - i,
    {
        if v[i] == '[' {
            let close = find_char_from(&v, ']', i + 1);
            if close == v.len() {
                proof {
                    assert(raw_citations(v@, i as int) =~= Seq::<(Seq<char>, int)>::empty());
                    assert(raw + raw_citations(v@, v@.len() as int) =~= raw_citations(v@, 0));
                }
                i = v.len();
            } else {
                let ghost body = v@.subrange(i + 1, close as int);
                // start of the maximal digit run before the closing bracket
                let mut d: usize = close;
                while d > i + 1 && is_digit_char(v[d - 1])
                    invariant
                        i + 1 <= d <= close <= v@.len(),
                        body == v@.subrange(i + 1, close as int),
                        forall|j: int| d <= j < close ==> is_digit(v@[j]),
                    decreases d,
                {
                    d = d - 1;
                }
                proof {
                    lemma_dss_at(body, d - (i + 1), v@, i + 1);
                }
                let valid = d < close && d >= i + 3 && v[d - 1] == ':';
                if valid {
                    proof {
                        assert(body_valid(body));
                        assert(body.skip(digit_suffix_start(body)) =~= v@.subrange(
                            d as int,
                            close as int,
                        ));
                    }
                    let line: usize = match parse_digits(&v, d, close) {
                        Some(n) => n,
                        None => 1,
                    };
                    let file_chars = subvec(&v, i + 1, d - 1);
                    let file = string_of_chars(file_chars.as_slice());
                    proof {
                        assert(body.take(digit_suffix_start(body) - 1) =~= v@.subrange(
                            i + 1,
                            d - 1,
                        ));
                        assert(file@ == body_file(body));
                        assert(line as int == body_line(body));
                    }
                    let ghost item = (file@, line as int);
                    if !contains_citation(&out, &file, line) {
                        let ghost prev = out@;
                        out.push(Citation { file, line });
                        proof {
                            assert(cit_views(out@) =~= cit_views(prev).push(item));
                        }
                    }
                    proof {
                        let ghost raw2 = raw.push(item);
                        assert(raw2.drop_last() =~= raw);
                        assert(dedup_keep_first(raw2) == if dedup_keep_first(raw).contains(item) {
                            dedup_keep_first(raw)
                        } else {
                            dedup_keep_first(raw).push(item)
                        });
                        assert(raw_citations(v@, i as int) =~= seq![item] + raw_citations(
                            v@,
                            close + 1,
                        ));
                        assert(raw2 + raw_citations(v@, close + 1) =~= raw + raw_citations(
                            v@,
                            i as int,
                        ));
                        raw = raw2;
                    }
                    i = close + 1;
                } else {
                    proof {
                        assert(!body_valid(body));
                        assert(raw_citations(v@, i as int) == raw_citations(v@, i + 1));
                    }
                    i = i + 1;
                }
            }
        } else {
            proof {
                assert(raw_citations(v@, i as int) == raw_citations(v@, i + 1));
            }
            i = i + 1;
        }
    }
    proof {
        assert(raw_citations(v@, i as int) =~= Seq::<(Seq<char>, int)>::empty());
        assert(raw =~= raw + raw_citations(v@, i as int));
        assert(cit_views(out@) =~= citations_spec(v@));
    }
    out
}

/// Relates the digit-run start of a subrange to scanning the enclosing text:
/// if everything from `base + k` to the end of the body is a digit and the
/// character before (if any) is not, the maximal digit suffix starts at `k`.
proof fn lemma_dss_at(body: Seq<char>, k: int, s: Seq<char>, base: int)
    requires
        0 <= base,
        base + body.len() <= s.len(),
        body =~= s.subrange(base, base + body.len()),
        0 <= k <= body.len(),
        forall|j: int| base + k <= j < base + body.len() ==> is_digit(s[j]),
        k > 0 ==> !is_digit(s[base + k - 1]),
    ensures
        digit_suffix_start(body) == k,
    decreases body.len(),
{
    if body.len() == 0 {
    } else if k == body.len() {
        assert(!is_digit(body.last()));
    } else {
        assert(is_digit(body.last()));
        lemma_dss_at(body.drop_last(), k, s, base);
    }
}

} // verus!
