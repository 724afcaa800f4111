//! The fuzzy line index: every non-blank line of every loaded document
//! becomes one entry; a query scores each entry's "file name + content"
//! string with a case-insensitive, normalizing fuzzy matcher, and the
//! matching entries come back sorted by non-increasing score, capped at 100.

use vstd::prelude::*;
use vstd::string::StringExecFns;

use crate::text::{chars_vec, split_lines, split_lines_vec, string_of_chars, trim_spec, trim_vec};

verus! {

/// A document of the corpus: its relative path and its full text.
#[derive(Clone)]
pub struct LoadedFile {
    pub name: String,
    pub content: String,
}

/// One searchable line: its file, 1-based line number, trimmed content,
/// and the character offsets the matcher highlighted.
#[derive(Clone)]
pub struct SearchEntry {
    pub file: String,
    pub line_num: usize,
    pub content: String,
    pub match_indices: Vec<u32>,
}

/// The (file, line, content) triple of an entry.
pub open spec fn entry_triple(e: SearchEntry) -> (Seq<char>, int, Seq<char>) {
    (e.file@, e.line_num as int, e.content@)
}

pub open spec fn entry_triples(s: Seq<SearchEntry>) -> Seq<(Seq<char>, int, Seq<char>)> {
    s.map_values(|e: SearchEntry| entry_triple(e))
}

/// The string an entry is ranked by: file name, a space, then the content.
pub open spec fn entry_hay(e: SearchEntry) -> Seq<char> {
    e.file@ + seq![' '] + e.content@
}

/// The score the fuzzy matcher gives `hay` for `q`, `None` when `hay` is
/// rejected; it depends on the two strings alone.
pub uninterp spec fn score_of(q: Seq<char>, hay: Seq<char>) -> Option<u32>;

/// The character offsets the fuzzy matcher marks as matched in `hay` for
/// `q`; they depend on the two strings alone.
pub uninterp spec fn match_offsets_of(q: Seq<char>, hay: Seq<char>) -> Seq<u32>;

/// Relies on `nucleo_matcher::pattern::Pattern::score` with the default
/// configuration, case matching ignored and Unicode normalization applied:
/// the score is a function of the query and haystack strings alone.
#[verifier::external_body]
pub(crate) fn fuzzy_score(query: &str, haystack: &str) -> (r: Option<u32>)
    ensures
        r == score_of(query@, haystack@),
{
    let mut matcher = nucleo_matcher::Matcher::new(nucleo_matcher::Config::DEFAULT);
    let pattern = nucleo_matcher::pattern::Pattern::parse(
        query,
        nucleo_matcher::pattern::CaseMatching::Ignore,
        nucleo_matcher::pattern::Normalization::Smart,
    );
    let mut buf = Vec::new();
    let hay = nucleo_matcher::Utf32Str::new(haystack, &mut buf);
    pattern.score(hay, &mut matcher)
}

/// Relies on `nucleo_matcher::pattern::Pattern::indices` with the default
/// configuration: the offsets it appends are a function of the query and
/// haystack strings alone.
#[verifier::external_body]
pub(crate) fn fuzzy_indices(query: &str, haystack: &str) -> (r: Vec<u32>)
    ensures
        r@ == match_offsets_of(query@, haystack@),
{
    let mut matcher = nucleo_matcher::Matcher::new(nucleo_matcher::Config::DEFAULT);
    let pattern = nucleo_matcher::pattern::Pattern::parse(
        query,
        nucleo_matcher::pattern::CaseMatching::Ignore,
        nucleo_matcher::pattern::Normalization::Smart,
    );
    let mut buf = Vec::new();
    let hay = nucleo_matcher::Utf32Str::new(haystack, &mut buf);
    let mut offsets = Vec::new();
    let _ = pattern.indices(hay, &mut matcher, &mut offsets);
    offsets
}

/// The entries one file contributes, from line `k` on: each non-blank line,
/// trimmed, tagged with its 1-based position.
pub open spec fn line_entries(name: Seq<char>, lines: Seq<Seq<char>>, k: int) -> Seq<
    (Seq<char>, int, Seq<char>),
>
    decreases lines.len() - k when 0 <= k <= lines.len()
{
    if k >= lines.len() {
        Seq::empty()
    } else {
        let t = trim_spec(lines[k]);
        if t.len() == 0 {
            line_entries(name, lines, k + 1)
        } else {
            seq![(name, k + 1, t)] + line_entries(name, lines, k + 1)
        }
    }
}

/// The entries of all files from index `i` on, in file order.
pub open spec fn entries_of(files: Seq<LoadedFile>, i: int) -> Seq<(Seq<char>, int, Seq<char>)>
    decreases files.len() - i when 0 <= i <= files.len()
{
    if i >= files.len() {
        Seq::empty()
    } else {
        line_entries(files[i].name@, split_lines(files[i].content@), 0) + entries_of(files, i + 1)
    }
}

/// How many entries the matcher accepts for `q`.
pub open spec fn count_matches(entries: Seq<SearchEntry>, q: Seq<char>) -> int
    decreases entries.len(),
{
    if entries.len() == 0 {
        0
    } else {
        count_matches(entries.drop_last(), q) + if score_of(q, entry_hay(entries.last())) is Some {
            1int
        } else {
            0int
        }
    }
}

/// Whether `o` restates some entry of `entries` that the matcher accepts
/// for `q`.
pub open spec fn result_entry(entries: Seq<SearchEntry>, q: Seq<char>, o: SearchEntry) -> bool {
    exists|j: int|
        0 <= j < entries.len() && (#[trigger] entries[j]).file@ == o.file@ && entries[j].line_num
            == o.line_num && entries[j].content@ == o.content@ && score_of(
            q,
            entry_hay(entries[j]),
        ) is Some
}

/// What a query must return: nothing for an empty query; otherwise every
/// accepted entry up to the cap of 100, sorted by non-increasing score,
/// with the highlight offsets recomputed over the content field alone.
pub open spec fn search_post(entries: Seq<SearchEntry>, q: Seq<char>, r: Seq<SearchEntry>) -> bool {
    &&& (q.len() == 0 ==> r.len() == 0)
    &&& (q.len() > 0 ==> {
        &&& r.len() == if count_matches(entries, q) < 100 {
            count_matches(entries, q)
        } else {
            100int
        }
        &&& forall|k: int|
            0 <= k < r.len() ==> result_entry(entries, q, #[trigger] r[k]) && r[k].match_indices@
                == match_offsets_of(q, r[k].content@)
        &&& forall|a: int, b: int|
            0 <= a < b < r.len() ==> (#[trigger] score_of(q, entry_hay(r[a])))->0 >= (
            #[trigger] score_of(q, entry_hay(r[b])))->0
        &&& exists|sel: Seq<int>|
            #![trigger sel.len()]
            {
                &&& sel.len() == r.len()
                &&& forall|k: int|
                    0 <= k < r.len() ==> 0 <= #[trigger] sel[k] < entries.len()
                        && entries[sel[k]].file@ == r[k].file@ && entries[sel[k]].line_num
                        == r[k].line_num && entries[sel[k]].content@ == r[k].content@
                &&& forall|a: int, b: int| 0 <= a < b < r.len() ==> sel[a] != sel[b]
            }
    })
}

#[derive(Clone, Copy)]
struct Scored {
    score: u32,
    idx: usize,
}

/// A candidate refers to an accepted entry and carries its score.
spec fn cand_ok(entries: Seq<SearchEntry>, q: Seq<char>, sc: Scored) -> bool {
    0 <= sc.idx < entries.len() && score_of(q, entry_hay(entries[sc.idx as int])) == Some(sc.score)
}

/// The fuzzy line index over a corpus.
pub struct Searcher {
    entries: Vec<SearchEntry>,
}

impl Searcher {
    /// The entries the index was built from.
    pub closed spec fn entries_view(&self) -> Seq<SearchEntry> {
        self.entries@
    }

    /// Builds the flat entry list: every non-blank line of every file,
    /// trimmed, with its 1-based line number; highlight offsets start empty.
    pub fn from_files(files: &Vec<LoadedFile>) -> (s: Searcher)
        ensures
            entry_triples(s.entries_view()) == entries_of(files@, 0),
            forall|k: int|
                0 <= k < s.entries_view().len() ==> (
                #[trigger] s.entries_view()[k]).match_indices@ == Seq::<u32>::empty(),
    {
        let mut out: Vec<SearchEntry> = Vec::new();
        let mut i: usize = 0;
        proof {
            assert(entry_triples(out@) =~= Seq::<(Seq<char>, int, Seq<char>)>::empty());
        }
        while i < files.len()
            invariant
                i <= files@.len(),
                entry_triples(out@) + entries_of(files@, i as int) =~= entries_of(files@, 0),
                forall|k: int|
                    0 <= k < out@.len() ==> (#[trigger] out@[k]).match_indices@ == Seq::<
                        u32,
                    >::empty(),
            decreases files@.len() - i,
        {
            let name = &files[i].name;
            let content_chars = chars_vec(files[i].content.as_str());
            let lines = split_lines_vec(&content_chars);
            let ghost lseq = split_lines(files@[i as int].content@);
            proof {
                assert(lines.deep_view() == lseq);
            }
            let mut k: usize = 0;
            while k < lines.len()
                invariant
                    k <= lines@.len(),
                    lines.deep_view() == lseq,
                    i < files@.len(),
                    name@ == files@[i as int].name@,
                    entry_triples(out@) + line_entries(name@, lseq, k as int) + entries_of(
                        files@,
                        i + 1,
                    ) =~= entries_of(files@, 0),
                    forall|t: int|
                        0 <= t < out@.len() ==> (#[trigger] out@[t]).match_indices@ == Seq::<
                            u32,
                        >::empty(),
                decreases lines@.len() - k,
            {
                proof {
                    assert(lines@[k as int]@ == lseq[k as int]);
                }
                let t = trim_vec(&lines[k]);
                if t.len() > 0 {
                    let entry = SearchEntry {
                        file: name.clone(),
                        line_num: k + 1,
                        content: string_of_chars(t.as_slice()),
                        match_indices: Vec::new(),
                    };
                    let ghost prev = out@;
                    out.push(entry);
                    proof {
                        assert(entry_triples(out@) =~= entry_triples(prev).push(
                            (name@, k as int + 1, trim_spec(lseq[k as int])),
                        ));
                        assert(line_entries(name@, lseq, k as int) =~= seq![
                            (name@, k as int + 1, trim_spec(lseq[k as int])),
                        ] + line_entries(name@, lseq, k + 1));
                        assert(entry_triples(out@) + line_entries(name@, lseq, k + 1) + entries_of(
                            files@,
                            i + 1,
                        ) =~= entries_of(files@, 0));
                    }
                } else {
                    proof {
                        assert(line_entries(name@, lseq, k as int) == line_entries(
                            name@,
                            lseq,
                            k + 1,
                        ));
                    }
                }
                k = k + 1;
            }
            proof {
                assert(line_entries(name@, lseq, k as int) =~= Seq::<
                    (Seq<char>, int, Seq<char>),
                >::empty());
                assert(entries_of(files@, i as int) =~= line_entries(name@, lseq, 0) + entries_of(
                    files@,
                    i + 1,
                ));
                assert(entry_triples(out@) + entries_of(files@, i + 1) =~= entries_of(files@, 0));
            }
            i = i + 1;
        }
        proof {
            assert(entries_of(files@, i as int) =~= Seq::<(Seq<char>, int, Seq<char>)>::empty());
            assert(entry_triples(out@) =~= entries_of(files@, 0));
        }
        Searcher { entries: out }
    }

    /// How many entries the index holds.
    pub fn entry_count(&self) -> (n: usize)
        ensures
            n == self.entries_view().len(),
    {
        self.entries.len()
    }

    /// Ranks the entries against `query`: an empty query returns nothing;
    /// otherwise the accepted entries come back sorted by non-increasing
    /// score, at most 100 of them, each with fresh highlight offsets
    /// computed over its content alone.
    pub fn search(&self, query: &str) -> (r: Vec<SearchEntry>)
        ensures
            search_post(self.entries_view(), query@, r@),
    {
        let mut out: Vec<SearchEntry> = Vec::new();
        if query.is_empty() {
            return out;
        }
        let ghost q = query@;
        let ghost entries = self.entries@;
        // score every entry over "file name + content"
        let mut cand: Vec<Scored> = Vec::new();
        let mut j: usize = 0;
        proof {
            assert(entries.take(0) =~= Seq::<SearchEntry>::empty());
        }
        while j < self.entries.len()
            invariant
                j <= entries.len(),
                entries == self.entries@,
                cand@.len() == count_matches(entries.take(j as int), q),
                q == query@,
                forall|t: int| 0 <= t < cand@.len() ==> cand_ok(entries, q, #[trigger] cand@[t]),
                forall|t: int| 0 <= t < cand@.len() ==> (#[trigger] cand@[t]).idx < j,
                forall|a: int, b: int|
                    0 <= a < b < cand@.len() ==> (#[trigger] cand@[a]).idx != (
                    #[trigger] cand@[b]).idx,
            decreases entries.len() - j,
        {
            let e = &self.entries[j];
            let mut hay = e.file.clone();
            hay.append(" ");
            hay.append(e.content.as_str());
            proof {
                reveal_strlit(" ");
                assert(" "@ =~= seq![' ']);
                assert(hay@ =~= entry_hay(entries[j as int]));
            }
            match fuzzy_score(query, hay.as_str()) {
                Some(s) => {
                    cand.push(Scored { score: s, idx: j });
                },
                None => {},
            }
            proof {
                assert(entries.take(j + 1).drop_last() =~= entries.take(j as int));
                assert(entries.take(j + 1).last() == entries[j as int]);
            }
            j = j + 1;
        }
        proof {
            assert(entries.take(entries.len() as int) =~= entries);
        }
        // sort by non-increasing score: repeatedly extract a maximum
        let ghost total = cand@.len() as int;
        let mut rest = cand;
        let mut ranked: Vec<Scored> = Vec::new();
        while rest.len() > 0
            invariant
                ranked@.len() + rest@.len() == total,
                q == query@,
                entries == self.entries@,
                forall|t: int| 0 <= t < rest@.len() ==> cand_ok(entries, q, #[trigger] rest@[t]),
                forall|t: int| 0 <= t < ranked@.len() ==> cand_ok(entries, q, #[trigger] ranked@[t]),
                forall|a: int, b: int|
                    0 <= a < b < ranked@.len() ==> (#[trigger] ranked@[a]).score >= (
                    #[trigger] ranked@[b]).score,
                forall|a: int, b: int|
                    0 <= a < ranked@.len() && 0 <= b < rest@.len() ==> (#[trigger] ranked@[a]).score
                        >= (#[trigger] rest@[b]).score,
                forall|a: int, b: int|
                    0 <= a < b < ranked@.len() ==> (#[trigger] ranked@[a]).idx != (
                    #[trigger] ranked@[b]).idx,
                forall|a: int, b: int|
                    0 <= a < b < rest@.len() ==> (#[trigger] rest@[a]).idx != (
                    #[trigger] rest@[b]).idx,
                forall|a: int, b: int|
                    0 <= a < ranked@.len() && 0 <= b < rest@.len() ==> (#[trigger] ranked@[a]).idx
                        != (#[trigger] rest@[b]).idx,
            decreases rest@.len(),
        {
            let mut best: usize = 0;
            let mut t: usize = 1;
            while t < rest.len()
                invariant
                    0 < rest@.len(),
                    best < t <= rest@.len(),
                    forall|u: int| 0 <= u < t ==> (#[trigger] rest@[u]).score <= rest@[
                        best as int].score,
                decreases rest@.len() - t,
            {
                if rest[t].score > rest[best].score {
                    best = t;
                }
                t = t + 1;
            }
            let x = rest[best];
            ranked.push(x);
            rest.remove(best);
        }
        // cap at 100 and recompute highlight offsets over the content alone
        let cap: usize = if ranked.len() < 100 {
            ranked.len()
        } else {
            100
        };
        let mut k: usize = 0;
        while k < cap
            invariant
                k <= cap <= ranked@.len(),
                out@.len() == k,
                q == query@,
                entries == self.entries@,
                forall|t: int| 0 <= t < ranked@.len() ==> cand_ok(entries, q, #[trigger] ranked@[t]),
                forall|a: int, b: int|
                    0 <= a < b < ranked@.len() ==> (#[trigger] ranked@[a]).score >= (
                    #[trigger] ranked@[b]).score,
                forall|a: int, b: int|
                    0 <= a < b < ranked@.len() ==> (#[trigger] ranked@[a]).idx != (
                    #[trigger] ranked@[b]).idx,
                forall|t: int|
                    0 <= t < k ==> result_entry(entries, q, #[trigger] out@[t])
                        && out@[t].match_indices@ == match_offsets_of(q, out@[t].content@)
                        && score_of(q, entry_hay(out@[t])) == Some(ranked@[t].score)
                        && out@[t].file@ == entries[ranked@[t].idx as int].file@
                        && out@[t].line_num == entries[ranked@[t].idx as int].line_num
                        && out@[t].content@ == entries[ranked@[t].idx as int].content@,
            decreases cap - k,
        {
            let sc = ranked[k];
            let e = &self.entries[sc.idx];
            let offsets = fuzzy_indices(query, e.content.as_str());
            let built = SearchEntry {
                file: e.file.clone(),
                line_num: e.line_num,
                content: e.content.clone(),
                match_indices: offsets,
            };
            proof {
                assert(entry_hay(built) =~= entry_hay(entries[sc.idx as int]));
            }
            out.push(built);
            k = k + 1;
        }
        proof {
            assert(forall|a: int, b: int|
                0 <= a < b < out@.len() ==> (#[trigger] score_of(q, entry_hay(out@[a])))->0 >= (
                #[trigger] score_of(q, entry_hay(out@[b])))->0);
            let sel = Seq::new(out@.len() as nat, |k: int| ranked@[k].idx as int);
            assert(sel.len() == out@.len());
            assert(forall|k: int|
                0 <= k < out@.len() ==> 0 <= #[trigger] sel[k] < entries.len()
                    && entries[sel[k]].file@ == out@[k].file@ && entries[sel[k]].line_num
                    == out@[k].line_num && entries[sel[k]].content@ == out@[k].content@);
            assert(forall|a: int, b: int| 0 <= a < b < out@.len() ==> sel[a] != sel[b]);
        }
        out
    }
}


/// How many of the strings the matcher accepts for `q`.
pub open spec fn count_str_matches(items: Seq<String>, q: Seq<char>) -> int
    decreases items.len(),
{
    if items.len() == 0 {
        0
    } else {
        count_str_matches(items.drop_last(), q) + if score_of(q, items.last()@) is Some {
            1int
        } else {
            0int
        }
    }
}

/// What ranking a list of strings must return: every accepted string,
/// sorted by non-increasing score.
pub open spec fn ranked_strings_post(items: Seq<String>, q: Seq<char>, r: Seq<String>) -> bool {
    &&& r.len() == count_str_matches(items, q)
    &&& forall|k: int|
        0 <= k < r.len() ==> score_of(q, (#[trigger] r[k])@) is Some && exists|j: int|
            0 <= j < items.len() && (#[trigger] items[j])@ == r[k]@
    &&& forall|a: int, b: int|
        0 <= a < b < r.len() ==> (#[trigger] score_of(q, r[a]@))->0 >= (#[trigger] score_of(
            q,
            r[b]@,
        ))->0
    &&& exists|sel: Seq<int>|
        #![trigger sel.len()]
        {
            &&& sel.len() == r.len()
            &&& forall|k: int|
                0 <= k < r.len() ==> 0 <= #[trigger] sel[k] < items.len() && items[sel[k]]@
                    == r[k]@
            &&& forall|a: int, b: int| 0 <= a < b < r.len() ==> sel[a] != sel[b]
        }
}

/// Scores each string against `query` with the same matcher as the line
/// index and returns the accepted ones sorted by non-increasing score.
pub fn rank_strings(items: &Vec<String>, query: &str) -> (r: Vec<String>)
    ensures
        ranked_strings_post(items@, query@, r@),
{
    let ghost q = query@;
    let mut cand: Vec<Scored> = Vec::new();
    let mut j: usize = 0;
    proof {
        assert(items@.take(0) =~= Seq::<String>::empty());
    }
    while j < items.len()
        invariant
            j <= items@.len(),
            q == query@,
            cand@.len() == count_str_matches(items@.take(j as int), q),
            forall|t: int|
                0 <= t < cand@.len() ==> {
                    let sc = #[trigger] cand@[t];
                    0 <= sc.idx < items@.len() && score_of(q, items@[sc.idx as int]@) == Some(
                        sc.score,
                    )
                },
            forall|t: int| 0 <= t < cand@.len() ==> (#[trigger] cand@[t]).idx < j,
            forall|a: int, b: int|
                0 <= a < b < cand@.len() ==> (#[trigger] cand@[a]).idx != (#[trigger] cand@[b]).idx,
        decreases items@.len() - j,
    {
        match fuzzy_score(query, items[j].as_str()) {
            Some(sc) => {
                cand.push(Scored { score: sc, idx: j });
            },
            None => {},
        }
        proof {
            assert(items@.take(j + 1).drop_last() =~= items@.take(j as int));
            assert(items@.take(j + 1).last() == items@[j as int]);
        }
        j = j + 1;
    }
    proof {
        assert(items@.take(items@.len() as int) =~= items@);
    }
    let ghost total = cand@.len() as int;
    let mut rest = cand;
    let mut ranked: Vec<Scored> = Vec::new();
    while rest.len() > 0
        invariant
            ranked@.len() + rest@.len() == total,
            q == query@,
            forall|t: int|
                0 <= t < rest@.len() ==> {
                    let sc = #[trigger] rest@[t];
                    0 <= sc.idx < items@.len() && score_of(q, items@[sc.idx as int]@) == Some(
                        sc.score,
                    )
                },
            forall|t: int|
                0 <= t < ranked@.len() ==> {
                    let sc = #[trigger] ranked@[t];
                    0 <= sc.idx < items@.len() && score_of(q, items@[sc.idx as int]@) == Some(
                        sc.score,
                    )
                },
            forall|a: int, b: int|
                0 <= a < b < ranked@.len() ==> (#[trigger] ranked@[a]).score >= (
                #[trigger] ranked@[b]).score,
            forall|a: int, b: int|
                0 <= a < ranked@.len() && 0 <= b < rest@.len() ==> (#[trigger] ranked@[a]).score
                    >= (#[trigger] rest@[b]).score,
            forall|a: int, b: int|
                0 <= a < b < ranked@.len() ==> (#[trigger] ranked@[a]).idx != (
                #[trigger] ranked@[b]).idx,
            forall|a: int, b: int|
                0 <= a < b < rest@.len() ==> (#[trigger] rest@[a]).idx != (#[trigger] rest@[b]).idx,
            forall|a: int, b: int|
                0 <= a < ranked@.len() && 0 <= b < rest@.len() ==> (#[trigger] ranked@[a]).idx != (
                #[trigger] rest@[b]).idx,
        decreases rest@.len(),
    {
        let mut best: usize = 0;
        let mut t: usize = 1;
        while t < rest.len()
            invariant
                0 < rest@.len(),
                best < t <= rest@.len(),
                forall|u: int| 0 <= u < t ==> (#[trigger] rest@[u]).score <= rest@[best as int].score,
            decreases rest@.len() - t,
        {
            if rest[t].score > rest[best].score {
                best = t;
            }
            t = t + 1;
        }
        let x = rest[best];
        ranked.push(x);
        rest.remove(best);
    }
    let mut out: Vec<String> = Vec::new();
    let mut k: usize = 0;
    while k < ranked.len()
        invariant
            k <= ranked@.len(),
            out@.len() == k,
            q == query@,
            forall|t: int|
                0 <= t < ranked@.len() ==> {
                    let sc = #[trigger] ranked@[t];
                    0 <= sc.idx < items@.len() && score_of(q, items@[sc.idx as int]@) == Some(
                        sc.score,
                    )
                },
            forall|a: int, b: int|
                0 <= a < b < ranked@.len() ==> (#[trigger] ranked@[a]).score >= (
                #[trigger] ranked@[b]).score,
            forall|a: int, b: int|
                0 <= a < b < ranked@.len() ==> (#[trigger] ranked@[a]).idx != (
                #[trigger] ranked@[b]).idx,
            forall|t: int|
                0 <= t < k ==> score_of(q, (#[trigger] out@[t])@) == Some(ranked@[t].score)
                    && out@[t]@ == items@[ranked@[t].idx as int]@,
        decreases ranked@.len() - k,
    {
        let sc = ranked[k];
        out.push(items[sc.idx].clone());
        k = k + 1;
    }
    proof {
        let sel = Seq::new(out@.len() as nat, |k: int| ranked@[k].idx as int);
        assert(sel.len() == out@.len());
        assert(forall|k: int|
            0 <= k < out@.len() ==> 0 <= #[trigger] sel[k] < items@.len() && items@[sel[k]]@
                == out@[k]@);
        assert(forall|a: int, b: int| 0 <= a < b < out@.len() ==> sel[a] != sel[b]);
    }
    out
}

/// The corpus rendered for the chat preamble: each file under a dashed
/// header, each of its lines tagged `[file:line]`.
pub open spec fn context_line(name: Seq<char>, num: int, line: Seq<char>) -> Seq<char> {
    seq!['['] + name + seq![':'] + crate::text::dec_rep(num as nat) + seq![']', ' '] + line + seq![
        '\n',
    ]
}

pub open spec fn context_lines(name: Seq<char>, lines: Seq<Seq<char>>, k: int) -> Seq<char>
    decreases lines.len() - k when 0 <= k <= lines.len()
{
    if k >= lines.len() {
        Seq::empty()
    } else {
        context_line(name, k + 1, lines[k]) + context_lines(name, lines, k + 1)
    }
}

pub open spec fn context_file(name: Seq<char>, content: Seq<char>) -> Seq<char> {
    seq!['\n', '-', '-', '-', ' '] + name + seq![' ', '-', '-', '-', '\n'] + context_lines(
        name,
        split_lines(content),
        0,
    )
}

pub open spec fn context_of(files: Seq<LoadedFile>, i: int) -> Seq<char>
    decreases files.len() - i when 0 <= i <= files.len()
{
    if i >= files.len() {
        Seq::empty()
    } else {
        context_file(files[i].name@, files[i].content@) + context_of(files, i + 1)
    }
}

/// Renders the whole corpus with one `[file:line]` tag per source line, the
/// form the chat preamble embeds.
pub fn build_context(files: &Vec<LoadedFile>) -> (r: String)
    ensures
        r@ == context_of(files@, 0),
{
    let mut ctx = String::new();
    let mut i: usize = 0;
    while i < files.len()
        invariant
            i <= files@.len(),
            ctx@ + context_of(files@, i as int) =~= context_of(files@, 0),
        decreases files@.len() - i,
    {
        let name = &files[i].name;
        ctx.append("\n--- ");
        ctx.append(name.as_str());
        ctx.append(" ---\n");
        let content_chars = chars_vec(files[i].content.as_str());
        let lines = split_lines_vec(&content_chars);
        let ghost lseq = split_lines(files@[i as int].content@);
        let mut k: usize = 0;
        proof {
            reveal_strlit("\n--- ");
            reveal_strlit(" ---\n");
            assert("\n--- "@ =~= seq!['\n', '-', '-', '-', ' ']);
            assert(" ---\n"@ =~= seq![' ', '-', '-', '-', '\n']);
            assert(lines.deep_view() == lseq);
            assert(ctx@ + context_lines(name@, lseq, 0) + context_of(files@, i + 1) =~= context_of(
                files@,
                0,
            ));
        }
        while k < lines.len()
            invariant
                k <= lines@.len(),
                lines.deep_view() == lseq,
                i < files@.len(),
                name@ == files@[i as int].name@,
                ctx@ + context_lines(name@, lseq, k as int) + context_of(files@, i + 1)
                    =~= context_of(files@, 0),
            decreases lines@.len() - k,
        {
            proof {
                assert(lines@[k as int]@ == lseq[k as int]);
            }
            ctx.append("[");
            ctx.append(name.as_str());
            ctx.append(":");
            let num = crate::text::dec_string(k + 1);
            ctx.append(num.as_str());
            ctx.append("] ");
            let line_str = string_of_chars(lines[k].as_slice());
            ctx.append(line_str.as_str());
            ctx.append("\n");
            proof {
                reveal_strlit("[");
                reveal_strlit(":");
                reveal_strlit("] ");
                reveal_strlit("\n");
                assert("["@ =~= seq!['[']);
                assert(":"@ =~= seq![':']);
                assert("] "@ =~= seq![']', ' ']);
                assert("\n"@ =~= seq!['\n']);
                assert(context_lines(name@, lseq, k as int) =~= context_line(
                    name@,
                    k + 1,
                    lseq[k as int],
                ) + context_lines(name@, lseq, k + 1));
                assert(ctx@ + context_lines(name@, lseq, k + 1) + context_of(files@, i + 1)
                    =~= context_of(files@, 0));
            }
            k = k + 1;
        }
        proof {
            assert(context_lines(name@, lseq, k as int) =~= Seq::<char>::empty());
            assert(ctx@ + context_of(files@, i + 1) =~= context_of(files@, 0));
        }
        i = i + 1;
    }
    proof {
        assert(context_of(files@, i as int) =~= Seq::<char>::empty());
        assert(ctx@ =~= context_of(files@, 0));
    }
    ctx
}

} // verus!
