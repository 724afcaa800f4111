//! The semantic paragraph index: files are chunked into blank-line-delimited
//! paragraphs, persisted in an on-disk full-text index under a cache name
//! derived from the corpus root, and validated against a fingerprint that
//! maps each file name to its last-modified time in whole seconds.  A
//! fingerprint difference, or missing index metadata, forces a full rebuild.

use vstd::prelude::*;

use tantivy::schema::Value;

use crate::search::LoadedFile;
use crate::text::{
    all_digits, chars_vec, dec_string, digits_val, is_digit, is_digit_char, parse_digits,
    split_lines, split_lines_vec, string_of_chars, subvec, trim_spec, trim_vec,
};

verus! {

/// One file's record in the staleness fingerprint.
#[derive(Clone)]
pub struct FpEntry {
    pub name: String,
    pub secs: u64,
}

/// The staleness fingerprint: file name to modification time in whole
/// seconds.  A later record for the same name overrides an earlier one.
#[derive(Clone)]
pub struct Fingerprint {
    pub entries: Vec<FpEntry>,
}

pub open spec fn entries_map(s: Seq<FpEntry>) -> Map<Seq<char>, u64>
    decreases s.len(),
{
    if s.len() == 0 {
        Map::empty()
    } else {
        entries_map(s.drop_last()).insert(s.last().name@, s.last().secs)
    }
}

impl View for Fingerprint {
    type V = Map<Seq<char>, u64>;

    open spec fn view(&self) -> Map<Seq<char>, u64> {
        entries_map(self.entries@)
    }
}

pub proof fn lemma_entries_map_dom(s: Seq<FpEntry>)
    ensures
        forall|n: Seq<char>|
            entries_map(s).contains_key(n) <==> exists|j: int|
                0 <= j < s.len() && (#[trigger] s[j]).name@ == n,
    decreases s.len(),
{
    if s.len() > 0 {
        lemma_entries_map_dom(s.drop_last());
        assert forall|n: Seq<char>|
            entries_map(s).contains_key(n) implies exists|j: int|
            0 <= j < s.len() && (#[trigger] s[j]).name@ == n by {
            if s.last().name@ == n {
                assert((s[s.len() - 1]).name@ == n);
            } else {
                assert(entries_map(s.drop_last()).contains_key(n));
                let j = choose|j: int|
                    0 <= j < s.drop_last().len() && (#[trigger] s.drop_last()[j]).name@ == n;
                assert(s[j] == s.drop_last()[j]);
                assert((s[j]).name@ == n);
            }
        }
        assert forall|n: Seq<char>|
            (exists|j: int| 0 <= j < s.len() && (#[trigger] s[j]).name@ == n) implies entries_map(
            s,
        ).contains_key(n) by {
            let j = choose|j: int| 0 <= j < s.len() && (#[trigger] s[j]).name@ == n;
            if j < s.len() - 1 {
                assert(s.drop_last()[j] == s[j]);
                assert((s.drop_last()[j]).name@ == n);
                assert(entries_map(s.drop_last()).contains_key(n));
            }
        }
    }
}

/// The fingerprint's record for `name`, or `None` when it holds none.
pub fn fp_lookup(fp: &Fingerprint, name: &String) -> (r: Option<u64>)
    ensures
        r == if fp@.contains_key(name@) {
            Some(fp@[name@])
        } else {
            None
        },
{
    let mut k: usize = fp.entries.len();
    proof {
        assert(fp.entries@.take(fp.entries@.len() as int) =~= fp.entries@);
    }
    while k > 0
        invariant
            k <= fp.entries@.len(),
            entries_map(fp.entries@).contains_key(name@) == entries_map(
                fp.entries@.take(k as int),
            ).contains_key(name@),
            entries_map(fp.entries@).contains_key(name@) ==> entries_map(fp.entries@)[name@]
                == entries_map(fp.entries@.take(k as int))[name@],
        decreases k,
    {
        let ghost pre = fp.entries@.take(k as int);
        proof {
            assert(pre.drop_last() =~= fp.entries@.take(k - 1));
            assert(pre.last() == fp.entries@[k - 1]);
        }
        if fp.entries[k - 1].name == *name {
            proof {
                assert(entries_map(pre)[name@] == fp.entries@[k - 1].secs);
            }
            return Some(fp.entries[k - 1].secs);
        }
        k = k - 1;
    }
    proof {
        assert(fp.entries@.take(0) =~= Seq::<FpEntry>::empty());
        assert(!entries_map(fp.entries@.take(0)).contains_key(name@));
    }
    None
}

/// Whether two fingerprints record the same mapping, whatever the order of
/// their entries.
pub fn fingerprint_eq(a: &Fingerprint, b: &Fingerprint) -> (r: bool)
    ensures
        r == (a@ == b@),
{
    proof {
        lemma_entries_map_dom(a.entries@);
        lemma_entries_map_dom(b.entries@);
    }
    let mut i: usize = 0;
    while i < a.entries.len()
        invariant
            i <= a.entries@.len(),
            forall|j: int|
                0 <= j < i ==> {
                    let n = (#[trigger] a.entries@[j]).name@;
                    b@.contains_key(n) && a@.contains_key(n) && a@[n] == b@[n]
                },
        decreases a.entries@.len() - i,
    {
        let n = &a.entries[i].name;
        let va = fp_lookup(a, n);
        let vb = fp_lookup(b, n);
        proof {
            lemma_entries_map_dom(a.entries@);
            assert((a.entries@[i as int]).name@ == n@);
            assert(a@.contains_key(n@));
        }
        let same = match (va, vb) {
            (Some(x), Some(y)) => x == y,
            (None, None) => true,
            _ => false,
        };
        if !same {
            proof {
                if a@ == b@ {
                    assert(a@[n@] == b@[n@]);
                }
            }
            return false;
        }
        i = i + 1;
    }
    let mut k: usize = 0;
    while k < b.entries.len()
        invariant
            k <= b.entries@.len(),
            forall|j: int|
                0 <= j < a.entries@.len() ==> {
                    let n = (#[trigger] a.entries@[j]).name@;
                    b@.contains_key(n) && a@.contains_key(n) && a@[n] == b@[n]
                },
            forall|j: int| 0 <= j < k ==> a@.contains_key((#[trigger] b.entries@[j]).name@),
        decreases b.entries@.len() - k,
    {
        let n = &b.entries[k].name;
        if fp_lookup(a, n).is_none() {
            proof {
                lemma_entries_map_dom(b.entries@);
                assert((b.entries@[k as int]).name@ == n@);
                assert(b@.contains_key(n@));
                if a@ == b@ {
                    assert(a@.contains_key(n@));
                }
            }
            return false;
        }
        k = k + 1;
    }
    proof {
        lemma_entries_map_dom(a.entries@);
        lemma_entries_map_dom(b.entries@);
        assert forall|n: Seq<char>| a@.contains_key(n) implies b@.contains_key(n) && a@[n]
            == b@[n] by {
            assert(entries_map(a.entries@).contains_key(n));
            let j = choose|j: int| 0 <= j < a.entries@.len() && (#[trigger] a.entries@[j]).name@
                == n;
        }
        assert forall|n: Seq<char>| b@.contains_key(n) implies a@.contains_key(n) by {
            assert(entries_map(b.entries@).contains_key(n));
            let j = choose|j: int| 0 <= j < b.entries@.len() && (#[trigger] b.entries@[j]).name@
                == n;
        }
        assert(a@ =~= b@);
    }
    true
}

/// Staleness: the index must be rebuilt when no fingerprint was persisted,
/// the persisted one differs from the current one, or the index metadata is
/// gone.
pub open spec fn stale_spec(
    cached: Option<Map<Seq<char>, u64>>,
    current: Map<Seq<char>, u64>,
    meta_exists: bool,
) -> bool {
    cached is None || cached->0 != current || !meta_exists
}

/// Decides whether the persisted semantic index may be reused.
pub fn needs_rebuild(cached: Option<&Fingerprint>, current: &Fingerprint, meta_exists: bool) -> (r:
    bool)
    ensures
        r == stale_spec(
            match cached {
                Some(c) => Some(c@),
                None => None,
            },
            current@,
            meta_exists,
        ),
{
    if !meta_exists {
        return true;
    }
    match cached {
        None => true,
        Some(c) => !fingerprint_eq(c, current),
    }
}

/// Reopening over an unchanged fingerprint with intact metadata reuses the
/// persisted index: the second of two identical openings never rebuilds,
/// so it writes nothing to the index directory.
pub proof fn lemma_fingerprint_hit(m: Map<Seq<char>, u64>)
    ensures
        !stale_spec(Some(m), m, true),
{
}

/// Changing the recorded modification time of any file makes the
/// fingerprint differ, which forces a rebuild.
pub proof fn lemma_mtime_change_rebuilds(m: Map<Seq<char>, u64>, name: Seq<char>, secs: u64)
    requires
        m.contains_key(name),
        m[name] != secs,
    ensures
        stale_spec(Some(m), m.insert(name, secs), true),
{
    assert(m.insert(name, secs)[name] == secs);
    if m == m.insert(name, secs) {
        assert(m[name] == m.insert(name, secs)[name]);
    }
}

/// A file appearing that the persisted fingerprint does not record forces
/// a rebuild as well.
pub proof fn lemma_new_file_rebuilds(m: Map<Seq<char>, u64>, name: Seq<char>, secs: u64)
    requires
        !m.contains_key(name),
    ensures
        stale_spec(Some(m), m.insert(name, secs), true),
{
    assert(m.insert(name, secs).contains_key(name));
    if m == m.insert(name, secs) {
        assert(m.contains_key(name));
    }
}

/// The paragraphs of the lines from `k` on, given the paragraph collected
/// so far (`cur`, started at line index `start`): a blank line closes the
/// open paragraph, a non-blank line is trimmed and joined with one space.
pub open spec fn paras_from(
    lines: Seq<Seq<char>>,
    k: int,
    cur: Seq<char>,
    start: int,
) -> Seq<(int, Seq<char>)>
    decreases lines.len() - k when 0 <= k <= lines.len()
{
    if k >= lines.len() {
        if cur.len() == 0 {
            Seq::empty()
        } else {
            seq![(start + 1, cur)]
        }
    } else {
        let t = trim_spec(lines[k]);
        if t.len() == 0 {
            if cur.len() == 0 {
                paras_from(lines, k + 1, cur, start)
            } else {
                seq![(start + 1, cur)] + paras_from(lines, k + 1, Seq::empty(), 0)
            }
        } else {
            if cur.len() == 0 {
                paras_from(lines, k + 1, t, k)
            } else {
                paras_from(lines, k + 1, cur + seq![' '] + t, start)
            }
        }
    }
}

/// The paragraphs of a text: blank-line-delimited runs of non-blank lines,
/// each collapsed to one space-joined line and tagged with the 1-based
/// number of its first line.
pub open spec fn paragraphs_of(content: Seq<char>) -> Seq<(int, Seq<char>)> {
    paras_from(split_lines(content), 0, Seq::empty(), 0)
}

pub open spec fn para_views(s: Seq<(usize, String)>) -> Seq<(int, Seq<char>)> {
    s.map_values(|p: (usize, String)| (p.0 as int, p.1@))
}

/// Chunks a file into paragraphs, per `paragraphs_of`.
pub fn extract_paragraphs(content: &str) -> (r: Vec<(usize, String)>)
    ensures
        para_views(r@) == paragraphs_of(content@),
{
    let content_chars = chars_vec(content);
    let lines = split_lines_vec(&content_chars);
    let ghost lseq = split_lines(content@);
    proof {
        assert(lines.deep_view() == lseq);
    }
    let mut out: Vec<(usize, String)> = Vec::new();
    let mut cur: Vec<char> = Vec::new();
    let mut start: usize = 0;
    let mut k: usize = 0;
    proof {
        assert(para_views(out@) =~= Seq::<(int, Seq<char>)>::empty());
        assert(para_views(out@) + paras_from(lseq, 0, cur@, 0) =~= paragraphs_of(content@));
    }
    while k < lines.len()
        invariant
            k <= lines@.len(),
            lines.deep_view() == lseq,
            cur@.len() > 0 ==> start < lines@.len(),
            para_views(out@) + paras_from(lseq, k as int, cur@, if cur@.len() == 0 {
                0int
            } else {
                start as int
            }) =~= paragraphs_of(content@),
        decreases lines@.len() - k,
    {
        proof {
            assert(lines@[k as int]@ == lseq[k as int]);
        }
        let ghost tsp = trim_spec(lseq[k as int]);
        let mut t = trim_vec(&lines[k]);
        if t.len() == 0 {
            if cur.len() > 0 {
                let ghost oldcur = cur@;
                let ghost prev = out@;
                let text = string_of_chars(cur.as_slice());
                out.push((start + 1, text));
                cur = Vec::new();
                proof {
                    assert(para_views(out@) =~= para_views(prev).push((start as int + 1, oldcur)));
                    assert(paras_from(lseq, k as int, oldcur, start as int) =~= seq![
                        (start as int + 1, oldcur),
                    ] + paras_from(lseq, k + 1, Seq::<char>::empty(), 0));
                    assert(cur@ =~= Seq::<char>::empty());
                    assert(para_views(out@) + paras_from(lseq, k + 1, cur@, 0) =~= paragraphs_of(
                        content@,
                    ));
                }
            } else {
                proof {
                    assert(paras_from(lseq, k as int, cur@, 0) == paras_from(lseq, k + 1, cur@, 0));
                }
            }
        } else {
            if cur.len() == 0 {
                proof {
                    assert(paras_from(lseq, k as int, cur@, 0) == paras_from(lseq, k + 1, tsp, k as int));
                }
                start = k;
                cur = t;
            } else {
                let ghost oldcur = cur@;
                cur.push(' ');
                cur.append(&mut t);
                proof {
                    assert(cur@ =~= oldcur + seq![' '] + tsp);
                    assert(paras_from(lseq, k as int, oldcur, start as int) == paras_from(
                        lseq,
                        k + 1,
                        oldcur + seq![' '] + tsp,
                        start as int,
                    ));
                }
            }
        }
        k = k + 1;
    }
    if cur.len() > 0 {
        let ghost prev = out@;
        let text = string_of_chars(cur.as_slice());
        out.push((start + 1, text));
        proof {
            assert(para_views(out@) =~= para_views(prev).push((start as int + 1, text@)));
        }
    }
    proof {
        assert(para_views(out@) =~= paragraphs_of(content@));
    }
    out
}

/// The digest of a string's UTF-8 bytes; it depends on the string alone.
pub uninterp spec fn md5_of(s: Seq<char>) -> Seq<u8>;

/// Relies on `md5::compute`: a 16-byte digest that is a function of the
/// input bytes alone.
#[verifier::external_body]
fn md5_digest(s: &str) -> (r: Vec<u8>)
    ensures
        r@ == md5_of(s@),
        r@.len() == 16,
{
    md5::compute(s.as_bytes()).0.to_vec()
}

/// The character for a hexadecimal digit.
pub open spec fn hex_digit(d: int) -> char {
    if d == 0 {
        '0'
    } else if d == 1 {
        '1'
    } else if d == 2 {
        '2'
    } else if d == 3 {
        '3'
    } else if d == 4 {
        '4'
    } else if d == 5 {
        '5'
    } else if d == 6 {
        '6'
    } else if d == 7 {
        '7'
    } else if d == 8 {
        '8'
    } else if d == 9 {
        '9'
    } else if d == 10 {
        'a'
    } else if d == 11 {
        'b'
    } else if d == 12 {
        'c'
    } else if d == 13 {
        'd'
    } else if d == 14 {
        'e'
    } else {
        'f'
    }
}

/// Lowercase hexadecimal rendering of a byte string, two digits per byte.
pub open spec fn hex_of(bs: Seq<u8>) -> Seq<char>
    decreases bs.len(),
{
    if bs.len() == 0 {
        Seq::empty()
    } else {
        hex_of(bs.drop_last()) + seq![
            hex_digit(bs.last() as int / 16),
            hex_digit(bs.last() as int % 16),
        ]
    }
}

fn hex_digit_char(d: u8) -> (c: char)
    requires
        d < 16,
    ensures
        c == hex_digit(d as int),
{
    match d {
        0 => '0',
        1 => '1',
        2 => '2',
        3 => '3',
        4 => '4',
        5 => '5',
        6 => '6',
        7 => '7',
        8 => '8',
        9 => '9',
        10 => 'a',
        11 => 'b',
        12 => 'c',
        13 => 'd',
        14 => 'e',
        _ => 'f',
    }
}

/// The cache directory name for a corpus root: the first 16 hexadecimal
/// digits of the digest of the root path, one namespace per location.
pub fn cache_subdir_name(root: &str) -> (r: String)
    ensures
        r@ == hex_of(md5_of(root@)).take(16),
{
    let digest = md5_digest(root);
    let mut hx: Vec<char> = Vec::new();
    let mut i: usize = 0;
    proof {
        assert(digest@.take(0) =~= Seq::<u8>::empty());
    }
    while i < digest.len()
        invariant
            i <= digest@.len(),
            hx@.len() == 2 * i,
            hx@ =~= hex_of(digest@.take(i as int)),
        decreases digest@.len() - i,
    {
        let b = digest[i];
        hx.push(hex_digit_char(b / 16));
        hx.push(hex_digit_char(b % 16));
        proof {
            assert(digest@.take(i + 1).drop_last() =~= digest@.take(i as int));
            assert(digest@.take(i + 1).last() == digest@[i as int]);
            assert(hx@ =~= hex_of(digest@.take(i + 1)));
        }
        i = i + 1;
    }
    proof {
        assert(digest@.take(digest@.len() as int) =~= digest@);
    }
    let name = subvec(&hx, 0, 16);
    proof {
        assert(name@ =~= hex_of(md5_of(root@)).take(16));
    }
    string_of_chars(name.as_slice())
}

/// The value `str::parse::<usize>` accepts: an optional leading plus sign,
/// then at least one decimal digit, read in base ten, fitting in `usize`.
pub open spec fn parse_usize_spec(s: Seq<char>) -> Option<int> {
    let digits = if s.len() > 0 && s[0] == '+' {
        s.drop_first()
    } else {
        s
    };
    if digits.len() > 0 && all_digits(digits) && digits_val(digits) <= usize::MAX {
        Some(digits_val(digits) as int)
    } else {
        None
    }
}

/// Reads a stored line-number field: the parsed value, or 0 when the text
/// is not a number that fits.
pub fn parse_line_number(s: &str) -> (n: usize)
    ensures
        n as int == match parse_usize_spec(s@) {
            Some(v) => v,
            None => 0,
        },
{
    let v = chars_vec(s);
    let from: usize = if v.len() > 0 && v[0] == '+' {
        1
    } else {
        0
    };
    let ghost digits = if s@.len() > 0 && s@[0] == '+' {
        s@.drop_first()
    } else {
        s@
    };
    proof {
        assert(digits =~= v@.subrange(from as int, v@.len() as int));
    }
    if from == v.len() {
        return 0;
    }
    let mut j: usize = from;
    while j < v.len()
        invariant
            from <= j <= v@.len(),
            v@ == s@,
            digits == (if s@.len() > 0 && s@[0] == '+' {
                s@.drop_first()
            } else {
                s@
            }),
            digits =~= v@.subrange(from as int, v@.len() as int),
            forall|t: int| from <= t < j ==> is_digit(v@[t]),
        decreases v@.len() - j,
    {
        if !is_digit_char(v[j]) {
            proof {
                assert(digits[j - from] == v@.subrange(from as int, v@.len() as int)[j - from]);
                assert(digits[j - from] == v@[j as int]);
                assert(!all_digits(digits));
            }
            return 0;
        }
        j = j + 1;
    }
    proof {
        assert(all_digits(v@.subrange(from as int, v@.len() as int)));
    }
    match parse_digits(&v, from, v.len()) {
        Some(n) => n,
        None => 0,
    }
}

/// A paragraph retrieved from the semantic index: its file, 1-based first
/// line, and collapsed text, in descending relevance order.
#[derive(Debug, Clone)]
pub struct RagChunk {
    pub file: String,
    pub line: usize,
    pub content: String,
}

#[verifier::external_type_specification]
#[verifier::external_body]
pub struct ExIndex(tantivy::Index);

#[verifier::external_type_specification]
#[verifier::external_body]
pub struct ExField(tantivy::schema::Field);

/// Holds tantivy's `IndexWriter`, which cannot be declared to the verifier:
/// its document type parameter is bounded by a trait of the outside crate.
#[verifier::external_body]
struct WriterHandle {
    writer: tantivy::IndexWriter,
}

#[verifier::external_type_specification]
#[verifier::external_body]
pub struct ExTantivyDocument(tantivy::TantivyDocument);

/// Relies on tantivy's `Schema::builder`, `MmapDirectory::open` and
/// `Index::create`: a fresh index in `dir` with stored `file` and `line`
/// string fields and a stored, tokenized `content` field.
#[verifier::external_body]
fn create_index_at(dir: &str) -> Option<
    (tantivy::Index, tantivy::schema::Field, tantivy::schema::Field, tantivy::schema::Field),
> {
    let mut b = tantivy::schema::Schema::builder();
    let f = b.add_text_field("file", tantivy::schema::STRING | tantivy::schema::STORED);
    let l = b.add_text_field("line", tantivy::schema::STRING | tantivy::schema::STORED);
    let c = b.add_text_field("content", tantivy::schema::TEXT | tantivy::schema::STORED);
    let schema = b.build();
    let d = tantivy::directory::MmapDirectory::open(dir).ok()?;
    let ix = tantivy::Index::create(d, schema, tantivy::IndexSettings::default()).ok()?;
    Some((ix, f, l, c))
}

/// Relies on tantivy's `MmapDirectory::open`, `Index::open` and
/// `Schema::get_field`: reopens a persisted index and its three fields.
#[verifier::external_body]
fn open_index_at(dir: &str) -> Option<
    (tantivy::Index, tantivy::schema::Field, tantivy::schema::Field, tantivy::schema::Field),
> {
    let d = tantivy::directory::MmapDirectory::open(dir).ok()?;
    let ix = tantivy::Index::open(d).ok()?;
    let schema = ix.schema();
    let f = schema.get_field("file").ok()?;
    let l = schema.get_field("line").ok()?;
    let c = schema.get_field("content").ok()?;
    Some((ix, f, l, c))
}

/// Relies on tantivy's `Index::writer`: a writer with a 15 MB arena.
#[verifier::external_body]
fn make_writer(ix: &tantivy::Index) -> Option<WriterHandle> {
    ix.writer(15_000_000).ok().map(|w| WriterHandle { writer: w })
}

/// Relies on `TantivyDocument::add_text` and `IndexWriter::add_document`:
/// queues one paragraph document with the three stored fields.
#[verifier::external_body]
fn add_doc(
    w: &WriterHandle,
    file_f: tantivy::schema::Field,
    line_f: tantivy::schema::Field,
    content_f: tantivy::schema::Field,
    file: &str,
    line: &str,
    content: &str,
) -> bool {
    let mut d = tantivy::TantivyDocument::default();
    d.add_text(file_f, file);
    d.add_text(line_f, line);
    d.add_text(content_f, content);
    w.writer.add_document(d).is_ok()
}

/// Relies on `IndexWriter::commit`: makes the queued documents persistent.
#[verifier::external_body]
fn commit_writer(w: &mut WriterHandle) -> bool {
    w.writer.commit().is_ok()
}

/// Relies on tantivy's `Index::reader`, `QueryParser::parse_query`,
/// `Searcher::search` with `TopDocs::with_limit(..).order_by_score()`, and
/// `Searcher::doc`: the stored documents of the at most `limit` best
/// matches, best first; a parse or search failure yields none.
#[verifier::external_body]
fn query_docs(
    ix: &tantivy::Index,
    content_f: tantivy::schema::Field,
    query: &str,
    limit: usize,
) -> (r: Vec<tantivy::TantivyDocument>)
    requires
        limit >= 1,
    ensures
        r@.len() <= limit,
{
    let reader = match ix.reader() {
        Ok(r) => r,
        Err(_) => return Vec::new(),
    };
    let searcher = reader.searcher();
    let parser = tantivy::query::QueryParser::for_index(ix, vec![content_f]);
    let q = match parser.parse_query(query) {
        Ok(q) => q,
        Err(_) => return Vec::new(),
    };
    let top = match searcher.search(&*q, &tantivy::collector::TopDocs::with_limit(limit).order_by_score()) {
        Ok(t) => t,
        Err(_) => return Vec::new(),
    };
    top.into_iter().filter_map(|(_s, a)| searcher.doc::<tantivy::TantivyDocument>(a).ok()).collect()
}

/// Relies on `TantivyDocument::get_first` and `Value::as_str`: the first
/// stored value of the field as text, or empty when absent or not text.
#[verifier::external_body]
fn doc_field_text(d: &tantivy::TantivyDocument, f: tantivy::schema::Field) -> String {
    d.get_first(f).and_then(|v| v.as_str()).unwrap_or("").to_string()
}

/// The persisted semantic paragraph index of one corpus root.
pub struct RagIndex {
    index: tantivy::Index,
    file_field: tantivy::schema::Field,
    line_field: tantivy::schema::Field,
    content_field: tantivy::schema::Field,
}

impl RagIndex {
    /// Builds a fresh index in `dir` (an existing, empty directory): every
    /// paragraph of every file becomes one document, its line number stored
    /// in decimal.  `None` when the engine cannot create or commit; the
    /// caller treats that as an index that answers nothing.
    pub fn build(files: &Vec<LoadedFile>, dir: &str) -> Option<RagIndex> {
        let created = create_index_at(dir);
        let (ix, file_f, line_f, content_f) = match created {
            Some(t) => t,
            None => {
                return None;
            },
        };
        let mut writer = match make_writer(&ix) {
            Some(w) => w,
            None => {
                return None;
            },
        };
        let mut i: usize = 0;
        while i < files.len()
            invariant
                i <= files@.len(),
            decreases files@.len() - i,
        {
            let paras = extract_paragraphs(files[i].content.as_str());
            let mut k: usize = 0;
            while k < paras.len()
                invariant
                    i < files@.len(),
                    k <= paras@.len(),
                decreases paras@.len() - k,
            {
                let line_s = dec_string(paras[k].0);
                let ok = add_doc(
                    &writer,
                    file_f,
                    line_f,
                    content_f,
                    files[i].name.as_str(),
                    line_s.as_str(),
                    paras[k].1.as_str(),
                );
                if !ok {
                    return None;
                }
                k = k + 1;
            }
            i = i + 1;
        }
        if !commit_writer(&mut writer) {
            return None;
        }
        Some(RagIndex { index: ix, file_field: file_f, line_field: line_f, content_field: content_f })
    }

    /// Reopens the persisted index under `dir` without reading any source
    /// file; `None` when it cannot be opened.
    pub fn open(dir: &str) -> Option<RagIndex> {
        match open_index_at(dir) {
            Some((ix, file_f, line_f, content_f)) => Some(
                RagIndex { index: ix, file_field: file_f, line_field: line_f, content_field: content_f },
            ),
            None => None,
        }
    }

    /// The top `limit` paragraphs for `query`, best first.  The query text
    /// is handed to the engine's parser uninterpreted; a query that fails
    /// to parse, or any engine error, yields an empty list.  Each stored
    /// line field is read back per `parse_usize_spec`, 0 when malformed.
    pub fn search_chunks(&self, query: &str, limit: usize) -> (r: Vec<RagChunk>)
        ensures
            r@.len() <= limit,
    {
        let mut out: Vec<RagChunk> = Vec::new();
        if limit == 0 {
            return out;
        }
        let docs = query_docs(&self.index, self.content_field, query, limit);
        let mut k: usize = 0;
        while k < docs.len()
            invariant
                out@.len() == k <= docs@.len(),
            decreases docs@.len() - k,
        {
            let line_s = doc_field_text(&docs[k], self.line_field);
            let chunk = RagChunk {
                file: doc_field_text(&docs[k], self.file_field),
                line: parse_line_number(line_s.as_str()),
                content: doc_field_text(&docs[k], self.content_field),
            };
            out.push(chunk);
            k = k + 1;
        }
        out
    }
}

} // verus!
