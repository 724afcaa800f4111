//! The streaming-chat glue the session relies on: conversation messages,
//! credential resolution from injected sources, and the framing of the
//! server-sent event stream into skip, data and completion lines.

use vstd::prelude::*;

use crate::text::{
    chars_vec, find_ch, find_char_from, lemma_find_ch, seg1_chars, seg1_spec, split_lines,
    split_lines_vec, starts_with_chars, starts_with_seq, string_of_chars, subvec, trim_char_spec,
    trim_char_vec, trim_spec, trim_vec,
};

verus! {

/// One message of a conversation.
#[derive(Debug, Clone)]
pub struct ChatMessage {
    pub role: String,
    pub content: String,
}

impl View for ChatMessage {
    type V = (Seq<char>, Seq<char>);

    open spec fn view(&self) -> (Seq<char>, Seq<char>) {
        (self.role@, self.content@)
    }
}

pub open spec fn msg_views(s: Seq<ChatMessage>) -> Seq<(Seq<char>, Seq<char>)> {
    s.map_values(|m: ChatMessage| m@)
}

/// The key a `KEY=VALUE` line yields: the line is trimmed, must begin with
/// the key name, and its value (the text after the first `=`, up to a
/// second `=`) is trimmed and stripped of surrounding double then single
/// quotes; an empty value yields nothing.
pub open spec fn env_line_key(raw: Seq<char>) -> Option<Seq<char>> {
    let line = trim_spec(raw);
    if !starts_with_seq(line, "OPENROUTER_API_KEY"@) {
        None
    } else {
        match seg1_spec(line) {
            None => None,
            Some(v0) => {
                let val = trim_char_spec(trim_char_spec(trim_spec(v0), '"'), '\'');
                if val.len() > 0 {
                    Some(val)
                } else {
                    None
                }
            },
        }
    }
}

/// The key the first yielding line of a credentials file provides.
pub open spec fn env_lines_key(lines: Seq<Seq<char>>, i: int) -> Option<Seq<char>>
    decreases lines.len() - i when 0 <= i <= lines.len()
{
    if i >= lines.len() {
        None
    } else {
        match env_line_key(lines[i]) {
            Some(v) => Some(v),
            None => env_lines_key(lines, i + 1),
        }
    }
}

pub open spec fn env_file_key(content: Seq<char>) -> Option<Seq<char>> {
    env_lines_key(split_lines(content), 0)
}

/// Reads a `KEY=VALUE` credentials file, per `env_file_key`.
pub fn read_env_content(content: &str) -> (r: Option<String>)
    ensures
        match env_file_key(content@) {
            Some(v) => r is Some && r->0@ == v,
            None => r is None,
        },
{
    let content_chars = chars_vec(content);
    let lines = split_lines_vec(&content_chars);
    let ghost lseq = split_lines(content@);
    let key_name = chars_vec("OPENROUTER_API_KEY");
    let mut k: usize = 0;
    proof {
        assert(lines.deep_view() == lseq);
    }
    while k < lines.len()
        invariant
            k <= lines@.len(),
            lines.deep_view() == lseq,
            lseq == split_lines(content@),
            key_name@ == "OPENROUTER_API_KEY"@,
            env_lines_key(lseq, 0) == env_lines_key(lseq, k as int),
        decreases lines@.len() - k,
    {
        proof {
            assert(lines@[k as int]@ == lseq[k as int]);
        }
        let line = trim_vec(&lines[k]);
        if starts_with_chars(&line, &key_name) {
            match seg1_chars(&line) {
                Some(v0) => {
                    let t = trim_vec(&v0);
                    let t = trim_char_vec(&t, '"');
                    let t = trim_char_vec(&t, '\'');
                    if t.len() > 0 {
                        proof {
                            assert(env_line_key(lseq[k as int]) == Some(t@));
                        }
                        return Some(string_of_chars(t.as_slice()));
                    }
                },
                None => {},
            }
        }
        proof {
            assert(env_line_key(lseq[k as int]) is None);
        }
        k = k + 1;
    }
    proof {
        assert(env_lines_key(lseq, k as int) is None);
    }
    None
}

/// Which key the session uses: the environment value if non-empty, else
/// the first key a credentials file beside the working directory yields,
/// else the one from the home directory; `None` disables submission.
pub open spec fn api_key_spec(
    envk: Option<Seq<char>>,
    cwd_file: Option<Seq<char>>,
    home_file: Option<Seq<char>>,
) -> Option<Seq<char>> {
    if envk is Some && envk->0.len() > 0 {
        envk
    } else if cwd_file is Some && env_file_key(cwd_file->0) is Some {
        env_file_key(cwd_file->0)
    } else if home_file is Some && env_file_key(home_file->0) is Some {
        env_file_key(home_file->0)
    } else {
        None
    }
}

/// Resolves the key from the injected sources, per `api_key_spec`: the
/// caller passes the environment variable's value and the contents of the
/// two candidate credentials files, each `None` when absent or unreadable.
pub fn find_api_key(
    env_key: Option<String>,
    cwd_file: Option<String>,
    home_file: Option<String>,
) -> (r: Option<String>)
    ensures
        match api_key_spec(
            match env_key {
                Some(ref s) => Some(s@),
                None => None,
            },
            match cwd_file {
                Some(ref s) => Some(s@),
                None => None,
            },
            match home_file {
                Some(ref s) => Some(s@),
                None => None,
            },
        ) {
            Some(v) => r is Some && r->0@ == v,
            None => r is None,
        },
{
    match env_key {
        Some(k) => {
            if !k.as_str().is_empty() {
                return Some(k);
            }
        },
        None => {},
    }
    match cwd_file {
        Some(c) => {
            match read_env_content(c.as_str()) {
                Some(k) => {
                    return Some(k);
                },
                None => {},
            }
        },
        None => {},
    }
    match home_file {
        Some(c) => {
            match read_env_content(c.as_str()) {
                Some(k) => {
                    return Some(k);
                },
                None => {},
            }
        },
        None => {},
    }
    None
}

/// One framed line of the event stream.
pub enum SseLine {
    /// Blank lines, comment lines and other event fields carry no text.
    Skip,
    /// The literal completion marker ends the stream.
    Done,
    /// A data line carries a payload to decode and forward.
    Data(String),
}

/// Splits the first full line off the receive buffer, trimmed, as the
/// dispatcher consumes it; the buffer keeps what follows the newline.
pub fn take_line(buf: &mut String) -> (r: Option<String>)
    ensures
        ({
            let s = old(buf)@;
            let i = find_ch(s, '\n');
            if i < s.len() {
                r is Some && r->0@ == trim_spec(s.take(i)) && final(buf)@ == s.skip(i + 1)
            } else {
                r is None && final(buf)@ == s
            }
        }),
{
    let v = chars_vec(buf.as_str());
    let i = find_char_from(&v, '\n', 0);
    proof {
        assert(v@.skip(0) =~= v@);
        lemma_find_ch(v@, '\n');
    }
    if i == v.len() {
        return None;
    }
    let line = subvec(&v, 0, i);
    let line = trim_vec(&line);
    let rest = subvec(&v, i + 1, v.len());
    *buf = string_of_chars(rest.as_slice());
    proof {
        assert(v@.subrange(0, i as int) =~= v@.take(i as int));
        assert(v@.subrange(i + 1, v@.len() as int) =~= v@.skip(i + 1));
    }
    Some(string_of_chars(line.as_slice()))
}

/// Classifies one trimmed stream line: empty and comment lines are
/// skipped, a data line either ends the stream (the completion marker) or
/// carries its payload, and any other field line is skipped.
pub fn sse_line(line: &str) -> (r: SseLine)
    ensures
        ({
            let s = line@;
            if s.len() == 0 || s[0] == ':' {
                r is Skip
            } else if starts_with_seq(s, "data: "@) {
                let p = s.skip(6);
                if p == "[DONE]"@ {
                    r is Done
                } else {
                    r is Data && r->0@ == p
                }
            } else {
                r is Skip
            }
        }),
{
    let v = chars_vec(line);
    if v.len() == 0 {
        return SseLine::Skip;
    }
    if v[0] == ':' {
        return SseLine::Skip;
    }
    let marker = chars_vec("data: ");
    proof {
        reveal_strlit("data: ");
    }
    if !starts_with_chars(&v, &marker) {
        return SseLine::Skip;
    }
    let payload = subvec(&v, 6, v.len());
    let done = chars_vec("[DONE]");
    proof {
        assert(v@.subrange(6, v@.len() as int) =~= v@.skip(6));
    }
    if crate::text::chars_eq(&payload, &done) {
        SseLine::Done
    } else {
        SseLine::Data(string_of_chars(payload.as_slice()))
    }
}

} // verus!
