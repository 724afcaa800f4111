//! The session state machine: one active mode out of five, each owning its
//! query buffer, result list, selection and scroll; every input event is a
//! pure transition on this state, and the one result of a session is the
//! selected destination exposed when it ends.

use vstd::prelude::*;

use crate::chat::{msg_views, ChatMessage};
use crate::citations::{cit_views, citations_spec, Citation};
use crate::rag::{RagChunk, RagIndex};
use crate::search::{
    context_of, entries_of, entry_triples, rank_strings, ranked_strings_post, search_post,
    LoadedFile, SearchEntry, Searcher,
};
use crate::text::{
    chars_vec, contains_seq, contains_sub, copy_offsets, lower_of, lowercase, pop_char, push_char,
    str_eq,
};

verus! {

/// The five mutually exclusive interaction states.
#[derive(Debug, Clone, Copy, PartialEq, Eq, Structural)]
pub enum Mode {
    Search,
    Chat,
    Citations,
    DirectoryPicker,
    QuickAnswer,
}

/// The whole per-session state.
pub struct App {
    pub query: String,
    pub results: Vec<SearchEntry>,
    pub selected: usize,
    pub scroll_offset: usize,
    pub should_quit: bool,
    pub selected_entry: Option<SearchEntry>,
    pub cwd: String,
    pub entry_count: usize,
    pub mode: Mode,
    pub chat_input: String,
    pub chat_messages: Vec<ChatMessage>,
    pub chat_response: String,
    pub chat_streaming: bool,
    pub chat_scroll: usize,
    pub md_context: String,
    pub api_key: Option<String>,
    pub citations: Vec<Citation>,
    pub citations_query: String,
    pub citations_filtered: Vec<Citation>,
    pub citations_selected: usize,
    pub searcher: Searcher,
    pub loaded_files: Vec<LoadedFile>,
    pub rag_index: Option<RagIndex>,
    pub dir_entries: Vec<String>,
    pub dir_filtered: Vec<String>,
    pub dir_query: String,
    pub dir_selected: usize,
    pub dir_scroll: usize,
    pub original_cwd: String,
    pub quick_query: String,
    pub quick_response: String,
    pub quick_streaming: bool,
    pub quick_sources: Vec<RagChunk>,
    pub quick_sources_expanded: bool,
    pub quick_sources_selected: usize,
}

/// How many citations the citations pane currently lists: the filtered
/// list while a filter query is typed, the full list otherwise.
pub open spec fn cit_count_spec(s: App) -> int {
    if s.citations_query@.len() == 0 {
        s.citations@.len() as int
    } else {
        s.citations_filtered@.len() as int
    }
}

/// How many directories the picker currently lists.
pub open spec fn dir_count_spec(s: App) -> int {
    if s.dir_query@.len() == 0 {
        s.dir_entries@.len() as int
    } else {
        s.dir_filtered@.len() as int
    }
}

/// The fields of the search pane.
pub open spec fn same_search(a: App, b: App) -> bool {
    a.query == b.query && a.results == b.results && a.selected == b.selected && a.scroll_offset
        == b.scroll_offset
}

/// The fields of the chat pane.
pub open spec fn same_chat(a: App, b: App) -> bool {
    a.chat_input == b.chat_input && a.chat_messages == b.chat_messages && a.chat_response
        == b.chat_response && a.chat_streaming == b.chat_streaming && a.chat_scroll == b.chat_scroll
}

/// The fields of the citations pane.
pub open spec fn same_cits(a: App, b: App) -> bool {
    a.citations == b.citations && a.citations_query == b.citations_query && a.citations_filtered
        == b.citations_filtered && a.citations_selected == b.citations_selected
}

/// The fields of the directory picker.
pub open spec fn same_dir(a: App, b: App) -> bool {
    a.dir_entries == b.dir_entries && a.dir_filtered == b.dir_filtered && a.dir_query == b.dir_query
        && a.dir_selected == b.dir_selected && a.dir_scroll == b.dir_scroll
}

/// The fields of the quick-answer pane.
pub open spec fn same_quick(a: App, b: App) -> bool {
    a.quick_query == b.quick_query && a.quick_response == b.quick_response && a.quick_streaming
        == b.quick_streaming && a.quick_sources == b.quick_sources && a.quick_sources_expanded
        == b.quick_sources_expanded && a.quick_sources_selected == b.quick_sources_selected
}

/// The corpus and its derived state.
pub open spec fn same_corpus(a: App, b: App) -> bool {
    a.cwd == b.cwd && a.original_cwd == b.original_cwd && a.entry_count == b.entry_count
        && a.md_context == b.md_context && a.api_key == b.api_key && a.searcher == b.searcher
        && a.loaded_files == b.loaded_files && a.rag_index == b.rag_index
}

/// The session's outward flow: whether it ends, and with which destination.
pub open spec fn same_flow(a: App, b: App) -> bool {
    a.should_quit == b.should_quit && a.selected_entry == b.selected_entry
}

impl App {
    /// Every selection index stays below the length of its mode's current
    /// list (and is zero when that list is empty); outside the citations
    /// pane its filter query is empty and its selection rests at zero.
    pub open spec fn wf(self) -> bool {
        &&& (self.results@.len() == 0 ==> self.selected == 0)
        &&& (self.results@.len() > 0 ==> self.selected < self.results@.len())
        &&& (cit_count_spec(self) == 0 ==> self.citations_selected == 0)
        &&& (cit_count_spec(self) > 0 ==> self.citations_selected < cit_count_spec(self))
        &&& (dir_count_spec(self) == 0 ==> self.dir_selected == 0)
        &&& (dir_count_spec(self) > 0 ==> self.dir_selected < dir_count_spec(self))
        &&& (self.quick_sources@.len() == 0 ==> self.quick_sources_selected == 0)
        &&& (self.quick_sources@.len() > 0 ==> self.quick_sources_selected
            < self.quick_sources@.len())
        &&& (self.mode != Mode::Citations ==> self.citations_query@.len() == 0
            && self.citations_selected == 0)
    }

    /// Opens a session over a loaded corpus: builds the fuzzy line index
    /// and the chat preamble context, stores the semantic index and the
    /// resolved key, and starts in search mode with everything empty.
    pub fn new(
        cwd: String,
        files: Vec<LoadedFile>,
        api_key: Option<String>,
        rag_index: Option<RagIndex>,
    ) -> (r: App)
        ensures
            r.wf(),
            r.mode == Mode::Search,
            r.query@.len() == 0,
            r.results@.len() == 0,
            r.selected == 0,
            r.scroll_offset == 0,
            !r.should_quit,
            r.selected_entry is None,
            r.cwd == cwd,
            r.original_cwd@ == cwd@,
            entry_triples(r.searcher.entries_view()) == entries_of(files@, 0),
            r.entry_count == r.searcher.entries_view().len(),
            r.md_context@ == context_of(files@, 0),
            r.api_key == api_key,
            r.loaded_files == files,
            r.rag_index == rag_index,
            r.chat_input@.len() == 0 && r.chat_messages@.len() == 0 && r.chat_response@.len() == 0
                && !r.chat_streaming && r.chat_scroll == 0,
            r.citations@.len() == 0 && r.citations_query@.len() == 0
                && r.citations_filtered@.len() == 0 && r.citations_selected == 0,
            r.dir_entries@.len() == 0 && r.dir_filtered@.len() == 0 && r.dir_query@.len() == 0
                && r.dir_selected == 0 && r.dir_scroll == 0,
            r.quick_query@.len() == 0 && r.quick_response@.len() == 0 && !r.quick_streaming
                && r.quick_sources@.len() == 0 && !r.quick_sources_expanded
                && r.quick_sources_selected == 0,
    {
        let searcher = Searcher::from_files(&files);
        let entry_count = searcher.entry_count();
        let md_context = crate::search::build_context(&files);
        let original_cwd = cwd.clone();
        App {
            query: String::new(),
            results: Vec::new(),
            selected: 0,
            scroll_offset: 0,
            should_quit: false,
            selected_entry: None,
            cwd,
            entry_count,
            mode: Mode::Search,
            chat_input: String::new(),
            chat_messages: Vec::new(),
            chat_response: String::new(),
            chat_streaming: false,
            chat_scroll: 0,
            md_context,
            api_key,
            citations: Vec::new(),
            citations_query: String::new(),
            citations_filtered: Vec::new(),
            citations_selected: 0,
            searcher,
            loaded_files: files,
            rag_index,
            dir_entries: Vec::new(),
            dir_filtered: Vec::new(),
            dir_query: String::new(),
            dir_selected: 0,
            dir_scroll: 0,
            original_cwd,
            quick_query: String::new(),
            quick_response: String::new(),
            quick_streaming: false,
            quick_sources: Vec::new(),
            quick_sources_expanded: false,
            quick_sources_selected: 0,
        }
    }

    /// Moves the selection or scroll of the active pane one step up.
    pub fn on_up(&mut self)
        requires
            old(self).wf(),
        ensures
            final(self).wf(),
            ({
                let s = *old(self);
                let t = *final(self);
                &&& same_corpus(s, t)
                &&& same_flow(s, t)
                &&& t.mode == s.mode
                &&& match s.mode {
                    Mode::Search => {
                        &&& same_chat(s, t) && same_cits(s, t) && same_dir(s, t) && same_quick(s, t)
                        &&& t.query == s.query && t.results == s.results
                        &&& if s.selected > 0 {
                            t.selected == s.selected - 1 && t.scroll_offset == (if s.selected - 1
                                < s.scroll_offset {
                                s.selected - 1
                            } else {
                                s.scroll_offset as int
                            })
                        } else {
                            t.selected == s.selected && t.scroll_offset == s.scroll_offset
                        }
                    },
                    Mode::Chat => {
                        &&& same_search(s, t) && same_cits(s, t) && same_dir(s, t) && same_quick(
                            s,
                            t,
                        )
                        &&& t.chat_input == s.chat_input && t.chat_messages == s.chat_messages
                            && t.chat_response == s.chat_response && t.chat_streaming
                            == s.chat_streaming
                        &&& t.chat_scroll == (if s.chat_scroll > 0 {
                            s.chat_scroll - 1
                        } else {
                            s.chat_scroll as int
                        })
                    },
                    Mode::Citations => {
                        &&& same_search(s, t) && same_chat(s, t) && same_dir(s, t) && same_quick(
                            s,
                            t,
                        )
                        &&& t.citations == s.citations && t.citations_query == s.citations_query
                            && t.citations_filtered == s.citations_filtered
                        &&& t.citations_selected == (if s.citations_selected > 0 {
                            s.citations_selected - 1
                        } else {
                            s.citations_selected as int
                        })
                    },
                    Mode::DirectoryPicker => {
                        &&& same_search(s, t) && same_chat(s, t) && same_cits(s, t) && same_quick(
                            s,
                            t,
                        )
                        &&& t.dir_entries == s.dir_entries && t.dir_filtered == s.dir_filtered
                            && t.dir_query == s.dir_query
                        &&& if s.dir_selected > 0 {
                            t.dir_selected == s.dir_selected - 1 && t.dir_scroll == (if
                            s.dir_selected - 1 < s.dir_scroll {
                                s.dir_selected - 1
                            } else {
                                s.dir_scroll as int
                            })
                        } else {
                            t.dir_selected == s.dir_selected && t.dir_scroll == s.dir_scroll
                        }
                    },
                    Mode::QuickAnswer => same_search(s, t) && same_chat(s, t) && same_cits(s, t)
                        && same_dir(s, t) && same_quick(s, t),
                }
            }),
    {
        match self.mode {
            Mode::Search => {
                if self.selected > 0 {
                    self.selected = self.selected - 1;
                    if self.selected < self.scroll_offset {
                        self.scroll_offset = self.selected;
                    }
                }
            },
            Mode::Chat => {
                if self.chat_scroll > 0 {
                    self.chat_scroll = self.chat_scroll - 1;
                }
            },
            Mode::Citations => {
                if self.citations_selected > 0 {
                    self.citations_selected = self.citations_selected - 1;
                }
            },
            Mode::DirectoryPicker => {
                if self.dir_selected > 0 {
                    self.dir_selected = self.dir_selected - 1;
                    if self.dir_selected < self.dir_scroll {
                        self.dir_scroll = self.dir_selected;
                    }
                }
            },
            Mode::QuickAnswer => {},
        }
    }

    /// Moves the selection or scroll of the active pane one step down,
    /// keeping the selection inside the pane's list and scrolling so it
    /// stays among the `visible_count` shown rows.
    pub fn on_down(&mut self, visible_count: usize)
        requires
            old(self).wf(),
            old(self).mode == Mode::Chat ==> old(self).chat_scroll < usize::MAX,
        ensures
            final(self).wf(),
            ({
                let s = *old(self);
                let t = *final(self);
                &&& same_corpus(s, t)
                &&& same_flow(s, t)
                &&& t.mode == s.mode
                &&& match s.mode {
                    Mode::Search => {
                        &&& same_chat(s, t) && same_cits(s, t) && same_dir(s, t) && same_quick(s, t)
                        &&& t.query == s.query && t.results == s.results
                        &&& if s.selected + 1 < s.results@.len() {
                            t.selected == s.selected + 1 && t.scroll_offset == (if s.selected + 1
                                >= s.scroll_offset + visible_count {
                                s.selected + 2 - visible_count
                            } else {
                                s.scroll_offset as int
                            })
                        } else {
                            t.selected == s.selected && t.scroll_offset == s.scroll_offset
                        }
                    },
                    Mode::Chat => {
                        &&& same_search(s, t) && same_cits(s, t) && same_dir(s, t) && same_quick(
                            s,
                            t,
                        )
                        &&& t.chat_input == s.chat_input && t.chat_messages == s.chat_messages
                            && t.chat_response == s.chat_response && t.chat_streaming
                            == s.chat_streaming
                        &&& t.chat_scroll == s.chat_scroll + 1
                    },
                    Mode::Citations => {
                        &&& same_search(s, t) && same_chat(s, t) && same_dir(s, t) && same_quick(
                            s,
                            t,
                        )
                        &&& t.citations == s.citations && t.citations_query == s.citations_query
                            && t.citations_filtered == s.citations_filtered
                        &&& t.citations_selected == (if s.citations_selected + 1 < cit_count_spec(
                            s,
                        ) {
                            s.citations_selected + 1
                        } else {
                            s.citations_selected as int
                        })
                    },
                    Mode::DirectoryPicker => {
                        &&& same_search(s, t) && same_chat(s, t) && same_cits(s, t) && same_quick(
                            s,
                            t,
                        )
                        &&& t.dir_entries == s.dir_entries && t.dir_filtered == s.dir_filtered
                            && t.dir_query == s.dir_query
                        &&& if s.dir_selected + 1 < dir_count_spec(s) {
                            t.dir_selected == s.dir_selected + 1 && t.dir_scroll == (if
                            s.dir_selected + 1 >= s.dir_scroll + visible_count {
                                s.dir_selected + 2 - visible_count
                            } else {
                                s.dir_scroll as int
                            })
                        } else {
                            t.dir_selected == s.dir_selected && t.dir_scroll == s.dir_scroll
                        }
                    },
                    Mode::QuickAnswer => same_search(s, t) && same_chat(s, t) && same_cits(s, t)
                        && same_dir(s, t) && same_quick(s, t),
                }
            }),
    {
        match self.mode {
            Mode::Search => {
                let len = self.results.len();
                if self.selected + 1 < len {
                    self.selected = self.selected + 1;
                    if self.selected >= self.scroll_offset && self.selected - self.scroll_offset
                        >= visible_count {
                        self.scroll_offset = self.selected - visible_count + 1;
                    }
                }
            },
            Mode::Chat => {
                self.chat_scroll = self.chat_scroll + 1;
            },
            Mode::Citations => {
                let count = self.citations_count();
                if self.citations_selected + 1 < count {
                    self.citations_selected = self.citations_selected + 1;
                }
            },
            Mode::DirectoryPicker => {
                let count = if self.dir_query.as_str().is_empty() {
                    self.dir_entries.len()
                } else {
                    self.dir_filtered.len()
                };
                if self.dir_selected + 1 < count {
                    self.dir_selected = self.dir_selected + 1;
                    if self.dir_selected >= self.dir_scroll && self.dir_selected - self.dir_scroll
                        >= visible_count {
                        self.dir_scroll = self.dir_selected - visible_count + 1;
                    }
                }
            },
            Mode::QuickAnswer => {},
        }
    }

    /// How many citations the citations pane currently lists.
    pub fn citations_count(&self) -> (n: usize)
        ensures
            n == cit_count_spec(*self),
    {
        if self.citations_query.as_str().is_empty() {
            self.citations.len()
        } else {
            self.citations_filtered.len()
        }
    }

    /// Confirms the selected search result: it becomes the session's
    /// destination and the session ends.  Without results nothing happens.
    pub fn on_enter(&mut self)
        requires
            old(self).wf(),
        ensures
            final(self).wf(),
            ({
                let s = *old(self);
                let t = *final(self);
                &&& same_corpus(s, t) && same_search(s, t) && same_chat(s, t) && same_cits(s, t)
                    && same_dir(s, t) && same_quick(s, t)
                &&& t.mode == s.mode
                &&& if s.selected < s.results@.len() {
                    &&& t.should_quit
                    &&& t.selected_entry is Some
                    &&& t.selected_entry->0.file@ == s.results@[s.selected as int].file@
                    &&& t.selected_entry->0.line_num == s.results@[s.selected as int].line_num
                    &&& t.selected_entry->0.content@ == s.results@[s.selected as int].content@
                    &&& t.selected_entry->0.match_indices@ == s.results@[
                        s.selected as int].match_indices@
                } else {
                    same_flow(s, t)
                }
            }),
    {
        if self.selected < self.results.len() {
            let e = &self.results[self.selected];
            self.selected_entry = Some(
                SearchEntry {
                    file: e.file.clone(),
                    line_num: e.line_num,
                    content: e.content.clone(),
                    match_indices: copy_offsets(&e.match_indices),
                },
            );
            self.should_quit = true;
        }
    }

    /// Opens the citation chosen in the citations pane: a placeholder
    /// entry at its file and line becomes the destination and the session
    /// ends, so the host can open it.
    pub fn jump_to_citation(&mut self, idx: usize)
        requires
            old(self).wf(),
        ensures
            final(self).wf(),
            ({
                let s = *old(self);
                let t = *final(self);
                let list = if s.citations_query@.len() == 0 {
                    s.citations@
                } else {
                    s.citations_filtered@
                };
                &&& same_corpus(s, t) && same_search(s, t) && same_chat(s, t) && same_cits(s, t)
                    && same_dir(s, t) && same_quick(s, t)
                &&& t.mode == s.mode
                &&& if idx < list.len() {
                    &&& t.should_quit
                    &&& t.selected_entry is Some
                    &&& t.selected_entry->0.file@ == list[idx as int].file@
                    &&& t.selected_entry->0.line_num == list[idx as int].line
                    &&& t.selected_entry->0.content@.len() == 0
                    &&& t.selected_entry->0.match_indices@.len() == 0
                } else {
                    same_flow(s, t)
                }
            }),
    {
        let list_len = if self.citations_query.as_str().is_empty() {
            self.citations.len()
        } else {
            self.citations_filtered.len()
        };
        if idx < list_len {
            let c = if self.citations_query.as_str().is_empty() {
                &self.citations[idx]
            } else {
                &self.citations_filtered[idx]
            };
            self.selected_entry = Some(
                SearchEntry {
                    file: c.file.clone(),
                    line_num: c.line,
                    content: String::new(),
                    match_indices: Vec::new(),
                },
            );
            self.should_quit = true;
        }
    }

    /// Enters the citations pane, with a fresh filter; possible only when
    /// at least one citation exists.
    pub fn enter_citations_mode(&mut self)
        requires
            old(self).wf(),
        ensures
            final(self).wf(),
            ({
                let s = *old(self);
                let t = *final(self);
                &&& same_corpus(s, t) && same_search(s, t) && same_chat(s, t) && same_dir(s, t)
                    && same_quick(s, t) && same_flow(s, t)
                &&& if s.citations@.len() > 0 {
                    &&& t.mode == Mode::Citations
                    &&& t.citations == s.citations
                    &&& t.citations_query@.len() == 0
                    &&& t.citations_filtered@.len() == 0
                    &&& t.citations_selected == 0
                } else {
                    t.mode == s.mode && same_cits(s, t)
                }
            }),
    {
        if self.citations.len() > 0 {
            self.mode = Mode::Citations;
            self.citations_query = String::new();
            self.citations_filtered = Vec::new();
            self.citations_selected = 0;
        }
    }
}

/// Whether a citation's file name contains the query, both lowercased.
pub open spec fn cit_matches(c: Citation, q: Seq<char>) -> bool {
    contains_seq(lower_of(c.file@), lower_of(q))
}

/// The citations whose file names contain the query, in order.
pub open spec fn filter_cits(cits: Seq<Citation>, q: Seq<char>) -> Seq<Citation>
    decreases cits.len(),
{
    if cits.len() == 0 {
        Seq::empty()
    } else {
        filter_cits(cits.drop_last(), q) + if cit_matches(cits.last(), q) {
            seq![cits.last()]
        } else {
            Seq::empty()
        }
    }
}

impl App {
    /// Rebuilds the filtered citation list: with an empty filter it is
    /// cleared, otherwise it keeps the citations whose file names contain
    /// the filter, case-insensitively; the selection resets.
    pub fn filter_citations(&mut self)
        ensures
            ({
                let s = *old(self);
                let t = *final(self);
                &&& same_corpus(s, t) && same_search(s, t) && same_chat(s, t) && same_dir(s, t)
                    && same_quick(s, t) && same_flow(s, t)
                &&& t.mode == s.mode
                &&& t.citations == s.citations && t.citations_query == s.citations_query
                &&& t.citations_selected == 0
                &&& if s.citations_query@.len() == 0 {
                    t.citations_filtered@.len() == 0
                } else {
                    t.citations_filtered@ == filter_cits(s.citations@, s.citations_query@)
                }
            }),
    {
        if self.citations_query.as_str().is_empty() {
            self.citations_filtered = Vec::new();
            self.citations_selected = 0;
            return ;
        }
        let q_lower = lowercase(self.citations_query.as_str());
        let q_chars = chars_vec(q_lower.as_str());
        let ghost q = self.citations_query@;
        let ghost cits = self.citations@;
        let mut kept: Vec<Citation> = Vec::new();
        let mut i: usize = 0;
        proof {
            assert(cits.take(0) =~= Seq::<Citation>::empty());
            assert(kept@ =~= filter_cits(cits.take(0), q));
        }
        while i < self.citations.len()
            invariant
                i <= cits.len(),
                cits == self.citations@,
                q == self.citations_query@,
                q_chars@ == lower_of(q),
                kept@ == filter_cits(cits.take(i as int), q),
            decreases cits.len() - i,
        {
            let c = &self.citations[i];
            let f_lower = lowercase(c.file.as_str());
            let f_chars = chars_vec(f_lower.as_str());
            if contains_sub(&f_chars, &q_chars) {
                kept.push(Citation { file: c.file.clone(), line: c.line });
                proof {
                    assert(kept@.last() == cits[i as int]);
                    assert(kept@ =~= filter_cits(cits.take(i as int), q) + seq![cits[i as int]]);
                }
            }
            proof {
                assert(cits.take(i + 1).drop_last() =~= cits.take(i as int));
                assert(cits.take(i + 1).last() == cits[i as int]);
                assert(kept@ =~= filter_cits(cits.take(i + 1), q));
            }
            i = i + 1;
        }
        proof {
            assert(cits.take(cits.len() as int) =~= cits);
        }
        self.citations_filtered = kept;
        self.citations_selected = 0;
    }

    /// Extracts the citations of the finished chat response,
    /// deduplicated in order of first appearance; the pane's selection is
    /// clamped into the new list.
    pub fn parse_citations(&mut self)
        requires
            old(self).wf(),
        ensures
            final(self).wf(),
            ({
                let s = *old(self);
                let t = *final(self);
                &&& same_corpus(s, t) && same_search(s, t) && same_chat(s, t) && same_dir(s, t)
                    && same_quick(s, t) && same_flow(s, t)
                &&& t.mode == s.mode
                &&& cit_views(t.citations@) == citations_spec(s.chat_response@)
                &&& t.citations_query == s.citations_query && t.citations_filtered
                    == s.citations_filtered
                &&& t.citations_selected == (if s.citations_selected < cit_count_spec(t) {
                    s.citations_selected as int
                } else {
                    0int
                })
            }),
    {
        self.citations = crate::citations::parse_citations(self.chat_response.as_str());
        let count = self.citations_count();
        if self.citations_selected >= count {
            self.citations_selected = 0;
        }
    }
}

impl App {
    /// Refreshes the search results for the current query: an empty query
    /// shows nothing, any other is ranked by the fuzzy line index; the
    /// selection and scroll reset.
    fn update_search(&mut self)
        ensures
            ({
                let s = *old(self);
                let t = *final(self);
                &&& same_corpus(s, t) && same_chat(s, t) && same_cits(s, t) && same_dir(s, t)
                    && same_quick(s, t) && same_flow(s, t)
                &&& t.mode == s.mode
                &&& t.query == s.query
                &&& t.selected == 0 && t.scroll_offset == 0
                &&& search_post(s.searcher.entries_view(), s.query@, t.results@)
            }),
    {
        self.selected = 0;
        self.scroll_offset = 0;
        if self.query.as_str().is_empty() {
            self.results = Vec::new();
        } else {
            let r = self.searcher.search(self.query.as_str());
            self.results = r;
        }
    }

    /// Feeds one typed character to the active pane: in search, the two
    /// reserved characters switch to chat (always) or quick answer (only
    /// on an empty query) and are never entered into the query; everywhere
    /// else the character extends that pane's buffer, re-filtering where
    /// the pane filters, and is ignored while a stream is under way.
    pub fn on_char(&mut self, c: char)
        requires
            old(self).wf(),
        ensures
            final(self).wf(),
            ({
                let s = *old(self);
                let t = *final(self);
                &&& same_corpus(s, t) && same_flow(s, t)
                &&& match s.mode {
                    Mode::Search => {
                        if c == '?' {
                            &&& t.mode == Mode::Chat
                            &&& same_search(s, t) && same_chat(s, t) && same_cits(s, t) && same_dir(
                                s,
                                t,
                            ) && same_quick(s, t)
                        } else if c == '@' && s.query@.len() == 0 {
                            &&& t.mode == Mode::QuickAnswer
                            &&& same_search(s, t) && same_chat(s, t) && same_cits(s, t) && same_dir(
                                s,
                                t,
                            )
                            &&& t.quick_query@.len() == 0 && t.quick_response@.len() == 0
                            &&& t.quick_streaming == s.quick_streaming && t.quick_sources
                                == s.quick_sources && t.quick_sources_expanded
                                == s.quick_sources_expanded && t.quick_sources_selected
                                == s.quick_sources_selected
                        } else {
                            &&& t.mode == Mode::Search
                            &&& same_chat(s, t) && same_cits(s, t) && same_dir(s, t) && same_quick(
                                s,
                                t,
                            )
                            &&& t.query@ == s.query@.push(c)
                            &&& t.selected == 0 && t.scroll_offset == 0
                            &&& search_post(s.searcher.entries_view(), t.query@, t.results@)
                        }
                    },
                    Mode::Chat => {
                        &&& t.mode == s.mode
                        &&& same_search(s, t) && same_cits(s, t) && same_dir(s, t) && same_quick(
                            s,
                            t,
                        )
                        &&& if !s.chat_streaming {
                            t.chat_input@ == s.chat_input@.push(c) && t.chat_messages
                                == s.chat_messages && t.chat_response == s.chat_response
                                && t.chat_streaming == s.chat_streaming && t.chat_scroll
                                == s.chat_scroll
                        } else {
                            same_chat(s, t)
                        }
                    },
                    Mode::Citations => {
                        &&& t.mode == s.mode
                        &&& same_search(s, t) && same_chat(s, t) && same_dir(s, t) && same_quick(
                            s,
                            t,
                        )
                        &&& t.citations == s.citations
                        &&& t.citations_query@ == s.citations_query@.push(c)
                        &&& t.citations_selected == 0
                        &&& t.citations_filtered@ == filter_cits(
                            s.citations@,
                            s.citations_query@.push(c),
                        )
                    },
                    Mode::DirectoryPicker => {
                        &&& t.mode == s.mode
                        &&& same_search(s, t) && same_chat(s, t) && same_cits(s, t) && same_quick(
                            s,
                            t,
                        )
                        &&& t.dir_entries == s.dir_entries
                        &&& t.dir_query@ == s.dir_query@.push(c)
                        &&& t.dir_selected == 0 && t.dir_scroll == 0
                        &&& ranked_strings_post(s.dir_entries@, t.dir_query@, t.dir_filtered@)
                    },
                    Mode::QuickAnswer => {
                        &&& t.mode == s.mode
                        &&& same_search(s, t) && same_chat(s, t) && same_cits(s, t) && same_dir(
                            s,
                            t,
                        )
                        &&& if !s.quick_streaming {
                            t.quick_query@ == s.quick_query@.push(c) && t.quick_response
                                == s.quick_response && t.quick_streaming == s.quick_streaming
                                && t.quick_sources == s.quick_sources && t.quick_sources_expanded
                                == s.quick_sources_expanded && t.quick_sources_selected
                                == s.quick_sources_selected
                        } else {
                            same_quick(s, t)
                        }
                    },
                }
            }),
    {
        match self.mode {
            Mode::Search => {
                if c == '?' {
                    self.mode = Mode::Chat;
                } else if c == '@' && self.query.as_str().is_empty() {
                    self.mode = Mode::QuickAnswer;
                    self.quick_query = String::new();
                    self.quick_response = String::new();
                } else {
                    push_char(&mut self.query, c);
                    self.update_search();
                }
            },
            Mode::Chat => {
                if !self.chat_streaming {
                    push_char(&mut self.chat_input, c);
                }
            },
            Mode::Citations => {
                push_char(&mut self.citations_query, c);
                self.filter_citations();
            },
            Mode::DirectoryPicker => {
                push_char(&mut self.dir_query, c);
                self.filter_directories();
            },
            Mode::QuickAnswer => {
                if !self.quick_streaming {
                    push_char(&mut self.quick_query, c);
                }
            },
        }
    }

    /// Deletes the last character of the active pane's buffer, with the
    /// same re-filtering as typing; in quick answer an empty buffer
    /// returns to search instead.
    pub fn on_backspace(&mut self)
        requires
            old(self).wf(),
        ensures
            final(self).wf(),
            ({
                let s = *old(self);
                let t = *final(self);
                &&& same_corpus(s, t) && same_flow(s, t)
                &&& match s.mode {
                    Mode::Search => {
                        &&& t.mode == s.mode
                        &&& same_chat(s, t) && same_cits(s, t) && same_dir(s, t) && same_quick(s, t)
                        &&& t.query@ == (if s.query@.len() == 0 {
                            s.query@
                        } else {
                            s.query@.drop_last()
                        })
                        &&& t.selected == 0 && t.scroll_offset == 0
                        &&& search_post(s.searcher.entries_view(), t.query@, t.results@)
                    },
                    Mode::Chat => {
                        &&& t.mode == s.mode
                        &&& same_search(s, t) && same_cits(s, t) && same_dir(s, t) && same_quick(
                            s,
                            t,
                        )
                        &&& if !s.chat_streaming {
                            t.chat_input@ == (if s.chat_input@.len() == 0 {
                                s.chat_input@
                            } else {
                                s.chat_input@.drop_last()
                            }) && t.chat_messages == s.chat_messages && t.chat_response
                                == s.chat_response && t.chat_streaming == s.chat_streaming
                                && t.chat_scroll == s.chat_scroll
                        } else {
                            same_chat(s, t)
                        }
                    },
                    Mode::Citations => {
                        &&& t.mode == s.mode
                        &&& same_search(s, t) && same_chat(s, t) && same_dir(s, t) && same_quick(
                            s,
                            t,
                        )
                        &&& t.citations == s.citations
                        &&& t.citations_query@ == (if s.citations_query@.len() == 0 {
                            s.citations_query@
                        } else {
                            s.citations_query@.drop_last()
                        })
                        &&& t.citations_selected == 0
                        &&& if t.citations_query@.len() == 0 {
                            t.citations_filtered@.len() == 0
                        } else {
                            t.citations_filtered@ == filter_cits(s.citations@, t.citations_query@)
                        }
                    },
                    Mode::DirectoryPicker => {
                        &&& t.mode == s.mode
                        &&& same_search(s, t) && same_chat(s, t) && same_cits(s, t) && same_quick(
                            s,
                            t,
                        )
                        &&& t.dir_entries == s.dir_entries
                        &&& t.dir_query@ == (if s.dir_query@.len() == 0 {
                            s.dir_query@
                        } else {
                            s.dir_query@.drop_last()
                        })
                        &&& t.dir_selected == 0 && t.dir_scroll == 0
                        &&& if t.dir_query@.len() == 0 {
                            t.dir_filtered@.len() == 0
                        } else {
                            ranked_strings_post(s.dir_entries@, t.dir_query@, t.dir_filtered@)
                        }
                    },
                    Mode::QuickAnswer => {
                        &&& same_search(s, t) && same_chat(s, t) && same_cits(s, t) && same_dir(
                            s,
                            t,
                        )
                        &&& if !s.quick_streaming {
                            if s.quick_query@.len() == 0 {
                                t.mode == Mode::Search && same_quick(s, t)
                            } else {
                                t.mode == s.mode && t.quick_query@ == s.quick_query@.drop_last()
                                    && t.quick_response == s.quick_response && t.quick_streaming
                                    == s.quick_streaming && t.quick_sources == s.quick_sources
                                    && t.quick_sources_expanded == s.quick_sources_expanded
                                    && t.quick_sources_selected == s.quick_sources_selected
                            }
                        } else {
                            t.mode == s.mode && same_quick(s, t)
                        }
                    },
                }
            }),
    {
        match self.mode {
            Mode::Search => {
                pop_char(&mut self.query);
                self.update_search();
            },
            Mode::Chat => {
                if !self.chat_streaming {
                    pop_char(&mut self.chat_input);
                }
            },
            Mode::Citations => {
                pop_char(&mut self.citations_query);
                self.filter_citations();
            },
            Mode::DirectoryPicker => {
                pop_char(&mut self.dir_query);
                self.filter_directories();
            },
            Mode::QuickAnswer => {
                if !self.quick_streaming {
                    if self.quick_query.as_str().is_empty() {
                        self.mode = Mode::Search;
                    } else {
                        pop_char(&mut self.quick_query);
                    }
                }
            },
        }
    }

    /// Leaves the active pane: search ends the session; chat and quick
    /// answer fall back to search once no stream is under way, clearing
    /// their buffers; the citations pane falls back to chat and the
    /// picker to search, each clearing its filter.
    pub fn on_escape(&mut self)
        requires
            old(self).wf(),
        ensures
            final(self).wf(),
            ({
                let s = *old(self);
                let t = *final(self);
                &&& same_corpus(s, t)
                &&& match s.mode {
                    Mode::Search => {
                        &&& t.should_quit && t.selected_entry == s.selected_entry
                        &&& t.mode == s.mode
                        &&& same_search(s, t) && same_chat(s, t) && same_cits(s, t) && same_dir(
                            s,
                            t,
                        ) && same_quick(s, t)
                    },
                    Mode::Chat => {
                        &&& same_flow(s, t) && same_search(s, t) && same_cits(s, t) && same_dir(
                            s,
                            t,
                        ) && same_quick(s, t)
                        &&& if s.chat_streaming {
                            t.mode == s.mode && same_chat(s, t)
                        } else {
                            &&& t.mode == Mode::Search
                            &&& t.chat_input@.len() == 0
                            &&& t.chat_messages == s.chat_messages && t.chat_response
                                == s.chat_response && t.chat_streaming == s.chat_streaming
                                && t.chat_scroll == s.chat_scroll
                        }
                    },
                    Mode::Citations => {
                        &&& same_flow(s, t) && same_search(s, t) && same_chat(s, t) && same_dir(
                            s,
                            t,
                        ) && same_quick(s, t)
                        &&& t.mode == Mode::Chat
                        &&& t.citations == s.citations
                        &&& t.citations_query@.len() == 0
                        &&& t.citations_filtered@.len() == 0
                        &&& t.citations_selected == 0
                    },
                    Mode::DirectoryPicker => {
                        &&& same_flow(s, t) && same_search(s, t) && same_chat(s, t) && same_cits(
                            s,
                            t,
                        ) && same_quick(s, t)
                        &&& t.mode == Mode::Search
                        &&& t.dir_entries == s.dir_entries
                        &&& t.dir_query@.len() == 0
                        &&& t.dir_filtered@.len() == 0
                        &&& t.dir_selected == 0 && t.dir_scroll == 0
                    },
                    Mode::QuickAnswer => {
                        &&& same_flow(s, t) && same_search(s, t) && same_chat(s, t) && same_cits(
                            s,
                            t,
                        ) && same_dir(s, t)
                        &&& if s.quick_streaming {
                            t.mode == s.mode && same_quick(s, t)
                        } else {
                            &&& t.mode == Mode::Search
                            &&& t.quick_query@.len() == 0 && t.quick_response@.len() == 0
                            &&& t.quick_streaming == s.quick_streaming && t.quick_sources
                                == s.quick_sources && t.quick_sources_expanded
                                == s.quick_sources_expanded && t.quick_sources_selected
                                == s.quick_sources_selected
                        }
                    },
                }
            }),
    {
        match self.mode {
            Mode::Search => {
                self.should_quit = true;
            },
            Mode::Chat => {
                if self.chat_streaming {
                    return ;
                }
                self.mode = Mode::Search;
                self.chat_input = String::new();
            },
            Mode::Citations => {
                self.mode = Mode::Chat;
                self.citations_query = String::new();
                self.citations_filtered = Vec::new();
                self.citations_selected = 0;
            },
            Mode::DirectoryPicker => {
                self.mode = Mode::Search;
                self.dir_query = String::new();
                self.dir_filtered = Vec::new();
                self.dir_selected = 0;
                self.dir_scroll = 0;
            },
            Mode::QuickAnswer => {
                if self.quick_streaming {
                    return ;
                }
                self.mode = Mode::Search;
                self.quick_query = String::new();
                self.quick_response = String::new();
            },
        }
    }

    /// A click in the search pane: on a result row it either confirms the
    /// already selected row or moves the selection there, scrolling it
    /// into the `visible_count` shown rows; elsewhere it does nothing.
    pub fn on_click(&mut self, idx: usize, visible_count: usize)
        requires
            old(self).wf(),
        ensures
            final(self).wf(),
            ({
                let s = *old(self);
                let t = *final(self);
                &&& same_corpus(s, t) && same_chat(s, t) && same_cits(s, t) && same_dir(s, t)
                    && same_quick(s, t)
                &&& t.mode == s.mode
                &&& t.query == s.query && t.results == s.results
                &&& if s.mode != Mode::Search || idx >= s.results@.len() {
                    same_search(s, t) && same_flow(s, t)
                } else if idx == s.selected {
                    &&& t.selected == s.selected && t.scroll_offset == s.scroll_offset
                    &&& t.should_quit
                    &&& t.selected_entry is Some
                    &&& t.selected_entry->0.file@ == s.results@[s.selected as int].file@
                    &&& t.selected_entry->0.line_num == s.results@[s.selected as int].line_num
                    &&& t.selected_entry->0.content@ == s.results@[s.selected as int].content@
                    &&& t.selected_entry->0.match_indices@ == s.results@[
                        s.selected as int].match_indices@
                } else {
                    &&& same_flow(s, t)
                    &&& t.selected == idx
                    &&& t.scroll_offset == (if idx < s.scroll_offset {
                        idx as int
                    } else if idx >= s.scroll_offset + visible_count {
                        idx + 1 - visible_count
                    } else {
                        s.scroll_offset as int
                    })
                }
            }),
    {
        match self.mode {
            Mode::Search => {},
            _ => {
                return ;
            },
        }
        if idx >= self.results.len() {
            return ;
        }
        if idx == self.selected {
            self.on_enter();
        } else {
            self.selected = idx;
            if self.selected < self.scroll_offset {
                self.scroll_offset = self.selected;
            } else if self.selected >= self.scroll_offset && self.selected - self.scroll_offset
                >= visible_count {
                self.scroll_offset = self.selected - visible_count + 1;
            }
        }
    }
}

impl App {
    /// Rebuilds the filtered directory list: with an empty filter it is
    /// cleared, otherwise the snapshot is ranked against the filter with
    /// the same scoring as the line index; selection and scroll reset.
    pub fn filter_directories(&mut self)
        ensures
            ({
                let s = *old(self);
                let t = *final(self);
                &&& same_corpus(s, t) && same_search(s, t) && same_chat(s, t) && same_cits(s, t)
                    && same_quick(s, t) && same_flow(s, t)
                &&& t.mode == s.mode
                &&& t.dir_entries == s.dir_entries && t.dir_query == s.dir_query
                &&& t.dir_selected == 0 && t.dir_scroll == 0
                &&& if s.dir_query@.len() == 0 {
                    t.dir_filtered@.len() == 0
                } else {
                    ranked_strings_post(s.dir_entries@, s.dir_query@, t.dir_filtered@)
                }
            }),
    {
        if self.dir_query.as_str().is_empty() {
            self.dir_filtered = Vec::new();
            self.dir_selected = 0;
            self.dir_scroll = 0;
            return ;
        }
        let r = rank_strings(&self.dir_entries, self.dir_query.as_str());
        self.dir_filtered = r;
        self.dir_selected = 0;
        self.dir_scroll = 0;
    }

    /// Submits the chat input: it becomes a user message of the history,
    /// the buffers clear and streaming starts.  An empty input, a stream
    /// already under way, or a missing key leaves everything unchanged.
    pub fn start_chat(&mut self)
        requires
            old(self).wf(),
        ensures
            final(self).wf(),
            ({
                let s = *old(self);
                let t = *final(self);
                &&& same_corpus(s, t) && same_search(s, t) && same_cits(s, t) && same_dir(s, t)
                    && same_quick(s, t) && same_flow(s, t)
                &&& t.mode == s.mode
                &&& if s.chat_input@.len() == 0 || s.chat_streaming || s.api_key is None {
                    same_chat(s, t)
                } else {
                    &&& msg_views(t.chat_messages@) == msg_views(s.chat_messages@).push(
                        ("user"@, s.chat_input@),
                    )
                    &&& t.chat_input@.len() == 0
                    &&& t.chat_response@.len() == 0
                    &&& t.chat_streaming
                    &&& t.chat_scroll == 0
                }
            }),
    {
        if self.chat_input.as_str().is_empty() || self.chat_streaming || self.api_key.is_none() {
            return ;
        }
        let ghost prev = self.chat_messages@;
        let content = self.chat_input.clone();
        self.chat_messages.push(ChatMessage { role: String::from_str("user"), content });
        proof {
            assert(msg_views(self.chat_messages@) =~= msg_views(prev).push(
                ("user"@, old(self).chat_input@),
            ));
        }
        self.chat_input = String::new();
        self.chat_response = String::new();
        self.chat_streaming = true;
        self.chat_scroll = 0;
    }

    /// Consumes one fragment drained from the chat stream.  The reserved
    /// completion marker finalizes the response: streaming stops, the
    /// citations are re-extracted from the finished text, and an
    /// assistant message joins the history.  Any other fragment is
    /// appended to the response buffer - also after a cancellation, since
    /// cancelling never stops the in-flight delivery.
    pub fn append_response(&mut self, text: &str)
        requires
            old(self).wf(),
        ensures
            final(self).wf(),
            ({
                let s = *old(self);
                let t = *final(self);
                &&& same_corpus(s, t) && same_search(s, t) && same_dir(s, t) && same_quick(s, t)
                    && same_flow(s, t)
                &&& t.mode == s.mode
                &&& t.chat_input == s.chat_input && t.chat_scroll == s.chat_scroll
                &&& if text@ == "\n[DONE]"@ {
                    &&& !t.chat_streaming
                    &&& t.chat_response == s.chat_response
                    &&& cit_views(t.citations@) == citations_spec(s.chat_response@)
                    &&& t.citations_query == s.citations_query && t.citations_filtered
                        == s.citations_filtered
                    &&& t.citations_selected == (if s.citations_selected < cit_count_spec(t) {
                        s.citations_selected as int
                    } else {
                        0int
                    })
                    &&& msg_views(t.chat_messages@) == msg_views(s.chat_messages@).push(
                        ("assistant"@, s.chat_response@),
                    )
                } else {
                    &&& t.chat_response@ == s.chat_response@ + text@
                    &&& t.chat_streaming == s.chat_streaming
                    &&& t.chat_messages == s.chat_messages
                    &&& same_cits(s, t)
                }
            }),
    {
        if str_eq(text, "\n[DONE]") {
            self.chat_streaming = false;
            self.parse_citations();
            let ghost prev = self.chat_messages@;
            let content = self.chat_response.clone();
            self.chat_messages.push(ChatMessage { role: String::from_str("assistant"), content });
            proof {
                assert(msg_views(self.chat_messages@) =~= msg_views(prev).push(
                    ("assistant"@, old(self).chat_response@),
                ));
            }
        } else {
            self.chat_response.append(text);
        }
    }

    /// Cancels a running chat stream: streaming stops at once and a
    /// visible marker is appended to the response.  The background
    /// delivery is not stopped - a fragment arriving later still appends
    /// after the marker.
    pub fn cancel_streaming(&mut self)
        requires
            old(self).wf(),
        ensures
            final(self).wf(),
            ({
                let s = *old(self);
                let t = *final(self);
                &&& same_corpus(s, t) && same_search(s, t) && same_cits(s, t) && same_dir(s, t)
                    && same_quick(s, t) && same_flow(s, t)
                &&& t.mode == s.mode
                &&& t.chat_input == s.chat_input && t.chat_messages == s.chat_messages
                    && t.chat_scroll == s.chat_scroll
                &&& if s.chat_streaming {
                    !t.chat_streaming && t.chat_response@ == s.chat_response@ + "\n\n[cancelled]"@
                } else {
                    same_chat(s, t)
                }
            }),
    {
        if self.chat_streaming {
            self.chat_streaming = false;
            self.chat_response.append("\n\n[cancelled]");
        }
    }
}

/// The grounding block of the quick-answer request: each retrieved chunk
/// rendered as a tagged line, `[file:line] content`, separated by blank
/// lines.
pub open spec fn quick_ctx(chunks: Seq<RagChunk>, i: int) -> Seq<char>
    decreases chunks.len() - i when 0 <= i <= chunks.len()
{
    if i >= chunks.len() {
        Seq::empty()
    } else {
        seq!['['] + chunks[i].file@ + seq![':'] + crate::text::dec_rep(chunks[i].line as nat)
            + seq![']', ' '] + chunks[i].content@ + seq!['\n', '\n'] + quick_ctx(chunks, i + 1)
    }
}

impl App {
    /// The outbound conversation for a chat request: the system preamble
    /// embedding the whole tagged corpus, the full history, and the
    /// not-yet-submitted input as a trailing user message if non-empty.
    pub fn build_messages(&self) -> (r: Vec<ChatMessage>)
        ensures
            msg_views(r@) == seq![
                (
                    "system"@,
                    "You are a helpful assistant. Answer questions based on the following markdown documents.\n\nFORMATTING RULES:\n1. Use markdown formatting for better readability:\n   - Use **bold** for important terms and emphasis\n   - Use *italic* for technical terms or names\n   - Use ## headers to organize sections (only H2 and H3)\n   - Use bullet lists (- item) for multiple items\n   - Use numbered lists (1. 2. 3.) for sequential steps\n   - Use `code` for inline code, commands, or file names\n   - Use code blocks with ``` for multi-line code\n2. Keep responses concise and well-structured\n3. When referencing the documents, include citations using [file:line] format\n4. Place citations inline: \"The installation requires cargo [README.md:20]\"\n\nDOCUMENTS:\n"@
                        + self.md_context@,
                ),
            ] + msg_views(self.chat_messages@) + (if self.chat_input@.len() > 0 {
                seq![("user"@, self.chat_input@)]
            } else {
                Seq::empty()
            }),
    {
        let mut content = String::from_str(
            "You are a helpful assistant. Answer questions based on the following markdown documents.\n\nFORMATTING RULES:\n1. Use markdown formatting for better readability:\n   - Use **bold** for important terms and emphasis\n   - Use *italic* for technical terms or names\n   - Use ## headers to organize sections (only H2 and H3)\n   - Use bullet lists (- item) for multiple items\n   - Use numbered lists (1. 2. 3.) for sequential steps\n   - Use `code` for inline code, commands, or file names\n   - Use code blocks with ``` for multi-line code\n2. Keep responses concise and well-structured\n3. When referencing the documents, include citations using [file:line] format\n4. Place citations inline: \"The installation requires cargo [README.md:20]\"\n\nDOCUMENTS:\n",
        );
        content.append(self.md_context.as_str());
        let mut msgs: Vec<ChatMessage> = Vec::new();
        let ghost sys = ("system"@, content@);
        msgs.push(ChatMessage { role: String::from_str("system"), content });
        proof {
            assert(msg_views(msgs@) =~= seq![sys]);
        }
        let mut i: usize = 0;
        while i < self.chat_messages.len()
            invariant
                i <= self.chat_messages@.len(),
                msg_views(msgs@) =~= seq![sys] + msg_views(self.chat_messages@.take(i as int)),
            decreases self.chat_messages@.len() - i,
        {
            let m = &self.chat_messages[i];
            let ghost prev = msgs@;
            msgs.push(ChatMessage { role: m.role.clone(), content: m.content.clone() });
            proof {
                assert(msg_views(msgs@) =~= msg_views(prev).push(self.chat_messages@[i as int]@));
                assert(msg_views(self.chat_messages@.take(i + 1)) =~= msg_views(
                    self.chat_messages@.take(i as int),
                ).push(self.chat_messages@[i as int]@)) by {
                    assert(self.chat_messages@.take(i + 1).drop_last() =~= self.chat_messages@.take(
                        i as int,
                    ));
                }
                assert(msg_views(msgs@) =~= seq![sys] + msg_views(
                    self.chat_messages@.take(i + 1),
                ));
            }
            i = i + 1;
        }
        proof {
            assert(self.chat_messages@.take(self.chat_messages@.len() as int)
                =~= self.chat_messages@);
        }
        if !self.chat_input.as_str().is_empty() {
            let ghost prev = msgs@;
            msgs.push(ChatMessage { role: String::from_str("user"), content: self.chat_input.clone() });
            proof {
                assert(msg_views(msgs@) =~= msg_views(prev).push(("user"@, self.chat_input@)));
                assert(msg_views(msgs@) =~= seq![sys] + msg_views(self.chat_messages@) + seq![
                    ("user"@, self.chat_input@),
                ]);
            }
        } else {
            proof {
                assert(msg_views(msgs@) =~= seq![sys] + msg_views(self.chat_messages@)
                    + Seq::<(Seq<char>, Seq<char>)>::empty());
            }
        }
        msgs
    }

    /// The outbound conversation for a quick answer: a system preamble
    /// constraining the reply to a short, markdown-free, speakable style
    /// and embedding the retrieved chunks, then the query as the one user
    /// message; no history is carried.
    pub fn build_quick_messages(&self) -> (r: Vec<ChatMessage>)
        ensures
            msg_views(r@) == seq![
                (
                    "system"@,
                    "You are a technical assistant. Give a complete but speakable answer.\n\nRules:\n- 4-6 sentences covering the key points\n- Use simple language that can be read aloud in a meeting\n- Include specific details (names, values, differences) from the context\n- No greetings, no markdown formatting, no bullet points\n- Write in a natural speaking flow\n\nRELEVANT CONTEXT:\n"@
                        + quick_ctx(self.quick_sources@, 0),
                ),
                ("user"@, self.quick_query@),
            ],
    {
        let mut content = String::from_str(
            "You are a technical assistant. Give a complete but speakable answer.\n\nRules:\n- 4-6 sentences covering the key points\n- Use simple language that can be read aloud in a meeting\n- Include specific details (names, values, differences) from the context\n- No greetings, no markdown formatting, no bullet points\n- Write in a natural speaking flow\n\nRELEVANT CONTEXT:\n",
        );
        let ghost base = content@;
        let mut i: usize = 0;
        proof {
            assert(content@ =~= base + quick_ctx(self.quick_sources@, 0).take(0));
        }
        while i < self.quick_sources.len()
            invariant
                i <= self.quick_sources@.len(),
                content@ + quick_ctx(self.quick_sources@, i as int) =~= base + quick_ctx(
                    self.quick_sources@,
                    0,
                ),
            decreases self.quick_sources@.len() - i,
        {
            let c = &self.quick_sources[i];
            content.append("[");
            content.append(c.file.as_str());
            content.append(":");
            let num = crate::text::dec_string(c.line);
            content.append(num.as_str());
            content.append("] ");
            content.append(c.content.as_str());
            content.append("\n\n");
            proof {
                reveal_strlit("[");
                reveal_strlit(":");
                reveal_strlit("] ");
                reveal_strlit("\n\n");
                assert("["@ =~= seq!['[']);
                assert(":"@ =~= seq![':']);
                assert("] "@ =~= seq![']', ' ']);
                assert("\n\n"@ =~= seq!['\n', '\n']);
                assert(content@ + quick_ctx(self.quick_sources@, i + 1) =~= base + quick_ctx(
                    self.quick_sources@,
                    0,
                ));
            }
            i = i + 1;
        }
        proof {
            assert(quick_ctx(self.quick_sources@, i as int) =~= Seq::<char>::empty());
            assert(content@ =~= base + quick_ctx(self.quick_sources@, 0));
        }
        let mut msgs: Vec<ChatMessage> = Vec::new();
        let ghost sys = ("system"@, content@);
        msgs.push(ChatMessage { role: String::from_str("system"), content });
        msgs.push(
            ChatMessage { role: String::from_str("user"), content: self.quick_query.clone() },
        );
        proof {
            assert(msg_views(msgs@) =~= seq![sys, ("user"@, self.quick_query@)]);
        }
        msgs
    }

    /// Enters the directory picker over a snapshot of candidate
    /// directories (ancestors and ignore-filtered descendants, scanned
    /// once by the host), with a fresh filter.
    pub fn enter_directory_picker(&mut self, dirs: Vec<String>)
        requires
            old(self).wf(),
            old(self).mode != Mode::Citations,
        ensures
            final(self).wf(),
            ({
                let s = *old(self);
                let t = *final(self);
                &&& same_corpus(s, t) && same_search(s, t) && same_chat(s, t) && same_cits(s, t)
                    && same_quick(s, t) && same_flow(s, t)
                &&& t.mode == Mode::DirectoryPicker
                &&& t.dir_entries == dirs
                &&& t.dir_filtered@.len() == 0
                &&& t.dir_query@.len() == 0
                &&& t.dir_selected == 0 && t.dir_scroll == 0
            }),
    {
        self.dir_entries = dirs;
        self.dir_filtered = Vec::new();
        self.dir_query = String::new();
        self.dir_selected = 0;
        self.dir_scroll = 0;
        self.mode = Mode::DirectoryPicker;
    }

    /// The directory list the picker currently shows.
    pub fn dir_list(&self) -> (r: &Vec<String>)
        ensures
            r@ == (if self.dir_query@.len() == 0 {
                self.dir_entries@
            } else {
                self.dir_filtered@
            }),
    {
        if self.dir_query.as_str().is_empty() {
            &self.dir_entries
        } else {
            &self.dir_filtered
        }
    }

    /// Confirms the picker selection and returns to search: the chosen
    /// directory, if any, is handed back so the host can re-base the
    /// session onto it.
    pub fn select_directory(&mut self) -> (r: Option<String>)
        requires
            old(self).wf(),
            old(self).mode != Mode::Citations,
        ensures
            final(self).wf(),
            ({
                let s = *old(self);
                let t = *final(self);
                let list = if s.dir_query@.len() == 0 {
                    s.dir_entries@
                } else {
                    s.dir_filtered@
                };
                &&& same_corpus(s, t) && same_search(s, t) && same_chat(s, t) && same_cits(s, t)
                    && same_dir(s, t) && same_quick(s, t) && same_flow(s, t)
                &&& t.mode == Mode::Search
                &&& if s.dir_selected < list.len() {
                    r is Some && r->0@ == list[s.dir_selected as int]@
                } else {
                    r is None
                }
            }),
    {
        let list_len = if self.dir_query.as_str().is_empty() {
            self.dir_entries.len()
        } else {
            self.dir_filtered.len()
        };
        let r = if self.dir_selected < list_len {
            if self.dir_query.as_str().is_empty() {
                Some(self.dir_entries[self.dir_selected].clone())
            } else {
                Some(self.dir_filtered[self.dir_selected].clone())
            }
        } else {
            None
        };
        self.mode = Mode::Search;
        r
    }

    /// Re-bases the session onto a newly loaded corpus: the line index,
    /// preamble context and semantic index are replaced and the search
    /// pane resets; every other pane keeps its state.
    pub fn rebase(&mut self, cwd: String, files: Vec<LoadedFile>, rag_index: Option<RagIndex>)
        requires
            old(self).wf(),
        ensures
            final(self).wf(),
            ({
                let s = *old(self);
                let t = *final(self);
                &&& same_chat(s, t) && same_cits(s, t) && same_dir(s, t) && same_quick(s, t)
                    && same_flow(s, t)
                &&& t.mode == s.mode
                &&& t.cwd == cwd && t.original_cwd@ == cwd@
                &&& t.loaded_files == files && t.rag_index == rag_index
                &&& entry_triples(t.searcher.entries_view()) == entries_of(files@, 0)
                &&& t.entry_count == t.searcher.entries_view().len()
                &&& t.md_context@ == context_of(files@, 0)
                &&& t.api_key == s.api_key
                &&& t.query@.len() == 0 && t.results@.len() == 0 && t.selected == 0
                    && t.scroll_offset == 0
            }),
    {
        let searcher = Searcher::from_files(&files);
        self.entry_count = searcher.entry_count();
        self.md_context = crate::search::build_context(&files);
        self.searcher = searcher;
        self.loaded_files = files;
        self.rag_index = rag_index;
        self.original_cwd = cwd.clone();
        self.cwd = cwd;
        self.query = String::new();
        self.results = Vec::new();
        self.selected = 0;
        self.scroll_offset = 0;
    }

    /// Submits the quick-answer query: the response buffer clears and
    /// streaming starts.  An empty query, a stream already under way, or
    /// a missing key leaves everything unchanged.
    pub fn start_quick_answer(&mut self)
        requires
            old(self).wf(),
        ensures
            final(self).wf(),
            ({
                let s = *old(self);
                let t = *final(self);
                &&& same_corpus(s, t) && same_search(s, t) && same_chat(s, t) && same_cits(s, t)
                    && same_dir(s, t) && same_flow(s, t)
                &&& t.mode == s.mode
                &&& if s.quick_query@.len() == 0 || s.quick_streaming || s.api_key is None {
                    same_quick(s, t)
                } else {
                    &&& t.quick_query == s.quick_query
                    &&& t.quick_response@.len() == 0
                    &&& t.quick_streaming
                    &&& t.quick_sources == s.quick_sources && t.quick_sources_expanded
                        == s.quick_sources_expanded && t.quick_sources_selected
                        == s.quick_sources_selected
                }
            }),
    {
        if self.quick_query.as_str().is_empty() || self.quick_streaming || self.api_key.is_none() {
            return ;
        }
        self.quick_response = String::new();
        self.quick_streaming = true;
    }

    /// Consumes one fragment drained from the quick-answer stream: the
    /// completion marker stops streaming, anything else appends to the
    /// response - also after a cancellation.
    pub fn append_quick_response(&mut self, text: &str)
        requires
            old(self).wf(),
        ensures
            final(self).wf(),
            ({
                let s = *old(self);
                let t = *final(self);
                &&& same_corpus(s, t) && same_search(s, t) && same_chat(s, t) && same_cits(s, t)
                    && same_dir(s, t) && same_flow(s, t)
                &&& t.mode == s.mode
                &&& t.quick_query == s.quick_query && t.quick_sources == s.quick_sources
                    && t.quick_sources_expanded == s.quick_sources_expanded
                    && t.quick_sources_selected == s.quick_sources_selected
                &&& if text@ == "\n[DONE]"@ {
                    !t.quick_streaming && t.quick_response == s.quick_response
                } else {
                    t.quick_response@ == s.quick_response@ + text@ && t.quick_streaming
                        == s.quick_streaming
                }
            }),
    {
        if str_eq(text, "\n[DONE]") {
            self.quick_streaming = false;
        } else {
            self.quick_response.append(text);
        }
    }

    /// Cancels a running quick-answer stream: streaming stops at once
    /// and a visible marker is appended; the in-flight delivery is not
    /// stopped.
    pub fn cancel_quick(&mut self)
        requires
            old(self).wf(),
        ensures
            final(self).wf(),
            ({
                let s = *old(self);
                let t = *final(self);
                &&& same_corpus(s, t) && same_search(s, t) && same_chat(s, t) && same_cits(s, t)
                    && same_dir(s, t) && same_flow(s, t)
                &&& t.mode == s.mode
                &&& t.quick_query == s.quick_query && t.quick_sources == s.quick_sources
                    && t.quick_sources_expanded == s.quick_sources_expanded
                    && t.quick_sources_selected == s.quick_sources_selected
                &&& if s.quick_streaming {
                    !t.quick_streaming && t.quick_response@ == s.quick_response@
                        + "\n\n[cancelled]"@
                } else {
                    same_quick(s, t)
                }
            }),
    {
        if self.quick_streaming {
            self.quick_streaming = false;
            self.quick_response.append("\n\n[cancelled]");
        }
    }

    /// Installs a freshly rebuilt semantic index after a manual cache
    /// wipe: the reloaded corpus and new index replace the old ones and
    /// the grounding panel empties.  The line index is left as it is.
    pub fn rebuild_rag_index(&mut self, files: Vec<LoadedFile>, rag_index: Option<RagIndex>)
        requires
            old(self).wf(),
        ensures
            final(self).wf(),
            ({
                let s = *old(self);
                let t = *final(self);
                &&& same_search(s, t) && same_chat(s, t) && same_cits(s, t) && same_dir(s, t)
                    && same_flow(s, t)
                &&& t.mode == s.mode
                &&& t.cwd == s.cwd && t.original_cwd == s.original_cwd && t.entry_count
                    == s.entry_count && t.md_context == s.md_context && t.api_key == s.api_key
                    && t.searcher == s.searcher
                &&& t.loaded_files == files && t.rag_index == rag_index
                &&& t.quick_sources@.len() == 0 && t.quick_sources_selected == 0
                &&& t.quick_query == s.quick_query && t.quick_response == s.quick_response
                    && t.quick_streaming == s.quick_streaming && t.quick_sources_expanded
                    == s.quick_sources_expanded
            }),
    {
        self.loaded_files = files;
        self.rag_index = rag_index;
        self.quick_sources = Vec::new();
        self.quick_sources_selected = 0;
    }

    /// Retrieves up to 20 grounding chunks for the quick-answer query
    /// from the semantic index (none without an index) and resets the
    /// panel selection.
    pub fn prepare_quick_search(&mut self)
        requires
            old(self).wf(),
        ensures
            final(self).wf(),
            ({
                let s = *old(self);
                let t = *final(self);
                &&& same_corpus(s, t) && same_search(s, t) && same_chat(s, t) && same_cits(s, t)
                    && same_dir(s, t) && same_flow(s, t)
                &&& t.mode == s.mode
                &&& t.quick_sources@.len() <= 20
                &&& t.quick_sources_selected == 0
                &&& t.quick_query == s.quick_query && t.quick_response == s.quick_response
                    && t.quick_streaming == s.quick_streaming && t.quick_sources_expanded
                    == s.quick_sources_expanded
                &&& s.rag_index is None ==> t.quick_sources@.len() == 0
            }),
    {
        let chunks = match &self.rag_index {
            Some(ix) => ix.search_chunks(self.quick_query.as_str(), 20),
            None => Vec::new(),
        };
        self.quick_sources = chunks;
        self.quick_sources_selected = 0;
    }

    /// Shows or hides the grounding panel.
    pub fn toggle_quick_sources(&mut self)
        requires
            old(self).wf(),
        ensures
            final(self).wf(),
            ({
                let s = *old(self);
                let t = *final(self);
                &&& same_corpus(s, t) && same_search(s, t) && same_chat(s, t) && same_cits(s, t)
                    && same_dir(s, t) && same_flow(s, t)
                &&& t.mode == s.mode
                &&& t.quick_sources_expanded == !s.quick_sources_expanded
                &&& t.quick_query == s.quick_query && t.quick_response == s.quick_response
                    && t.quick_streaming == s.quick_streaming && t.quick_sources == s.quick_sources
                    && t.quick_sources_selected == s.quick_sources_selected
            }),
    {
        self.quick_sources_expanded = !self.quick_sources_expanded;
    }

    /// Moves the grounding panel selection one step up.
    pub fn quick_sources_up(&mut self)
        requires
            old(self).wf(),
        ensures
            final(self).wf(),
            ({
                let s = *old(self);
                let t = *final(self);
                &&& same_corpus(s, t) && same_search(s, t) && same_chat(s, t) && same_cits(s, t)
                    && same_dir(s, t) && same_flow(s, t)
                &&& t.mode == s.mode
                &&& t.quick_sources_selected == (if s.quick_sources_selected > 0 {
                    s.quick_sources_selected - 1
                } else {
                    s.quick_sources_selected as int
                })
                &&& t.quick_query == s.quick_query && t.quick_response == s.quick_response
                    && t.quick_streaming == s.quick_streaming && t.quick_sources == s.quick_sources
                    && t.quick_sources_expanded == s.quick_sources_expanded
            }),
    {
        if self.quick_sources_selected > 0 {
            self.quick_sources_selected = self.quick_sources_selected - 1;
        }
    }

    /// Moves the grounding panel selection one step down, inside the list.
    pub fn quick_sources_down(&mut self)
        requires
            old(self).wf(),
        ensures
            final(self).wf(),
            ({
                let s = *old(self);
                let t = *final(self);
                &&& same_corpus(s, t) && same_search(s, t) && same_chat(s, t) && same_cits(s, t)
                    && same_dir(s, t) && same_flow(s, t)
                &&& t.mode == s.mode
                &&& t.quick_sources_selected == (if s.quick_sources_selected + 1
                    < s.quick_sources@.len() {
                    s.quick_sources_selected + 1
                } else {
                    s.quick_sources_selected as int
                })
                &&& t.quick_query == s.quick_query && t.quick_response == s.quick_response
                    && t.quick_streaming == s.quick_streaming && t.quick_sources == s.quick_sources
                    && t.quick_sources_expanded == s.quick_sources_expanded
            }),
    {
        let len = self.quick_sources.len();
        if self.quick_sources_selected + 1 < len {
            self.quick_sources_selected = self.quick_sources_selected + 1;
        }
    }

    /// The file and line of the grounding chunk the panel has selected,
    /// for the host to open externally; nothing when the panel is empty.
    pub fn open_quick_source(&self) -> (r: Option<(String, usize)>)
        ensures
            ({
                let s = *self;
                if s.quick_sources_selected < s.quick_sources@.len() {
                    let pair = r->0;
                    &&& r is Some
                    &&& pair.0@ == s.quick_sources@[s.quick_sources_selected as int].file@
                    &&& pair.1 == s.quick_sources@[s.quick_sources_selected as int].line
                } else {
                    r is None
                }
            }),
    {
        if self.quick_sources_selected < self.quick_sources.len() {
            let c = &self.quick_sources[self.quick_sources_selected];
            Some((c.file.clone(), c.line))
        } else {
            None
        }
    }
}

} // verus!
