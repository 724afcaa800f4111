use finder::rag::RagChunk;
use finder::search::{build_context, LoadedFile, Searcher};
use finder::session::{App, Mode};

fn corpus() -> Vec<LoadedFile> {
    vec![
        LoadedFile { name: "a.md".to_string(), content: "# Title\n\nhello world".to_string() },
        LoadedFile { name: "b.md".to_string(), content: "foo bar".to_string() },
    ]
}

#[test]
fn empty_query_returns_nothing() {
    let searcher = Searcher::from_files(&corpus());
    assert!(searcher.search("").is_empty());
}

#[test]
fn end_to_end_line_search() {
    let searcher = Searcher::from_files(&corpus());
    assert_eq!(searcher.entry_count(), 3);

    let hello = searcher.search("hello");
    assert_eq!(hello.len(), 1);
    assert_eq!(hello[0].file, "a.md");
    assert_eq!(hello[0].line_num, 3);
    assert_eq!(hello[0].content, "hello world");
    assert_eq!(hello[0].match_indices, vec![0, 1, 2, 3, 4]);

    let bar = searcher.search("bar");
    assert_eq!(bar.len(), 1);
    assert_eq!(bar[0].file, "b.md");
    assert_eq!(bar[0].line_num, 1);
    assert_eq!(bar[0].content, "foo bar");

    assert!(searcher.search("zzz").is_empty());
}

#[test]
fn results_capped_at_one_hundred() {
    let mut content = String::new();
    for i in 0..150 {
        content.push_str(&format!("item number {}\n", i));
    }
    let files = vec![LoadedFile { name: "big.md".to_string(), content }];
    let searcher = Searcher::from_files(&files);
    assert_eq!(searcher.search("item").len(), 100);
}

#[test]
fn context_tags_every_line() {
    let ctx = build_context(&corpus());
    assert_eq!(
        ctx,
        "\n--- a.md ---\n[a.md:1] # Title\n[a.md:2] \n[a.md:3] hello world\n\n--- b.md ---\n[b.md:1] foo bar\n"
    );
}

#[test]
fn chat_stream_finalizes_message() {
    let mut app = App::new(".".to_string(), corpus(), Some("key".to_string()), None);
    assert_eq!(app.mode, Mode::Search);
    app.on_char('?');
    assert_eq!(app.mode, Mode::Chat);
    app.on_char('H');
    app.on_char('i');
    assert_eq!(app.chat_input, "Hi");
    app.start_chat();
    assert!(app.chat_streaming);
    assert_eq!(app.chat_messages.len(), 1);
    assert_eq!(app.chat_messages[0].role, "user");
    assert_eq!(app.chat_messages[0].content, "Hi");

    app.append_response("Hel");
    app.append_response("lo");
    assert_eq!(app.chat_response, "Hello");
    app.append_response("\n[DONE]");
    assert!(!app.chat_streaming);
    let last = app.chat_messages.last().unwrap();
    assert_eq!(last.role, "assistant");
    assert_eq!(last.content, "Hello");
}

#[test]
fn cancel_marks_but_does_not_stop_delivery() {
    let mut app = App::new(".".to_string(), corpus(), Some("key".to_string()), None);
    app.on_char('?');
    app.on_char('q');
    app.start_chat();
    app.append_response("Hel");
    app.cancel_streaming();
    assert!(!app.chat_streaming);
    assert_eq!(app.chat_response, "Hel\n\n[cancelled]");
    app.append_response("lo");
    assert_eq!(app.chat_response, "Hel\n\n[cancelled]lo");
}

#[test]
fn finished_response_yields_citations() {
    let mut app = App::new(".".to_string(), corpus(), Some("key".to_string()), None);
    app.on_char('?');
    app.on_char('q');
    app.start_chat();
    app.append_response("See [a.md:3] and [a.md:3] and [b.md:10]");
    app.append_response("\n[DONE]");
    assert_eq!(app.citations.len(), 2);
    assert_eq!(app.citations[0].file, "a.md");
    assert_eq!(app.citations[0].line, 3);
    assert_eq!(app.citations[1].file, "b.md");
    assert_eq!(app.citations[1].line, 10);
}

#[test]
fn citations_pane_filters_case_insensitively() {
    let mut app = App::new(".".to_string(), corpus(), Some("key".to_string()), None);
    app.on_char('?');
    app.on_char('q');
    app.start_chat();
    app.append_response("[README.md:2] [a.md:3]");
    app.append_response("\n[DONE]");
    app.enter_citations_mode();
    assert_eq!(app.mode, Mode::Citations);
    assert_eq!(app.citations_count(), 2);
    app.on_char('r');
    app.on_char('e');
    assert_eq!(app.citations_count(), 1);
    assert_eq!(app.citations_filtered[0].file, "README.md");
    app.jump_to_citation(0);
    assert!(app.should_quit);
    let e = app.selected_entry.as_ref().unwrap();
    assert_eq!(e.file, "README.md");
    assert_eq!(e.line_num, 2);
    assert_eq!(e.content, "");
}

#[test]
fn reserved_characters_never_enter_the_query() {
    let mut app = App::new(".".to_string(), corpus(), None, None);
    app.on_char('?');
    assert_eq!(app.mode, Mode::Chat);
    assert_eq!(app.query, "");
    app.on_escape();
    assert_eq!(app.mode, Mode::Search);
    app.on_char('@');
    assert_eq!(app.mode, Mode::QuickAnswer);
    assert_eq!(app.query, "");
    app.on_backspace();
    assert_eq!(app.mode, Mode::Search);
    app.on_char('h');
    app.on_char('@');
    assert_eq!(app.mode, Mode::Search);
    assert_eq!(app.query, "h@");
}

#[test]
fn search_pane_selection_stays_in_bounds() {
    let mut app = App::new(".".to_string(), corpus(), None, None);
    app.on_char('m');
    app.on_char('d');
    let n = app.results.len();
    assert!(n >= 2);
    app.on_down(10);
    assert_eq!(app.selected, 1);
    for _ in 0..20 {
        app.on_down(10);
    }
    assert_eq!(app.selected, n - 1);
    for _ in 0..20 {
        app.on_up();
    }
    assert_eq!(app.selected, 0);
    app.on_enter();
    assert!(app.should_quit);
    assert!(app.selected_entry.is_some());
}

#[test]
fn click_selects_then_confirms() {
    let mut app = App::new(".".to_string(), corpus(), None, None);
    app.on_char('m');
    app.on_char('d');
    let n = app.results.len();
    assert!(n >= 2);
    app.on_click(n, 10);
    assert_eq!(app.selected, 0);
    assert!(!app.should_quit);
    app.on_click(1, 10);
    assert_eq!(app.selected, 1);
    assert!(!app.should_quit);
    app.on_click(1, 10);
    assert!(app.should_quit);
    assert_eq!(app.selected_entry.as_ref().unwrap().file, app.results[1].file);
}

#[test]
fn missing_key_blocks_submission() {
    let mut app = App::new(".".to_string(), corpus(), None, None);
    app.on_char('?');
    app.on_char('x');
    app.start_chat();
    assert!(!app.chat_streaming);
    assert!(app.chat_messages.is_empty());
    assert_eq!(app.chat_input, "x");
}

#[test]
fn directory_picker_filters_and_selects() {
    let mut app = App::new(".".to_string(), corpus(), None, None);
    let dirs = vec!["docs".to_string(), "src".to_string(), "src/sub".to_string()];
    app.enter_directory_picker(dirs);
    assert_eq!(app.mode, Mode::DirectoryPicker);
    assert_eq!(app.dir_list().len(), 3);
    app.on_char('s');
    assert_eq!(app.dir_list().len(), 3);
    app.on_char('u');
    assert_eq!(app.dir_list().len(), 1);
    assert_eq!(app.dir_list()[0], "src/sub");
    let chosen = app.select_directory();
    assert_eq!(chosen, Some("src/sub".to_string()));
    assert_eq!(app.mode, Mode::Search);
}

#[test]
fn rebase_resets_search_over_new_corpus() {
    let mut app = App::new(".".to_string(), corpus(), None, None);
    app.on_char('h');
    assert!(!app.results.is_empty());
    let new_files = vec![LoadedFile { name: "c.md".to_string(), content: "only here".to_string() }];
    app.rebase("elsewhere".to_string(), new_files, None);
    assert_eq!(app.cwd, "elsewhere");
    assert_eq!(app.query, "");
    assert!(app.results.is_empty());
    assert_eq!(app.entry_count, 1);
    let hits = app.searcher.search("only");
    assert_eq!(hits.len(), 1);
    assert_eq!(hits[0].file, "c.md");
}

#[test]
fn quick_answer_stream_and_cancel() {
    let mut app = App::new(".".to_string(), corpus(), Some("key".to_string()), None);
    app.on_char('@');
    assert_eq!(app.mode, Mode::QuickAnswer);
    app.on_char('h');
    app.on_char('i');
    app.prepare_quick_search();
    assert!(app.quick_sources.is_empty());
    app.start_quick_answer();
    assert!(app.quick_streaming);
    app.append_quick_response("An answer");
    app.append_quick_response("\n[DONE]");
    assert!(!app.quick_streaming);
    assert_eq!(app.quick_response, "An answer");

    app.start_quick_answer();
    app.append_quick_response("part");
    app.cancel_quick();
    assert_eq!(app.quick_response, "part\n\n[cancelled]");
    app.append_quick_response("ial");
    assert_eq!(app.quick_response, "part\n\n[cancelled]ial");
}

#[test]
fn outbound_messages_embed_context_and_history() {
    let mut app = App::new(".".to_string(), corpus(), Some("key".to_string()), None);
    app.on_char('?');
    app.on_char('Q');
    let msgs = app.build_messages();
    assert_eq!(msgs.len(), 2);
    assert_eq!(msgs[0].role, "system");
    assert!(msgs[0].content.starts_with("You are a helpful assistant."));
    assert!(msgs[0].content.contains("DOCUMENTS:\n"));
    assert!(msgs[0].content.ends_with(&app.md_context));
    assert_eq!(msgs[1].role, "user");
    assert_eq!(msgs[1].content, "Q");

    app.start_chat();
    app.append_response("reply [a.md:1]");
    app.append_response("\n[DONE]");
    let msgs = app.build_messages();
    assert_eq!(msgs.len(), 3);
    assert_eq!(msgs[1].role, "user");
    assert_eq!(msgs[2].role, "assistant");
}

#[test]
fn quick_messages_carry_no_history() {
    let mut app = App::new(".".to_string(), corpus(), Some("key".to_string()), None);
    app.on_char('@');
    app.on_char('w');
    let msgs = app.build_quick_messages();
    assert_eq!(msgs.len(), 2);
    assert_eq!(msgs[0].role, "system");
    assert!(msgs[0].content.starts_with("You are a technical assistant."));
    assert!(msgs[0].content.ends_with("RELEVANT CONTEXT:\n"));
    assert_eq!(msgs[1].role, "user");
    assert_eq!(msgs[1].content, "w");
}

#[test]
fn quick_messages_embed_grounding_chunks() {
    let mut app = App::new(".".to_string(), corpus(), Some("key".to_string()), None);
    app.on_char('@');
    app.on_char('w');
    app.quick_sources = vec![
        RagChunk { file: "a.md".to_string(), line: 3, content: "hello world".to_string() },
        RagChunk { file: "b.md".to_string(), line: 1, content: "foo bar".to_string() },
    ];
    let msgs = app.build_quick_messages();
    assert!(msgs[0]
        .content
        .ends_with("RELEVANT CONTEXT:\n[a.md:3] hello world\n\n[b.md:1] foo bar\n\n"));
    assert_eq!(app.open_quick_source(), Some(("a.md".to_string(), 3)));
}

#[test]
fn quick_sources_panel_navigation() {
    let mut app = App::new(".".to_string(), corpus(), Some("key".to_string()), None);
    assert!(!app.quick_sources_expanded);
    app.toggle_quick_sources();
    assert!(app.quick_sources_expanded);
    app.quick_sources_down();
    assert_eq!(app.quick_sources_selected, 0);
    assert!(app.open_quick_source().is_none());
}
