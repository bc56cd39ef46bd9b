use bookokrat::main_app::lookup::{
    execute_lookup_command, launch_notice, lookup_result, not_run, output_shown, refusal_of,
    CommandOutput, LookupDisplay, LookupPlan,
};
use bookokrat::main_app::state::{NotificationLevel, Notice};
use bookokrat::main_app::search_text::{
    extract_djvu_page_lines, extract_node_text, extract_page_lines, extract_text_from_markdown_doc,
    extract_text_from_text, index_chapter, Block, DefinitionItem, Document, Inline, ListItem, Node,
    SearchLine, TableCellContent, TableRow, Text, TextOrInline,
};

fn words(s: &str) -> Text {
    Text { parts: vec![TextOrInline::Text(s.to_string())] }
}

fn paragraph(s: &str) -> Node {
    Node { block: Block::Paragraph { content: words(s) } }
}

fn found(lines: &[SearchLine]) -> Vec<(usize, &str)> {
    lines.iter().map(|l| (l.node_index, l.text.as_str())).collect()
}

#[test]
fn inline_parts_become_text() {
    let t = Text {
        parts: vec![
            TextOrInline::Text("see ".into()),
            TextOrInline::Inline(Inline::Link { text: words("here") }),
            TextOrInline::Inline(Inline::LineBreak),
            TextOrInline::Inline(Inline::Image { alt_text: "cat".into() }),
            TextOrInline::Inline(Inline::Other),
        ],
    };
    assert_eq!(extract_text_from_text(&t), "see here cat");
}

#[test]
fn documents_are_searched_block_by_block() {
    let doc = Document {
        blocks: vec![
            Node { block: Block::Heading { content: words("Title") } },
            paragraph("  "),
            Node {
                block: Block::List {
                    items: vec![
                        ListItem { content: vec![paragraph("one"), paragraph("two")] },
                        ListItem { content: vec![] },
                    ],
                },
            },
            Node { block: Block::Quote { nodes: vec![paragraph("said")] } },
            Node { block: Block::CodeBlock { code: "".into() } },
            Node {
                block: Block::DefinitionList {
                    definitions: vec![DefinitionItem {
                        term: words("term"),
                        definitions: vec![vec![paragraph("meaning")]],
                    }],
                },
            },
            Node { block: Block::EpubBlock { nodes: vec![paragraph("inside")] } },
            Node { block: Block::Other },
        ],
    };
    let lines = extract_text_from_markdown_doc(&doc);
    assert_eq!(
        found(&lines),
        vec![
            (0, "Title"),
            (2, "one"),
            (2, "two"),
            (3, "said"),
            (4, ""),
            (5, "term"),
            (5, "meaning"),
            (6, "inside"),
        ]
    );
    let chapter = index_chapter(4, None, &doc);
    assert_eq!((chapter.index, chapter.title.as_str()), (4, "Chapter 5"));
    assert_eq!(chapter.lines.len(), 8);
    assert_eq!(index_chapter(0, Some("Intro".into()), &doc).title, "Intro");
}

#[test]
fn tables_are_searched_row_by_row() {
    let row = |cells: Vec<&str>| TableRow {
        cells: cells.into_iter().map(|c| TableCellContent::Simple(words(c))).collect(),
    };
    let table = || Node { block: Block::Table { header: Some(row(vec!["a", "b"])), rows: vec![row(vec!["1", "2"]), row(vec![])] } };
    let doc = Document { blocks: vec![table()] };
    assert_eq!(found(&extract_text_from_markdown_doc(&doc)), vec![(0, "a b"), (0, "1 2")]);
    assert_eq!(extract_node_text(&table()), "a b1 2");
}

#[test]
fn pages_are_searched_line_by_line() {
    let lines = extract_page_lines(vec!["a".into(), " ".into(), "b ".into()]);
    assert_eq!(found(&lines), vec![(0, "a"), (2, "b ")]);
    let lines = extract_djvu_page_lines(vec!["x".into()], Some("layer".into()));
    assert_eq!(found(&lines), vec![(0, "x")]);
    let lines = extract_djvu_page_lines(vec![" ".into()], Some("one \n\n two\t".into()));
    assert_eq!(found(&lines), vec![(0, "one"), (2, " two")]);
    assert!(extract_djvu_page_lines(vec![], None).is_empty());
}

fn plan(template: &str, text: &str, display: LookupDisplay) -> LookupPlan {
    execute_lookup_command(&Some(template.to_string()), text, display)
}

#[test]
fn lookup_commands_are_quoted() {
    match plan("dict {}", " it's ", LookupDisplay::FireAndForget) {
        LookupPlan::Launch { command } => assert_eq!(command, "dict it'\\''s"),
        _ => panic!("a command"),
    }
    match plan("dict", "word", LookupDisplay::FireAndForget) {
        LookupPlan::Launch { command } => assert_eq!(command, "dict 'word'"),
        _ => panic!("a command"),
    }
    assert!(matches!(
        execute_lookup_command(&None, "word", LookupDisplay::Popup),
        LookupPlan::NoCommand
    ));
    assert!(matches!(plan("dict", " \n", LookupDisplay::Popup), LookupPlan::NoText));
}

#[test]
fn lookups_say_what_came_of_them() {
    let none = execute_lookup_command(&None, "word", LookupDisplay::Popup);
    assert_eq!(refusal_of(&none), Some((NotificationLevel::Info, Notice::NoLookupCommand)));
    let blank = plan("dict", " ", LookupDisplay::FireAndForget);
    assert_eq!(refusal_of(&blank), Some((NotificationLevel::Info, Notice::NoLookupText)));
    assert_eq!(refusal_of(&plan("dict", "word", LookupDisplay::FireAndForget)), None);
    assert_eq!(refusal_of(&plan("dict", "word", LookupDisplay::Popup)), None);
    assert_eq!(launch_notice(true), (NotificationLevel::Info, Notice::LookupLaunched));
    assert_eq!(launch_notice(false), (NotificationLevel::Error, Notice::LookupNotLaunched));
    assert_eq!(not_run("no sh"), "Failed to run command: no sh");
}

#[test]
fn long_words_are_cut_for_the_title() {
    let long = "x".repeat(41);
    match plan("dict", &long, LookupDisplay::Popup) {
        LookupPlan::Show { shown_command, word } => {
            assert_eq!(word, format!("{}...", "x".repeat(37)));
            assert_eq!(shown_command, format!("dict '{long}'"));
        }
        _ => panic!("a window"),
    }
    let forty = "y".repeat(40);
    match plan("dict", &forty, LookupDisplay::Popup) {
        LookupPlan::Show { word, .. } => assert_eq!(word, forty),
        _ => panic!("a window"),
    }
    // The length is counted in bytes, the cut in characters.
    let wide = "\u{e9}".repeat(21);
    match plan("dict", &wide, LookupDisplay::Popup) {
        LookupPlan::Show { word, .. } => assert_eq!(word, format!("{wide}...")),
        _ => panic!("a window"),
    }
}

#[test]
fn lookup_output_is_shown() {
    let output = |success: bool, out: &[u8], err: &[u8]| CommandOutput {
        success,
        stdout: out.to_vec(),
        stderr: err.to_vec(),
        status: "exit status: 2".to_string(),
    };
    assert_eq!(lookup_result(&output(true, b"ok\xff", b"")), Ok("ok\u{fffd}".to_string()));
    assert_eq!(lookup_result(&output(false, b"", b"bad")), Err("bad".to_string()));
    assert_eq!(
        lookup_result(&output(false, b"x", b"")),
        Err("Command exited with status exit status: 2".to_string())
    );
    assert_eq!(output_shown(true, "a".into(), "b".into(), "c"), Ok("a".to_string()));
}
