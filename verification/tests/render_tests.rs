use mdrender::highlight::load_default_syntax_set;
use syntect::highlighting::Theme;
use mdrender::node::{ListData, ListDelim, ListType, Node, NodeKind};
use mdrender::render::format_markdown;
use mdrender::style::{BaseColor, EffectSet, Style, TermColor};
use mdrender::text::StyledText;

fn node(kind: NodeKind, children: Vec<Node>) -> Node {
    Node { kind, children }
}

fn text_node(s: &str) -> Node {
    Node::leaf(NodeKind::Text { literal: s.to_string() })
}

fn doc(children: Vec<Node>) -> Node {
    node(NodeKind::Document, children)
}

fn rendered(t: &StyledText) -> String {
    let mut s = String::new();
    for span in t.spans.iter() {
        s.push_str(&span.text);
    }
    s
}

fn plain() -> Style {
    Style {
        effects: EffectSet {
            bold: false,
            italic: false,
            underline: false,
            dim: false,
            strikethrough: false,
        },
        fg: TermColor::TerminalDefault,
        bg: TermColor::TerminalDefault,
    }
}

fn effects(bold: bool, italic: bool, underline: bool, dim: bool, strikethrough: bool) -> EffectSet {
    EffectSet { bold, italic, underline, dim, strikethrough }
}

fn ordered_list_data(start: usize, delimiter: ListDelim) -> ListData {
    ListData { list_type: ListType::Ordered, start, delimiter, bullet_char: '-' }
}

fn bullet_list_data(bullet_char: char) -> ListData {
    ListData { list_type: ListType::Bullet, start: 0, delimiter: ListDelim::Period, bullet_char }
}

fn item(data: ListData, children: Vec<Node>) -> Node {
    node(NodeKind::Item { data }, children)
}

fn para(children: Vec<Node>) -> Node {
    node(NodeKind::Paragraph, children)
}

#[test]
fn empty_document_renders_empty() {
    let ss = load_default_syntax_set();
    let theme = Theme::default();
    let tree = doc(vec![]);
    let out = format_markdown(&ss, &theme, &tree);
    assert_eq!(out.spans.len(), 0);
    assert_eq!(rendered(&out), "");
}

#[test]
fn rendering_is_deterministic() {
    let ss = load_default_syntax_set();
    let theme = Theme::default();
    let tree = doc(vec![
        node(NodeKind::Heading { level: 1 }, vec![text_node("Title")]),
        para(vec![
            text_node("some "),
            node(NodeKind::Strong, vec![text_node("bold")]),
            text_node(" words"),
        ]),
        node(
            NodeKind::CodeBlock {
                info: "rs".to_string(),
                literal: "fn main() {}\n".to_string(),
            },
            vec![],
        ),
    ]);
    let out1 = format_markdown(&ss, &theme, &tree);
    let out2 = format_markdown(&ss, &theme, &tree);
    assert_eq!(out1.spans.len(), out2.spans.len());
    for (a, b) in out1.spans.iter().zip(out2.spans.iter()) {
        assert_eq!(a.text, b.text);
        assert_eq!(a.style, b.style);
    }
    assert_eq!(rendered(&out1), rendered(&out2));
}

#[test]
fn span_texts_concatenate_without_gaps() {
    let ss = load_default_syntax_set();
    let theme = Theme::default();
    let tree = doc(vec![
        para(vec![text_node("a"), Node::leaf(NodeKind::SoftBreak), text_node("b")]),
        para(vec![text_node("c")]),
    ]);
    let out = format_markdown(&ss, &theme, &tree);
    // The concatenation of the span texts is the full rendered string: the
    // first paragraph, a blank separator, and the final paragraph with no
    // trailing blank (it is the document's last content).
    assert_eq!(rendered(&out), "a b\n\nc");
}

#[test]
fn ordered_list_starting_at_five() {
    let ss = load_default_syntax_set();
    let theme = Theme::default();
    let data = ordered_list_data(5, ListDelim::Period);
    let tree = doc(vec![node(
        NodeKind::List { data },
        vec![
            item(data, vec![para(vec![text_node("a")])]),
            item(data, vec![para(vec![text_node("b")])]),
            item(data, vec![para(vec![text_node("c")])]),
        ],
    )]);
    let out = format_markdown(&ss, &theme, &tree);
    assert_eq!(rendered(&out), "5. a\n6. b\n7. c\n\n");
    let markers: Vec<&str> = out
        .spans
        .iter()
        .map(|s| s.text.as_str())
        .filter(|t| t.ends_with(". "))
        .collect();
    assert_eq!(markers, vec!["5. ", "6. ", "7. "]);
}

#[test]
fn ordered_list_paren_delimiter() {
    let ss = load_default_syntax_set();
    let theme = Theme::default();
    let data = ordered_list_data(1, ListDelim::Paren);
    let tree = doc(vec![node(
        NodeKind::List { data },
        vec![item(data, vec![para(vec![text_node("a")])])],
    )]);
    let out = format_markdown(&ss, &theme, &tree);
    assert_eq!(rendered(&out), "1) a\n\n");
}

#[test]
fn nested_bullet_list_indents_two_more_spaces() {
    let ss = load_default_syntax_set();
    let theme = Theme::default();
    let data = bullet_list_data('-');
    let inner = node(
        NodeKind::List { data },
        vec![item(data, vec![para(vec![text_node("b")])])],
    );
    let tree = doc(vec![node(
        NodeKind::List { data },
        vec![item(data, vec![para(vec![text_node("a")]), inner])],
    )]);
    let out = format_markdown(&ss, &theme, &tree);
    assert_eq!(rendered(&out), "- a\n  - b\n\n");
    // The level-1 marker's indent is empty, the level-2 indent is exactly
    // two spaces more.
    let texts: Vec<&str> = out.spans.iter().map(|s| s.text.as_str()).collect();
    assert_eq!(texts, vec!["", "- ", "a", "\n", "  ", "- ", "b", "\n", "\n"]);
}

#[test]
fn unknown_language_block_is_literal_and_unstyled() {
    let ss = load_default_syntax_set();
    let theme = Theme::default();
    let literal = "some opaque content 123\nsecond line\n";
    let tree = doc(vec![node(
        NodeKind::CodeBlock { info: "xyz123".to_string(), literal: literal.to_string() },
        vec![],
    )]);
    let out = format_markdown(&ss, &theme, &tree);
    assert_eq!(rendered(&out), format!("{literal}\n"));
    for span in out.spans.iter() {
        assert_eq!(span.style, plain());
    }
}

#[test]
fn known_language_block_keeps_literal_text() {
    let ss = load_default_syntax_set();
    let theme = Theme::default();
    let literal = "pub fn five() -> u64 { 5 }\n";
    let tree = doc(vec![node(
        NodeKind::CodeBlock { info: "rs".to_string(), literal: literal.to_string() },
        vec![],
    )]);
    let out = format_markdown(&ss, &theme, &tree);
    // Tokenization splits the literal into many spans; their texts still
    // reassemble it exactly.
    assert_eq!(rendered(&out), format!("{literal}\n"));
    assert!(out.spans.len() > 2);
}

#[test]
fn strong_and_nested_emph_styles() {
    let ss = load_default_syntax_set();
    let theme = Theme::default();
    let tree = doc(vec![para(vec![
        node(
            NodeKind::Strong,
            vec![
                text_node("a"),
                node(NodeKind::Emph, vec![text_node("b")]),
                text_node("c"),
            ],
        ),
        text_node("d"),
    ])]);
    let out = format_markdown(&ss, &theme, &tree);
    assert_eq!(rendered(&out), "abcd");
    let bold_only = Style {
        effects: effects(true, false, false, false, false),
        fg: TermColor::TerminalDefault,
        bg: TermColor::TerminalDefault,
    };
    let bold_italic = Style {
        effects: effects(true, true, false, false, false),
        fg: TermColor::TerminalDefault,
        bg: TermColor::TerminalDefault,
    };
    assert_eq!(out.spans[0].text, "a");
    assert_eq!(out.spans[0].style, bold_only);
    assert_eq!(out.spans[1].text, "b");
    assert_eq!(out.spans[1].style, bold_italic);
    assert_eq!(out.spans[2].text, "c");
    assert_eq!(out.spans[2].style, bold_only);
    // The style reverts to ambient right after the strong node's exit.
    assert_eq!(out.spans[3].text, "d");
    assert_eq!(out.spans[3].style, plain());
}

#[test]
fn link_renders_text_then_url_suffix() {
    let ss = load_default_syntax_set();
    let theme = Theme::default();
    let tree = doc(vec![para(vec![node(
        NodeKind::Link { url: "http://e".to_string() },
        vec![text_node("x")],
    )])]);
    let out = format_markdown(&ss, &theme, &tree);
    assert_eq!(rendered(&out), "x (http://e)");
    assert_eq!(out.spans[0].text, "x");
    assert_eq!(out.spans[0].style, plain());
    assert_eq!(out.spans[1].text, " (");
    assert_eq!(out.spans[1].style, plain());
    assert_eq!(out.spans[2].text, "http://e");
    assert_eq!(
        out.spans[2].style,
        Style {
            effects: effects(false, false, true, false, false),
            fg: TermColor::Dark(BaseColor::Blue),
            bg: TermColor::TerminalDefault,
        }
    );
    assert_eq!(out.spans[3].text, ")");
    assert_eq!(out.spans[3].style, plain());
}

#[test]
fn image_renders_like_link() {
    let ss = load_default_syntax_set();
    let theme = Theme::default();
    let tree = doc(vec![para(vec![node(
        NodeKind::Image { url: "http://img".to_string() },
        vec![text_node("alt")],
    )])]);
    let out = format_markdown(&ss, &theme, &tree);
    assert_eq!(rendered(&out), "alt (http://img)");
}

#[test]
fn heading_marker_and_spacing() {
    let ss = load_default_syntax_set();
    let theme = Theme::default();
    let tree = doc(vec![
        node(NodeKind::Heading { level: 2 }, vec![text_node("T")]),
        para(vec![text_node("body")]),
    ]);
    let out = format_markdown(&ss, &theme, &tree);
    assert_eq!(rendered(&out), "## T\n\nbody");
    assert_eq!(out.spans[0].text, "## ");
    assert_eq!(
        out.spans[0].style.fg,
        TermColor::Dark(BaseColor::Red)
    );
    assert_eq!(out.spans[1].text, "T");
    assert_eq!(
        out.spans[1].style.fg,
        TermColor::Dark(BaseColor::Green)
    );
}

#[test]
fn block_quote_dims_text() {
    let ss = load_default_syntax_set();
    let theme = Theme::default();
    let tree = doc(vec![node(
        NodeKind::BlockQuote,
        vec![para(vec![text_node("quoted")])],
    )]);
    let out = format_markdown(&ss, &theme, &tree);
    assert_eq!(out.spans[0].text, "quoted");
    assert_eq!(out.spans[0].style.effects, effects(false, false, false, true, false));
}

#[test]
fn code_span_is_backticked_and_bold() {
    let ss = load_default_syntax_set();
    let theme = Theme::default();
    let tree = doc(vec![para(vec![node(
        NodeKind::Code { literal: "x + y".to_string() },
        vec![],
    )])]);
    let out = format_markdown(&ss, &theme, &tree);
    assert_eq!(rendered(&out), "`x + y`");
    assert_eq!(out.spans[0].text, "`");
    assert_eq!(out.spans[0].style, plain());
    assert_eq!(out.spans[1].text, "x + y");
    assert_eq!(out.spans[1].style.effects, effects(true, false, false, false, false));
    assert_eq!(out.spans[2].text, "`");
}

#[test]
fn task_items_show_their_state() {
    let ss = load_default_syntax_set();
    let theme = Theme::default();
    let data = bullet_list_data('-');
    let tree = doc(vec![node(
        NodeKind::List { data },
        vec![
            item(
                data,
                vec![
                    node(NodeKind::TaskItem { checked: true, symbol: 'x' }, vec![]),
                    para(vec![text_node("done")]),
                ],
            ),
            item(
                data,
                vec![
                    node(NodeKind::TaskItem { checked: false, symbol: 'x' }, vec![]),
                    para(vec![text_node("todo")]),
                ],
            ),
        ],
    )]);
    let out = format_markdown(&ss, &theme, &tree);
    assert_eq!(rendered(&out), "- [x] done\n- [ ] todo\n\n");
}

#[test]
fn html_is_emitted_verbatim() {
    let ss = load_default_syntax_set();
    let theme = Theme::default();
    let tree = doc(vec![
        node(NodeKind::HtmlBlock { literal: "<div>block</div>".to_string() }, vec![]),
        para(vec![node(
            NodeKind::HtmlInline { literal: "<b>".to_string() },
            vec![],
        )]),
    ]);
    let out = format_markdown(&ss, &theme, &tree);
    assert_eq!(rendered(&out), "<div>block</div>\n<b>");
}

#[test]
fn line_break_and_soft_break() {
    let ss = load_default_syntax_set();
    let theme = Theme::default();
    let tree = doc(vec![para(vec![
        text_node("a"),
        Node::leaf(NodeKind::LineBreak),
        text_node("b"),
        Node::leaf(NodeKind::SoftBreak),
        text_node("c"),
    ])]);
    let out = format_markdown(&ss, &theme, &tree);
    assert_eq!(rendered(&out), "a\nb c");
}

#[test]
fn strikethrough_marks_text() {
    let ss = load_default_syntax_set();
    let theme = Theme::default();
    let tree = doc(vec![para(vec![node(
        NodeKind::Strikethrough,
        vec![text_node("gone")],
    )])]);
    let out = format_markdown(&ss, &theme, &tree);
    assert_eq!(out.spans[0].text, "gone");
    assert_eq!(out.spans[0].style.effects, effects(false, false, false, false, true));
}

#[test]
fn unsupported_kinds_still_surface_text() {
    let ss = load_default_syntax_set();
    let theme = Theme::default();
    let tree = doc(vec![node(
        NodeKind::Table,
        vec![node(
            NodeKind::TableRow,
            vec![node(NodeKind::TableCell, vec![text_node("cell")])],
        )],
    )]);
    let out = format_markdown(&ss, &theme, &tree);
    assert_eq!(rendered(&out), "cell");
}

#[test]
fn item_outside_list_degrades_gracefully() {
    let ss = load_default_syntax_set();
    let theme = Theme::default();
    let data = bullet_list_data('*');
    let tree = doc(vec![item(data, vec![para(vec![text_node("stray")])])]);
    let out = format_markdown(&ss, &theme, &tree);
    // No list frame is open, so no marker is emitted and the content still
    // renders (with ordinary paragraph spacing, since the paragraph is not
    // a direct child of the document).
    assert_eq!(rendered(&out), "stray\n\n");
}
