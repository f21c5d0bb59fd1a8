use mdrender::chars::{first_token, trim, usize_to_string};
use mdrender::highlight::load_default_syntax_set;
use syntect::highlighting::Theme;
use mdrender::message::{format_message, Message, Role};
use mdrender::node::{Node, NodeKind};
use mdrender::style::{BaseColor, TermColor};
use mdrender::text::StyledText;

fn rendered(t: &StyledText) -> String {
    let mut s = String::new();
    for span in t.spans.iter() {
        s.push_str(&span.text);
    }
    s
}

#[test]
fn user_message_is_labelled_and_trimmed() {
    let ss = load_default_syntax_set();
    let theme = Theme::default();
    let m = Message { role: Role::User, content: "  hello there \n".to_string() };
    let out = format_message(&ss, &theme, &m, None);
    assert_eq!(rendered(&out), "You: hello there\n\n");
    assert_eq!(out.spans[0].text, "You");
    assert!(out.spans[0].style.effects.bold);
    assert!(out.spans[0].style.effects.underline);
    assert_eq!(out.spans[0].style.fg, TermColor::Dark(BaseColor::Cyan));
    assert_eq!(out.spans[1].text, ": ");
}

#[test]
fn system_message_is_labelled_green() {
    let ss = load_default_syntax_set();
    let theme = Theme::default();
    let m = Message { role: Role::System, content: "note".to_string() };
    let out = format_message(&ss, &theme, &m, None);
    assert_eq!(rendered(&out), "System: note\n\n");
    assert_eq!(out.spans[0].style.fg, TermColor::Dark(BaseColor::Green));
}

#[test]
fn assistant_message_renders_markdown_tree() {
    let ss = load_default_syntax_set();
    let theme = Theme::default();
    let m = Message { role: Role::Assistant, content: "**hi**".to_string() };
    let tree = Node {
        kind: NodeKind::Document,
        children: vec![Node {
            kind: NodeKind::Paragraph,
            children: vec![Node {
                kind: NodeKind::Strong,
                children: vec![Node::leaf(NodeKind::Text { literal: "hi".to_string() })],
            }],
        }],
    };
    let out = format_message(&ss, &theme, &m, Some(&tree));
    assert_eq!(rendered(&out), "ChatGPT: hi\n\n");
    assert_eq!(out.spans[0].text, "ChatGPT");
    assert_eq!(out.spans[0].style.fg, TermColor::Dark(BaseColor::Magenta));
    // The body went through the Markdown renderer: "hi" is bold.
    assert_eq!(out.spans[2].text, "hi");
    assert!(out.spans[2].style.effects.bold);
}

#[test]
fn assistant_message_without_tree_is_plain() {
    let ss = load_default_syntax_set();
    let theme = Theme::default();
    let m = Message { role: Role::Assistant, content: "...".to_string() };
    let out = format_message(&ss, &theme, &m, None);
    assert_eq!(rendered(&out), "ChatGPT: ...\n\n");
}

#[test]
fn trim_removes_unicode_whitespace() {
    assert_eq!(trim(""), "");
    assert_eq!(trim("   "), "");
    assert_eq!(trim("a"), "a");
    assert_eq!(trim("  a b  "), "a b");
    assert_eq!(trim("\t\nx\r\n"), "x");
    assert_eq!(trim("\u{00A0}y\u{3000}"), "y");
}

#[test]
fn decimal_rendering_is_exact() {
    assert_eq!(usize_to_string(0), "0");
    assert_eq!(usize_to_string(7), "7");
    assert_eq!(usize_to_string(10), "10");
    assert_eq!(usize_to_string(90217), "90217");
}

#[test]
fn first_token_stops_at_whitespace() {
    assert_eq!(first_token(""), "");
    assert_eq!(first_token("rust"), "rust");
    assert_eq!(first_token("rust extra stuff"), "rust");
    assert_eq!(first_token("  leading"), "");
    assert_eq!(first_token("a\tb"), "a");
}
