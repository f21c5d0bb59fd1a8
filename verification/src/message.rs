//! Chat message types and the message formatter: a role label, a colon,
//! the message contents (rendered as Markdown for the assistant), and a
//! blank separator line.

use vstd::prelude::*;
use syntect::highlighting::Theme;
use syntect::parsing::SyntaxSet;
use crate::chars::{trim, trim_spec};
use crate::node::{Node, no_code_block};
use crate::render::{plain_sv, rendered_spans, rendered_text};
use crate::style::{BaseColor, EffectSet, Style, TermColor};
use crate::text::{SpanV, StyledText, lemma_text_of_concat, text_of};

verus! {

/// Who authored a chat message.
#[derive(Clone, Copy, Debug, PartialEq, Eq)]
pub enum Role {
    User,
    System,
    Assistant,
}

/// Why the completion service stopped generating.
#[derive(Clone, Copy, Debug, PartialEq, Eq)]
pub enum FinishReason {
    Stop,
}

/// One chat message: its author and its raw Markdown content.
#[derive(Clone, Debug)]
pub struct Message {
    pub role: Role,
    pub content: String,
}

/// One returned completion choice.
pub struct Choice {
    pub message: Message,
    pub finish_reason: FinishReason,
    pub index: i32,
}

/// A chat completion request body.
pub struct ApiRequest {
    pub model: &'static str,
    pub messages: Vec<Message>,
    pub stream: bool,
}

/// A chat completion response body.
pub struct ApiResponse {
    pub choices: Vec<Choice>,
}

/// A notice the worker sends the interface besides chat messages.
pub enum SystemMessage {
    ResponsePending,
}

/// What the worker hands the interface: a notice, or a chat message (or the
/// error that ended a request).
pub enum ProcessedMessage {
    SystemMessage(SystemMessage),
    ChatMessage(Result<Message, String>),
}

/// The label text of a message's author.
pub open spec fn role_label(r: Role) -> Seq<char> {
    match r {
        Role::User => ("You")@,
        Role::System => ("System")@,
        Role::Assistant => ("ChatGPT")@,
    }
}

/// The accent color of a message's author label.
pub open spec fn role_color(r: Role) -> TermColor {
    match r {
        Role::User => TermColor::Dark(BaseColor::Cyan),
        Role::System => TermColor::Dark(BaseColor::Green),
        Role::Assistant => TermColor::Dark(BaseColor::Magenta),
    }
}

/// The style of an author label: bold, underlined, accent colored.
pub open spec fn label_style(r: Role) -> Style {
    Style {
        effects: EffectSet { bold: true, italic: false, underline: true, dim: false, strikethrough: false },
        fg: role_color(r),
        bg: TermColor::TerminalDefault,
    }
}

/// The spans a formatted message carries: the styled author label, a plain
/// `": "`, the contents, and a plain blank separator line. Assistant
/// contents render the parsed tree; any other message (or an assistant
/// message without a tree) is the trimmed content as one plain span.
pub open spec fn spec_format_message<'a>(
    role: Role,
    content: Seq<char>,
    tree: Option<&'a Node>,
) -> Seq<SpanV> {
    let head = seq![
        SpanV { text: role_label(role), style: label_style(role) },
        plain_sv((": ")@),
    ];
    let contents = match (role, tree) {
        (Role::Assistant, Some(t)) => rendered_spans(*t),
        _ => seq![plain_sv(trim_spec(content))],
    };
    head + contents + seq![plain_sv(("\n\n")@)]
}

/// The full text of a formatted message.
pub open spec fn message_text<'a>(role: Role, content: Seq<char>, tree: Option<&'a Node>) -> Seq<
    char,
> {
    text_of(spec_format_message(role, content, tree))
}

/// Formats one chat message for display: the author label styled bold,
/// underlined and accent colored, then `": "`, then the contents, then a
/// blank separator line. An assistant message renders `tree`, the parsed
/// form of its trimmed Markdown content, which the caller supplies; user
/// and system messages (and an assistant message without a tree) show the
/// trimmed content as plain text.
///
/// The spans concatenate to exactly the message text; they are a pure
/// function of the inputs whenever no fenced code block is involved.
pub fn format_message(
    syntax_set: &SyntaxSet,
    theme: &Theme,
    m: &Message,
    tree: Option<&Node>,
) -> (r: StyledText)
    requires
        crate::highlight::syntax_set_wf(*syntax_set),
    ensures
        text_of(r@) == message_text(m.role, m.content@, tree),
        (match (m.role, tree) {
            (Role::Assistant, Some(t)) => no_code_block(*t),
            _ => true,
        }) ==> r@ == spec_format_message(m.role, m.content@, tree),
{
    let ghost head = seq![
        SpanV { text: role_label(m.role), style: label_style(m.role) },
        plain_sv((": ")@),
    ];
    let mut out = StyledText::new();
    let style = Style {
        effects: EffectSet { bold: true, italic: false, underline: true, dim: false, strikethrough: false },
        fg: match m.role {
            Role::User => TermColor::Dark(BaseColor::Cyan),
            Role::System => TermColor::Dark(BaseColor::Green),
            Role::Assistant => TermColor::Dark(BaseColor::Magenta),
        },
        bg: TermColor::TerminalDefault,
    };
    match m.role {
        Role::User => out.push_str("You", style),
        Role::System => out.push_str("System", style),
        Role::Assistant => out.push_str("ChatGPT", style),
    }
    out.push_str(": ", Style::plain());
    proof {
        assert(out@ =~= head);
    }
    let ghost contents = match (m.role, tree) {
        (Role::Assistant, Some(t)) => rendered_spans(*t),
        _ => seq![plain_sv(trim_spec(m.content@))],
    };
    let mut assistant_tree: Option<&Node> = None;
    if let Role::Assistant = m.role {
        assistant_tree = tree;
    }
    match assistant_tree {
        Some(t) => {
            let body = crate::render::format_markdown(syntax_set, theme, t);
            let ghost body_spans = body@;
            out.append_text(body);
            proof {
                lemma_text_of_concat(head, body_spans);
                lemma_text_of_concat(head, contents);
                assert(text_of(out@) == text_of(head) + rendered_text(*t));
            }
        },
        None => {
            let trimmed = trim(m.content.as_str());
            out.push_str(trimmed, Style::plain());
            proof {
                assert(out@ =~= head + contents);
            }
        },
    }
    let ghost mid = out@;
    out.push_str("\n\n", Style::plain());
    proof {
        let tail = seq![plain_sv(("\n\n")@)];
        let whole = spec_format_message(m.role, m.content@, tree);
        assert(out@ =~= mid + tail);
        assert(whole == (head + contents) + tail);
        lemma_text_of_concat(mid, tail);
        lemma_text_of_concat(head + contents, tail);
        lemma_text_of_concat(head, contents);
        assert(text_of(mid) == text_of(head) + text_of(contents)) by {
            match (m.role, tree) {
                (Role::Assistant, Some(t)) => {
                    lemma_text_of_concat(head, rendered_spans(*t));
                },
                _ => {},
            }
        }
        assert(text_of(out@) == text_of(whole));
        if (match (m.role, tree) {
            (Role::Assistant, Some(t)) => no_code_block(*t),
            _ => true,
        }) {
            assert(out@ =~= whole);
        }
    }
    out
}

} // verus!
