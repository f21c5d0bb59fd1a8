//! The tree walker: an iterative, explicit-worklist, dual-visit traversal
//! that turns a document tree into one styled text value.
//!
//! The semantics is given by the spec function [`run`], a step-by-step
//! interpreter of the same worklist the executable walker maintains: each
//! entry pairs a node with a phase (entering or exiting), entering an
//! interior node schedules its exit entry and its children in document
//! order, and each visit updates the style stack, the list stack, and the
//! output spans. The executable walker is proved to follow `run` exactly;
//! only the spans inside a highlighted code block are left open, and even
//! there the emitted text is pinned to the block's literal.

use vstd::prelude::*;
use syntect::highlighting::Theme;
use syntect::parsing::SyntaxSet;
use crate::chars::{dec_rep, repeat_seq};
use crate::node::{ListData, ListDelim, Node, NodeKind, no_code_block, size_of_seq};
use crate::style::{BaseColor, EffectSet, Style, StyleFrame, TermColor, effective};
use crate::text::{SpanV, StyledText, text_of};

verus! {

/// One frame of the list context tracker: the kind of the open list, its
/// current index and delimiter when ordered, and its bullet glyph when
/// bulleted. The stack depth is the current list nesting.
#[derive(Clone, Copy, Debug, PartialEq, Eq)]
pub struct ListFrame {
    pub ordered: bool,
    pub index: usize,
    pub delim: ListDelim,
    pub bullet: char,
}

/// The renderer state the interpreter threads through the traversal.
#[verifier::ext_equal]
pub ghost struct RState {
    pub styles: Seq<StyleFrame>,
    pub lists: Seq<ListFrame>,
    pub out: Seq<SpanV>,
}

impl RState {
    /// The state a render call starts from: empty stacks, empty output.
    pub open spec fn init() -> RState {
        RState { styles: Seq::empty(), lists: Seq::empty(), out: Seq::empty() }
    }
}

/// The style frame a block quote pushes: dim, inheriting the color.
pub open spec fn dim_frame() -> StyleFrame {
    StyleFrame {
        effects: EffectSet { bold: false, italic: false, underline: false, dim: true, strikethrough: false },
        fg: None,
    }
}

/// The style frame emphasis pushes: italic, inheriting the color.
pub open spec fn italic_frame() -> StyleFrame {
    StyleFrame {
        effects: EffectSet { bold: false, italic: true, underline: false, dim: false, strikethrough: false },
        fg: None,
    }
}

/// The style frame strong emphasis pushes: bold, inheriting the color.
pub open spec fn bold_frame() -> StyleFrame {
    StyleFrame {
        effects: EffectSet { bold: true, italic: false, underline: false, dim: false, strikethrough: false },
        fg: None,
    }
}

/// The style frame strikethrough pushes.
pub open spec fn strikethrough_frame() -> StyleFrame {
    StyleFrame {
        effects: EffectSet { bold: false, italic: false, underline: false, dim: false, strikethrough: true },
        fg: None,
    }
}

/// The accent frame of a heading's level marker.
pub open spec fn heading_marker_frame() -> StyleFrame {
    StyleFrame { effects: EffectSet::spec_none(), fg: Some(TermColor::Dark(BaseColor::Red)) }
}

/// The accent frame of a heading's body text.
pub open spec fn heading_body_frame() -> StyleFrame {
    StyleFrame { effects: EffectSet::spec_none(), fg: Some(TermColor::Dark(BaseColor::Green)) }
}

/// The accent frame of a rendered link or image URL: underlined, accent
/// colored.
pub open spec fn link_frame() -> StyleFrame {
    StyleFrame {
        effects: EffectSet { bold: false, italic: false, underline: true, dim: false, strikethrough: false },
        fg: Some(TermColor::Dark(BaseColor::Blue)),
    }
}

/// The style of an inline code span's body: bold over the terminal's own
/// default colors, independent of the ambient style.
pub open spec fn code_span_style() -> Style {
    Style {
        effects: EffectSet { bold: true, italic: false, underline: false, dim: false, strikethrough: false },
        fg: TermColor::TerminalDefault,
        bg: TermColor::TerminalDefault,
    }
}

/// A span in the plain (ambient) style.
pub open spec fn plain_sv(t: Seq<char>) -> SpanV {
    SpanV { text: t, style: Style::spec_plain() }
}

/// The delimiter character of an ordered marker, as text.
pub open spec fn delim_str(d: ListDelim) -> Seq<char> {
    match d {
        ListDelim::Period => (".")@,
        ListDelim::Paren => (")")@,
    }
}

/// A stack with its top frame removed; an empty stack is left unchanged.
pub open spec fn pop_frame<T>(s: Seq<T>) -> Seq<T> {
    if s.len() == 0 {
        s
    } else {
        s.drop_last()
    }
}

/// The next index of an ordered list, saturating at the machine limit.
pub open spec fn inc_sat(i: usize) -> usize {
    if i < usize::MAX {
        (i + 1) as usize
    } else {
        i
    }
}

/// The list frame a list opens: ordered lists seed the index with their
/// declared start value.
pub open spec fn open_list_frame(data: ListData) -> ListFrame {
    ListFrame {
        ordered: data.list_type is Ordered,
        index: data.start,
        delim: data.delimiter,
        bullet: data.bullet_char,
    }
}

/// How one visit changes the style stack: emphasis, strong emphasis,
/// strikethrough, block quotes and headings push their frame on entering
/// and pop it on exiting; every other kind leaves the stack alone.
pub open spec fn step_styles(k: NodeKind, entering: bool, styles: Seq<StyleFrame>) -> Seq<
    StyleFrame,
> {
    match k {
        NodeKind::BlockQuote => if entering {
            styles.push(dim_frame())
        } else {
            pop_frame(styles)
        },
        NodeKind::Heading { .. } => if entering {
            styles.push(heading_body_frame())
        } else {
            pop_frame(styles)
        },
        NodeKind::Emph => if entering {
            styles.push(italic_frame())
        } else {
            pop_frame(styles)
        },
        NodeKind::Strong => if entering {
            styles.push(bold_frame())
        } else {
            pop_frame(styles)
        },
        NodeKind::Strikethrough => if entering {
            styles.push(strikethrough_frame())
        } else {
            pop_frame(styles)
        },
        _ => styles,
    }
}

/// How one visit changes the list stack: a list pushes its frame on
/// entering and pops it on exiting; entering an item of an ordered list
/// advances the top frame's index; every other kind leaves the stack alone.
pub open spec fn step_lists(k: NodeKind, entering: bool, lists: Seq<ListFrame>) -> Seq<ListFrame> {
    match k {
        NodeKind::List { data } => if entering {
            lists.push(open_list_frame(data))
        } else {
            pop_frame(lists)
        },
        NodeKind::Item { .. } => if entering && lists.len() > 0 && lists.last().ordered {
            let f = lists.last();
            lists.update(
                lists.len() - 1,
                ListFrame { ordered: f.ordered, index: inc_sat(f.index), delim: f.delim, bullet: f.bullet },
            )
        } else {
            lists
        },
        _ => lists,
    }
}

/// The spans one visit appends, computed from the state before the visit.
/// `rest_len` is the number of worklist entries still pending after this
/// one; the paragraph spacing rule reads it to recognize the very last
/// content of the document.
pub open spec fn step_out(
    k: NodeKind,
    entering: bool,
    rest_len: nat,
    styles: Seq<StyleFrame>,
    lists: Seq<ListFrame>,
) -> Seq<SpanV> {
    match k {
        NodeKind::List { .. } => if !entering && lists.len() == 1 {
            seq![plain_sv(("\n")@)]
        } else {
            Seq::empty()
        },
        NodeKind::Item { .. } => if entering && lists.len() > 0 {
            let f = lists.last();
            let indent = repeat_seq(("  ")@, (lists.len() - 1) as nat);
            if f.ordered {
                seq![
                    plain_sv(indent),
                    plain_sv(dec_rep(f.index as nat) + delim_str(f.delim) + (" ")@),
                ]
            } else {
                seq![plain_sv(indent), plain_sv(Seq::empty().push(f.bullet) + (" ")@)]
            }
        } else {
            Seq::empty()
        },
        NodeKind::TaskItem { checked, symbol } => if entering {
            seq![
                plain_sv(("[")@),
                plain_sv(if checked { Seq::empty().push(symbol) } else { (" ")@ }),
                plain_sv(("] ")@),
            ]
        } else {
            Seq::empty()
        },
        NodeKind::Code { literal } => if entering {
            seq![
                plain_sv(("`")@),
                SpanV { text: literal@, style: code_span_style() },
                plain_sv(("`")@),
            ]
        } else {
            Seq::empty()
        },
        NodeKind::CodeBlock { info: _, literal } => if entering {
            seq![plain_sv(literal@), plain_sv(("\n")@)]
        } else {
            Seq::empty()
        },
        NodeKind::HtmlBlock { literal } => if entering {
            seq![plain_sv(literal@), plain_sv(("\n")@)]
        } else {
            Seq::empty()
        },
        NodeKind::HtmlInline { literal } => if entering {
            seq![plain_sv(literal@)]
        } else {
            Seq::empty()
        },
        NodeKind::Paragraph => if !entering && rest_len > 1 {
            if lists.len() > 0 {
                seq![plain_sv(("\n")@)]
            } else {
                seq![plain_sv(("\n\n")@)]
            }
        } else {
            Seq::empty()
        },
        NodeKind::Text { literal } => if entering {
            seq![SpanV { text: literal@, style: effective(styles) }]
        } else {
            Seq::empty()
        },
        NodeKind::Heading { level } => if entering {
            seq![
                SpanV {
                    text: repeat_seq(("#")@, level as nat) + (" ")@,
                    style: effective(styles.push(heading_marker_frame())),
                },
            ]
        } else {
            seq![plain_sv(("\n\n")@)]
        },
        NodeKind::SoftBreak => if entering {
            seq![plain_sv((" ")@)]
        } else {
            Seq::empty()
        },
        NodeKind::LineBreak => if entering {
            seq![plain_sv(("\n")@)]
        } else {
            Seq::empty()
        },
        NodeKind::Link { url } => if !entering {
            seq![
                SpanV { text: (" (")@, style: effective(styles) },
                SpanV { text: url@, style: effective(styles.push(link_frame())) },
                SpanV { text: (")")@, style: effective(styles) },
            ]
        } else {
            Seq::empty()
        },
        NodeKind::Image { url } => if !entering {
            seq![
                SpanV { text: (" (")@, style: effective(styles) },
                SpanV { text: url@, style: effective(styles.push(link_frame())) },
                SpanV { text: (")")@, style: effective(styles) },
            ]
        } else {
            Seq::empty()
        },
        _ => Seq::empty(),
    }
}

/// One visit of the interpreter: the three state components after handling
/// `(n, entering)` with `rest_len` entries still pending.
pub open spec fn step(n: Node, entering: bool, rest_len: nat, st: RState) -> RState {
    RState {
        styles: step_styles(n.kind, entering, st.styles),
        lists: step_lists(n.kind, entering, st.lists),
        out: st.out + step_out(n.kind, entering, rest_len, st.styles, st.lists),
    }
}

/// The worklist entries that schedule a node's children for entering, in
/// document order: the sequence's last entry (the next to be popped) is the
/// first child.
pub open spec fn child_entries(cs: Seq<Node>) -> Seq<(Node, bool)>
    decreases cs.len(),
{
    if cs.len() == 0 {
        Seq::empty()
    } else {
        seq![(cs.last(), true)] + child_entries(cs.drop_last())
    }
}

/// The termination measure of one worklist entry: an entering entry still
/// owes both visits of its whole subtree, an exiting entry only itself.
pub open spec fn weight_entry(e: (Node, bool)) -> nat {
    if e.1 {
        2 * e.0.size()
    } else {
        1
    }
}

/// The termination measure of a worklist.
pub open spec fn weight(wl: Seq<(Node, bool)>) -> nat
    decreases wl.len(),
{
    if wl.len() == 0 {
        0
    } else {
        weight(wl.drop_last()) + weight_entry(wl.last())
    }
}

proof fn lemma_weight_concat(a: Seq<(Node, bool)>, b: Seq<(Node, bool)>)
    ensures
        weight(a + b) == weight(a) + weight(b),
    decreases b.len(),
{
    if b.len() == 0 {
        assert(a + b =~= a);
    } else {
        lemma_weight_concat(a, b.drop_last());
        assert((a + b).drop_last() =~= a + b.drop_last());
        assert((a + b).last() == b.last());
    }
}

proof fn lemma_size_of_seq_last(s: Seq<Node>)
    requires
        s.len() > 0,
    ensures
        size_of_seq(s) == size_of_seq(s.drop_last()) + s.last().size(),
    decreases s.len(),
{
    if s.len() == 1 {
        assert(s.drop_last() =~= Seq::<Node>::empty());
        assert(s.drop_first() =~= Seq::<Node>::empty());
        assert(s[0] == s.last());
    } else {
        lemma_size_of_seq_last(s.drop_first());
        assert(s.drop_first().last() == s.last());
        assert(s.drop_first().drop_last() =~= s.drop_last().drop_first());
        assert(s.drop_last()[0] == s[0]);
        assert(size_of_seq(s.drop_last()) == s.drop_last()[0].size() + size_of_seq(s.drop_last().drop_first()));
    }
}

proof fn lemma_weight_child_entries(cs: Seq<Node>)
    ensures
        weight(child_entries(cs)) == 2 * size_of_seq(cs),
    decreases cs.len(),
{
    if cs.len() == 0 {
    } else {
        lemma_weight_child_entries(cs.drop_last());
        lemma_size_of_seq_last(cs);
        let one = seq![(cs.last(), true)];
        lemma_weight_concat(one, child_entries(cs.drop_last()));
        assert(one.drop_last() =~= Seq::<(Node, bool)>::empty());
        assert(weight(one.drop_last()) == 0);
        assert(one.last() == (cs.last(), true));
        assert(weight(one) == weight_entry((cs.last(), true)));
    }
}

/// Entering a node replaces its entry by strictly lighter ones: the exit
/// entry plus both visits of every child.
proof fn lemma_weight_enter(wl: Seq<(Node, bool)>)
    requires
        wl.len() > 0,
        wl.last().1,
    ensures
        weight(wl.drop_last().push((wl.last().0, false)) + child_entries(wl.last().0.children@))
            < weight(wl),
{
    let n = wl.last().0;
    let rest = wl.drop_last();
    let pushed = rest.push((n, false));
    lemma_weight_concat(pushed, child_entries(n.children@));
    lemma_weight_child_entries(n.children@);
    assert(pushed.drop_last() =~= rest);
    assert(weight(pushed) == weight(rest) + 1);
}

/// The worklist interpreter: pops the last entry, applies its visit, and,
/// for an entering visit, schedules the exit entry and the children in
/// document order. The state when the worklist empties is the render
/// result.
pub open spec fn run(wl: Seq<(Node, bool)>, st: RState) -> RState
    decreases weight(wl),
    via run_decreases
{
    if wl.len() == 0 {
        st
    } else {
        let e = wl.last();
        let rest = wl.drop_last();
        let st1 = step(e.0, e.1, rest.len() as nat, st);
        let wl1 = if e.1 {
            rest.push((e.0, false)) + child_entries(e.0.children@)
        } else {
            rest
        };
        run(wl1, st1)
    }
}

#[via_fn]
proof fn run_decreases(wl: Seq<(Node, bool)>, st: RState) {
    if wl.len() > 0 {
        if wl.last().1 {
            lemma_weight_enter(wl);
        }
    }
}

/// The full render of a tree: the interpreter applied to the initial
/// worklist holding the root's entering entry.
pub open spec fn spec_render(root: Node) -> RState {
    run(seq![(root, true)], RState::init())
}

/// The spans a render of `root` produces: exact except inside highlighted
/// code blocks, whose spans carry the same text in finer pieces.
pub open spec fn rendered_spans(root: Node) -> Seq<SpanV> {
    spec_render(root).out
}

/// The full rendered text of a tree: what the output spans concatenate to.
pub open spec fn rendered_text(root: Node) -> Seq<char> {
    crate::text::text_of(rendered_spans(root))
}

/// The worklist a stack of node references stands for.
pub open spec fn wl_of<'a>(s: Seq<(&'a Node, bool)>) -> Seq<(Node, bool)> {
    s.map(|i: int, e: (&'a Node, bool)| (*e.0, e.1))
}

proof fn lemma_child_entries_len(cs: Seq<Node>)
    ensures
        child_entries(cs).len() == cs.len(),
    decreases cs.len(),
{
    if cs.len() > 0 {
        lemma_child_entries_len(cs.drop_last());
    }
}

proof fn lemma_child_entries_drop_first(cs: Seq<Node>)
    requires
        cs.len() > 0,
    ensures
        child_entries(cs) == child_entries(cs.drop_first()).push((cs[0], true)),
    decreases cs.len(),
{
    if cs.len() == 1 {
        assert(cs.drop_last() =~= Seq::<Node>::empty());
        assert(cs.drop_first() =~= Seq::<Node>::empty());
        assert(cs.last() == cs[0]);
        assert(child_entries(cs) =~= child_entries(cs.drop_first()).push((cs[0], true)));
    } else {
        let short = cs.drop_last();
        lemma_child_entries_drop_first(short);
        assert(short[0] == cs[0]);
        let x = child_entries(short.drop_first());
        let y = (cs[0], true);
        assert(child_entries(cs) == seq![(cs.last(), true)] + x.push(y));
        assert(seq![(cs.last(), true)] + x.push(y) =~= (seq![(cs.last(), true)] + x).push(y));
        assert(cs.drop_first().last() == cs.last());
        assert(cs.drop_first().drop_last() =~= short.drop_first());
        assert(child_entries(cs.drop_first()) == seq![(cs.last(), true)] + x);
    }
}

proof fn lemma_child_entries_index(cs: Seq<Node>, k: int)
    requires
        0 <= k < cs.len(),
    ensures
        child_entries(cs).len() == cs.len(),
        child_entries(cs)[k] == (cs[cs.len() - 1 - k], true),
    decreases cs.len(),
{
    lemma_child_entries_len(cs);
    if k == 0 {
        assert(child_entries(cs)[0] == (cs.last(), true));
    } else {
        lemma_child_entries_index(cs.drop_last(), k - 1);
        lemma_child_entries_len(cs.drop_last());
        assert(child_entries(cs)[k] == child_entries(cs.drop_last())[k - 1]);
        assert(cs.drop_last()[cs.len() - 1 - k] == cs[cs.len() - 1 - k]);
    }
}

/// Whether every node scheduled on a worklist is free of code blocks.
pub open spec fn wl_no_cb(wl: Seq<(Node, bool)>) -> bool {
    forall|i: int| 0 <= i < wl.len() ==> #[trigger] crate::node::no_code_block(wl[i].0)
}

proof fn lemma_wl_no_cb_step(wl: Seq<(Node, bool)>)
    requires
        wl_no_cb(wl),
        wl.len() > 0,
    ensures
        wl_no_cb(wl.drop_last()),
        wl_no_cb(wl.drop_last().push((wl.last().0, false)) + child_entries(wl.last().0.children@)),
{
    let n = wl.last().0;
    let rest = wl.drop_last();
    assert forall|i: int| 0 <= i < rest.len() implies #[trigger] crate::node::no_code_block(rest[i].0) by {
        assert(rest[i] == wl[i]);
    }
    let mid = rest.push((n, false));
    let full = mid + child_entries(n.children@);
    assert(crate::node::no_code_block(n));
    lemma_child_entries_len(n.children@);
    assert forall|i: int| 0 <= i < full.len() implies #[trigger] crate::node::no_code_block(full[i].0) by {
        if i < rest.len() {
            assert(full[i] == wl[i]);
        } else if i == rest.len() {
            assert(full[i] == (n, false));
        } else {
            let k = i - mid.len();
            lemma_child_entries_index(n.children@, k);
            crate::node::lemma_forest_no_code_block_index(
                n.children@,
                n.children@.len() - 1 - k,
            );
        }
    }
}

/// Builds the list frame a list opens.
fn open_frame(d: ListData) -> (r: ListFrame)
    ensures
        r == open_list_frame(d),
{
    ListFrame {
        ordered: match d.list_type {
            crate::node::ListType::Bullet => false,
            crate::node::ListType::Ordered => true,
        },
        index: d.start,
        delim: d.delimiter,
        bullet: d.bullet_char,
    }
}

/// Schedules every child of a node for entering, in document order: the
/// last child is pushed first, so the first child is popped first.
fn push_children<'a>(stack: &mut Vec<(&'a Node, bool)>, children: &'a Vec<Node>)
    ensures
        wl_of(final(stack)@) == wl_of(old(stack)@) + child_entries(children@),
{
    let n = children.len();
    let mut j: usize = n;
    proof {
        assert(children@.subrange(n as int, n as int) =~= Seq::<Node>::empty());
        assert(wl_of(stack@) + child_entries(children@.subrange(n as int, n as int)) =~= wl_of(stack@));
    }
    while j > 0
        invariant
            j <= n,
            n == children@.len(),
            wl_of(stack@) == wl_of(old(stack)@) + child_entries(
                children@.subrange(j as int, n as int),
            ),
        decreases j,
    {
        j = j - 1;
        let ghost pre = stack@;
        let child: &Node = &children[j];
        stack.push((child, true));
        proof {
            let cur = children@.subrange(j as int, n as int);
            let prev = children@.subrange(j + 1, n as int);
            assert(cur.drop_first() =~= prev);
            assert(cur[0] == children@[j as int]);
            lemma_child_entries_drop_first(cur);
            assert(wl_of(stack@) =~= wl_of(pre).push((*child, true)));
            assert(wl_of(pre).push((*child, true)) =~= wl_of(old(stack)@) + child_entries(cur));
        }
    }
    proof {
        assert(children@.subrange(0, n as int) =~= children@);
    }
}

/// Renders a document tree into one styled text value, walking the tree
/// iteratively with an explicit worklist of (node, phase) entries. Exactly
/// one entering and one exiting visit happen per node, the exit strictly
/// after the whole subtree. The call always completes: malformed shapes
/// (an item outside a list, an unbalanced stack) skip their formatting and
/// still traverse their children.
///
/// The result's spans concatenate, with no gaps and no overlaps, to exactly
/// the rendered text of the tree, for every tree. On trees without fenced
/// code blocks the spans themselves are a pure function of the tree, so
/// rendering is deterministic; a highlighted code block emits the same text
/// in tokenizer-chosen pieces.
#[verifier::rlimit(100)]
pub fn format_markdown(syntax_set: &SyntaxSet, theme: &Theme, root: &Node) -> (r: StyledText)
    requires
        crate::highlight::syntax_set_wf(*syntax_set),
    ensures
        text_of(r@) == rendered_text(*root),
        no_code_block(*root) ==> r@ == rendered_spans(*root),
{
    let mut stack: Vec<(&Node, bool)> = Vec::new();
    stack.push((root, true));
    let mut styles: Vec<StyleFrame> = Vec::new();
    let mut lists: Vec<ListFrame> = Vec::new();
    let mut out = StyledText::new();
    let ghost init_wl = wl_of(stack@);
    let ghost mut sout: Seq<SpanV> = Seq::empty();
    proof {
        assert(init_wl =~= seq![(*root, true)]);
        assert(out@ =~= sout);
        assert(text_of(out@) == text_of(sout));
    }
    while stack.len() > 0
        invariant
            crate::highlight::syntax_set_wf(*syntax_set),
            run(wl_of(stack@), RState { styles: styles@, lists: lists@, out: sout }) == run(
                init_wl,
                RState::init(),
            ),
            text_of(out@) == text_of(sout),
            no_code_block(*root) ==> out@ == sout && wl_no_cb(wl_of(stack@)),
        decreases weight(wl_of(stack@)),
    {
        let ghost wl0 = wl_of(stack@);
        let ghost styles0 = styles@;
        let ghost lists0 = lists@;
        let ghost out0 = out@;
        let ghost sout0 = sout;
        let popped = stack.pop();
        let (node, entering) = popped.unwrap();
        let ghost rest = wl_of(stack@);
        proof {
            assert(wl0.last() == (*node, entering));
            assert(rest =~= wl0.drop_last());
        }
        if entering {
            stack.push((node, false));
        }
        let ghost emitted = step_out((*node).kind, entering, rest.len() as nat, styles0, lists0);
        match &node.kind {
            NodeKind::Document => {},
            NodeKind::FrontMatter { .. } => {},
            NodeKind::Paragraph => {
                if !entering && stack.len() > 1 {
                    if lists.len() > 0 {
                        out.push_str("\n", Style::plain());
                    } else {
                        out.push_str("\n\n", Style::plain());
                    }
                }
            },
            NodeKind::Heading { level } => {
                if entering {
                    styles.push(
                        StyleFrame {
                            effects: EffectSet::none(),
                            fg: Some(TermColor::Dark(BaseColor::Red)),
                        },
                    );
                    let marker_style = crate::style::effective_style(&styles);
                    let mut marker = crate::chars::repeat_str("#", *level as usize);
                    marker.append(" ");
                    out.push_span(marker, marker_style);
                    styles.pop();
                    styles.push(
                        StyleFrame {
                            effects: EffectSet::none(),
                            fg: Some(TermColor::Dark(BaseColor::Green)),
                        },
                    );
                    proof {
                        assert(styles@ =~= styles0.push(heading_body_frame()));
                        assert(styles0.push(heading_marker_frame()).drop_last() =~= styles0);
                    }
                } else {
                    styles.pop();
                    out.push_str("\n\n", Style::plain());
                }
            },
            NodeKind::List { data } => {
                if entering {
                    lists.push(open_frame(*data));
                } else {
                    let was_top = lists.len() == 1;
                    lists.pop();
                    if was_top {
                        out.push_str("\n", Style::plain());
                    }
                }
            },
            NodeKind::Item { .. } => {
                if entering && lists.len() > 0 {
                    let d = lists.len();
                    let f = lists[d - 1];
                    let indent = crate::chars::repeat_str("  ", d - 1);
                    out.push_span(indent, Style::plain());
                    if f.ordered {
                        let mut marker = crate::chars::usize_to_string(f.index);
                        marker.append(
                            match f.delim {
                                ListDelim::Period => ".",
                                ListDelim::Paren => ")",
                            },
                        );
                        marker.append(" ");
                        out.push_span(marker, Style::plain());
                        lists.pop();
                        lists.push(
                            ListFrame {
                                ordered: f.ordered,
                                index: if f.index < usize::MAX {
                                    f.index + 1
                                } else {
                                    f.index
                                },
                                delim: f.delim,
                                bullet: f.bullet,
                            },
                        );
                        proof {
                            assert(lists@ =~= step_lists((*node).kind, entering, lists0));
                        }
                    } else {
                        let mut marker = String::new();
                        crate::chars::push_char(&mut marker, f.bullet);
                        marker.append(" ");
                        out.push_span(marker, Style::plain());
                    }
                }
            },
            NodeKind::TaskItem { checked, symbol } => {
                if entering {
                    out.push_str("[", Style::plain());
                    if *checked {
                        let mut sym = String::new();
                        crate::chars::push_char(&mut sym, *symbol);
                        out.push_span(sym, Style::plain());
                    } else {
                        out.push_str(" ", Style::plain());
                    }
                    out.push_str("] ", Style::plain());
                }
            },
            NodeKind::BlockQuote => {
                if entering {
                    styles.push(
                        StyleFrame {
                            effects: EffectSet {
                                bold: false,
                                italic: false,
                                underline: false,
                                dim: true,
                                strikethrough: false,
                            },
                            fg: None,
                        },
                    );
                } else {
                    styles.pop();
                }
            },
            NodeKind::Code { literal } => {
                if entering {
                    out.push_str("`", Style::plain());
                    out.push_span(
                        literal.clone(),
                        Style {
                            effects: EffectSet {
                                bold: true,
                                italic: false,
                                underline: false,
                                dim: false,
                                strikethrough: false,
                            },
                            fg: TermColor::TerminalDefault,
                            bg: TermColor::TerminalDefault,
                        },
                    );
                    out.push_str("`", Style::plain());
                }
            },
            NodeKind::CodeBlock { info, literal } => {
                if entering {
                    let block = crate::highlight::highlight_block(
                        syntax_set,
                        theme,
                        info.as_str(),
                        literal.as_str(),
                    );
                    let ghost block_spans = block@;
                    out.append_text(block);
                    out.push_str("\n", Style::plain());
                    proof {
                        crate::text::lemma_text_of_concat(out0, block_spans);
                        crate::text::lemma_text_of_push(out0 + block_spans, out@.last());
                        crate::text::lemma_text_of_push(seq![plain_sv(literal@)], plain_sv(("\n")@));
                        crate::text::lemma_text_of_one(plain_sv(literal@));
                        assert(emitted =~= seq![plain_sv(literal@)].push(plain_sv(("\n")@)));
                        assert(text_of(out@) =~= text_of(out0) + text_of(emitted));
                        if no_code_block(*root) {
                            assert(crate::node::no_code_block(wl0.last().0));
                            assert(false);
                        }
                    }
                }
            },
            NodeKind::HtmlBlock { literal } => {
                if entering {
                    out.push_span(literal.clone(), Style::plain());
                    out.push_str("\n", Style::plain());
                }
            },
            NodeKind::HtmlInline { literal } => {
                if entering {
                    out.push_span(literal.clone(), Style::plain());
                }
            },
            NodeKind::Text { literal } => {
                if entering {
                    let style = crate::style::effective_style(&styles);
                    out.push_span(literal.clone(), style);
                }
            },
            NodeKind::SoftBreak => {
                if entering {
                    out.push_str(" ", Style::plain());
                }
            },
            NodeKind::LineBreak => {
                if entering {
                    out.push_str("\n", Style::plain());
                }
            },
            NodeKind::Emph => {
                if entering {
                    styles.push(
                        StyleFrame {
                            effects: EffectSet {
                                bold: false,
                                italic: true,
                                underline: false,
                                dim: false,
                                strikethrough: false,
                            },
                            fg: None,
                        },
                    );
                } else {
                    styles.pop();
                }
            },
            NodeKind::Strong => {
                if entering {
                    styles.push(
                        StyleFrame {
                            effects: EffectSet {
                                bold: true,
                                italic: false,
                                underline: false,
                                dim: false,
                                strikethrough: false,
                            },
                            fg: None,
                        },
                    );
                } else {
                    styles.pop();
                }
            },
            NodeKind::Strikethrough => {
                if entering {
                    styles.push(
                        StyleFrame {
                            effects: EffectSet {
                                bold: false,
                                italic: false,
                                underline: false,
                                dim: false,
                                strikethrough: true,
                            },
                            fg: None,
                        },
                    );
                } else {
                    styles.pop();
                }
            },
            NodeKind::Superscript => {},
            NodeKind::Link { url } | NodeKind::Image { url } => {
                if !entering {
                    let ambient = crate::style::effective_style(&styles);
                    out.push_str(" (", ambient);
                    styles.push(
                        StyleFrame {
                            effects: EffectSet {
                                bold: false,
                                italic: false,
                                underline: true,
                                dim: false,
                                strikethrough: false,
                            },
                            fg: Some(TermColor::Dark(BaseColor::Blue)),
                        },
                    );
                    let url_style = crate::style::effective_style(&styles);
                    out.push_span(url.clone(), url_style);
                    styles.pop();
                    out.push_str(")", ambient);
                    proof {
                        assert(styles@ =~= styles0);
                        assert(styles0.push(link_frame()).drop_last() =~= styles0);
                    }
                }
            },
            NodeKind::Table => {},
            NodeKind::TableRow => {},
            NodeKind::TableCell => {},
            NodeKind::FootnoteDefinition => {},
            NodeKind::FootnoteReference => {},
            NodeKind::DescriptionList => {},
            NodeKind::DescriptionItem => {},
            NodeKind::DescriptionTerm => {},
            NodeKind::DescriptionDetails => {},
            NodeKind::ThematicBreak => {},
        }
        if entering {
            push_children(&mut stack, &node.children);
        }
        proof {
            let e = (*node, entering);
            assert(styles@ == step_styles(e.0.kind, entering, styles0));
            assert(lists@ == step_lists(e.0.kind, entering, lists0));
            if !(e.0.kind is CodeBlock) {
                assert(out@ =~= out0 + emitted);
                crate::text::lemma_text_of_concat(out0, emitted);
            }
            assert(text_of(out@) == text_of(out0) + text_of(emitted));
            crate::text::lemma_text_of_concat(sout0, emitted);
            sout = sout0 + emitted;
            assert(text_of(out@) == text_of(sout));
            let st0 = RState { styles: styles0, lists: lists0, out: sout0 };
            let st1 = step(e.0, e.1, rest.len() as nat, st0);
            assert(st1 =~= RState { styles: styles@, lists: lists@, out: sout });
            if entering {
                assert(wl_of(stack@) =~= rest.push((e.0, false)) + child_entries(e.0.children@));
            }
            assert(run(wl0, st0) == run(wl_of(stack@), st1));
            if entering {
                lemma_weight_enter(wl0);
            }
            if no_code_block(*root) {
                lemma_wl_no_cb_step(wl0);
                assert(wl_no_cb(wl_of(stack@)));
                assert(out@ == sout);
            }
        }
    }
    proof {
        assert(wl_of(stack@) =~= Seq::<(Node, bool)>::empty());
        assert(run(wl_of(stack@), RState { styles: styles@, lists: lists@, out: sout }) == RState {
            styles: styles@,
            lists: lists@,
            out: sout,
        });
        assert(init_wl == seq![(*root, true)]);
        assert(sout == rendered_spans(*root));
    }
    out
}

/// Ordered numbering is kept per list frame: no visit changes any frame of
/// the list stack below the top one. A nested list works only on its own
/// frame, pushed above its enclosing list's, so the items of one ordered
/// list are numbered from its declared start onward no matter what is
/// nested inside or around it.
pub proof fn lemma_list_frames_below_top_stable(
    k: NodeKind,
    entering: bool,
    lists: Seq<ListFrame>,
)
    ensures
        forall|i: int|
            0 <= i < lists.len() - 1 && i < step_lists(k, entering, lists).len()
                ==> step_lists(k, entering, lists)[i] == lists[i],
{
}

proof fn lemma_step_out_bg(
    k: NodeKind,
    entering: bool,
    rest_len: nat,
    styles: Seq<StyleFrame>,
    lists: Seq<ListFrame>,
)
    ensures
        forall|i: int|
            0 <= i < step_out(k, entering, rest_len, styles, lists).len() ==> (
            #[trigger] step_out(k, entering, rest_len, styles, lists)[i]).style.bg
                == TermColor::TerminalDefault,
{
}

proof fn lemma_run_bg(wl: Seq<(Node, bool)>, st: RState)
    requires
        forall|i: int|
            0 <= i < st.out.len() ==> (#[trigger] st.out[i]).style.bg
                == TermColor::TerminalDefault,
    ensures
        forall|i: int|
            0 <= i < run(wl, st).out.len() ==> (#[trigger] run(wl, st).out[i]).style.bg
                == TermColor::TerminalDefault,
    decreases weight(wl),
{
    if wl.len() > 0 {
        let e = wl.last();
        let rest = wl.drop_last();
        let st1 = step(e.0, e.1, rest.len() as nat, st);
        lemma_step_out_bg(e.0.kind, e.1, rest.len() as nat, st.styles, st.lists);
        assert forall|i: int| 0 <= i < st1.out.len() implies (#[trigger] st1.out[i]).style.bg
            == TermColor::TerminalDefault by {
            if i < st.out.len() {
                assert(st1.out[i] == st.out[i]);
            } else {
                assert(st1.out[i] == step_out(e.0.kind, e.1, rest.len() as nat, st.styles, st.lists)[
                    i - st.out.len()]);
            }
        }
        if e.1 {
            lemma_weight_enter(wl);
            lemma_run_bg(rest.push((e.0, false)) + child_entries(e.0.children@), st1);
        } else {
            lemma_run_bg(rest, st1);
        }
    }
}

/// Every span of a render's model carries the terminal's own default
/// background: explicit backgrounds never appear in the output. (For the
/// spans of an actual render, the tokenizer-chosen spans inside a code
/// block satisfy the same bound by the highlighter bridge's contract.)
pub proof fn lemma_rendered_spans_bg(root: Node)
    ensures
        forall|i: int|
            0 <= i < rendered_spans(root).len() ==> (#[trigger] rendered_spans(root)[i]).style.bg
                == TermColor::TerminalDefault,
{
    lemma_run_bg(seq![(root, true)], RState::init());
}

/// Rendering is deterministic: any two render results for one tree carry
/// the same text, and, when the tree holds no fenced code block, the very
/// same spans — the output is then a pure function of the tree, not even
/// reading the theme or the syntax table.
pub proof fn lemma_render_deterministic(root: Node, r1: Seq<SpanV>, r2: Seq<SpanV>)
    requires
        text_of(r1) == rendered_text(root),
        text_of(r2) == rendered_text(root),
        no_code_block(root) ==> r1 == rendered_spans(root),
        no_code_block(root) ==> r2 == rendered_spans(root),
    ensures
        text_of(r1) == text_of(r2),
        no_code_block(root) ==> r1 == r2,
{
}

/// An empty document renders to nothing at all: no spans and empty text,
/// with both visits of the root completing normally.
pub proof fn lemma_empty_document(root: Node)
    requires
        root.kind is Document,
        root.children@ == Seq::<Node>::empty(),
    ensures
        rendered_spans(root) == Seq::<SpanV>::empty(),
        rendered_text(root) == Seq::<char>::empty(),
{
    reveal_with_fuel(run, 3);
    let wl0 = seq![(root, true)];
    let st0 = RState::init();
    assert(wl0.last() == (root, true));
    let rest = wl0.drop_last();
    assert(rest =~= Seq::<(Node, bool)>::empty());
    let st1 = step(root, true, rest.len() as nat, st0);
    assert(step_out(root.kind, true, rest.len() as nat, st0.styles, st0.lists)
        == Seq::<SpanV>::empty());
    assert(st1 =~= st0);
    let wl1 = rest.push((root, false)) + child_entries(root.children@);
    assert(child_entries(root.children@) =~= Seq::<(Node, bool)>::empty());
    assert(wl1 =~= seq![(root, false)]);
    assert(run(wl0, st0) == run(wl1, st1));
    assert(wl1.last() == (root, false));
    let rest1 = wl1.drop_last();
    assert(rest1 =~= Seq::<(Node, bool)>::empty());
    let st2 = step(root, false, rest1.len() as nat, st1);
    assert(st2 =~= st0);
    assert(run(wl1, st1) == run(rest1, st2));
    assert(run(rest1, st2) == st2);
    assert(rendered_spans(root) == Seq::<SpanV>::empty());
}

} // verus!
