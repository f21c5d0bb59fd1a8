//! The document tree: a node kind plus an ordered sequence of child nodes.
//! The tree is read-only during rendering. Every kind carries its data as
//! plain values, so a render call is total: malformed shapes degrade
//! gracefully instead of failing.

use vstd::prelude::*;

verus! {

/// Whether a list is bulleted or numbered.
#[derive(Clone, Copy, Debug, PartialEq, Eq)]
pub enum ListType {
    Bullet,
    Ordered,
}

/// The delimiter following an ordered item's number.
#[derive(Clone, Copy, Debug, PartialEq, Eq)]
pub enum ListDelim {
    Period,
    Paren,
}

/// The structural data of a list or list item.
#[derive(Clone, Copy, Debug, PartialEq, Eq)]
pub struct ListData {
    pub list_type: ListType,
    /// The first index of an ordered list.
    pub start: usize,
    /// The delimiter of an ordered list's markers.
    pub delimiter: ListDelim,
    /// The glyph of a bulleted list's markers.
    pub bullet_char: char,
}

/// The kind of a document tree node, with the data the renderer reads.
#[derive(Debug, PartialEq, Eq)]
pub enum NodeKind {
    Document,
    FrontMatter { literal: String },
    Paragraph,
    Heading { level: u8 },
    List { data: ListData },
    Item { data: ListData },
    TaskItem { checked: bool, symbol: char },
    BlockQuote,
    Code { literal: String },
    CodeBlock { info: String, literal: String },
    HtmlBlock { literal: String },
    HtmlInline { literal: String },
    Text { literal: String },
    SoftBreak,
    LineBreak,
    Emph,
    Strong,
    Strikethrough,
    Superscript,
    Link { url: String },
    Image { url: String },
    Table,
    TableRow,
    TableCell,
    FootnoteDefinition,
    FootnoteReference,
    DescriptionList,
    DescriptionItem,
    DescriptionTerm,
    DescriptionDetails,
    ThematicBreak,
}

/// One node of the document tree, owning its children in document order.
#[derive(Debug, PartialEq, Eq)]
pub struct Node {
    pub kind: NodeKind,
    pub children: Vec<Node>,
}

impl Node {
    /// A node without children.
    pub fn leaf(kind: NodeKind) -> (r: Node)
        ensures
            r.kind == kind,
            r.children@ =~= Seq::<Node>::empty(),
    {
        Node { kind, children: Vec::new() }
    }

    /// The number of nodes in the tree rooted here (at least one).
    pub open spec fn size(self) -> nat
        decreases self,
    {
        1 + size_of_seq(self.children@)
    }
}

/// The total number of nodes in a forest.
pub open spec fn size_of_seq(s: Seq<Node>) -> nat
    decreases s,
{
    if s.len() == 0 {
        0
    } else {
        s[0].size() + size_of_seq(s.drop_first())
    }
}

/// Whether no node of the tree is a fenced code block. On such trees the
/// renderer's output is a pure function of the tree alone.
pub open spec fn no_code_block(n: Node) -> bool
    decreases n,
{
    !(n.kind is CodeBlock) && forest_no_code_block(n.children@)
}

/// Whether no node of the forest contains a fenced code block.
pub open spec fn forest_no_code_block(s: Seq<Node>) -> bool
    decreases s,
{
    if s.len() == 0 {
        true
    } else {
        no_code_block(s[0]) && forest_no_code_block(s.drop_first())
    }
}

/// Every member of a code-block-free forest is itself code-block-free.
pub proof fn lemma_forest_no_code_block_index(s: Seq<Node>, i: int)
    requires
        forest_no_code_block(s),
        0 <= i < s.len(),
    ensures
        no_code_block(s[i]),
    decreases i,
{
    if i > 0 {
        lemma_forest_no_code_block_index(s.drop_first(), i - 1);
    }
}

} // verus!
