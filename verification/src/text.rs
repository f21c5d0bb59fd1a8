//! The output buffer: an ordered sequence of styled spans. The rendered text
//! of a buffer is the concatenation of its span texts, with no gaps and no
//! overlaps.

use vstd::prelude::*;
use crate::style::Style;

verus! {

/// A contiguous run of text tagged with one resolved style.
pub struct Span {
    pub text: String,
    pub style: Style,
}

/// The mathematical model of a span.
pub ghost struct SpanV {
    pub text: Seq<char>,
    pub style: Style,
}

impl View for Span {
    type V = SpanV;

    open spec fn view(&self) -> SpanV {
        SpanV { text: self.text@, style: self.style }
    }
}

/// The concatenation of the span texts: the rendered string of the buffer.
pub open spec fn text_of(spans: Seq<SpanV>) -> Seq<char>
    decreases spans.len(),
{
    if spans.len() == 0 {
        Seq::empty()
    } else {
        text_of(spans.drop_last()) + spans.last().text
    }
}

/// The rendered text distributes over concatenation of span sequences.
pub proof fn lemma_text_of_concat(a: Seq<SpanV>, b: Seq<SpanV>)
    ensures
        text_of(a + b) == text_of(a) + text_of(b),
    decreases b.len(),
{
    if b.len() == 0 {
        assert(a + b =~= a);
        assert(text_of(b) =~= Seq::<char>::empty());
        assert(text_of(a) + text_of(b) =~= text_of(a));
    } else {
        lemma_text_of_concat(a, b.drop_last());
        assert((a + b).drop_last() =~= a + b.drop_last());
        assert((a + b).last() == b.last());
        assert(text_of(a + b) == text_of(a + b.drop_last()) + b.last().text);
        assert(text_of(a) + text_of(b) =~= (text_of(a) + text_of(b.drop_last())) + b.last().text);
    }
}

/// The rendered text after appending one span grows by that span's text.
pub proof fn lemma_text_of_push(s: Seq<SpanV>, x: SpanV)
    ensures
        text_of(s.push(x)) == text_of(s) + x.text,
{
    assert(s.push(x).drop_last() =~= s);
    assert(s.push(x).last() == x);
}

/// The rendered text of a single-span sequence is that span's text.
pub proof fn lemma_text_of_one(s: SpanV)
    ensures
        text_of(seq![s]) == s.text,
{
    let one = seq![s];
    assert(one.drop_last() =~= Seq::<SpanV>::empty());
    assert(text_of(one.drop_last()) == Seq::<char>::empty());
    assert(one.last() == s);
    assert(text_of(one) == text_of(one.drop_last()) + one.last().text);
    assert(Seq::<char>::empty() + s.text =~= s.text);
}

/// The ordered, gap-free sequence of styled spans a render call accumulates.
pub struct StyledText {
    pub spans: Vec<Span>,
}

impl View for StyledText {
    type V = Seq<SpanV>;

    open spec fn view(&self) -> Seq<SpanV> {
        self.spans@.map(|i: int, s: Span| s@)
    }
}

impl StyledText {
    /// An empty buffer.
    pub fn new() -> (r: StyledText)
        ensures
            r@ =~= Seq::<SpanV>::empty(),
    {
        StyledText { spans: Vec::new() }
    }

    /// Appends one span.
    pub fn push_span(&mut self, text: String, style: Style)
        ensures
            final(self)@ =~= old(self)@.push(SpanV { text: text@, style }),
    {
        let ghost pre = self.spans@;
        self.spans.push(Span { text, style });
        proof {
            assert(self.spans@ =~= pre.push(self.spans@.last()));
        }
    }

    /// Appends one span holding a copy of a string slice.
    pub fn push_str(&mut self, text: &str, style: Style)
        ensures
            final(self)@ =~= old(self)@.push(SpanV { text: text@, style }),
    {
        self.push_span(text.to_owned(), style);
    }

    /// Moves every span of `other` to the end of `self`, in order.
    pub fn append_text(&mut self, other: StyledText)
        ensures
            final(self)@ =~= old(self)@ + other@,
    {
        let mut spans = other.spans;
        self.spans.append(&mut spans);
    }
}

} // verus!
