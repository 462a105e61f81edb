//! Styled text: the library renders reports as spans of text, each with the
//! terminal style it is shown in. Painting the spans is left to the caller.
use vstd::prelude::*;

verus! {

/// The terminal style of a span of text.
#[derive(Clone, Copy, Debug, PartialEq, Eq, Structural)]
pub enum Style {
    Plain,
    Bold,
    Dimmed,
    Green,
    Red,
    Yellow,
    BoldGreen,
    BoldRed,
    BoldYellow,
    BoldDimmed,
    BoldDimmedYellow,
}

/// A piece of text shown in one style.
#[derive(Debug)]
pub struct Span {
    pub style: Style,
    pub text: String,
}

impl View for Span {
    type V = (Style, Seq<char>);

    open spec fn view(&self) -> (Style, Seq<char>) {
        (self.style, self.text@)
    }
}

/// The views of a sequence of spans.
pub open spec fn span_views(spans: Seq<Span>) -> Seq<(Style, Seq<char>)> {
    spans.map_values(|s: Span| s@)
}

/// The text of a sequence of span views, styles dropped.
pub open spec fn plain_of(spans: Seq<(Style, Seq<char>)>) -> Seq<char>
    decreases spans.len(),
{
    if spans.len() == 0 {
        Seq::empty()
    } else {
        plain_of(spans.drop_last()) + spans.last().1
    }
}

impl Span {
    /// A span of `text` in `style`.
    pub fn new(style: Style, text: &str) -> (r: Span)
        ensures
            r@ == (style, text@),
    {
        Span { style, text: text.to_owned() }
    }
}

/// Joins the text of the spans, without styles.
pub fn plain_text(spans: &Vec<Span>) -> (r: String)
    ensures
        r@ == plain_of(span_views(spans@)),
{
    let mut r = String::new();
    let mut i: usize = 0;
    while i < spans.len()
        invariant
            i <= spans.len(),
            r@ == plain_of(span_views(spans@.subrange(0, i as int))),
        decreases spans.len() - i,
    {
        r.append(spans[i].text.as_str());
        proof {
            let pre = span_views(spans@.subrange(0, i as int));
            let next = span_views(spans@.subrange(0, i + 1));
            assert(next.drop_last() =~= pre);
        }
        i = i + 1;
    }
    proof {
        assert(spans@.subrange(0, spans.len() as int) =~= spans@);
    }
    r
}

} // verus!
