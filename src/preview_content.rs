//! What a preview shows: plain text lines, or lines of styled spans.
use vstd::prelude::*;

verus! {

/// A 24-bit colour.
#[derive(Debug, Clone, Copy, PartialEq, Eq, Structural)]
pub struct Rgb {
    pub r: u8,
    pub g: u8,
    pub b: u8,
}

/// A run of text drawn with one style.
#[derive(Debug, Clone)]
pub struct StyledSpan {
    pub text: String,
    pub fg: Option<Rgb>,
    pub bg: Option<Rgb>,
    pub bold: bool,
}

/// The mathematical form of a [`StyledSpan`].
pub struct SpanView {
    pub text: Seq<char>,
    pub fg: Option<Rgb>,
    pub bg: Option<Rgb>,
    pub bold: bool,
}

impl View for StyledSpan {
    type V = SpanView;

    open spec fn view(&self) -> SpanView {
        SpanView { text: self.text@, fg: self.fg, bg: self.bg, bold: self.bold }
    }
}

impl StyledSpan {
    /// A copy with the same text and style.
    pub fn duplicate(&self) -> (r: StyledSpan)
        ensures
            r@ == self@,
    {
        StyledSpan { text: self.text.clone(), fg: self.fg, bg: self.bg, bold: self.bold }
    }
}

/// One line of styled spans.
#[derive(Debug, Clone)]
pub struct StyledLine {
    pub spans: Vec<StyledSpan>,
}

impl View for StyledLine {
    type V = Seq<SpanView>;

    open spec fn view(&self) -> Seq<SpanView> {
        self.spans@.map_values(|s: StyledSpan| s@)
    }
}

impl StyledLine {
    /// A copy with the same spans.
    pub fn duplicate(&self) -> (r: StyledLine)
        ensures
            r@ == self@,
    {
        let mut spans: Vec<StyledSpan> = Vec::new();
        let n = self.spans.len();
        let mut i: usize = 0;
        while i < n
            invariant
                n == self.spans@.len(),
                i <= n,
                spans@.len() == i,
                forall|j: int| 0 <= j < i ==> #[trigger] spans@[j]@ == self.spans@[j]@,
            decreases n - i,
        {
            spans.push(self.spans[i].duplicate());
            i = i + 1;
        }
        let r = StyledLine { spans };
        assert(r@ =~= self@);
        r
    }
}

/// What a preview shows.
#[derive(Debug, Clone)]
pub enum PreviewContent {
    /// Plain text lines (text files, a description of a binary file).
    Text(Vec<String>),
    /// Lines with colours (images and PDF pages).
    Styled(Vec<StyledLine>),
}

/// The mathematical form of a [`PreviewContent`].
pub enum ContentView {
    Text(Seq<Seq<char>>),
    Styled(Seq<Seq<SpanView>>),
}

impl View for PreviewContent {
    type V = ContentView;

    open spec fn view(&self) -> ContentView {
        match self {
            PreviewContent::Text(lines) => ContentView::Text(lines@.map_values(|l: String| l@)),
            PreviewContent::Styled(lines) => ContentView::Styled(lines@.map_values(|l: StyledLine| l@)),
        }
    }
}

/// A copy of a list of text lines.
pub fn duplicate_lines(lines: &Vec<String>) -> (r: Vec<String>)
    ensures
        r@.map_values(|l: String| l@) == lines@.map_values(|l: String| l@),
{
    let mut out: Vec<String> = Vec::new();
    let n = lines.len();
    let mut i: usize = 0;
    while i < n
        invariant
            n == lines@.len(),
            i <= n,
            out@.len() == i,
            forall|j: int| 0 <= j < i ==> #[trigger] out@[j]@ == lines@[j]@,
        decreases n - i,
    {
        out.push(lines[i].clone());
        i = i + 1;
    }
    assert(out@.map_values(|l: String| l@) =~= lines@.map_values(|l: String| l@));
    out
}

impl PreviewContent {
    /// A copy showing the same content.
    pub fn duplicate(&self) -> (r: PreviewContent)
        ensures
            r@ == self@,
    {
        match self {
            PreviewContent::Text(lines) => PreviewContent::Text(duplicate_lines(lines)),
            PreviewContent::Styled(lines) => {
                let mut out: Vec<StyledLine> = Vec::new();
                let n = lines.len();
                let mut i: usize = 0;
                while i < n
                    invariant
                        n == lines@.len(),
                        i <= n,
                        out@.len() == i,
                        forall|j: int| 0 <= j < i ==> #[trigger] out@[j]@ == lines@[j]@,
                    decreases n - i,
                {
                    out.push(lines[i].duplicate());
                    i = i + 1;
                }
                let r = PreviewContent::Styled(out);
                assert(out@.map_values(|l: StyledLine| l@) =~= lines@.map_values(|l: StyledLine| l@));
                r
            },
        }
    }
}

} // verus!
