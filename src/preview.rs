//! Preview content that is computed from plain values: the description of
//! a binary file, the header above an image, and the half-block rendering
//! of decoded pixels (two pixel rows per text row).
use vstd::prelude::*;
use crate::domain::FileEntry;
use crate::preview_content::{PreviewContent, Rgb, SpanView, StyledLine, StyledSpan};
use crate::text::{chars_of, decimal, decimal_string, owned};

verus! {

/// Most lines read from a text file for its preview.
pub const MAX_PREVIEW_LINES: usize = 50;

/// Widest image preview, in pixels (one per text column).
pub const MAX_IMAGE_WIDTH: u32 = 160;

/// Tallest image preview, in pixels (two per text row).
pub const MAX_IMAGE_HEIGHT: u32 = 100;

/// The preview of a file shown as binary: its name and size, no content.
pub fn binary_preview(entry: &FileEntry) -> (r: PreviewContent)
    ensures
        r@ == crate::preview_content::ContentView::Text(seq![
            "Binary file: "@ + entry.name@,
            "Size: "@ + decimal(entry.size as nat) + " bytes"@,
            Seq::<char>::empty(),
            "[Binary content not displayed]"@,
        ]),
{
    let mut name_line = owned("Binary file: ");
    name_line.append(entry.name.as_str());
    let mut size_line = owned("Size: ");
    let size = decimal_string(entry.size);
    size_line.append(size.as_str());
    size_line.append(" bytes");
    let lines = vec![name_line, size_line, String::new(), owned("[Binary content not displayed]")];
    let r = PreviewContent::Text(lines);
    assert(r@ is Text);
    assert(r@->Text_0 =~= seq![
        "Binary file: "@ + entry.name@,
        "Size: "@ + decimal(entry.size as nat) + " bytes"@,
        Seq::<char>::empty(),
        "[Binary content not displayed]"@,
    ]);
    r
}

pub open spec fn plain_span(text: Seq<char>, fg: Option<Rgb>, bold: bool) -> SpanView {
    SpanView { text, fg, bg: None, bold }
}

pub open spec fn gray() -> Rgb {
    Rgb { r: 128, g: 128, b: 128 }
}

pub open spec fn cyan() -> Rgb {
    Rgb { r: 0, g: 255, b: 255 }
}

fn span(text: String, fg: Option<Rgb>, bold: bool) -> (r: StyledSpan)
    ensures
        r@ == plain_span(text@, fg, bold),
{
    StyledSpan { text, fg, bg: None, bold }
}

/// The three lines above an image preview: its name, its dimensions and
/// size, and a blank line.
pub fn image_header_lines(name: &String, size: u64, width: u32, height: u32) -> (r: Vec<StyledLine>)
    ensures
        r@.len() == 3,
        r@[0]@ == seq![plain_span("Image: "@, None, true), plain_span(name@, Some(cyan()), false)],
        r@[1]@ == seq![
            plain_span("Dimensions: "@ + decimal(width as nat) + "×"@ + decimal(height as nat) + " px"@, Some(gray()), false),
            plain_span("  "@, None, false),
            plain_span("Size: "@ + decimal(size as nat) + " bytes"@, Some(gray()), false),
        ],
        r@[2]@ == Seq::<SpanView>::empty(),
{
    let title = StyledLine {
        spans: vec![span(owned("Image: "), None, true), span(name.clone(), Some(Rgb { r: 0, g: 255, b: 255 }), false)],
    };
    let mut dims = owned("Dimensions: ");
    let w = decimal_string(width as u64);
    dims.append(w.as_str());
    dims.append("×");
    let h = decimal_string(height as u64);
    dims.append(h.as_str());
    dims.append(" px");
    let mut bytes = owned("Size: ");
    let s = decimal_string(size);
    bytes.append(s.as_str());
    bytes.append(" bytes");
    let gray_fg = Some(Rgb { r: 128, g: 128, b: 128 });
    let info = StyledLine { spans: vec![span(dims, gray_fg, false), span(owned("  "), None, false), span(bytes, gray_fg, false)] };
    let blank = StyledLine { spans: Vec::new() };
    assert(title@ =~= seq![plain_span("Image: "@, None, true), plain_span(name@, Some(cyan()), false)]);
    assert(info@ =~= seq![
        plain_span("Dimensions: "@ + decimal(width as nat) + "×"@ + decimal(height as nat) + " px"@, Some(gray()), false),
        plain_span("  "@, None, false),
        plain_span("Size: "@ + decimal(size as nat) + " bytes"@, Some(gray()), false),
    ]);
    assert(blank@ =~= Seq::<SpanView>::empty());
    vec![title, info, blank]
}

/// One text cell showing two stacked pixels: the upper half block drawn
/// in the upper pixel's colour on the lower pixel's colour.
pub open spec fn half_block(upper: Rgb, lower: Rgb) -> SpanView {
    SpanView { text: "▀"@, fg: Some(upper), bg: Some(lower), bold: false }
}

/// Renders a `width` × `height` image, given row by row, as `height / 2`
/// lines of `width` half blocks; text row `y` pairs pixel rows `2y` and `2y + 1`.
pub fn halfblock_lines(pixels: &Vec<Rgb>, width: u32, height: u32) -> (r: Vec<StyledLine>)
    requires
        pixels@.len() == width as int * height as int,
    ensures
        r@.len() == height / 2,
        forall|y: int| 0 <= y < r@.len() ==> (#[trigger] r@[y])@.len() == width,
        forall|y: int, x: int| 0 <= y < r@.len() && 0 <= x < width ==> (#[trigger] r@[y]@[x]) == half_block(
            pixels@[2 * y * width + x],
            pixels@[(2 * y + 1) * width + x],
        ),
{
    let w = width as usize;
    let total = pixels.len();
    assert(total == pixels@.len());
    let rows = (height / 2) as usize;
    let mut lines: Vec<StyledLine> = Vec::new();
    let mut y: usize = 0;
    while y < rows
        invariant
            w == width,
            rows == height / 2,
            y <= rows,
            pixels@.len() == width as int * height as int,
            pixels@.len() <= usize::MAX,
            lines@.len() == y,
            forall|k: int| 0 <= k < y ==> (#[trigger] lines@[k])@.len() == width,
            forall|k: int, x: int| 0 <= k < y && 0 <= x < width ==> (#[trigger] lines@[k]@[x]) == half_block(
                pixels@[2 * k * width + x],
                pixels@[(2 * k + 1) * width + x],
            ),
        decreases rows - y,
    {
        assert((2 * y + 2) * w <= pixels@.len()) by (nonlinear_arith)
            requires
                y < rows,
                rows == height / 2,
                pixels@.len() == w * height,
        ;
        assert(2 * y * w <= (2 * y + 2) * w && (2 * y + 1) * w <= (2 * y + 2) * w) by (nonlinear_arith)
            requires
                y < rows,
        ;
        let upper_row = 2 * y * w;
        let lower_row = (2 * y + 1) * w;
        assert(lower_row == upper_row + w) by (nonlinear_arith)
            requires
                upper_row == 2 * y * w,
                lower_row == (2 * y + 1) * w,
        ;
        assert(lower_row + w == (2 * y + 2) * w) by (nonlinear_arith)
            requires
                lower_row == (2 * y + 1) * w,
        ;
        let mut spans: Vec<StyledSpan> = Vec::new();
        let mut x: usize = 0;
        while x < w
            invariant
                w == width,
                x <= w,
                upper_row + w == lower_row,
                lower_row + w <= pixels@.len(),
                pixels@.len() <= usize::MAX,
                upper_row == 2 * y * width,
                lower_row == (2 * y + 1) * width,
                spans@.len() == x,
                forall|k: int| 0 <= k < x ==> (#[trigger] spans@[k])@ == half_block(
                    pixels@[upper_row + k],
                    pixels@[lower_row + k],
                ),
            decreases w - x,
        {
            let top = pixels[upper_row + x];
            let bottom = pixels[lower_row + x];
            spans.push(StyledSpan { text: owned("▀"), fg: Some(top), bg: Some(bottom), bold: false });
            x = x + 1;
        }
        let line = StyledLine { spans };
        lines.push(line);
        y = y + 1;
    }
    lines
}

/// Whether `pat` occurs in `s`.
pub open spec fn occurs_in(pat: Seq<char>, s: Seq<char>) -> bool {
    exists|i: int| 0 <= i && i + pat.len() <= s.len() && #[trigger] s.subrange(i, i + pat.len()) == pat
}

/// Whether `pat` occurs in `s`.
pub fn contains_text(s: &str, pat: &str) -> (r: bool)
    ensures
        r == occurs_in(pat@, s@),
{
    let sv = chars_of(s);
    let pv = chars_of(pat);
    let n = sv.len();
    let k = pv.len();
    if k > n {
        proof {
            assert forall|i: int| 0 <= i && i + k <= n implies #[trigger] s@.subrange(i, i + pat@.len()) != pat@ by {}
        }
        return false;
    }
    let mut i: usize = 0;
    while i <= n - k
        invariant
            sv@ == s@,
            pv@ == pat@,
            n == s@.len(),
            k == pat@.len(),
            k <= n,
            i <= n - k + 1,
            forall|t: int| 0 <= t < i ==> #[trigger] s@.subrange(t, t + k) != pat@,
        decreases n - i,
    {
        let mut q: usize = 0;
        let mut same = true;
        while q < k
            invariant
                sv@ == s@,
                pv@ == pat@,
                i + k <= n,
                n == s@.len(),
                k == pat@.len(),
                q <= k,
                same == (forall|x: int| 0 <= x < q ==> #[trigger] s@[i + x] == pat@[x]),
            decreases k - q,
        {
            if sv[i + q] != pv[q] {
                same = false;
            }
            q = q + 1;
        }
        if same {
            assert forall|x: int| 0 <= x < k implies #[trigger] s@.subrange(i as int, i + k)[x] == pat@[x] by {
                assert(s@[i + x] == pat@[x]);
            }
            assert(s@.subrange(i as int, i + k) =~= pat@);
            return true;
        }
        assert(s@.subrange(i as int, i + k) != pat@) by {
            let x = choose|x: int| 0 <= x < k && s@[i + x] != pat@[x];
            assert(s@.subrange(i as int, i + k)[x] == s@[i + x]);
        }
        i = i + 1;
    }
    false
}

pub open spec fn pdf_header(name: Seq<char>, size: u64) -> Seq<Seq<char>> {
    seq!["PDF: "@ + name, "Size: "@ + decimal(size as nat) + " bytes"@, Seq::<char>::empty()]
}

pub open spec fn open_hint() -> Seq<char> {
    "Press 'o' to open in your default PDF viewer."@
}

/// The help line under a PDF error: how to get the PDF library when it is
/// missing, else the likely causes.
pub open spec fn pdf_help(error: Seq<char>) -> Seq<char> {
    if occurs_in("Pdfium library not available"@, error) {
        "[PDF preview requires the Pdfium library. See: https://pdfium.googlesource.com/pdfium/]"@
    } else {
        "[This PDF may be corrupted, password-protected, or use unsupported features]"@
    }
}

/// The lines of a PDF preview, given the text extracted from the file or
/// the error met while extracting it.
pub open spec fn pdf_lines(name: Seq<char>, size: u64, extracted: Result<Seq<Seq<char>>, Seq<char>>) -> Seq<Seq<char>> {
    match extracted {
        Ok(text) => if text.len() == 0 {
            pdf_header(name, size) + seq![
                "[This PDF contains no extractable text (may be scanned/image-based)]"@,
                Seq::<char>::empty(),
                open_hint(),
            ]
        } else {
            pdf_header(name, size) + text
        },
        Err(e) => pdf_header(name, size) + seq![
            "Error: "@ + e,
            Seq::<char>::empty(),
            pdf_help(e),
            Seq::<char>::empty(),
            open_hint(),
        ],
    }
}

pub open spec fn lines_view(v: Vec<String>) -> Seq<Seq<char>> {
    v@.map_values(|l: String| l@)
}

fn push_lines(out: &mut Vec<String>, more: &Vec<String>)
    ensures
        lines_view(*final(out)) == lines_view(*old(out)) + lines_view(*more),
{
    let ghost start = lines_view(*out);
    let mut i: usize = 0;
    while i < more.len()
        invariant
            i <= more@.len(),
            lines_view(*out) == start + lines_view(*more).subrange(0, i as int),
        decreases more@.len() - i,
    {
        let ghost before = lines_view(*out);
        out.push(more[i].clone());
        assert(lines_view(*out) =~= before.push(more@[i as int]@));
        assert(lines_view(*more).subrange(0, i + 1) =~= lines_view(*more).subrange(0, i as int).push(more@[i as int]@));
        i = i + 1;
    }
    assert(lines_view(*more).subrange(0, more@.len() as int) =~= lines_view(*more));
}

/// The preview of a PDF, given the text extracted from it (at most
/// `MAX_PREVIEW_LINES` lines) or the error met while extracting it.
pub fn pdf_preview(entry: &FileEntry, extracted: &Result<Vec<String>, String>) -> (r: PreviewContent)
    ensures
        r@ == crate::preview_content::ContentView::Text(pdf_lines(
            entry.name@,
            entry.size,
            match extracted {
                Ok(v) => Ok(lines_view(*v)),
                Err(e) => Err(e@),
            },
        )),
{
    let mut title = owned("PDF: ");
    title.append(entry.name.as_str());
    let mut size_line = owned("Size: ");
    let size = decimal_string(entry.size);
    size_line.append(size.as_str());
    size_line.append(" bytes");
    let mut lines = vec![title, size_line, String::new()];
    let ghost header = lines_view(lines);
    assert(header =~= pdf_header(entry.name@, entry.size));
    let tail = match extracted {
        Ok(text) => {
            if text.len() == 0 {
                vec![owned("[This PDF contains no extractable text (may be scanned/image-based)]"), String::new(), owned("Press 'o' to open in your default PDF viewer.")]
            } else {
                text.clone()
            }
        },
        Err(e) => {
            let mut err_line = owned("Error: ");
            err_line.append(e.as_str());
            let help = if contains_text(e.as_str(), "Pdfium library not available") {
                owned("[PDF preview requires the Pdfium library. See: https://pdfium.googlesource.com/pdfium/]")
            } else {
                owned("[This PDF may be corrupted, password-protected, or use unsupported features]")
            };
            vec![err_line, String::new(), help, String::new(), owned("Press 'o' to open in your default PDF viewer.")]
        },
    };
    proof {
        match extracted {
            Ok(text) => {
                if text@.len() > 0 {
                    assert(lines_view(tail) =~= lines_view(*text));
                } else {
                    assert(lines_view(tail) =~= seq![
                        "[This PDF contains no extractable text (may be scanned/image-based)]"@,
                        Seq::<char>::empty(),
                        open_hint(),
                    ]);
                }
            },
            Err(e) => {
                assert(lines_view(tail) =~= seq![
                    "Error: "@ + e@,
                    Seq::<char>::empty(),
                    pdf_help(e@),
                    Seq::<char>::empty(),
                    open_hint(),
                ]);
            },
        }
    }
    push_lines(&mut lines, &tail);
    PreviewContent::Text(lines)
}

/// The pixel bytes of a rendered bitmap of `height` rows of `width` RGBA
/// pixels, without the padding that may end each row: rows are
/// `len / height` bytes apart, of which the first `4 * width` are kept.
pub fn unpadded_rows(raw: &Vec<u8>, width: u32, height: u32) -> (r: Vec<u8>)
    requires
        height > 0,
        4 * width <= usize::MAX,
    ensures
        (raw@.len() as int) / (height as int) <= 4 * width ==> r@ == raw@,
        (raw@.len() as int) / (height as int) > 4 * width ==> ({
            let stride = (raw@.len() as int) / (height as int);
            let row = 4 * width;
            &&& r@.len() == height * row
            &&& forall|y: int, x: int| 0 <= y < height && 0 <= x < row ==> #[trigger] r@[y * row + x] == raw@[y * stride + x]
        }),
{
    let n = raw.len();
    let h = height as usize;
    let stride = n / h;
    let row = (width as usize) * 4;
    if stride <= row {
        let mut copy: Vec<u8> = Vec::new();
        let mut i: usize = 0;
        while i < n
            invariant
                n == raw@.len(),
                i <= n,
                copy@ == raw@.subrange(0, i as int),
            decreases n - i,
        {
            copy.push(raw[i]);
            assert(raw@.subrange(0, i + 1) =~= raw@.subrange(0, i as int).push(raw@[i as int]));
            i = i + 1;
        }
        assert(raw@.subrange(0, n as int) =~= raw@);
        return copy;
    }
    let mut out: Vec<u8> = Vec::new();
    let mut y: usize = 0;
    assert(stride * h <= n) by (nonlinear_arith)
        requires
            stride == n / h,
            h > 0,
    ;
    while y < h
        invariant
            n == raw@.len(),
            h == height,
            stride == (n as int) / (height as int),
            row == 4 * width,
            row < stride,
            stride * h <= n,
            y <= h,
            out@.len() == y * row,
            forall|k: int, x: int| 0 <= k < y && 0 <= x < row ==> #[trigger] out@[k * row + x] == raw@[k * stride + x],
        decreases h - y,
    {
        assert(y * stride + row <= n) by (nonlinear_arith)
            requires
                y < h,
                row < stride,
                stride * h <= n,
        ;
        let start = y * stride;
        let ghost base = out@;
        let mut x: usize = 0;
        while x < row
            invariant
                n == raw@.len(),
                start == y * stride,
                start + row <= n,
                x <= row,
                out@.len() == y * row + x,
                forall|t: int| 0 <= t < y * row ==> #[trigger] out@[t] == base[t],
                forall|t: int| 0 <= t < x ==> #[trigger] out@[y * row + t] == raw@[start + t],
            decreases row - x,
        {
            out.push(raw[start + x]);
            x = x + 1;
        }
        assert forall|k: int, x2: int| 0 <= k < y + 1 && 0 <= x2 < row implies #[trigger] out@[k * row + x2] == raw@[k * stride + x2] by {
            if k < y {
                assert(k * row + x2 < y * row) by (nonlinear_arith)
                    requires
                        k < y,
                        0 <= x2 < row,
                ;
                assert(out@[k * row + x2] == base[k * row + x2]);
            } else {
                assert(out@[y * row + x2] == raw@[start + x2]);
            }
        }
        assert(out@.len() == (y + 1) * row) by (nonlinear_arith)
            requires
                out@.len() == y * row + row,
        ;
        y = y + 1;
    }
    out
}

} // verus!
