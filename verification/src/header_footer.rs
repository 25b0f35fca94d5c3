//! Headers and footers: their lines with page fields and positioned tabs, the
//! rules drawn above and below a paragraph, the band that pins a header or
//! footer at its declared distance from the page edge, and the paragraphs
//! framed at fixed places on the page.
use vstd::prelude::*;

use crate::ir::{
    BorderLineStyle, BorderSide, Color, FrameAnchor, HFInline, HeaderFooter,
    HeaderFooterParagraph, PageNumberFormat, PositionedTabAlignment,
};
use crate::runs::{run_text, styled_text, write_run, write_styled_str};
use crate::tables::{align_name, align_str_of};
use crate::typst_text::{pt_text, push_pt, push_rgb, rgb_text, stroke_text, stroke_value};

verus! {

/// The gap between a paragraph and the rule below it when the paragraph
/// declares none: half a point.
pub const RULE_HAIRLINE_GAP: i64 = 5000;

/// The numbering pattern Typst writes page numbers in.
pub open spec fn pattern_text(f: PageNumberFormat) -> Seq<char> {
    match f {
        PageNumberFormat::Decimal => "1"@,
        PageNumberFormat::LowerRoman => "i"@,
        PageNumberFormat::UpperRoman => "I"@,
        PageNumberFormat::LowerLetter => "a"@,
        PageNumberFormat::UpperLetter => "A"@,
    }
}

/// The number of the current page, in the section's numerals.
pub open spec fn page_number_text(f: PageNumberFormat) -> Seq<char> {
    "#counter(page).display(\""@ + pattern_text(f) + "\")"@
}

/// The number of pages of the document.
pub open spec fn total_pages_text() -> Seq<char> {
    "#counter(page).final().first()"@
}

/// One element of a header or footer line; a field takes its run's style.
#[verifier::opaque]
pub open spec fn inline_text(e: HFInline, f: PageNumberFormat) -> Seq<char> {
    match e {
        HFInline::Run(r) => run_text(r),
        HFInline::PageNumber(s) => styled_text(s, page_number_text(f)),
        HFInline::TotalPages(s) => styled_text(s, total_pages_text()),
        HFInline::PositionedTab(_) => seq![],
    }
}

/// Elements one after another.
pub open spec fn inlines_text(es: Seq<HFInline>, f: PageNumberFormat) -> Seq<char>
    decreases es.len(),
{
    if es.len() == 0 {
        seq![]
    } else {
        inlines_text(es.drop_last(), f) + inline_text(es.last(), f)
    }
}

/// Whether an element is a positioned tab.
pub open spec fn is_tab(e: HFInline) -> bool {
    e is PositionedTab
}

/// Whether an element is a page field.
pub open spec fn is_field(e: HFInline) -> bool {
    e is PageNumber || e is TotalPages
}

/// The index of the first positioned tab, or the length when there is none.
pub open spec fn first_tab(es: Seq<HFInline>) -> int
    decreases es.len(),
{
    if es.len() == 0 {
        0
    } else if is_tab(es[0]) {
        0
    } else {
        1 + first_tab(es.drop_first())
    }
}

/// Where a positioned tab moves the text after it.
pub open spec fn tab_alignment(e: HFInline) -> PositionedTabAlignment {
    match e {
        HFInline::PositionedTab(t) => t.alignment,
        _ => PositionedTabAlignment::Left,
    }
}

/// The grid columns that place the text around a positioned tab.
pub open spec fn tab_columns_text(a: PositionedTabAlignment) -> Seq<char> {
    match a {
        PositionedTabAlignment::Left => "(auto, 1fr)"@,
        PositionedTabAlignment::Center => "(1fr, auto, 1fr)"@,
        PositionedTabAlignment::Right => "(1fr, auto)"@,
    }
}

/// A line of elements. At its first positioned tab the line becomes a grid:
/// the elements before the tab in one cell, those after it in the next
/// (later tabs add nothing).
#[verifier::opaque]
pub open spec fn line_text(es: Seq<HFInline>, f: PageNumberFormat) -> Seq<char> {
    let k = first_tab(es);
    if k < es.len() {
        tab_grid_text(es, k, f)
    } else {
        inlines_text(es, f)
    }
}

/// A paragraph's line, inside `#align(..)[..]` when it is aligned.
#[verifier::opaque]
pub open spec fn hf_body_text(p: HeaderFooterParagraph, f: PageNumberFormat) -> Seq<char> {
    match align_name(p.style.alignment) {
        Some(a) => "#align("@ + a + ")["@ + line_text(p.elements@, f) + "]"@,
        None => line_text(p.elements@, f),
    }
}

/// A width divided by three, rounded toward zero.
pub open spec fn third(w: int) -> int {
    if w >= 0 {
        w / 3
    } else {
        -((-w) / 3)
    }
}

/// A full-width horizontal line.
#[verifier::opaque]
pub open spec fn rule_line_text(w: int, c: Color) -> Seq<char> {
    "#line(length: 100%, stroke: "@ + pt_text(w) + " + "@ + rgb_text(c) + ")"@
}

/// The rule of a border side: one line in the side's stroke, or for a double
/// border two plain lines a third of its width thick, a third of its width
/// apart.
#[verifier::opaque]
pub open spec fn rule_text(side: BorderSide) -> Seq<char> {
    if side.style == BorderLineStyle::Double {
        let a = third(side.width as int);
        rule_line_text(a, side.color) + "\n#v("@ + pt_text(a) + ")\n"@ + rule_line_text(
            a,
            side.color,
        )
    } else {
        "#line(length: 100%, stroke: "@ + stroke_text(side) + ")"@
    }
}

/// The side of a paragraph's border above it.
pub open spec fn top_side(p: HeaderFooterParagraph) -> Option<BorderSide> {
    match p.border {
        Some(b) => b.top,
        None => None,
    }
}

/// The side of a paragraph's border below it.
pub open spec fn bottom_side(p: HeaderFooterParagraph) -> Option<BorderSide> {
    match p.border {
        Some(b) => b.bottom,
        None => None,
    }
}

/// The gap between a paragraph and the rule below it: the declared space,
/// else a hairline.
pub open spec fn rule_gap(p: HeaderFooterParagraph) -> int {
    match p.border_space {
        Some(sp) => sp.bottom as int,
        None => RULE_HAIRLINE_GAP as int,
    }
}

/// What precedes a header or footer paragraph's line: the rule above it,
/// and, when a rule follows below, the setting that measures the gap from the
/// descender line.
pub open spec fn para_lead_text(p: HeaderFooterParagraph) -> Seq<char> {
    (match top_side(p) {
        Some(s) => rule_text(s) + "\n"@,
        None => seq![],
    }) + (if bottom_side(p) is Some {
        "#set text(bottom-edge: \"descender\")\n"@
    } else {
        seq![]
    })
}

/// What follows a header or footer paragraph's line: the gap and the rule
/// below it.
pub open spec fn para_tail_text(p: HeaderFooterParagraph) -> Seq<char> {
    match bottom_side(p) {
        Some(s) => "\n#block(height: "@ + pt_text(rule_gap(p)) + ")[]\n"@ + rule_text(s),
        None => seq![],
    }
}

/// A header or footer paragraph: the rule above it, its line, and the rule
/// below it after the gap.
#[verifier::opaque]
pub open spec fn hf_para_text(p: HeaderFooterParagraph, f: PageNumberFormat) -> Seq<char> {
    para_lead_text(p) + hf_body_text(p, f) + para_tail_text(p)
}

/// Whether a paragraph sits in a frame placed relative to the page.
pub open spec fn page_anchored(p: HeaderFooterParagraph) -> bool {
    match p.frame {
        Some(fr) => fr.horizontal_anchor == FrameAnchor::Page && fr.vertical_anchor
            == FrameAnchor::Page,
        None => false,
    }
}

/// The paragraphs that flow in the header or footer, each in a full-width
/// block.
pub open spec fn flow_paras_text(ps: Seq<HeaderFooterParagraph>, f: PageNumberFormat) -> Seq<
    char,
>
    decreases ps.len(),
{
    if ps.len() == 0 {
        seq![]
    } else {
        flow_paras_text(ps.drop_last(), f) + if page_anchored(ps.last()) {
            seq![]
        } else {
            "#block(width: 100%)["@ + hf_para_text(ps.last(), f) + "]\n"@
        }
    }
}

/// A framed paragraph placed at its offsets from the page's top left corner.
#[verifier::opaque]
pub open spec fn placed_para_text(p: HeaderFooterParagraph, f: PageNumberFormat) -> Seq<char> {
    let (x, y) = match p.frame {
        Some(fr) => (
            match fr.x {
                Some(v) => v as int,
                None => 0,
            },
            match fr.y {
                Some(v) => v as int,
                None => 0,
            },
        ),
        None => (0, 0),
    };
    "#place(top + left, dx: "@ + pt_text(x) + ", dy: "@ + pt_text(y) + ")["@ + hf_para_text(p, f)
        + "]\n"@
}

/// The paragraphs framed relative to the page, placed.
pub open spec fn anchored_paras_text(ps: Seq<HeaderFooterParagraph>, f: PageNumberFormat) -> Seq<
    char,
>
    decreases ps.len(),
{
    if ps.len() == 0 {
        seq![]
    } else {
        anchored_paras_text(ps.drop_last(), f) + if page_anchored(ps.last()) {
            placed_para_text(ps.last(), f)
        } else {
            seq![]
        }
    }
}

/// Whether some paragraph flows in the header or footer.
pub open spec fn any_flow(ps: Seq<HeaderFooterParagraph>) -> bool {
    exists|i: int| 0 <= i < ps.len() && !page_anchored(#[trigger] ps[i])
}

/// Whether some paragraph holds a page field, which Typst evaluates in
/// context.
pub open spec fn has_field(ps: Seq<HeaderFooterParagraph>) -> bool {
    exists|i: int, j: int|
        0 <= i < ps.len() && 0 <= j < ps[i].elements@.len() && is_field(
            #[trigger] ps[i].elements@[j],
        )
}

/// The height of the band between the page edge's declared distance and the
/// margin, when the distance is short of the margin.
pub open spec fn band_height(hf: HeaderFooter, margin: i64) -> Option<int> {
    match hf.distance_from_edge {
        Some(d) => if (d as int) < (margin as int) {
            Some(margin - d)
        } else {
            None
        },
        None => None,
    }
}

/// The content of a header or footer: its flowing paragraphs, held in a band
/// as tall as the margin less the declared distance when there is one. A
/// footer grows upward from the band's bottom, measured to the descender
/// line; a header grows downward from the band's top.
#[verifier::opaque]
pub open spec fn hf_content_text(
    hf: HeaderFooter,
    f: PageNumberFormat,
    margin: i64,
    is_footer: bool,
) -> Seq<char> {
    let paras = flow_paras_text(hf.paragraphs@, f);
    match band_height(hf, margin) {
        Some(h) => "#block(width: 100%, height: "@ + pt_text(h) + ")["@ + (if is_footer {
            "#set text(bottom-edge: \"descender\")\n#place(bottom)[\n"@
        } else {
            "#place(top)[\n"@
        }) + paras + "]]"@,
        None => paras,
    }
}

/// The page parameters of a header or footer: `header: ..` or `footer: ..`
/// (in context when it holds a page field), and a zero ascent or descent
/// when a band pins it; nothing when no paragraph flows in it.
#[verifier::opaque]
pub open spec fn hf_param_text(
    hf: HeaderFooter,
    f: PageNumberFormat,
    margin: i64,
    is_footer: bool,
) -> Seq<char> {
    if any_flow(hf.paragraphs@) {
        ", "@ + (if is_footer {
            "footer: "@
        } else {
            "header: "@
        }) + (if has_field(hf.paragraphs@) {
            "context "@
        } else {
            seq![]
        }) + "["@ + hf_content_text(hf, f, margin, is_footer) + "]"@ + (if band_height(
            hf,
            margin,
        ) is Some {
            if is_footer {
                ", footer-descent: 0pt"@
            } else {
                ", header-ascent: 0pt"@
            }
        } else {
            seq![]
        })
    } else {
        seq![]
    }
}

/// The page parameters of an optional header or footer.
pub open spec fn opt_hf_param_text(
    hf: Option<HeaderFooter>,
    f: PageNumberFormat,
    margin: i64,
    is_footer: bool,
) -> Seq<char> {
    match hf {
        Some(h) => hf_param_text(h, f, margin, is_footer),
        None => seq![],
    }
}

/// The framed paragraphs of an optional header or footer, placed.
pub open spec fn opt_anchored_text(hf: Option<HeaderFooter>, f: PageNumberFormat) -> Seq<char> {
    match hf {
        Some(h) => anchored_paras_text(h.paragraphs@, f),
        None => seq![],
    }
}

/// The `foreground` page parameter that holds the framed paragraphs of the
/// header and the footer; nothing when there are none.
#[verifier::opaque]
pub open spec fn foreground_param_text(
    header: Option<HeaderFooter>,
    footer: Option<HeaderFooter>,
    f: PageNumberFormat,
) -> Seq<char> {
    let placed = opt_anchored_text(header, f) + opt_anchored_text(footer, f);
    if placed.len() == 0 {
        seq![]
    } else {
        ", foreground: ["@ + placed + "]"@
    }
}

// ---------------------------------------------------------------------------
// Writers.
// ---------------------------------------------------------------------------

/// The numbering pattern of a page number format.
pub fn pattern_str(f: PageNumberFormat) -> (r: &'static str)
    ensures
        r@ == pattern_text(f),
{
    match f {
        PageNumberFormat::Decimal => "1",
        PageNumberFormat::LowerRoman => "i",
        PageNumberFormat::UpperRoman => "I",
        PageNumberFormat::LowerLetter => "a",
        PageNumberFormat::UpperLetter => "A",
    }
}

/// Appends one element of a header or footer line.
fn write_inline(out: &mut String, e: &HFInline, f: PageNumberFormat)
    ensures
        final(out)@ == old(out)@ + inline_text(*e, f),
{
    reveal(inline_text);
    match e {
        HFInline::Run(r) => write_run(out, r),
        HFInline::PageNumber(s) => {
            let mut n = String::new();
            n.append("#counter(page).display(\"");
            n.append(pattern_str(f));
            n.append("\")");
            assert(n@ =~= page_number_text(f));
            write_styled_str(out, s, n.as_str());
        },
        HFInline::TotalPages(s) => {
            write_styled_str(out, s, "#counter(page).final().first()");
        },
        HFInline::PositionedTab(_) => {
            assert(out@ =~= old(out)@ + inline_text(*e, f));
        },
    }
}

/// Appends the elements `lo..hi` of a line.
fn write_inline_range(
    out: &mut String,
    es: &Vec<HFInline>,
    lo: usize,
    hi: usize,
    f: PageNumberFormat,
)
    requires
        lo <= hi <= es@.len(),
    ensures
        final(out)@ == old(out)@ + inlines_text(es@.subrange(lo as int, hi as int), f),
{
    let mut i: usize = lo;
    while i < hi
        invariant
            lo <= i <= hi <= es@.len(),
            out@ == old(out)@ + inlines_text(es@.subrange(lo as int, i as int), f),
        decreases hi - i,
    {
        write_inline(out, &es[i], f);
        proof {
            assert(es@.subrange(lo as int, i + 1).drop_last() =~= es@.subrange(
                lo as int,
                i as int,
            ));
        }
        i = i + 1;
        assert(out@ =~= old(out)@ + inlines_text(es@.subrange(lo as int, i as int), f));
    }
}

/// The first positioned tab is at `i` when none comes before it and `i` is a
/// tab or the end.
proof fn lemma_first_tab(es: Seq<HFInline>, i: int)
    requires
        0 <= i <= es.len(),
        forall|j: int| 0 <= j < i ==> !is_tab(#[trigger] es[j]),
        i == es.len() || is_tab(es[i]),
    ensures
        first_tab(es) == i,
    decreases i,
{
    if i > 0 {
        let rest = es.drop_first();
        assert forall|j: int| 0 <= j < i - 1 implies !is_tab(#[trigger] rest[j]) by {
            assert(rest[j] == es[j + 1]);
        }
        if i < es.len() {
            assert(rest[i - 1] == es[i]);
        }
        lemma_first_tab(rest, i - 1);
    }
}

/// The index of the first positioned tab of a line, or its length.
fn find_first_tab(es: &Vec<HFInline>) -> (k: usize)
    ensures
        k == first_tab(es@),
        k <= es@.len(),
{
    let mut i: usize = 0;
    while i < es.len()
        invariant
            i <= es@.len(),
            forall|j: int| 0 <= j < i ==> !is_tab(#[trigger] es@[j]),
        decreases es@.len() - i,
    {
        if matches!(es[i], HFInline::PositionedTab(_)) {
            proof {
                lemma_first_tab(es@, i as int);
            }
            return i;
        }
        i = i + 1;
    }
    proof {
        lemma_first_tab(es@, i as int);
    }
    i
}

/// The grid a line becomes at its first positioned tab.
#[verifier::opaque]
pub open spec fn tab_grid_text(es: Seq<HFInline>, k: int, f: PageNumberFormat) -> Seq<char> {
    let a = tab_alignment(es[k]);
    "#grid(columns: "@ + tab_columns_text(a) + ", ["@ + inlines_text(es.take(k), f) + "], ["@
        + inlines_text(es.skip(k + 1), f) + "]"@ + (if a == PositionedTabAlignment::Center {
        ", []"@
    } else {
        seq![]
    }) + ")"@
}

/// Appends the grid a line becomes at the positioned tab `k`.
fn write_tab_grid(out: &mut String, es: &Vec<HFInline>, k: usize, f: PageNumberFormat)
    requires
        k < es@.len(),
    ensures
        final(out)@ == old(out)@ + tab_grid_text(es@, k as int, f),
{
    reveal(tab_grid_text);
    let a: PositionedTabAlignment = match &es[k] {
        HFInline::PositionedTab(t) => t.alignment,
        _ => PositionedTabAlignment::Left,
    };
    assert(a == tab_alignment(es@[k as int]));
    let n: usize = es.len();
    out.append("#grid(columns: ");
    match a {
        PositionedTabAlignment::Left => out.append("(auto, 1fr)"),
        PositionedTabAlignment::Center => out.append("(1fr, auto, 1fr)"),
        PositionedTabAlignment::Right => out.append("(1fr, auto)"),
    }
    out.append(", [");
    let ghost s1: Seq<char> = out@;
    assert(s1 =~= old(out)@ + "#grid(columns: "@ + tab_columns_text(a) + ", ["@);
    write_inline_range(out, es, 0, k, f);
    assert(es@.subrange(0, k as int) =~= es@.take(k as int));
    out.append("], [");
    let ghost s2: Seq<char> = out@;
    assert(s2 =~= s1 + inlines_text(es@.take(k as int), f) + "], ["@);
    write_inline_range(out, es, k + 1, n, f);
    assert(es@.subrange(k + 1, es@.len() as int) =~= es@.skip(k + 1));
    out.append("]");
    let ghost s3: Seq<char> = out@;
    assert(s3 =~= s2 + inlines_text(es@.skip(k + 1), f) + "]"@);
    if matches!(a, PositionedTabAlignment::Center) {
        out.append(", []");
    }
    out.append(")");
    assert(out@ =~= old(out)@ + tab_grid_text(es@, k as int, f));
}

/// Appends a header or footer line.
fn write_line(out: &mut String, es: &Vec<HFInline>, f: PageNumberFormat)
    ensures
        final(out)@ == old(out)@ + line_text(es@, f),
{
    reveal(line_text);
    let k: usize = find_first_tab(es);
    if k < es.len() {
        write_tab_grid(out, es, k, f);
    } else {
        write_inline_range(out, es, 0, es.len(), f);
        assert(es@.subrange(0, es@.len() as int) =~= es@);
    }
}

/// Appends a full-width horizontal line.
fn write_rule_line(out: &mut String, w: i64, c: &Color)
    ensures
        final(out)@ == old(out)@ + rule_line_text(w as int, *c),
{
    reveal(rule_line_text);
    out.append("#line(length: 100%, stroke: ");
    push_pt(out, w as i128);
    out.append(" + ");
    push_rgb(out, c);
    out.append(")");
    assert(out@ =~= old(out)@ + rule_line_text(w as int, *c));
}

/// Appends the rule of a border side.
fn write_rule(out: &mut String, side: &BorderSide)
    ensures
        final(out)@ == old(out)@ + rule_text(*side),
{
    reveal(rule_text);
    if matches!(side.style, BorderLineStyle::Double) {
        let a: i64 = side.width / 3;
        assert(a as int == third(side.width as int));
        write_rule_line(out, a, &side.color);
        out.append("\n#v(");
        push_pt(out, a as i128);
        out.append(")\n");
        write_rule_line(out, a, &side.color);
    } else {
        out.append("#line(length: 100%, stroke: ");
        let stroke: String = stroke_value(side);
        out.append(stroke.as_str());
        out.append(")");
    }
    assert(out@ =~= old(out)@ + rule_text(*side));
}

/// Appends what precedes a header or footer paragraph's line.
fn write_para_lead(out: &mut String, p: &HeaderFooterParagraph)
    ensures
        final(out)@ == old(out)@ + para_lead_text(*p),
{
    let top: Option<BorderSide> = match &p.border {
        Some(b) => b.top,
        None => None,
    };
    if let Some(s) = top {
        write_rule(out, &s);
        out.append("\n");
    }
    let has_bottom: bool = match &p.border {
        Some(b) => b.bottom.is_some(),
        None => false,
    };
    if has_bottom {
        out.append("#set text(bottom-edge: \"descender\")\n");
    }
    assert(out@ =~= old(out)@ + para_lead_text(*p));
}

/// Appends what follows a header or footer paragraph's line.
fn write_para_tail(out: &mut String, p: &HeaderFooterParagraph)
    ensures
        final(out)@ == old(out)@ + para_tail_text(*p),
{
    let bottom: Option<BorderSide> = match &p.border {
        Some(b) => b.bottom,
        None => None,
    };
    if let Some(s) = bottom {
        let gap: i64 = match &p.border_space {
            Some(sp) => sp.bottom,
            None => RULE_HAIRLINE_GAP,
        };
        out.append("\n#block(height: ");
        push_pt(out, gap as i128);
        out.append(")[]\n");
        write_rule(out, &s);
    }
    assert(out@ =~= old(out)@ + para_tail_text(*p));
}

/// Appends a header or footer paragraph's line, aligned.
fn write_hf_body(out: &mut String, p: &HeaderFooterParagraph, f: PageNumberFormat)
    ensures
        final(out)@ == old(out)@ + hf_body_text(*p, f),
{
    reveal(hf_body_text);
    match align_str_of(p.style.alignment) {
        Some(a) => {
            out.append("#align(");
            out.append(a);
            out.append(")[");
            write_line(out, &p.elements, f);
            out.append("]");
        },
        None => {
            write_line(out, &p.elements, f);
        },
    }
    assert(out@ =~= old(out)@ + hf_body_text(*p, f));
}

/// Appends a header or footer paragraph with its rules.
pub fn write_hf_paragraph(out: &mut String, p: &HeaderFooterParagraph, f: PageNumberFormat)
    ensures
        final(out)@ == old(out)@ + hf_para_text(*p, f),
{
    reveal(hf_para_text);
    write_para_lead(out, p);
    write_hf_body(out, p, f);
    write_para_tail(out, p);
    assert(out@ =~= old(out)@ + hf_para_text(*p, f));
}

/// Whether a paragraph sits in a frame placed relative to the page.
fn is_page_anchored(p: &HeaderFooterParagraph) -> (r: bool)
    ensures
        r == page_anchored(*p),
{
    match &p.frame {
        Some(fr) => matches!(fr.horizontal_anchor, FrameAnchor::Page) && matches!(
            fr.vertical_anchor,
            FrameAnchor::Page
        ),
        None => false,
    }
}

/// Appends the paragraphs that flow in a header or footer.
fn write_flow_paras(out: &mut String, ps: &Vec<HeaderFooterParagraph>, f: PageNumberFormat)
    ensures
        final(out)@ == old(out)@ + flow_paras_text(ps@, f),
{
    let mut i: usize = 0;
    while i < ps.len()
        invariant
            i <= ps@.len(),
            out@ == old(out)@ + flow_paras_text(ps@.take(i as int), f),
        decreases ps@.len() - i,
    {
        if !is_page_anchored(&ps[i]) {
            out.append("#block(width: 100%)[");
            write_hf_paragraph(out, &ps[i], f);
            out.append("]\n");
        }
        proof {
            assert(ps@.take(i + 1).drop_last() =~= ps@.take(i as int));
        }
        i = i + 1;
        assert(out@ =~= old(out)@ + flow_paras_text(ps@.take(i as int), f));
    }
    assert(ps@.take(ps@.len() as int) =~= ps@);
}

/// Appends a framed paragraph at its place on the page.
fn write_placed_para(out: &mut String, p: &HeaderFooterParagraph, f: PageNumberFormat)
    ensures
        final(out)@ == old(out)@ + placed_para_text(*p, f),
{
    reveal(placed_para_text);
    let (x, y): (i64, i64) = match &p.frame {
        Some(fr) => (
            match fr.x {
                Some(v) => v,
                None => 0,
            },
            match fr.y {
                Some(v) => v,
                None => 0,
            },
        ),
        None => (0, 0),
    };
    out.append("#place(top + left, dx: ");
    push_pt(out, x as i128);
    out.append(", dy: ");
    push_pt(out, y as i128);
    out.append(")[");
    write_hf_paragraph(out, p, f);
    out.append("]\n");
    assert(out@ =~= old(out)@ + placed_para_text(*p, f));
}

/// Appends the paragraphs of a header or footer framed relative to the page.
fn write_anchored_paras(out: &mut String, ps: &Vec<HeaderFooterParagraph>, f: PageNumberFormat)
    ensures
        final(out)@ == old(out)@ + anchored_paras_text(ps@, f),
{
    let mut i: usize = 0;
    while i < ps.len()
        invariant
            i <= ps@.len(),
            out@ == old(out)@ + anchored_paras_text(ps@.take(i as int), f),
        decreases ps@.len() - i,
    {
        if is_page_anchored(&ps[i]) {
            write_placed_para(out, &ps[i], f);
        }
        proof {
            assert(ps@.take(i + 1).drop_last() =~= ps@.take(i as int));
        }
        i = i + 1;
        assert(out@ =~= old(out)@ + anchored_paras_text(ps@.take(i as int), f));
    }
    assert(ps@.take(ps@.len() as int) =~= ps@);
}

/// Whether some paragraph flows in a header or footer.
fn some_flow(ps: &Vec<HeaderFooterParagraph>) -> (r: bool)
    ensures
        r == any_flow(ps@),
{
    let mut i: usize = 0;
    while i < ps.len()
        invariant
            i <= ps@.len(),
            forall|j: int| 0 <= j < i ==> page_anchored(#[trigger] ps@[j]),
        decreases ps@.len() - i,
    {
        if !is_page_anchored(&ps[i]) {
            return true;
        }
        i = i + 1;
    }
    false
}

/// Whether a line holds a page field.
fn line_has_field(es: &Vec<HFInline>) -> (r: bool)
    ensures
        r == exists|j: int| 0 <= j < es@.len() && is_field(#[trigger] es@[j]),
{
    let mut j: usize = 0;
    while j < es.len()
        invariant
            j <= es@.len(),
            forall|k: int| 0 <= k < j ==> !is_field(#[trigger] es@[k]),
        decreases es@.len() - j,
    {
        if matches!(es[j], HFInline::PageNumber(_)) || matches!(es[j], HFInline::TotalPages(_)) {
            return true;
        }
        j = j + 1;
    }
    false
}

/// Whether some paragraph holds a page field.
fn some_field(ps: &Vec<HeaderFooterParagraph>) -> (r: bool)
    ensures
        r == has_field(ps@),
{
    let mut i: usize = 0;
    while i < ps.len()
        invariant
            i <= ps@.len(),
            forall|a: int, b: int|
                0 <= a < i && 0 <= b < ps@[a].elements@.len() ==> !is_field(
                    #[trigger] ps@[a].elements@[b],
                ),
        decreases ps@.len() - i,
    {
        if line_has_field(&ps[i].elements) {
            return true;
        }
        i = i + 1;
    }
    false
}

/// The band of a header or footer: the margin less the declared distance,
/// when the distance is short of the margin.
fn band_of(hf: &HeaderFooter, margin: i64) -> (band: Option<i128>)
    ensures
        band matches Some(h) ==> band_height(*hf, margin) == Some(h as int),
        band is None ==> band_height(*hf, margin) is None,
{
    match hf.distance_from_edge {
        Some(d) => if d < margin {
            Some(margin as i128 - d as i128)
        } else {
            None
        },
        None => None,
    }
}

/// Appends the content of a header or footer.
fn write_hf_content(
    out: &mut String,
    hf: &HeaderFooter,
    f: PageNumberFormat,
    margin: i64,
    is_footer: bool,
)
    ensures
        final(out)@ == old(out)@ + hf_content_text(*hf, f, margin, is_footer),
{
    reveal(hf_content_text);
    match band_of(hf, margin) {
        Some(h) => {
            out.append("#block(width: 100%, height: ");
            push_pt(out, h);
            out.append(")[");
            if is_footer {
                out.append("#set text(bottom-edge: \"descender\")\n#place(bottom)[\n");
            } else {
                out.append("#place(top)[\n");
            }
            write_flow_paras(out, &hf.paragraphs, f);
            out.append("]]");
        },
        None => {
            write_flow_paras(out, &hf.paragraphs, f);
        },
    }
    assert(out@ =~= old(out)@ + hf_content_text(*hf, f, margin, is_footer));
}

/// Appends the page parameters of a header or footer, given the margin on
/// its side of the page.
pub fn write_hf_param(
    out: &mut String,
    hf: &HeaderFooter,
    f: PageNumberFormat,
    margin: i64,
    is_footer: bool,
)
    ensures
        final(out)@ == old(out)@ + hf_param_text(*hf, f, margin, is_footer),
{
    reveal(hf_param_text);
    if !some_flow(&hf.paragraphs) {
        assert(out@ =~= old(out)@ + hf_param_text(*hf, f, margin, is_footer));
        return ;
    }
    out.append(", ");
    if is_footer {
        out.append("footer: ");
    } else {
        out.append("header: ");
    }
    if some_field(&hf.paragraphs) {
        out.append("context ");
    }
    out.append("[");
    write_hf_content(out, hf, f, margin, is_footer);
    out.append("]");
    if band_of(hf, margin).is_some() {
        if is_footer {
            out.append(", footer-descent: 0pt");
        } else {
            out.append(", header-ascent: 0pt");
        }
    }
    assert(out@ =~= old(out)@ + hf_param_text(*hf, f, margin, is_footer));
}

/// Appends the page parameters of an optional header or footer.
pub fn write_opt_hf_param(
    out: &mut String,
    hf: &Option<HeaderFooter>,
    f: PageNumberFormat,
    margin: i64,
    is_footer: bool,
)
    ensures
        final(out)@ == old(out)@ + opt_hf_param_text(*hf, f, margin, is_footer),
{
    match hf {
        Some(h) => write_hf_param(out, h, f, margin, is_footer),
        None => {
            assert(out@ =~= old(out)@ + opt_hf_param_text(*hf, f, margin, is_footer));
        },
    }
}

/// Appends the `foreground` page parameter holding the framed paragraphs of
/// the header and the footer.
pub fn write_foreground_param(
    out: &mut String,
    header: &Option<HeaderFooter>,
    footer: &Option<HeaderFooter>,
    f: PageNumberFormat,
)
    ensures
        final(out)@ == old(out)@ + foreground_param_text(*header, *footer, f),
{
    reveal(foreground_param_text);
    let mut placed = String::new();
    if let Some(h) = header {
        write_anchored_paras(&mut placed, &h.paragraphs, f);
    }
    if let Some(ft) = footer {
        write_anchored_paras(&mut placed, &ft.paragraphs, f);
    }
    assert(placed@ =~= opt_anchored_text(*header, f) + opt_anchored_text(*footer, f));
    if !placed.as_str().is_empty() {
        out.append(", foreground: [");
        out.append(placed.as_str());
        out.append("]");
    }
    assert(out@ =~= old(out)@ + foreground_param_text(*header, *footer, f));
}

} // verus!
