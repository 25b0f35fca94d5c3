//! A whole document as Typst source: the preamble, then each page with its
//! page setup (size, margins, header, footer, framed paragraphs), its page
//! numbering and its content; pages are separated by page breaks.
use vstd::prelude::*;

use crate::header_footer::{
    foreground_param_text, opt_hf_param_text, pattern_str, pattern_text, write_foreground_param,
    write_opt_hf_param,
};
use crate::ir::{
    Block, Caption, ConvertOptions, Document, FixedElement, FixedElementKind, FixedPage,
    CellLines, FlowPage, GenCtx, HeaderFooter, Margins, Page, PageNumberFormat, PageNumbering, PageSize,
    PaperSize, Paragraph, ParagraphStyle, SheetPage, TableOfContents, TypstOutput,
};
use crate::captions::{
    caption_list_text, caption_marker_text, write_caption_list, write_caption_marker,
};
use crate::runs::{generate_runs, runs_text};
use crate::tables::{
    align_name, align_str_of, cell_paragraph_needs_block_wrapper, generate_table,
    needs_block_wrapper, par_settings_text, table_text, write_par_settings,
};
use crate::typst_text::{
    join, nat_text, pt_text, push_nat, push_pt, push_rgb, rgb_text, write_next_param,
};

verus! {

// ---------------------------------------------------------------------------
// Page geometry.
// ---------------------------------------------------------------------------

/// The portrait width and height of a paper size.
pub open spec fn paper_dims(p: PaperSize) -> PageSize {
    match p {
        PaperSize::A4 => PageSize { width: 5952800, height: 8418900 },
        PaperSize::Letter => PageSize { width: 6120000, height: 7920000 },
        PaperSize::Legal => PageSize { width: 6120000, height: 10080000 },
    }
}

/// The paper a page prints on: the option's paper size, else the page's own.
pub open spec fn paper_of(size: PageSize, o: ConvertOptions) -> PageSize {
    match o.paper_size {
        Some(p) => paper_dims(p),
        None => size,
    }
}

/// A page's size with the options applied: the paper size replaces the
/// page's own, and an orientation turns the page so that its longer side is
/// the width (landscape) or the height (portrait).
pub open spec fn effective_size(size: PageSize, o: ConvertOptions) -> PageSize {
    let base = paper_of(size, o);
    match o.landscape {
        Some(true) => if base.width < base.height {
            PageSize { width: base.height, height: base.width }
        } else {
            base
        },
        Some(false) => if base.width > base.height {
            PageSize { width: base.height, height: base.width }
        } else {
            base
        },
        None => base,
    }
}

/// The margin dictionary of a page.
pub open spec fn margins_text(m: Margins) -> Seq<char> {
    "(top: "@ + pt_text(m.top as int) + ", bottom: "@ + pt_text(m.bottom as int) + ", left: "@
        + pt_text(m.left as int) + ", right: "@ + pt_text(m.right as int) + ")"@
}

/// The numerals the page fields of a section use: its own, else decimal.
pub open spec fn numbering_format(n: Option<PageNumbering>) -> PageNumberFormat {
    match n {
        Some(x) => x.format,
        None => PageNumberFormat::Decimal,
    }
}

/// `#set page(..)` for flowing content: size, margins, header, footer, and
/// the framed paragraphs of both.
#[verifier::opaque]
pub open spec fn flow_setup_text(
    size: PageSize,
    m: Margins,
    header: Option<HeaderFooter>,
    footer: Option<HeaderFooter>,
    f: PageNumberFormat,
) -> Seq<char> {
    "#set page(width: "@ + pt_text(size.width as int) + ", height: "@ + pt_text(
        size.height as int,
    ) + ", margin: "@ + margins_text(m) + opt_hf_param_text(header, f, m.top, false)
        + opt_hf_param_text(footer, f, m.bottom, true) + foreground_param_text(header, footer, f)
        + ")\n"@
}

/// Where a section restarts its page count, and the numerals it records for
/// the outline to read back.
pub open spec fn numbering_text(n: Option<PageNumbering>) -> Seq<char> {
    match n {
        Some(x) => (match x.start {
            Some(s) => "#counter(page).update("@ + nat_text(s as nat) + ")\n"@,
            None => seq![],
        }) + "#o2p-page-format.update(\""@ + pattern_text(x.format) + "\")\n"@,
        None => seq![],
    }
}

// ---------------------------------------------------------------------------
// Body content.
// ---------------------------------------------------------------------------

/// The block spacing of a body paragraph: the space above it (unless it
/// opens the document, where it is explicit instead) and the space below it.
pub open spec fn para_params(s: ParagraphStyle, opens: bool) -> Seq<Seq<char>> {
    let a: Seq<Seq<char>> = match s.space_before {
        Some(v) => if opens {
            seq![]
        } else {
            seq!["above: "@ + pt_text(v as int)]
        },
        None => seq![],
    };
    match s.space_after {
        Some(v) => a.push("below: "@ + pt_text(v as int)),
        None => a,
    }
}

/// The explicit space above the paragraph that opens the document, which
/// block spacing would drop at the top of the page.
pub open spec fn lead_space_text(s: ParagraphStyle, opens: bool) -> Seq<char> {
    if opens {
        match s.space_before {
            Some(v) => "#v("@ + pt_text(v as int) + ")\n"@,
            None => seq![],
        }
    } else {
        seq![]
    }
}

/// Paragraph text as a heading of its level, when it is one.
pub open spec fn heading_text(s: ParagraphStyle, body: Seq<char>) -> Seq<char> {
    match s.heading_level {
        Some(l) => "#heading(level: "@ + nat_text(l as nat) + ")["@ + body + "]"@,
        None => body,
    }
}

/// Paragraph text aligned, when the paragraph is.
pub open spec fn aligned_text(s: ParagraphStyle, body: Seq<char>) -> Seq<char> {
    match align_name(s.alignment) {
        Some(a) => "#align("@ + a + ")["@ + body + "]"@,
        None => body,
    }
}

/// Whether a body paragraph needs a block of its own: for block spacing, or
/// for an exact leading, justified text or right-to-left text.
pub open spec fn body_para_wrapped(s: ParagraphStyle, opens: bool) -> bool {
    para_params(s, opens).len() > 0 || needs_block_wrapper(s)
}

/// The opening of a body paragraph's block: its spacing, then the paragraph
/// settings it needs on lines of their own.
#[verifier::opaque]
pub open spec fn body_para_open_text(s: ParagraphStyle, opens: bool) -> Seq<char> {
    "#block("@ + join(para_params(s, opens), ", "@) + ")["@ + (if needs_block_wrapper(s) {
        "\n"@ + par_settings_text(s)
    } else {
        seq![]
    })
}

/// A body paragraph: the explicit space when it opens the document, its runs
/// (as a heading, aligned), inside a block that carries its spacing and
/// settings when it needs one, and a paragraph break.
#[verifier::opaque]
pub open spec fn body_para_text(p: Paragraph, opens: bool) -> Seq<char> {
    let core = aligned_text(p.style, heading_text(p.style, runs_text(p.runs@)));
    lead_space_text(p.style, opens) + (if body_para_wrapped(p.style, opens) {
        body_para_open_text(p.style, opens) + core + "]"@
    } else {
        core
    }) + "\n\n"@
}

/// How the cells of a page's tables size their lines: by the page's line
/// grid alone, as the model carries no resolved line boxes.
pub open spec fn grid_lines(pitch: Option<i64>) -> CellLines {
    CellLines { plain: None, east_asian: None, line_grid_pitch: pitch }
}

/// One block of a flowing page; `opens` when it is the first block of the
/// document.
#[verifier::opaque]
pub open spec fn body_block_text(b: Block, opens: bool, pitch: Option<i64>) -> Seq<char> {
    match b {
        Block::Paragraph(p) => body_para_text(p, opens),
        Block::Caption(c) => caption_marker_text(c) + body_para_text(c.paragraph, false),
        Block::Table(t) => table_text(t, 0, grid_lines(pitch)),
        Block::TableOfContents(TableOfContents::Headings { depth }) => "#outline(title: none, depth: "@
            + nat_text(depth as nat) + ")\n"@,
        Block::TableOfContents(TableOfContents::Captions { identifier }) => caption_list_text(
            identifier@,
        ),
        Block::PageBreak => "#pagebreak()\n"@,
        Block::ColumnBreak => "#colbreak()\n"@,
    }
}

/// Blocks one after another; `opens` when the first of them opens the
/// document.
pub open spec fn body_blocks_text(bs: Seq<Block>, opens: bool, pitch: Option<i64>) -> Seq<char>
    decreases bs.len(),
{
    if bs.len() == 0 {
        seq![]
    } else {
        body_blocks_text(bs.drop_last(), opens, pitch) + body_block_text(
            bs.last(),
            opens && bs.len() == 1,
            pitch,
        )
    }
}

// ---------------------------------------------------------------------------
// Pages.
// ---------------------------------------------------------------------------

/// A page of flowing content; `opens` when it is the document's first page.
pub open spec fn flow_page_text(p: FlowPage, o: ConvertOptions, opens: bool) -> Seq<char> {
    flow_setup_text(
        effective_size(p.size, o),
        p.margins,
        p.header,
        p.footer,
        numbering_format(p.page_numbering),
    ) + numbering_text(p.page_numbering) + body_blocks_text(
        p.content@,
        opens,
        p.line_grid_pitch,
    )
}

/// A spreadsheet page: its setup and its table.
pub open spec fn sheet_page_text(p: SheetPage, o: ConvertOptions) -> Seq<char> {
    flow_setup_text(
        effective_size(p.size, o),
        p.margins,
        p.header,
        p.footer,
        PageNumberFormat::Decimal,
    ) + table_text(p.table, 0, CellLines::spec_none())
}

/// `#set page(..)` for a fixed page: its own size, no margin, its background
/// or white.
pub open spec fn fixed_setup_text(p: FixedPage) -> Seq<char> {
    "#set page(width: "@ + pt_text(p.size.width as int) + ", height: "@ + pt_text(
        p.size.height as int,
    ) + ", margin: 0pt, fill: "@ + (match p.background_color {
        Some(c) => rgb_text(c),
        None => "white"@,
    }) + ")\n"@
}

/// Paragraphs of a text box one after another.
pub open spec fn text_box_text(ps: Seq<Paragraph>) -> Seq<char>
    decreases ps.len(),
{
    if ps.len() == 0 {
        seq![]
    } else {
        text_box_text(ps.drop_last()) + body_para_text(ps.last(), false)
    }
}

/// An element of a fixed page, placed at its offsets in a block of its size.
#[verifier::opaque]
pub open spec fn element_text(e: FixedElement) -> Seq<char> {
    "#place(top + left, dx: "@ + pt_text(e.x as int) + ", dy: "@ + pt_text(e.y as int)
        + ")[#block(width: "@ + pt_text(e.width as int) + ", height: "@ + pt_text(
        e.height as int,
    ) + ")[\n"@ + (match e.kind {
        FixedElementKind::Table(t) => table_text(t, 0, CellLines::spec_none()),
        FixedElementKind::TextBox(ps) => text_box_text(ps@),
    }) + "]]\n"@
}

/// Elements one after another.
pub open spec fn elements_text(es: Seq<FixedElement>) -> Seq<char>
    decreases es.len(),
{
    if es.len() == 0 {
        seq![]
    } else {
        elements_text(es.drop_last()) + element_text(es.last())
    }
}

/// A fixed page: its setup and its elements.
pub open spec fn fixed_page_text(p: FixedPage) -> Seq<char> {
    fixed_setup_text(p) + elements_text(p.elements@)
}

/// A page; `opens` when it is the document's first.
#[verifier::opaque]
pub open spec fn page_text(pg: Page, o: ConvertOptions, opens: bool) -> Seq<char> {
    match pg {
        Page::Flow(p) => flow_page_text(p, o, opens),
        Page::Fixed(p) => fixed_page_text(p),
        Page::Sheet(p) => sheet_page_text(p, o),
    }
}

/// Pages one after another, a page break between each two.
pub open spec fn pages_text(ps: Seq<Page>, o: ConvertOptions) -> Seq<char>
    decreases ps.len(),
{
    if ps.len() == 0 {
        seq![]
    } else {
        pages_text(ps.drop_last(), o) + (if ps.len() > 1 {
            "#pagebreak()\n"@
        } else {
            seq![]
        }) + page_text(ps.last(), o, ps.len() == 1)
    }
}

/// The first line of the preamble: the state that records the numerals of
/// the section being laid out.
pub open spec fn format_state_text() -> Seq<char> {
    "#let o2p-page-format = state(\"o2p-page-format\", \"1\")\n"@
}

/// The second line of the preamble: outline entries show the page they point
/// to in the numerals of that page's section.
pub open spec fn outline_rule_text() -> Seq<char> {
    "#show outline.entry: it => link(it.element.location(), it.indented(it.prefix(), it.body() + box(width: 1fr, repeat[.]) + context numbering(o2p-page-format.at(it.element.location()), ..counter(page).at(it.element.location()))))\n"@
}

/// A whole document: the preamble, then its pages.
pub open spec fn document_text(doc: Document, o: ConvertOptions) -> Seq<char> {
    format_state_text() + outline_rule_text() + pages_text(doc.pages@, o)
}

// ---------------------------------------------------------------------------
// Writers.
// ---------------------------------------------------------------------------

/// The size of a page with the options applied.
pub fn page_size_with_options(size: PageSize, o: &ConvertOptions) -> (r: PageSize)
    ensures
        r == effective_size(size, *o),
{
    let base: PageSize = match o.paper_size {
        Some(PaperSize::A4) => PageSize { width: 5952800, height: 8418900 },
        Some(PaperSize::Letter) => PageSize { width: 6120000, height: 7920000 },
        Some(PaperSize::Legal) => PageSize { width: 6120000, height: 10080000 },
        None => size,
    };
    match o.landscape {
        Some(true) => if base.width < base.height {
            PageSize { width: base.height, height: base.width }
        } else {
            base
        },
        Some(false) => if base.width > base.height {
            PageSize { width: base.height, height: base.width }
        } else {
            base
        },
        None => base,
    }
}

/// Appends the margin dictionary of a page.
fn write_margins(out: &mut String, m: &Margins)
    ensures
        final(out)@ == old(out)@ + margins_text(*m),
{
    out.append("(top: ");
    push_pt(out, m.top as i128);
    out.append(", bottom: ");
    push_pt(out, m.bottom as i128);
    out.append(", left: ");
    push_pt(out, m.left as i128);
    out.append(", right: ");
    push_pt(out, m.right as i128);
    out.append(")");
    assert(out@ =~= old(out)@ + margins_text(*m));
}

/// Appends `#set page(..)` for flowing content.
fn write_flow_setup(
    out: &mut String,
    size: PageSize,
    m: &Margins,
    header: &Option<HeaderFooter>,
    footer: &Option<HeaderFooter>,
    f: PageNumberFormat,
)
    ensures
        final(out)@ == old(out)@ + flow_setup_text(size, *m, *header, *footer, f),
{
    reveal(flow_setup_text);
    out.append("#set page(width: ");
    push_pt(out, size.width as i128);
    out.append(", height: ");
    push_pt(out, size.height as i128);
    out.append(", margin: ");
    write_margins(out, m);
    write_opt_hf_param(out, header, f, m.top, false);
    write_opt_hf_param(out, footer, f, m.bottom, true);
    write_foreground_param(out, header, footer, f);
    out.append(")\n");
    assert(out@ =~= old(out)@ + flow_setup_text(size, *m, *header, *footer, f));
}

/// Appends where a section restarts its page count and the numerals it
/// records.
fn write_numbering(out: &mut String, n: &Option<PageNumbering>)
    ensures
        final(out)@ == old(out)@ + numbering_text(*n),
{
    if let Some(x) = n {
        if let Some(s) = x.start {
            out.append("#counter(page).update(");
            push_nat(out, s as u128);
            out.append(")\n");
        }
        out.append("#o2p-page-format.update(\"");
        out.append(pattern_str(x.format));
        out.append("\")\n");
    }
    assert(out@ =~= old(out)@ + numbering_text(*n));
}

/// Appends a paragraph's runs, as a heading when it is one, aligned when it
/// is.
fn write_para_core(out: &mut String, p: &Paragraph)
    ensures
        final(out)@ == old(out)@ + aligned_text(p.style, heading_text(p.style, runs_text(p.runs@))),
{
    let a: Option<&'static str> = align_str_of(p.style.alignment);
    if let Some(name) = a {
        out.append("#align(");
        out.append(name);
        out.append(")[");
    }
    let ghost s1: Seq<char> = out@;
    if let Some(l) = p.style.heading_level {
        out.append("#heading(level: ");
        push_nat(out, l as u128);
        out.append(")[");
    }
    generate_runs(out, p.runs.as_slice());
    if p.style.heading_level.is_some() {
        out.append("]");
    }
    assert(out@ =~= s1 + heading_text(p.style, runs_text(p.runs@)));
    if a.is_some() {
        out.append("]");
    }
    assert(out@ =~= old(out)@ + aligned_text(p.style, heading_text(p.style, runs_text(p.runs@))));
}

/// Appends the block spacing parameters of a body paragraph.
fn write_para_params(out: &mut String, s: &ParagraphStyle, opens: bool)
    ensures
        final(out)@ == old(out)@ + join(para_params(*s, opens), ", "@),
{
    let ghost start: Seq<char> = out@;
    let ghost none: Seq<Seq<char>> = Seq::empty();
    let ghost a: Seq<Seq<char>> = match s.space_before {
        Some(v) => if opens {
            seq![]
        } else {
            seq!["above: "@ + pt_text(v as int)]
        },
        None => seq![],
    };
    let mut first: bool = true;
    assert(out@ =~= start + join(none, ", "@));
    if let Some(v) = s.space_before {
        if !opens {
            let mut q = String::new();
            q.append("above: ");
            push_pt(&mut q, v as i128);
            write_next_param(out, &mut first, q.as_str(), Ghost(start), Ghost(none));
            assert(none.push(q@) =~= a);
        }
    }
    assert(out@ == start + join(a, ", "@));
    if let Some(v) = s.space_after {
        let mut q = String::new();
        q.append("below: ");
        push_pt(&mut q, v as i128);
        write_next_param(out, &mut first, q.as_str(), Ghost(start), Ghost(a));
    }
}

/// Appends the opening of a body paragraph's block.
fn write_body_para_open(out: &mut String, s: &ParagraphStyle, opens: bool)
    ensures
        final(out)@ == old(out)@ + body_para_open_text(*s, opens),
{
    reveal(body_para_open_text);
    out.append("#block(");
    write_para_params(out, s, opens);
    out.append(")[");
    if cell_paragraph_needs_block_wrapper(s) {
        out.append("\n");
        write_par_settings(out, s);
    }
    assert(out@ =~= old(out)@ + body_para_open_text(*s, opens));
}

/// Appends the explicit space above the paragraph that opens the document.
fn write_lead_space(out: &mut String, s: &ParagraphStyle, opens: bool)
    ensures
        final(out)@ == old(out)@ + lead_space_text(*s, opens),
{
    if opens {
        if let Some(v) = s.space_before {
            out.append("#v(");
            push_pt(out, v as i128);
            out.append(")\n");
        }
    }
    assert(out@ =~= old(out)@ + lead_space_text(*s, opens));
}

/// Appends a body paragraph; `opens` when it is the document's first block.
pub fn write_body_para(out: &mut String, p: &Paragraph, opens: bool)
    ensures
        final(out)@ == old(out)@ + body_para_text(*p, opens),
{
    reveal(body_para_text);
    write_lead_space(out, &p.style, opens);
    let wrapped: bool = (p.style.space_before.is_some() && !opens)
        || p.style.space_after.is_some() || cell_paragraph_needs_block_wrapper(&p.style);
    assert(wrapped == body_para_wrapped(p.style, opens));
    if wrapped {
        write_body_para_open(out, &p.style, opens);
    }
    write_para_core(out, p);
    if wrapped {
        out.append("]");
    }
    out.append("\n\n");
    assert(out@ =~= old(out)@ + body_para_text(*p, opens));
}

/// Appends a table at the top level of a page.
fn write_top_table(out: &mut String, t: &crate::ir::Table, pitch: Option<i64>)
    ensures
        final(out)@ == old(out)@ + table_text(*t, 0, grid_lines(pitch)),
{
    let mut ctx = GenCtx {
        table_depth: 0,
        row_has_east_asian_text: false,
        sheet_row_line_pt: None,
        cell_lines: CellLines { plain: None, east_asian: None, line_grid_pitch: pitch },
    };
    generate_table(out, t, &mut ctx);
}

/// Appends one block of a flowing page.
fn write_body_block(out: &mut String, b: &Block, opens: bool, pitch: Option<i64>)
    ensures
        final(out)@ == old(out)@ + body_block_text(*b, opens, pitch),
{
    reveal(body_block_text);
    match b {
        Block::Paragraph(p) => write_body_para(out, p, opens),
        Block::Caption(c) => {
            write_caption_marker(out, c);
            write_body_para(out, &c.paragraph, false);
        },
        Block::Table(t) => write_top_table(out, t, pitch),
        Block::TableOfContents(TableOfContents::Headings { depth }) => {
            out.append("#outline(title: none, depth: ");
            push_nat(out, *depth as u128);
            out.append(")\n");
        },
        Block::TableOfContents(TableOfContents::Captions { identifier }) => {
            write_caption_list(out, identifier.as_str());
        },
        Block::PageBreak => out.append("#pagebreak()\n"),
        Block::ColumnBreak => out.append("#colbreak()\n"),
    }
    assert(out@ =~= old(out)@ + body_block_text(*b, opens, pitch));
}

/// Appends the blocks of a flowing page.
fn write_body_blocks(out: &mut String, bs: &Vec<Block>, opens: bool, pitch: Option<i64>)
    ensures
        final(out)@ == old(out)@ + body_blocks_text(bs@, opens, pitch),
{
    let mut i: usize = 0;
    while i < bs.len()
        invariant
            i <= bs@.len(),
            out@ == old(out)@ + body_blocks_text(bs@.take(i as int), opens, pitch),
        decreases bs@.len() - i,
    {
        write_body_block(out, &bs[i], opens && i == 0, pitch);
        proof {
            assert(bs@.take(i + 1).drop_last() =~= bs@.take(i as int));
        }
        i = i + 1;
        assert(out@ =~= old(out)@ + body_blocks_text(bs@.take(i as int), opens, pitch));
    }
    assert(bs@.take(bs@.len() as int) =~= bs@);
}

/// Appends a page of flowing content.
fn write_flow_page(out: &mut String, p: &FlowPage, o: &ConvertOptions, opens: bool)
    ensures
        final(out)@ == old(out)@ + flow_page_text(*p, *o, opens),
{
    let size: PageSize = page_size_with_options(p.size, o);
    let f: PageNumberFormat = match p.page_numbering {
        Some(x) => x.format,
        None => PageNumberFormat::Decimal,
    };
    write_flow_setup(out, size, &p.margins, &p.header, &p.footer, f);
    write_numbering(out, &p.page_numbering);
    write_body_blocks(out, &p.content, opens, p.line_grid_pitch);
    assert(out@ =~= old(out)@ + flow_page_text(*p, *o, opens));
}

/// Appends a spreadsheet page.
fn write_sheet_page(out: &mut String, p: &SheetPage, o: &ConvertOptions)
    ensures
        final(out)@ == old(out)@ + sheet_page_text(*p, *o),
{
    let size: PageSize = page_size_with_options(p.size, o);
    write_flow_setup(out, size, &p.margins, &p.header, &p.footer, PageNumberFormat::Decimal);
    write_top_table(out, &p.table, None);
    assert(out@ =~= old(out)@ + sheet_page_text(*p, *o));
}

/// Appends `#set page(..)` for a fixed page.
fn write_fixed_setup(out: &mut String, p: &FixedPage)
    ensures
        final(out)@ == old(out)@ + fixed_setup_text(*p),
{
    out.append("#set page(width: ");
    push_pt(out, p.size.width as i128);
    out.append(", height: ");
    push_pt(out, p.size.height as i128);
    out.append(", margin: 0pt, fill: ");
    match p.background_color {
        Some(c) => push_rgb(out, &c),
        None => out.append("white"),
    }
    out.append(")\n");
    assert(out@ =~= old(out)@ + fixed_setup_text(*p));
}

/// Appends the paragraphs of a text box.
fn write_text_box(out: &mut String, ps: &Vec<Paragraph>)
    ensures
        final(out)@ == old(out)@ + text_box_text(ps@),
{
    let mut i: usize = 0;
    while i < ps.len()
        invariant
            i <= ps@.len(),
            out@ == old(out)@ + text_box_text(ps@.take(i as int)),
        decreases ps@.len() - i,
    {
        write_body_para(out, &ps[i], false);
        proof {
            assert(ps@.take(i + 1).drop_last() =~= ps@.take(i as int));
        }
        i = i + 1;
        assert(out@ =~= old(out)@ + text_box_text(ps@.take(i as int)));
    }
    assert(ps@.take(ps@.len() as int) =~= ps@);
}

/// Appends an element of a fixed page.
fn write_element(out: &mut String, e: &FixedElement)
    ensures
        final(out)@ == old(out)@ + element_text(*e),
{
    reveal(element_text);
    out.append("#place(top + left, dx: ");
    push_pt(out, e.x as i128);
    out.append(", dy: ");
    push_pt(out, e.y as i128);
    out.append(")[#block(width: ");
    push_pt(out, e.width as i128);
    out.append(", height: ");
    push_pt(out, e.height as i128);
    out.append(")[\n");
    match &e.kind {
        FixedElementKind::Table(t) => write_top_table(out, t, None),
        FixedElementKind::TextBox(ps) => write_text_box(out, ps),
    }
    out.append("]]\n");
    assert(out@ =~= old(out)@ + element_text(*e));
}

/// Appends a fixed page.
fn write_fixed_page(out: &mut String, p: &FixedPage)
    ensures
        final(out)@ == old(out)@ + fixed_page_text(*p),
{
    write_fixed_setup(out, p);
    let ghost mid: Seq<char> = out@;
    let mut i: usize = 0;
    while i < p.elements.len()
        invariant
            i <= p.elements@.len(),
            out@ == mid + elements_text(p.elements@.take(i as int)),
        decreases p.elements@.len() - i,
    {
        write_element(out, &p.elements[i]);
        proof {
            assert(p.elements@.take(i + 1).drop_last() =~= p.elements@.take(i as int));
        }
        i = i + 1;
        assert(out@ =~= mid + elements_text(p.elements@.take(i as int)));
    }
    assert(p.elements@.take(p.elements@.len() as int) =~= p.elements@);
    assert(out@ =~= old(out)@ + fixed_page_text(*p));
}

/// Appends a page; `opens` when it is the document's first.
fn write_page(out: &mut String, pg: &Page, o: &ConvertOptions, opens: bool)
    ensures
        final(out)@ == old(out)@ + page_text(*pg, *o, opens),
{
    reveal(page_text);
    match pg {
        Page::Flow(p) => write_flow_page(out, p, o, opens),
        Page::Fixed(p) => write_fixed_page(out, p),
        Page::Sheet(p) => write_sheet_page(out, p, o),
    }
}

/// The Typst source of a document, with the page size and orientation
/// overrides of `options` applied.
pub fn generate_typst_with_options(doc: &Document, options: &ConvertOptions) -> (r: TypstOutput)
    ensures
        r.source@ == document_text(*doc, *options),
{
    let mut out = String::new();
    out.append("#let o2p-page-format = state(\"o2p-page-format\", \"1\")\n");
    out.append(
        "#show outline.entry: it => link(it.element.location(), it.indented(it.prefix(), it.body() + box(width: 1fr, repeat[.]) + context numbering(o2p-page-format.at(it.element.location()), ..counter(page).at(it.element.location()))))\n",
    );
    let ghost start: Seq<char> = out@;
    assert(start =~= format_state_text() + outline_rule_text());
    let mut i: usize = 0;
    while i < doc.pages.len()
        invariant
            i <= doc.pages@.len(),
            out@ == start + pages_text(doc.pages@.take(i as int), *options),
        decreases doc.pages@.len() - i,
    {
        if i > 0 {
            out.append("#pagebreak()\n");
        }
        write_page(&mut out, &doc.pages[i], options, i == 0);
        proof {
            assert(doc.pages@.take(i + 1).drop_last() =~= doc.pages@.take(i as int));
        }
        i = i + 1;
        assert(out@ =~= start + pages_text(doc.pages@.take(i as int), *options));
    }
    assert(doc.pages@.take(doc.pages@.len() as int) =~= doc.pages@);
    assert(out@ =~= document_text(*doc, *options));
    TypstOutput { source: out }
}

/// The Typst source of a document, each page at its own size.
pub fn generate_typst(doc: &Document) -> (r: TypstOutput)
    ensures
        r.source@ == document_text(*doc, ConvertOptions::spec_default()),
{
    let options = ConvertOptions::default();
    generate_typst_with_options(doc, &options)
}

} // verus!
