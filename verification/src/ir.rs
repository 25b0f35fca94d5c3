//! The document model that Typst generation reads: pages, their headers and
//! footers, blocks, paragraphs, runs and tables.
//!
//! Lengths are integers in ten-thousandths of a point; a data bar's fill is in
//! ten-thousandths of a percent.
use vstd::prelude::*;

verus! {

/// The deepest nesting of tables that is rendered; a table nested deeper in a
/// cell is left out.
pub const MAX_TABLE_DEPTH: usize = 8;

/// An sRGB color.
#[derive(Clone, Copy, Debug, PartialEq, Eq, Structural)]
pub struct Color {
    pub r: u8,
    pub g: u8,
    pub b: u8,
}

impl Color {
    pub fn new(r: u8, g: u8, b: u8) -> (c: Color)
        ensures
            c == (Color { r, g, b }),
    {
        Color { r, g, b }
    }

    pub fn black() -> (c: Color)
        ensures
            c == (Color { r: 0, g: 0, b: 0 }),
    {
        Color { r: 0, g: 0, b: 0 }
    }
}

/// Space between a box's edges and its content, in ten-thousandths of a point.
#[derive(Clone, Copy, Debug, PartialEq, Eq, Structural)]
pub struct Insets {
    pub top: i64,
    pub right: i64,
    pub bottom: i64,
    pub left: i64,
}

/// How a border line is drawn.
#[derive(Clone, Copy, Debug, PartialEq, Eq, Structural)]
pub enum BorderLineStyle {
    Solid,
    Dashed,
    Dotted,
    Double,
}

/// One side of a border; `width` in ten-thousandths of a point.
#[derive(Clone, Copy, Debug, PartialEq, Eq, Structural)]
pub struct BorderSide {
    pub width: i64,
    pub color: Color,
    pub style: BorderLineStyle,
}

/// The four sides of a cell's border, each optional.
#[derive(Clone, Copy, Debug, PartialEq, Eq, Structural)]
pub struct CellBorder {
    pub top: Option<BorderSide>,
    pub bottom: Option<BorderSide>,
    pub left: Option<BorderSide>,
    pub right: Option<BorderSide>,
}

/// Vertical placement of a cell's content.
#[derive(Clone, Copy, Debug, PartialEq, Eq, Structural)]
pub enum CellVerticalAlign {
    Top,
    Center,
    Bottom,
}

/// Horizontal alignment of a paragraph or table.
#[derive(Clone, Copy, Debug, PartialEq, Eq, Structural)]
pub enum Alignment {
    Left,
    Center,
    Right,
    Justify,
}

/// Writing direction of a paragraph.
#[derive(Clone, Copy, Debug, PartialEq, Eq, Structural)]
pub enum TextDirection {
    Ltr,
    Rtl,
}

/// A fixed line box: how far each line reaches above and below its
/// baseline, in ten-thousandths of a point.
#[derive(Clone, Copy, Debug, PartialEq, Eq, Structural)]
pub struct LineBox {
    pub above: i64,
    pub below: i64,
}

/// Paragraph properties; lengths in ten-thousandths of a point.
/// `line_spacing` is an exact leading between lines; `line_box` fixes the
/// box every line occupies; `heading_level` makes the paragraph a heading of
/// that level.
#[derive(Clone, Copy, Debug, PartialEq, Eq, Structural)]
pub struct ParagraphStyle {
    pub alignment: Option<Alignment>,
    pub direction: Option<TextDirection>,
    pub line_spacing: Option<i64>,
    pub space_before: Option<i64>,
    pub space_after: Option<i64>,
    pub heading_level: Option<u8>,
    pub line_box: Option<LineBox>,
}

/// Character properties of a run; `font_size` in ten-thousandths of a point.
#[derive(Clone, Copy, Debug, PartialEq, Eq, Structural)]
pub struct TextStyle {
    pub bold: Option<bool>,
    pub italic: Option<bool>,
    pub font_size: Option<i64>,
    pub color: Option<Color>,
}

/// A run of text with its character properties, the target it links to, and
/// the note it carries.
#[derive(Debug)]
pub struct Run {
    pub text: String,
    pub style: TextStyle,
    pub href: Option<String>,
    pub footnote: Option<Vec<Run>>,
}

/// A note's content run: a note carries styled runs, not one string.
pub fn note_run(text: &str) -> (r: Run)
    ensures
        r.text@ == text@,
        r.style == TextStyle::spec_default(),
        r.href is None,
        r.footnote is None,
{
    Run { text: String::from_str(text), style: TextStyle::default(), href: None, footnote: None }
}

/// A paragraph: its style and its runs.
#[derive(Debug)]
pub struct Paragraph {
    pub style: ParagraphStyle,
    pub runs: Vec<Run>,
}

/// A caption paragraph, with the sequence it numbers into and the text a
/// list of captions shows for it.
#[derive(Debug)]
pub struct Caption {
    pub identifier: String,
    pub entry_text: String,
    pub paragraph: Paragraph,
}

/// A generated list: the document's headings down to a depth, or the
/// captions of one sequence.
#[derive(Debug)]
pub enum TableOfContents {
    Headings { depth: u8 },
    Captions { identifier: String },
}

/// A block of content.
#[derive(Debug)]
pub enum Block {
    Paragraph(Paragraph),
    Caption(Caption),
    Table(Table),
    TableOfContents(TableOfContents),
    PageBreak,
    ColumnBreak,
}

/// A conditional-format data bar: its color and how full it is, in
/// ten-thousandths of a percent.
#[derive(Clone, Copy, Debug, PartialEq, Eq, Structural)]
pub struct DataBar {
    pub color: Color,
    pub fill_pct: i64,
}

/// The glyph of a conditional-format icon set. Circles and arrows are drawn
/// as shapes; any other icon is printed as its text.
#[derive(Clone, Debug)]
pub enum IconGlyph {
    Circle,
    ArrowUp,
    ArrowDown,
    ArrowRight,
    ArrowUpRight,
    ArrowDownRight,
    Text(String),
}

/// A table cell.
#[derive(Debug)]
pub struct TableCell {
    pub content: Vec<Block>,
    pub col_span: u32,
    pub row_span: u32,
    pub border: Option<CellBorder>,
    pub background: Option<Color>,
    pub data_bar: Option<DataBar>,
    pub icon_text: Option<IconGlyph>,
    pub icon_color: Option<Color>,
    pub spill_width: Option<i64>,
    pub vertical_align: Option<CellVerticalAlign>,
    pub padding: Option<Insets>,
}

/// A table row; `height` in ten-thousandths of a point.
#[derive(Debug)]
pub struct TableRow {
    pub cells: Vec<TableCell>,
    pub height: Option<i64>,
}

/// A table. The first `non_repeating_header_row_count` rows print once at the
/// top; the next `header_row_count` rows repeat on every page.
#[derive(Debug)]
pub struct Table {
    pub rows: Vec<TableRow>,
    pub column_widths: Vec<i64>,
    pub header_row_count: usize,
    pub non_repeating_header_row_count: usize,
    pub alignment: Option<Alignment>,
    pub default_cell_padding: Option<Insets>,
    pub use_content_driven_row_heights: bool,
    pub default_vertical_align: Option<CellVerticalAlign>,
}

/// How the lines of table-cell text are sized, as the caller resolves them
/// from the document's fonts and grid: the line box of a cell whose row holds
/// no East Asian text, the line box of one whose row does, and the pitch of
/// the document's line grid, which East Asian rows snap to.
#[derive(Clone, Copy, Debug, PartialEq, Eq, Structural)]
pub struct CellLines {
    pub plain: Option<LineBox>,
    pub east_asian: Option<LineBox>,
    pub line_grid_pitch: Option<i64>,
}

impl CellLines {
    /// No line box and no grid.
    pub open spec fn spec_none() -> CellLines {
        CellLines { plain: None, east_asian: None, line_grid_pitch: None }
    }

    /// No line box and no grid.
    pub fn none() -> (c: CellLines)
        ensures
            c == CellLines::spec_none(),
    {
        CellLines { plain: None, east_asian: None, line_grid_pitch: None }
    }
}

/// State shared by the generators while a document is written: how deep in
/// nested tables generation is, whether the row being written holds East
/// Asian text, and, inside a spreadsheet cell whose row declares its height,
/// the height one line of the cell has to fit in (the row less the cell's
/// padding), in ten-thousandths of a point; and how cell lines are sized.
#[derive(Clone, Copy, Debug, PartialEq, Eq, Structural)]
pub struct GenCtx {
    pub table_depth: usize,
    pub row_has_east_asian_text: bool,
    pub sheet_row_line_pt: Option<i128>,
    pub cell_lines: CellLines,
}

impl Default for TableCell {
    fn default() -> (c: TableCell)
        ensures
            c.content@.len() == 0,
            c.col_span == 1,
            c.row_span == 1,
            c.border is None,
            c.background is None,
            c.data_bar is None,
            c.icon_text is None,
            c.icon_color is None,
            c.spill_width is None,
            c.vertical_align is None,
            c.padding is None,
    {
        TableCell {
            content: Vec::new(),
            col_span: 1,
            row_span: 1,
            border: None,
            background: None,
            data_bar: None,
            icon_text: None,
            icon_color: None,
            spill_width: None,
            vertical_align: None,
            padding: None,
        }
    }
}

impl Default for Table {
    fn default() -> (t: Table)
        ensures
            t.rows@.len() == 0,
            t.column_widths@.len() == 0,
            t.header_row_count == 0,
            t.non_repeating_header_row_count == 0,
            t.alignment is None,
            t.default_cell_padding is None,
            !t.use_content_driven_row_heights,
            t.default_vertical_align is None,
    {
        Table {
            rows: Vec::new(),
            column_widths: Vec::new(),
            header_row_count: 0,
            non_repeating_header_row_count: 0,
            alignment: None,
            default_cell_padding: None,
            use_content_driven_row_heights: false,
            default_vertical_align: None,
        }
    }
}

impl Default for ParagraphStyle {
    fn default() -> (s: ParagraphStyle)
        ensures
            s == (ParagraphStyle {
                alignment: None,
                direction: None,
                line_spacing: None,
                space_before: None,
                space_after: None,
                heading_level: None,
                line_box: None,
            }),
    {
        ParagraphStyle {
            alignment: None,
            direction: None,
            line_spacing: None,
            space_before: None,
            space_after: None,
            heading_level: None,
            line_box: None,
        }
    }
}

impl TextStyle {
    /// The style that sets no property.
    pub open spec fn spec_default() -> TextStyle {
        TextStyle { bold: None, italic: None, font_size: None, color: None }
    }
}

impl Default for TextStyle {
    fn default() -> (s: TextStyle)
        ensures
            s == TextStyle::spec_default(),
    {
        TextStyle { bold: None, italic: None, font_size: None, color: None }
    }
}

/// A page's width and height, in ten-thousandths of a point.
#[derive(Clone, Copy, Debug, PartialEq, Eq, Structural)]
pub struct PageSize {
    pub width: i64,
    pub height: i64,
}

impl PageSize {
    /// A4 portrait: 595.28pt by 841.89pt.
    pub open spec fn spec_default() -> PageSize {
        PageSize { width: 5952800, height: 8418900 }
    }
}

impl Default for PageSize {
    fn default() -> (s: PageSize)
        ensures
            s == PageSize::spec_default(),
    {
        PageSize { width: 5952800, height: 8418900 }
    }
}

/// A page's margins, in ten-thousandths of a point.
#[derive(Clone, Copy, Debug, PartialEq, Eq, Structural)]
pub struct Margins {
    pub top: i64,
    pub bottom: i64,
    pub left: i64,
    pub right: i64,
}

impl Margins {
    /// One inch on every side.
    pub open spec fn spec_default() -> Margins {
        Margins { top: 720000, bottom: 720000, left: 720000, right: 720000 }
    }
}

impl Default for Margins {
    fn default() -> (m: Margins)
        ensures
            m == Margins::spec_default(),
    {
        Margins { top: 720000, bottom: 720000, left: 720000, right: 720000 }
    }
}

/// The numerals a section numbers its pages with.
#[derive(Clone, Copy, Debug, PartialEq, Eq, Structural)]
pub enum PageNumberFormat {
    Decimal,
    LowerRoman,
    UpperRoman,
    LowerLetter,
    UpperLetter,
}

/// How a section numbers its pages: where the count restarts, and in what
/// numerals.
#[derive(Clone, Copy, Debug, PartialEq, Eq, Structural)]
pub struct PageNumbering {
    pub start: Option<u32>,
    pub format: PageNumberFormat,
}

/// Where the text after a positioned tab is aligned.
#[derive(Clone, Copy, Debug, PartialEq, Eq, Structural)]
pub enum PositionedTabAlignment {
    Left,
    Center,
    Right,
}

/// A tab in a header or footer line that moves the text after it to a fixed
/// position.
#[derive(Clone, Copy, Debug, PartialEq, Eq, Structural)]
pub struct PositionedTab {
    pub alignment: PositionedTabAlignment,
}

/// An element of a header or footer line: a run, the page number, the page
/// count (each field in its run's style), or a positioned tab.
#[derive(Debug)]
pub enum HFInline {
    Run(Run),
    PageNumber(TextStyle),
    TotalPages(TextStyle),
    PositionedTab(PositionedTab),
}

/// What a frame's position is measured from.
#[derive(Clone, Copy, Debug, PartialEq, Eq, Structural)]
pub enum FrameAnchor {
    Page,
    Margin,
    Text,
}

/// A frame around a header or footer paragraph: its offsets, in
/// ten-thousandths of a point, and what they are measured from.
#[derive(Clone, Copy, Debug, PartialEq, Eq, Structural)]
pub struct HeaderFooterFrame {
    pub x: Option<i64>,
    pub y: Option<i64>,
    pub horizontal_anchor: FrameAnchor,
    pub vertical_anchor: FrameAnchor,
}

/// A paragraph of a header or footer: its style, its elements, the rules
/// drawn above and below it with the gaps they keep, and its frame.
#[derive(Debug)]
pub struct HeaderFooterParagraph {
    pub style: ParagraphStyle,
    pub elements: Vec<HFInline>,
    pub border: Option<CellBorder>,
    pub border_space: Option<Insets>,
    pub frame: Option<HeaderFooterFrame>,
}

/// A header or footer: its paragraphs and, when declared, its distance from
/// the page edge in ten-thousandths of a point.
#[derive(Debug)]
pub struct HeaderFooter {
    pub distance_from_edge: Option<i64>,
    pub paragraphs: Vec<HeaderFooterParagraph>,
}

/// A page whose content flows from page to page: a document section, with
/// the pitch of its line grid when it has one.
#[derive(Debug)]
pub struct FlowPage {
    pub size: PageSize,
    pub margins: Margins,
    pub content: Vec<Block>,
    pub header: Option<HeaderFooter>,
    pub footer: Option<HeaderFooter>,
    pub line_grid_pitch: Option<i64>,
    pub page_numbering: Option<PageNumbering>,
}

/// What a positioned element of a fixed page holds.
#[derive(Debug)]
pub enum FixedElementKind {
    Table(Table),
    TextBox(Vec<Paragraph>),
}

/// An element placed on a fixed page; position and size in ten-thousandths
/// of a point.
#[derive(Debug)]
pub struct FixedElement {
    pub x: i64,
    pub y: i64,
    pub width: i64,
    pub height: i64,
    pub kind: FixedElementKind,
}

/// A page whose elements sit at fixed positions: a slide.
#[derive(Debug)]
pub struct FixedPage {
    pub size: PageSize,
    pub elements: Vec<FixedElement>,
    pub background_color: Option<Color>,
}

/// A spreadsheet printed as a table.
#[derive(Debug)]
pub struct SheetPage {
    pub size: PageSize,
    pub margins: Margins,
    pub table: Table,
    pub header: Option<HeaderFooter>,
    pub footer: Option<HeaderFooter>,
}

/// A page of a document.
#[derive(Debug)]
pub enum Page {
    Flow(FlowPage),
    Fixed(FixedPage),
    Sheet(SheetPage),
}

/// A document: its pages in order.
#[derive(Debug)]
pub struct Document {
    pub pages: Vec<Page>,
}

/// A standard paper size.
#[derive(Clone, Copy, Debug, PartialEq, Eq, Structural)]
pub enum PaperSize {
    A4,
    Letter,
    Legal,
}

/// Overrides for the pages of flowing and spreadsheet content: the paper
/// they print on, and whether they print in landscape.
#[derive(Clone, Copy, Debug, PartialEq, Eq, Structural)]
pub struct ConvertOptions {
    pub paper_size: Option<PaperSize>,
    pub landscape: Option<bool>,
}

impl ConvertOptions {
    /// No override.
    pub open spec fn spec_default() -> ConvertOptions {
        ConvertOptions { paper_size: None, landscape: None }
    }
}

impl Default for ConvertOptions {
    fn default() -> (o: ConvertOptions)
        ensures
            o == ConvertOptions::spec_default(),
    {
        ConvertOptions { paper_size: None, landscape: None }
    }
}

/// Generated Typst source.
#[derive(Debug)]
pub struct TypstOutput {
    pub source: String,
}

} // verus!
