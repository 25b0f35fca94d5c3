//! Typst `#table(..)` generation: the table's parameters, its header blocks,
//! the placement of every cell on the column grid (row and column spans
//! included), and each cell's content, nested tables included.
use vstd::prelude::*;

use crate::borders::{
    cell_padding, cell_params, double_overlays_text, valign_str, valign_text,
    write_cell_params, write_double_border_overlays,
};
use crate::captions::{caption_marker_text, write_caption_marker};
use crate::icons::{icon_shape, icon_shape_text};
use crate::ir::{
    Alignment, Block, CellLines, Color, DataBar, LineBox, GenCtx, IconGlyph, Insets, Paragraph,
    ParagraphStyle, Run, Table, TableCell, TableRow, TextDirection, MAX_TABLE_DEPTH,
};
use crate::runs::{generate_runs, runs_text};
use crate::typst_text::{
    decimal_text, has_cjk, insets_text, is_cjk_like, join, nat_text, pt_text,
    push_decimal, push_insets, push_nat, push_pt, push_rgb, rgb_text,
};

verus! {

// ---------------------------------------------------------------------------
// The model of the generated text.
// ---------------------------------------------------------------------------

/// How many more levels of nested tables may open below depth `d`: the
/// measure that bounds the recursion through nested tables.
pub open spec fn fuel(d: int) -> nat {
    if d < MAX_TABLE_DEPTH {
        (MAX_TABLE_DEPTH - d) as nat
    } else {
        0
    }
}

/// The padding of cells that declare none: the table's default, else 5pt on
/// every side.
pub open spec fn default_padding(t: Table) -> Insets {
    match t.default_cell_padding {
        Some(p) => p,
        None => Insets { top: 50000, right: 50000, bottom: 50000, left: 50000 },
    }
}

/// The largest number of cells in any row.
pub open spec fn max_cells(rows: Seq<TableRow>) -> nat
    decreases rows.len(),
{
    if rows.len() == 0 {
        0
    } else {
        let m = max_cells(rows.drop_last());
        let c = rows.last().cells@.len();
        if c > m {
            c
        } else {
            m
        }
    }
}

/// The number of grid columns: one per declared column width, else as many
/// as the widest row has cells.
pub open spec fn grid_columns(t: Table) -> nat {
    if t.column_widths@.len() > 0 {
        t.column_widths@.len()
    } else {
        max_cells(t.rows@)
    }
}

/// The column widths, comma separated: `100pt, 80pt`.
pub open spec fn widths_text(ws: Seq<i64>) -> Seq<char>
    decreases ws.len(),
{
    if ws.len() == 0 {
        seq![]
    } else if ws.len() == 1 {
        pt_text(ws[0] as int)
    } else {
        widths_text(ws.drop_last()) + ", "@ + pt_text(ws.last() as int)
    }
}

/// A row's track: its height, or `auto`.
pub open spec fn row_track_text(r: TableRow) -> Seq<char> {
    match r.height {
        Some(h) => pt_text(h as int),
        None => "auto"@,
    }
}

/// The row tracks, comma separated.
pub open spec fn tracks_text(rows: Seq<TableRow>) -> Seq<char>
    decreases rows.len(),
{
    if rows.len() == 0 {
        seq![]
    } else if rows.len() == 1 {
        row_track_text(rows[0])
    } else {
        tracks_text(rows.drop_last()) + ", "@ + row_track_text(rows.last())
    }
}

/// Whether some row declares its height.
pub open spec fn any_row_height(rows: Seq<TableRow>) -> bool {
    exists|i: int| 0 <= i < rows.len() && (#[trigger] rows[i]).height is Some
}

/// How many rows form the repeating header: as declared, at most all rows.
pub open spec fn header_count(t: Table) -> int {
    if t.header_row_count < t.rows@.len() {
        t.header_row_count as int
    } else {
        t.rows@.len() as int
    }
}

/// How many rows above the repeating header print only once: as declared,
/// at most the rows the header leaves.
pub open spec fn lead_count(t: Table) -> int {
    let rest = t.rows@.len() - header_count(t);
    if (t.non_repeating_header_row_count as int) < rest {
        t.non_repeating_header_row_count as int
    } else {
        rest
    }
}

/// `n` zero counters: no column is covered by a span.
pub open spec fn zero_counters(n: nat) -> Seq<usize> {
    Seq::new(n, |i: int| 0usize)
}

/// Row-span counters after moving down one row: each positive counter drops
/// by one.
pub open spec fn decrement_all(rs: Seq<usize>) -> Seq<usize> {
    rs.map_values(|x: usize| if x > 0 {
        (x - 1) as usize
    } else {
        0usize
    })
}

/// The first column at or after `col` that no earlier row's span still
/// covers, or `n` when there is none.
pub open spec fn next_free(rs: Seq<usize>, col: int, n: int) -> int
    decreases n - col,
{
    if col < n && rs[col] > 0 {
        next_free(rs, col + 1, n)
    } else {
        col
    }
}

/// Marks `span` columns from `start` as covered for `rows` rows.
pub open spec fn set_span(rs: Seq<usize>, start: int, span: int, rows: u32) -> Seq<usize> {
    Seq::new(
        rs.len(),
        |i: int|
            if start <= i < start + span {
                rows as usize
            } else {
                rs[i]
            },
    )
}

/// The empty cells that complete a row: one for each column from `col` on
/// that no span covers.
pub open spec fn fill_text(rs: Seq<usize>, col: int, n: int, indent: Seq<char>) -> Seq<char>
    decreases n - col,
{
    if col >= n {
        seq![]
    } else {
        (if rs[col] == 0 {
            indent + "[],\n"@
        } else {
            seq![]
        }) + fill_text(rs, col + 1, n, indent)
    }
}

/// The number of columns a cell takes: its span, cut at the grid's edge.
pub open spec fn clamped_span(cell: TableCell, col: int, n: int) -> int {
    if (cell.col_span as int) < n - col {
        cell.col_span as int
    } else {
        n - col
    }
}

/// The Typst name of a paragraph alignment; none for justified text.
pub open spec fn align_name(a: Option<Alignment>) -> Option<Seq<char>> {
    match a {
        Some(Alignment::Left) => Some("left"@),
        Some(Alignment::Center) => Some("center"@),
        Some(Alignment::Right) => Some("right"@),
        _ => None,
    }
}

/// Whether a cell paragraph has to be wrapped in a block of its own: an exact
/// line spacing, a line box of its own, justified text, or right-to-left
/// text.
pub open spec fn needs_block_wrapper(style: ParagraphStyle) -> bool {
    style.line_spacing is Some || style.line_box is Some || style.alignment == Some(
        Alignment::Justify,
    ) || style.direction == Some(TextDirection::Rtl)
}

/// The settings of a fixed line box: no leading, and text edges at the
/// box's reach above and below the baseline.
pub open spec fn line_box_text(lb: LineBox) -> Seq<char> {
    "  #set par(leading: 0pt)\n  #set text(top-edge: "@ + pt_text(lb.above as int)
        + ", bottom-edge: "@ + pt_text(-(lb.below as int)) + ")\n"@
}

/// The paragraph settings a wrapped paragraph carries: its line box first,
/// then its leading, justification and direction.
pub open spec fn par_settings_text(style: ParagraphStyle) -> Seq<char> {
    (match style.line_box {
        Some(lb) => line_box_text(lb),
        None => seq![],
    }) + (match style.line_spacing {
        Some(l) => "  #set par(leading: "@ + pt_text(l as int) + ")\n"@,
        None => seq![],
    }) + (if style.alignment == Some(Alignment::Justify) {
        "  #set par(justify: true)\n"@
    } else {
        seq![]
    }) + (if style.direction == Some(TextDirection::Rtl) {
        "  #set text(dir: rtl)\n"@
    } else {
        seq![]
    })
}

/// Whether a cell paragraph is wrapped in a block: when it needs settings of
/// its own, is aligned, or has its line box set.
pub open spec fn has_wrapper(style: ParagraphStyle, line_box: Option<Seq<char>>) -> bool {
    needs_block_wrapper(style) || align_name(style.alignment) is Some || line_box is Some
}

/// The opening of a wrapped cell paragraph's block, with its settings: the
/// paragraph settings, the alignment, then the line box.
pub open spec fn para_open_text(style: ParagraphStyle, line_box: Option<Seq<char>>) -> Seq<char> {
    let align = align_name(style.alignment);
    if has_wrapper(style, line_box) {
        "#block("@ + (if align is Some {
            "width: 100%"@
        } else {
            seq![]
        }) + ")[\n"@ + par_settings_text(style) + (match align {
            Some(a) => "  #set align("@ + a + ")\n"@,
            None => seq![],
        }) + (match line_box {
            Some(lb) => lb,
            None => seq![],
        })
    } else {
        seq![]
    }
}

/// Explicit space above a paragraph: `#v(..pt)` on a line of its own.
pub open spec fn space_before_text(style: ParagraphStyle) -> Seq<char> {
    match style.space_before {
        Some(s) => "#v("@ + pt_text(s as int) + ")\n"@,
        None => seq![],
    }
}

/// Explicit space below a paragraph, on the line after it.
pub open spec fn space_after_text(style: ParagraphStyle) -> Seq<char> {
    match style.space_after {
        Some(s) => "\n#v("@ + pt_text(s as int) + ")"@,
        None => seq![],
    }
}

/// A paragraph inside a table cell, with the line box settings it is given
/// and whether a snapping line grid already holds its space after (which is
/// then not written again).
pub open spec fn para_text(p: Paragraph, line_box: Option<Seq<char>>, absorbs: bool) -> Seq<char> {
    para_open_text(p.style, line_box) + space_before_text(p.style) + runs_text(p.runs@) + (if absorbs {
        seq![]
    } else {
        space_after_text(p.style)
    }) + (if has_wrapper(p.style, line_box) {
        "\n]"@
    } else {
        seq![]
    })
}

/// The font size a cell paragraph's line is measured in: the largest size
/// its runs declare, in ten-thousandths of a point; zero when none does.
pub open spec fn max_font_size(runs: Seq<Run>) -> int
    decreases runs.len(),
{
    if runs.len() == 0 {
        0
    } else {
        let prev = max_font_size(runs.drop_last());
        match runs.last().style.font_size {
            Some(f) => if (f as int) > prev {
                f as int
            } else {
                prev
            },
            None => prev,
        }
    }
}

/// The font size of text that declares none: 11pt.
pub const DEFAULT_FONT_SIZE: i64 = 110000;

/// The font size a cell paragraph's line is measured in: the largest size
/// its runs declare, else the default.
pub open spec fn line_font_size(runs: Seq<Run>) -> int {
    if max_font_size(runs) > 0 {
        max_font_size(runs)
    } else {
        DEFAULT_FONT_SIZE as int
    }
}

/// The line box of a spreadsheet cell paragraph whose line has to fit in
/// `line` (ten-thousandths of a point): no leading, and text edges that add
/// up to the line measured in the paragraph's font size, four fifths above
/// the baseline and the rest below, in ten-thousandths of an em. None when
/// there is no such line or it is not positive.
pub open spec fn sheet_line_box_text(runs: Seq<Run>, line: Option<i128>) -> Option<Seq<char>> {
    match line {
        Some(l) => if l > 0 {
            let total = (l as int) * 10000 / line_font_size(runs);
            let top = total * 4 / 5;
            Some(
                "  #set par(leading: 0pt)\n  #set text(top-edge: "@ + decimal_text(top)
                    + "em, bottom-edge: -"@ + decimal_text(total - top) + "em)\n"@,
            )
        } else {
            None
        },
        None => None,
    }
}

/// The line box settings of a cell paragraph: the spreadsheet row's pin when
/// the row declares its height, else the line box cells take in a row with
/// (`ea`) or without East Asian text.
pub open spec fn cell_line_settings(
    runs: Seq<Run>,
    lines: CellLines,
    ea: bool,
    line: Option<i128>,
) -> Option<Seq<char>> {
    match sheet_line_box_text(runs, line) {
        Some(x) => Some(x),
        None => match (if ea {
            lines.east_asian
        } else {
            lines.plain
        }) {
            Some(lb) => Some(line_box_text(lb)),
            None => None,
        },
    }
}

/// Whether a cell paragraph's space after is held by the line grid: a row
/// with East Asian text snaps to the document's grid, whose pitch already
/// contains the gap.
pub open spec fn grid_absorbs(lines: CellLines, ea: bool) -> bool {
    lines.line_grid_pitch is Some && ea
}

/// The line a cell's content has to fit in: the row's declared height less
/// the padding the cell uses, for a cell spanning one row, when positive.
pub open spec fn cell_line(cell: TableCell, pad: Insets, row_height: Option<i64>) -> Option<i128> {
    let p = match cell.padding {
        Some(x) => x,
        None => pad,
    };
    match row_height {
        Some(h) => if cell.row_span <= 1 && (h as int) - (p.top as int) - (p.bottom as int) > 0 {
            Some(((h as int) - (p.top as int) - (p.bottom as int)) as i128)
        } else {
            None
        },
        None => None,
    }
}

/// A value clamped to `lo..=hi`.
pub open spec fn clamp(v: int, lo: int, hi: int) -> int {
    if v < lo {
        lo
    } else if v > hi {
        hi
    } else {
        v
    }
}

/// A data bar drawn behind the cell's value: as wide as its fill, inset
/// 2pt from the row's top and bottom (at least 1pt tall), with a fade.
pub open spec fn data_bar_text(db: DataBar, row_height: Option<i64>) -> Seq<char> {
    let pct = clamp(db.fill_pct as int, 0, 1000000);
    let bar_height = match row_height {
        Some(h) => pt_text(
            if h as int - 40000 > 10000 {
                h as int - 40000
            } else {
                10000
            },
        ),
        None => "1.2em - "@ + pt_text(40000),
    };
    "#place(left + horizon, box(width: "@ + decimal_text(pct) + "%, height: "@ + bar_height
        + ", fill: gradient.linear("@ + rgb_text(db.color) + ", "@ + rgb_text(db.color)
        + ".lighten(70%))))"@
}

/// The characters of an icon glyph that is printed as text.
pub open spec fn glyph_chars(g: IconGlyph) -> Seq<char> {
    match g {
        IconGlyph::Text(s) => s@,
        _ => seq![],
    }
}

/// An icon placed at the cell's left edge, out of flow: its shape, else its
/// character in bold, in the icon's color when it has one.
pub open spec fn icon_text(g: IconGlyph, color: Option<Color>) -> Seq<char> {
    match icon_shape_text(g, color) {
        Some(shape) => "#place(left + horizon, "@ + shape + ")"@,
        None => match color {
            Some(c) => "#place(left + horizon, text(fill: "@ + rgb_text(c)
                + ", weight: \"bold\")["@ + glyph_chars(g) + "])"@,
            None => "#place(left + horizon, text(weight: \"bold\")["@ + glyph_chars(g) + "])"@,
        },
    }
}

/// Whether a cell needs the `table.cell(..)` form rather than bare content.
pub open spec fn needs_cell_fn(cell: TableCell, colspan: int) -> bool {
    colspan > 1 || cell.row_span > 1 || cell.border is Some || cell.background is Some
        || cell.vertical_align is Some || cell.padding is Some
}

/// The opening of a cell: `table.cell(params)[` or `[`.
pub open spec fn cell_open_text(
    cell: TableCell,
    colspan: int,
    indent: Seq<char>,
    pad: Insets,
) -> Seq<char> {
    if needs_cell_fn(cell, colspan) {
        indent + "table.cell("@ + join(cell_params(cell, colspan as u32, pad), ", "@) + ")["@
    } else {
        indent + "["@
    }
}

/// The decorations drawn before a cell's content: double borders, data bar,
/// icon.
pub open spec fn cell_decor_text(cell: TableCell, pad: Insets, row_height: Option<i64>) -> Seq<
    char,
> {
    (match cell.border {
        Some(b) => double_overlays_text(b, cell_padding(cell, pad)),
        None => seq![],
    }) + (match cell.data_bar {
        Some(db) => data_bar_text(db, row_height),
        None => seq![],
    }) + (match cell.icon_text {
        Some(g) => icon_text(g, cell.icon_color),
        None => seq![],
    })
}

/// How a table nested in a cell at depth `e` is written: as a table one
/// level deeper while the nesting limit allows, else not at all.
pub open spec fn nested_at(e: int, lines: CellLines) -> spec_fn(Table) -> Seq<char>
    decreases fuel(e - 1), 0nat,
{
    |t: Table|
        if e < MAX_TABLE_DEPTH {
            table_text(t, e, lines)
        } else {
            seq![]
        }
}

/// The Typst source of a table at nesting depth `d` (the depth before it
/// opens): aligned tables are wrapped in `#align(..)`.
pub open spec fn table_text(t: Table, d: int, lines: CellLines) -> Seq<char>
    decreases fuel(d), 1nat,
{
    match t.alignment {
        Some(Alignment::Center) => "#align(center)[\n"@ + inner_text(t, nested_at(d + 1, lines), lines)
            + "]\n"@,
        Some(Alignment::Right) => "#align(right)[\n"@ + inner_text(t, nested_at(d + 1, lines), lines)
            + "]\n"@,
        _ => inner_text(t, nested_at(d + 1, lines), lines),
    }
}

/// Whether rows keep their declared heights.
pub open spec fn fixed_heights(t: Table) -> bool {
    !t.use_content_driven_row_heights
}

/// The rows printed once above the repeating header, and the row-span
/// counters after them.
#[verifier::opaque]
pub open spec fn lead_rows(t: Table, nest: spec_fn(Table) -> Seq<char>, lines: CellLines) -> (Seq<char>, Seq<usize>) {
    let n = grid_columns(t) as int;
    rows_text(
        t.rows@.subrange(0, lead_count(t)),
        n,
        zero_counters(n as nat),
        "    "@,
        default_padding(t),
        fixed_heights(t),
        nest, lines)
}

/// The repeating header rows, and the row-span counters after them.
#[verifier::opaque]
pub open spec fn head_rows(t: Table, nest: spec_fn(Table) -> Seq<char>, lines: CellLines) -> (Seq<char>, Seq<usize>) {
    rows_text(
        t.rows@.subrange(lead_count(t), lead_count(t) + header_count(t)),
        grid_columns(t) as int,
        lead_rows(t, nest, lines).1,
        "    "@,
        default_padding(t),
        fixed_heights(t),
        nest, lines)
}

/// The body rows, and the row-span counters after them.
#[verifier::opaque]
pub open spec fn body_rows(t: Table, nest: spec_fn(Table) -> Seq<char>, lines: CellLines) -> (Seq<char>, Seq<usize>) {
    rows_text(
        t.rows@.subrange(lead_count(t) + header_count(t), t.rows@.len() as int),
        grid_columns(t) as int,
        head_rows(t, nest, lines).1,
        "  "@,
        default_padding(t),
        fixed_heights(t),
        nest, lines)
}

/// The non-repeating header block, when there are rows above the header.
pub open spec fn lead_block_text(t: Table, nest: spec_fn(Table) -> Seq<char>, lines: CellLines) -> Seq<char> {
    if lead_count(t) > 0 {
        "  table.header(repeat: false,\n"@ + lead_rows(t, nest, lines).0 + "  ),\n"@
    } else {
        seq![]
    }
}

/// The repeating header block, one level up when a non-repeating block
/// precedes it.
pub open spec fn head_block_text(t: Table, nest: spec_fn(Table) -> Seq<char>, lines: CellLines) -> Seq<char> {
    if header_count(t) > 0 {
        (if lead_count(t) > 0 {
            "  table.header(level: 2,\n"@
        } else {
            "  table.header(\n"@
        }) + head_rows(t, nest, lines).0 + "  ),\n"@
    } else {
        seq![]
    }
}

/// The `#table(..)` call of a table whose nested tables are written by
/// `nest`: the parameters, the rows printed once in a non-repeating header,
/// the repeating header rows, the body rows.
pub open spec fn inner_text(t: Table, nest: spec_fn(Table) -> Seq<char>, lines: CellLines) -> Seq<char> {
    table_params_text(t) + lead_block_text(t, nest, lines) + head_block_text(t, nest, lines) + body_rows(
        t,
        nest, lines).0 + ")\n"@
}

/// The default vertical alignment parameter.
pub open spec fn valign_param_text(t: Table) -> Seq<char> {
    match t.default_vertical_align {
        Some(va) => "  align: "@ + valign_text(va) + ",\n"@,
        None => seq![],
    }
}

/// The default inset parameter.
pub open spec fn inset_param_text(t: Table) -> Seq<char> {
    match t.default_cell_padding {
        Some(p) => "  inset: "@ + insets_text(p) + ",\n"@,
        None => seq![],
    }
}

/// The column tracks: the declared widths, else the column count when there
/// is more than one column.
pub open spec fn columns_param_text(t: Table) -> Seq<char> {
    let n = grid_columns(t) as int;
    if t.column_widths@.len() > 0 {
        "  columns: ("@ + widths_text(t.column_widths@) + "),\n"@
    } else if n > 1 {
        "  columns: "@ + nat_text(n as nat) + ",\n"@
    } else {
        seq![]
    }
}

/// The row tracks, when rows keep their declared heights and some row
/// declares one.
pub open spec fn rows_param_text(t: Table) -> Seq<char> {
    if !t.use_content_driven_row_heights && any_row_height(t.rows@) {
        "  rows: ("@ + tracks_text(t.rows@) + "),\n"@
    } else {
        seq![]
    }
}

/// The opening of a `#table(` call and its parameters: no default stroke,
/// the default vertical alignment and inset, the column and row tracks.
#[verifier::opaque]
pub open spec fn table_params_text(t: Table) -> Seq<char> {
    "#table(\n"@ + "  stroke: none,\n"@ + valign_param_text(t) + inset_param_text(t)
        + columns_param_text(t) + rows_param_text(t)
}

/// Rows written one after another; the row-span counters carry from row to
/// row. Returns the text and the counters after the last row.
#[verifier::opaque]
pub open spec fn rows_text(
    rows: Seq<TableRow>,
    n: int,
    rs: Seq<usize>,
    indent: Seq<char>,
    pad: Insets,
    fixed: bool,
    nest: spec_fn(Table) -> Seq<char>, lines: CellLines,
) -> (Seq<char>, Seq<usize>)
    decreases rows.len(),
{
    if rows.len() == 0 {
        (seq![], rs)
    } else {
        let prev = rows_text(rows.drop_last(), n, rs, indent, pad, fixed, nest, lines);
        let last = row_text(rows.last(), n, prev.1, indent, pad, fixed, nest, lines);
        (prev.0 + last.0, last.1)
    }
}

/// One row: its cells placed on the free columns, then an empty cell for
/// every free column left.
#[verifier::opaque]
pub open spec fn row_text(
    row: TableRow,
    n: int,
    rs: Seq<usize>,
    indent: Seq<char>,
    pad: Insets,
    fixed: bool,
    nest: spec_fn(Table) -> Seq<char>, lines: CellLines,
) -> (Seq<char>, Seq<usize>) {
    let rs1 = decrement_all(rs);
    let row_height = if fixed {
        row.height
    } else {
        None
    };
    let cells = cells_text(row.cells@, n, rs1, indent, pad, row_height, nest, lines, row_has_cjk(row));
    (cells.0 + fill_text(cells.1, cells.2, n, indent), cells.1)
}

/// The cells of a row placed left to right. A cell with a zero span is
/// skipped; a cell takes the first column no span covers and as many columns
/// as its span, cut at the grid's edge; once the grid is full the rest are
/// dropped. Returns the text, the counters and the next column.
#[verifier::opaque]
pub open spec fn cells_text(
    cells: Seq<TableCell>,
    n: int,
    rs: Seq<usize>,
    indent: Seq<char>,
    pad: Insets,
    row_height: Option<i64>,
    nest: spec_fn(Table) -> Seq<char>, lines: CellLines, ea: bool,
) -> (Seq<char>, Seq<usize>, int)
    decreases cells.len(),
{
    if cells.len() == 0 {
        (seq![], rs, 0)
    } else {
        let prev = cells_text(cells.drop_last(), n, rs, indent, pad, row_height, nest, lines, ea);
        let cell = cells.last();
        if cell.col_span == 0 || cell.row_span == 0 {
            prev
        } else {
            let col = next_free(prev.1, prev.2, n);
            if col >= n {
                (prev.0, prev.1, col)
            } else {
                let span = clamped_span(cell, col, n);
                let rs2 = if cell.row_span > 1 {
                    set_span(prev.1, col, span, cell.row_span)
                } else {
                    prev.1
                };
                (
                    prev.0 + cell_text(cell, span, indent, pad, row_height, nest, lines, ea),
                    rs2,
                    col + span,
                )
            }
        }
    }
}

/// One cell: its opening, decorations, content (clipped to one line when it
/// spills into empty neighbors), and its closing.
#[verifier::opaque]
pub open spec fn cell_text(
    cell: TableCell,
    span: int,
    indent: Seq<char>,
    pad: Insets,
    row_height: Option<i64>,
    nest: spec_fn(Table) -> Seq<char>, lines: CellLines, ea: bool,
) -> Seq<char> {
    cell_open_text(cell, span, indent, pad) + cell_decor_text(cell, pad, row_height) + (
    match cell.spill_width {
        Some(w) => "#place(left + horizon, box(width: "@ + pt_text(w as int)
            + ", height: 1.3em, clip: true)["@ + content_text(
            cell.content@,
            nest, lines, ea,
            cell_line(cell, pad, row_height)) + "])#box(width: 0pt, height: 1.3em)"@,
        None => content_text(cell.content@, nest, lines, ea, cell_line(cell, pad, row_height)),
    }) + "],\n"@
}

/// The blocks of a cell, separated by line breaks; `line` is the line the
/// cell's paragraphs fit in.
#[verifier::opaque]
pub open spec fn content_text(
    blocks: Seq<Block>,
    nest: spec_fn(Table) -> Seq<char>, lines: CellLines, ea: bool,
    line: Option<i128>,
) -> Seq<char>
    decreases blocks.len(),
{
    if blocks.len() == 0 {
        seq![]
    } else {
        content_text(blocks.drop_last(), nest, lines, ea, line) + (if blocks.len() > 1 {
            seq!['\n']
        } else {
            seq![]
        }) + block_text(blocks.last(), nest, lines, ea, line)
    }
}

/// One block of a cell: paragraphs with the line box of their cell (`ea`
/// when the cell's row holds East Asian text, `line` the line a spreadsheet
/// row pins), the space after left to a line grid that holds it; captions
/// likewise, after the marker their caption list queries; tables as `nest`
/// writes them; nothing for the rest.
#[verifier::opaque]
pub open spec fn block_text(b: Block, nest: spec_fn(Table) -> Seq<char>, lines: CellLines, ea: bool, line: Option<i128>) -> Seq<
    char,
> {
    match b {
        Block::Paragraph(p) => para_text(
            p,
            cell_line_settings(p.runs@, lines, ea, line),
            grid_absorbs(lines, ea),
        ),
        Block::Caption(c) => caption_marker_text(c) + para_text(
            c.paragraph,
            cell_line_settings(c.paragraph.runs@, lines, ea, line),
            grid_absorbs(lines, ea),
        ),
        Block::Table(t) => nest(t),
        _ => seq![],
    }
}


// ---------------------------------------------------------------------------
// East Asian text.
// ---------------------------------------------------------------------------

/// Whether some run of a paragraph holds an East Asian character.
pub open spec fn runs_have_cjk(runs: Seq<Run>) -> bool {
    exists|i: int| 0 <= i < runs.len() && has_cjk(#[trigger] runs[i].text@)
}

/// Whether a block carries East Asian text: a paragraph or caption with an
/// East Asian character in some run. Nested tables decide their own rows and
/// do not count.
pub open spec fn block_has_cjk(b: Block) -> bool {
    match b {
        Block::Paragraph(p) => runs_have_cjk(p.runs@),
        Block::Caption(c) => runs_have_cjk(c.paragraph.runs@),
        _ => false,
    }
}

/// Whether some block of some cell of a row carries East Asian text.
pub open spec fn row_has_cjk(row: TableRow) -> bool {
    exists|i: int, j: int|
        0 <= i < row.cells@.len() && 0 <= j < row.cells@[i].content@.len() && block_has_cjk(
            #[trigger] row.cells@[i].content@[j],
        )
}

/// Whether a text holds an East Asian character.
fn text_has_cjk(s: &str) -> (r: bool)
    ensures
        r == has_cjk(s@),
{
    let n: usize = s.unicode_len();
    let mut i: usize = 0;
    while i < n
        invariant
            n == s@.len(),
            i <= n,
            forall|k: int| 0 <= k < i ==> !is_cjk_like(#[trigger] s@[k]),
        decreases n - i,
    {
        if is_cjk_like(s.get_char(i)) {
            return true;
        }
        i = i + 1;
    }
    false
}

/// Whether some run holds an East Asian character.
fn runs_have_east_asian_text(runs: &Vec<Run>) -> (r: bool)
    ensures
        r == runs_have_cjk(runs@),
{
    let mut i: usize = 0;
    while i < runs.len()
        invariant
            i <= runs@.len(),
            forall|k: int| 0 <= k < i ==> !has_cjk(#[trigger] runs@[k].text@),
        decreases runs@.len() - i,
    {
        if text_has_cjk(runs[i].text.as_str()) {
            assert(has_cjk(runs@[i as int].text@));
            return true;
        }
        i = i + 1;
    }
    false
}

/// Whether a block carries East Asian text: a paragraph or a caption with
/// an East Asian character in some run.
pub fn block_has_east_asian_text(block: &Block) -> (r: bool)
    ensures
        r == block_has_cjk(*block),
{
    match block {
        Block::Paragraph(paragraph) => runs_have_east_asian_text(&paragraph.runs),
        Block::Caption(caption) => runs_have_east_asian_text(&caption.paragraph.runs),
        _ => false,
    }
}

/// Whether any cell in the row carries East Asian text. Nested tables are
/// excluded: they decide each of their own rows on their own content.
pub fn row_has_east_asian_text(row: &TableRow) -> (r: bool)
    ensures
        r == row_has_cjk(*row),
{
    let mut i: usize = 0;
    while i < row.cells.len()
        invariant
            i <= row.cells@.len(),
            forall|a: int, b: int|
                0 <= a < i && 0 <= b < row.cells@[a].content@.len() ==> !block_has_cjk(
                    #[trigger] row.cells@[a].content@[b],
                ),
        decreases row.cells@.len() - i,
    {
        let cell = &row.cells[i];
        let mut j: usize = 0;
        while j < cell.content.len()
            invariant
                i < row.cells@.len(),
                *cell == row.cells@[i as int],
                j <= cell.content@.len(),
                forall|a: int, b: int|
                    0 <= a < i && 0 <= b < row.cells@[a].content@.len() ==> !block_has_cjk(
                        #[trigger] row.cells@[a].content@[b],
                    ),
                forall|b: int| 0 <= b < j ==> !block_has_cjk(#[trigger] cell.content@[b]),
            decreases cell.content@.len() - j,
        {
            if block_has_east_asian_text(&cell.content[j]) {
                return true;
            }
            j = j + 1;
        }
        i = i + 1;
    }
    false
}

// ---------------------------------------------------------------------------
// Cell paragraphs.
// ---------------------------------------------------------------------------

/// Whether a cell paragraph needs a block of its own: an exact line spacing,
/// a line box of its own, justified text, or right-to-left text.
pub fn cell_paragraph_needs_block_wrapper(style: &ParagraphStyle) -> (r: bool)
    ensures
        r == needs_block_wrapper(*style),
{
    style.line_spacing.is_some() || style.line_box.is_some() || matches!(style.alignment, Some(Alignment::Justify))
        || matches!(style.direction, Some(TextDirection::Rtl))
}

/// Appends the parameters of a cell paragraph's block: full width when the
/// paragraph is aligned.
pub fn write_cell_paragraph_block_params(out: &mut String, needs_full_width: bool)
    ensures
        final(out)@ == old(out)@ + if needs_full_width {
            "width: 100%"@
        } else {
            seq![]
        },
{
    let mut first = true;
    if needs_full_width {
        crate::typst_text::write_param(out, &mut first, "width: 100%");
    }
    assert(out@ =~= old(out)@ + if needs_full_width {
        "width: 100%"@
    } else {
        seq![]
    });
}

/// Appends the settings of a fixed line box.
pub fn write_line_box(out: &mut String, lb: &LineBox)
    ensures
        final(out)@ == old(out)@ + line_box_text(*lb),
{
    out.append("  #set par(leading: 0pt)\n  #set text(top-edge: ");
    push_pt(out, lb.above as i128);
    out.append(", bottom-edge: ");
    push_pt(out, -(lb.below as i128));
    out.append(")\n");
    assert(out@ =~= old(out)@ + line_box_text(*lb));
}

/// Appends the paragraph settings of a wrapped cell paragraph.
pub fn write_par_settings(out: &mut String, style: &ParagraphStyle)
    ensures
        final(out)@ == old(out)@ + par_settings_text(*style),
{
    if let Some(lb) = style.line_box {
        write_line_box(out, &lb);
    }
    if let Some(l) = style.line_spacing {
        out.append("  #set par(leading: ");
        push_pt(out, l as i128);
        out.append(")\n");
    }
    if matches!(style.alignment, Some(Alignment::Justify)) {
        out.append("  #set par(justify: true)\n");
    }
    if matches!(style.direction, Some(TextDirection::Rtl)) {
        out.append("  #set text(dir: rtl)\n");
    }
    assert(out@ =~= old(out)@ + par_settings_text(*style));
}

/// The Typst name of a paragraph alignment.
pub(crate) fn align_str_of(a: Option<Alignment>) -> (r: Option<&'static str>)
    ensures
        r matches Some(s) ==> align_name(a) == Some(s@),
        r is None ==> align_name(a) is None,
{
    match a {
        Some(Alignment::Left) => Some("left"),
        Some(Alignment::Center) => Some("center"),
        Some(Alignment::Right) => Some("right"),
        _ => None,
    }
}

/// The view of an optional text.
pub open spec fn opt_view(o: Option<&str>) -> Option<Seq<char>> {
    match o {
        Some(x) => Some(x@),
        None => None,
    }
}

/// Appends the opening of a wrapped cell paragraph's block.
fn write_paragraph_open(
    out: &mut String,
    style: &ParagraphStyle,
    align_str: Option<&str>,
    line_box: Option<&str>,
)
    requires
        align_str matches Some(a) ==> align_name(style.alignment) == Some(a@),
        align_str is None ==> align_name(style.alignment) is None,
    ensures
        final(out)@ == old(out)@ + para_open_text(*style, opt_view(line_box)),
{
    let has_block_wrapper: bool = cell_paragraph_needs_block_wrapper(style) || align_str.is_some()
        || line_box.is_some();
    if has_block_wrapper {
        out.append("#block(");
        write_cell_paragraph_block_params(out, align_str.is_some());
        out.append(")[\n");
        write_par_settings(out, style);
        if let Some(a) = align_str {
            out.append("  #set align(");
            out.append(a);
            out.append(")\n");
        }
        if let Some(lb) = line_box {
            out.append(lb);
        }
    }
    assert(out@ =~= old(out)@ + para_open_text(*style, opt_view(line_box)));
}

/// Appends `#v(..)` for an explicit length, before (`before`) or after a
/// paragraph.
fn write_paragraph_space(out: &mut String, style: &ParagraphStyle, before: bool)
    ensures
        final(out)@ == old(out)@ + if before {
            space_before_text(*style)
        } else {
            space_after_text(*style)
        },
{
    if before {
        if let Some(space_before) = style.space_before {
            out.append("#v(");
            push_pt(out, space_before as i128);
            out.append(")\n");
        }
    } else {
        if let Some(space_after) = style.space_after {
            out.append("\n#v(");
            push_pt(out, space_after as i128);
            out.append(")");
        }
    }
    assert(out@ =~= old(out)@ + if before {
        space_before_text(*style)
    } else {
        space_after_text(*style)
    });
}

/// Appends a paragraph inside a table cell: a block when it needs its own
/// settings, is aligned or has its line box set (the settings written inside
/// it), the space before it, its runs, and the space after it unless a
/// snapping line grid already holds that space.
pub fn generate_cell_paragraph(
    out: &mut String,
    para: &Paragraph,
    line_box: Option<&str>,
    grid_absorbs_space_after: bool,
)
    ensures
        final(out)@ == old(out)@ + para_text(*para, opt_view(line_box), grid_absorbs_space_after),
{
    let style: &ParagraphStyle = &para.style;
    let align_str: Option<&str> = align_str_of(style.alignment);
    let has_block_wrapper: bool = cell_paragraph_needs_block_wrapper(style) || align_str.is_some()
        || line_box.is_some();
    write_paragraph_open(out, style, align_str, line_box);
    write_paragraph_space(out, style, true);
    generate_runs(out, para.runs.as_slice());
    if !grid_absorbs_space_after {
        write_paragraph_space(out, style, false);
    }
    if has_block_wrapper {
        out.append("\n]");
    }
    assert(out@ =~= old(out)@ + para_text(*para, opt_view(line_box), grid_absorbs_space_after));
}

/// The largest font size some run declares, or zero.
fn runs_max_font_size(runs: &Vec<Run>) -> (m: i64)
    ensures
        m as int == max_font_size(runs@),
{
    let mut m: i64 = 0;
    let mut i: usize = 0;
    while i < runs.len()
        invariant
            i <= runs@.len(),
            m as int == max_font_size(runs@.take(i as int)),
        decreases runs@.len() - i,
    {
        assert(runs@.take(i + 1).drop_last() =~= runs@.take(i as int));
        if let Some(f) = runs[i].style.font_size {
            if f > m {
                m = f;
            }
        }
        i = i + 1;
    }
    assert(runs@.take(runs@.len() as int) =~= runs@);
    m
}

/// Whether a cell's line is short enough for the line box arithmetic:
/// below 2^100 ten-thousandths of a point (a line from an `i64` row height
/// and padding always is).
pub open spec fn line_fits(line: Option<i128>) -> bool {
    line matches Some(l) ==> l < 0x10_0000_0000_0000_0000_0000_0000
}

/// The line box of a spreadsheet cell paragraph whose line has to fit in
/// `sheet_row_line_pt`: no leading, and text edges that add up to that line
/// in the paragraph's font size. None when there is no such line.
pub fn sheet_cell_line_box_settings(runs: &Vec<Run>, sheet_row_line_pt: Option<i128>) -> (r:
    Option<String>)
    requires
        line_fits(sheet_row_line_pt),
    ensures
        r matches Some(x) ==> sheet_line_box_text(runs@, sheet_row_line_pt) == Some(x@),
        r is None ==> sheet_line_box_text(runs@, sheet_row_line_pt) is None,
{
    match sheet_row_line_pt {
        Some(l) => {
            if l <= 0 {
                return None;
            }
            let m: i64 = runs_max_font_size(runs);
            let size: i128 = if m > 0 {
                m as i128
            } else {
                DEFAULT_FONT_SIZE as i128
            };
            assert(size as int == line_font_size(runs@));
            assert(l * 10000 <= 0x10_0000_0000_0000_0000_0000_0000 * 10000) by (nonlinear_arith)
                requires
                    0 < l < 0x10_0000_0000_0000_0000_0000_0000,
            ;
            let total: i128 = l * 10000 / size;
            assert(0 <= total <= l * 10000) by (nonlinear_arith)
                requires
                    l > 0,
                    size >= 1,
                    total as int == (l as int) * 10000 / (size as int),
            ;
            let top: i128 = total * 4 / 5;
            let mut x = String::new();
            x.append("  #set par(leading: 0pt)\n  #set text(top-edge: ");
            push_decimal(&mut x, top);
            x.append("em, bottom-edge: -");
            push_decimal(&mut x, total - top);
            x.append("em)\n");
            assert(x@ =~= sheet_line_box_text(runs@, sheet_row_line_pt).unwrap());
            Some(x)
        },
        None => None,
    }
}

/// The line box settings of a cell paragraph in the context it is written
/// in: the spreadsheet row's pin, else the line box of its row's kind.
fn cell_line_box_settings(runs: &Vec<Run>, ctx: &GenCtx) -> (r: Option<String>)
    requires
        line_fits(ctx.sheet_row_line_pt),
    ensures
        r matches Some(x) ==> cell_line_settings(
            runs@,
            ctx.cell_lines,
            ctx.row_has_east_asian_text,
            ctx.sheet_row_line_pt,
        ) == Some(x@),
        r is None ==> cell_line_settings(
            runs@,
            ctx.cell_lines,
            ctx.row_has_east_asian_text,
            ctx.sheet_row_line_pt,
        ) is None,
{
    let sheet: Option<String> = sheet_cell_line_box_settings(runs, ctx.sheet_row_line_pt);
    if sheet.is_some() {
        return sheet;
    }
    let lb: Option<LineBox> = if ctx.row_has_east_asian_text {
        ctx.cell_lines.east_asian
    } else {
        ctx.cell_lines.plain
    };
    match lb {
        Some(b) => {
            let mut x = String::new();
            write_line_box(&mut x, &b);
            Some(x)
        },
        None => None,
    }
}

// ---------------------------------------------------------------------------
// Table parameters.
// ---------------------------------------------------------------------------

/// The largest number of cells in any row.
fn max_row_cells(rows: &Vec<TableRow>) -> (m: usize)
    ensures
        m as nat == max_cells(rows@),
{
    let mut m: usize = 0;
    let mut i: usize = 0;
    while i < rows.len()
        invariant
            i <= rows@.len(),
            m as nat == max_cells(rows@.take(i as int)),
        decreases rows@.len() - i,
    {
        assert(rows@.take(i + 1).drop_last() =~= rows@.take(i as int));
        let c: usize = rows[i].cells.len();
        if c > m {
            m = c;
        }
        i = i + 1;
    }
    assert(rows@.take(rows@.len() as int) =~= rows@);
    m
}

/// Whether some row declares its height.
fn some_row_has_height(rows: &Vec<TableRow>) -> (r: bool)
    ensures
        r == any_row_height(rows@),
{
    let mut i: usize = 0;
    while i < rows.len()
        invariant
            i <= rows@.len(),
            forall|k: int| 0 <= k < i ==> (#[trigger] rows@[k]).height is None,
        decreases rows@.len() - i,
    {
        if rows[i].height.is_some() {
            assert(rows@[i as int].height is Some);
            return true;
        }
        i = i + 1;
    }
    false
}

/// Appends the column widths, comma separated.
fn write_column_widths(out: &mut String, widths: &Vec<i64>)
    ensures
        final(out)@ == old(out)@ + widths_text(widths@),
{
    let mut i: usize = 0;
    while i < widths.len()
        invariant
            i <= widths@.len(),
            out@ == old(out)@ + widths_text(widths@.take(i as int)),
        decreases widths@.len() - i,
    {
        assert(widths@.take(i + 1).drop_last() =~= widths@.take(i as int));
        if i > 0 {
            out.append(", ");
        }
        push_pt(out, widths[i] as i128);
        i = i + 1;
        assert(out@ =~= old(out)@ + widths_text(widths@.take(i as int)));
    }
    assert(widths@.take(widths@.len() as int) =~= widths@);
}

/// Appends the row tracks, comma separated.
fn write_row_tracks(out: &mut String, rows: &Vec<TableRow>)
    ensures
        final(out)@ == old(out)@ + tracks_text(rows@),
{
    let mut i: usize = 0;
    while i < rows.len()
        invariant
            i <= rows@.len(),
            out@ == old(out)@ + tracks_text(rows@.take(i as int)),
        decreases rows@.len() - i,
    {
        assert(rows@.take(i + 1).drop_last() =~= rows@.take(i as int));
        if i > 0 {
            out.append(", ");
        }
        match rows[i].height {
            Some(height) => push_pt(out, height as i128),
            None => out.append("auto"),
        }
        i = i + 1;
        assert(out@ =~= old(out)@ + tracks_text(rows@.take(i as int)));
    }
    assert(rows@.take(rows@.len() as int) =~= rows@);
}

/// Appends the default vertical alignment and inset parameters.
fn write_default_cell_params(out: &mut String, table: &Table)
    ensures
        final(out)@ == old(out)@ + valign_param_text(*table) + inset_param_text(*table),
{
    if let Some(default_vertical_align) = &table.default_vertical_align {
        out.append("  align: ");
        out.append(valign_str(default_vertical_align));
        out.append(",\n");
    }
    let ghost s1 = out@;
    assert(s1 =~= old(out)@ + valign_param_text(*table));
    if let Some(padding) = &table.default_cell_padding {
        out.append("  inset: ");
        push_insets(out, padding);
        out.append(",\n");
    }
    assert(out@ =~= s1 + inset_param_text(*table));
}

/// Appends the column tracks.
fn write_columns_param(out: &mut String, table: &Table, num_cols: usize)
    requires
        num_cols as nat == grid_columns(*table),
    ensures
        final(out)@ == old(out)@ + columns_param_text(*table),
{
    if table.column_widths.len() > 0 {
        out.append("  columns: (");
        write_column_widths(out, &table.column_widths);
        out.append("),\n");
    } else if num_cols > 1 {
        out.append("  columns: ");
        push_nat(out, num_cols as u128);
        out.append(",\n");
    }
    assert(out@ =~= old(out)@ + columns_param_text(*table));
}

/// Appends the row tracks.
fn write_rows_param(out: &mut String, table: &Table)
    ensures
        final(out)@ == old(out)@ + rows_param_text(*table),
{
    if !table.use_content_driven_row_heights && some_row_has_height(&table.rows) {
        out.append("  rows: (");
        write_row_tracks(out, &table.rows);
        out.append("),\n");
    }
    assert(out@ =~= old(out)@ + rows_param_text(*table));
}

/// Appends the opening of a `#table(` call and its parameters.
fn write_table_params(out: &mut String, table: &Table, num_cols: usize)
    requires
        num_cols as nat == grid_columns(*table),
    ensures
        final(out)@ == old(out)@ + table_params_text(*table),
{
    out.append("#table(\n");
    // Only explicitly set borders render: Typst's default grid would paint
    // borders on every unbordered table.
    out.append("  stroke: none,\n");
    write_default_cell_params(out, table);
    write_columns_param(out, table, num_cols);
    write_rows_param(out, table);
    reveal(table_params_text);
    assert(out@ =~= old(out)@ + table_params_text(*table));
}

/// `n` zeros.
fn zeros(n: usize) -> (v: Vec<usize>)
    ensures
        v@ == zero_counters(n as nat),
{
    let mut v: Vec<usize> = Vec::new();
    let mut i: usize = 0;
    while i < n
        invariant
            i <= n,
            v@ == Seq::new(i as nat, |k: int| 0usize),
        decreases n - i,
    {
        v.push(0);
        i = i + 1;
        assert(v@ =~= Seq::new(i as nat, |k: int| 0usize));
    }
    assert(v@ =~= zero_counters(n as nat));
    v
}

// ---------------------------------------------------------------------------
// Cell decorations.
// ---------------------------------------------------------------------------

/// Appends a data bar behind a cell's value.
fn write_data_bar(out: &mut String, db: &DataBar, row_height: Option<i64>)
    ensures
        final(out)@ == old(out)@ + data_bar_text(*db, row_height),
{
    let pct: i64 = if db.fill_pct < 0 {
        0
    } else if db.fill_pct > 1000000 {
        1000000
    } else {
        db.fill_pct
    };
    out.append("#place(left + horizon, box(width: ");
    push_decimal(out, pct as i128);
    out.append("%, height: ");
    match row_height {
        Some(height) => {
            let inset_height: i128 = height as i128 - 40000;
            push_pt(out, if inset_height > 10000 { inset_height } else { 10000 });
        },
        None => {
            out.append("1.2em - ");
            push_pt(out, 40000);
        },
    }
    out.append(", fill: gradient.linear(");
    push_rgb(out, &db.color);
    out.append(", ");
    push_rgb(out, &db.color);
    out.append(".lighten(70%))))");
    assert(out@ =~= old(out)@ + data_bar_text(*db, row_height));
}

/// Appends an icon at the cell's left edge: its shape, else its character.
fn write_icon(out: &mut String, icon: &IconGlyph, icon_color: Option<Color>)
    ensures
        final(out)@ == old(out)@ + icon_text(*icon, icon_color),
{
    match (icon_shape(icon, icon_color), icon_color) {
        (Some(polygon), _) => {
            out.append("#place(left + horizon, ");
            out.append(polygon.as_str());
            out.append(")");
        },
        (None, Some(color)) => {
            out.append("#place(left + horizon, text(fill: ");
            push_rgb(out, &color);
            out.append(", weight: \"bold\")[");
            if let IconGlyph::Text(t) = icon {
                out.append(t.as_str());
            }
            out.append("])");
        },
        (None, None) => {
            out.append("#place(left + horizon, text(weight: \"bold\")[");
            if let IconGlyph::Text(t) = icon {
                out.append(t.as_str());
            }
            out.append("])");
        },
    }
    assert(out@ =~= old(out)@ + icon_text(*icon, icon_color));
}

/// Appends the opening of a cell: `table.cell(params)[` or `[`.
fn write_cell_open(out: &mut String, cell: &TableCell, clamped_colspan: u32, indent: &str, default_cell_padding: Insets)
    ensures
        final(out)@ == old(out)@ + cell_open_text(*cell, clamped_colspan as int, indent@, default_cell_padding),
{
    let needs_cell_fn: bool = clamped_colspan > 1 || cell.row_span > 1 || cell.border.is_some()
        || cell.background.is_some() || cell.vertical_align.is_some() || cell.padding.is_some();
    if needs_cell_fn {
        out.append(indent);
        out.append("table.cell(");
        write_cell_params(out, cell, clamped_colspan, default_cell_padding);
        out.append(")[");
    } else {
        out.append(indent);
        crate::typst_text::push_char(out, '[');
        proof {
            reveal_strlit("[");
        }
    }
    assert(out@ =~= old(out)@ + cell_open_text(*cell, clamped_colspan as int, indent@, default_cell_padding));
}

/// Appends a cell's decorations: double borders, data bar, icon.
fn write_cell_decor(out: &mut String, cell: &TableCell, default_cell_padding: Insets, row_height: Option<i64>)
    ensures
        final(out)@ == old(out)@ + cell_decor_text(*cell, default_cell_padding, row_height),
{
    if let Some(border) = &cell.border {
        let padding: Insets = match cell.padding {
            Some(p) => p,
            None => default_cell_padding,
        };
        write_double_border_overlays(out, border, padding);
    }
    if let Some(db) = &cell.data_bar {
        write_data_bar(out, db, row_height);
    }
    if let Some(icon) = &cell.icon_text {
        write_icon(out, icon, cell.icon_color);
    }
    assert(out@ =~= old(out)@ + cell_decor_text(*cell, default_cell_padding, row_height));
}


// ---------------------------------------------------------------------------
// Facts about cell placement.
// ---------------------------------------------------------------------------

/// The first free column from `col` lies between `col` and the grid's edge,
/// and no span covers it.
pub proof fn lemma_next_free(rs: Seq<usize>, col: int, n: int)
    ensures
        col <= next_free(rs, col, n),
        col <= n ==> next_free(rs, col, n) <= n,
        next_free(rs, col, n) < n ==> rs[next_free(rs, col, n)] == 0,
        forall|i: int| col <= i < next_free(rs, col, n) ==> rs[i] > 0,
    decreases n - col,
{
    if col < n && rs[col] > 0 {
        lemma_next_free(rs, col + 1, n);
    }
}

/// Once the grid is full, the remaining cells of a row change nothing.
pub proof fn lemma_cells_stuck(
    cells: Seq<TableCell>,
    k: int,
    n: int,
    rs: Seq<usize>,
    indent: Seq<char>,
    pad: Insets,
    row_height: Option<i64>,
    nest: spec_fn(Table) -> Seq<char>, lines: CellLines, ea: bool,
)
    requires
        0 <= k <= cells.len(),
        cells_text(cells.take(k), n, rs, indent, pad, row_height, nest, lines, ea).2 >= n,
    ensures
        cells_text(cells, n, rs, indent, pad, row_height, nest, lines, ea) == cells_text(
            cells.take(k),
            n,
            rs,
            indent,
            pad,
            row_height,
            nest, lines, ea),
    decreases cells.len() - k,
{
    reveal(cells_text);
    if k < cells.len() {
        assert(cells.drop_last().take(k) =~= cells.take(k));
        lemma_cells_stuck(cells.drop_last(), k, n, rs, indent, pad, row_height, nest, lines, ea);
    } else {
        assert(cells.take(k) =~= cells);
    }
}

/// One more cell of a row: what `cells_text` does with the last cell.
pub proof fn lemma_cells_step(
    cells: Seq<TableCell>,
    n: int,
    rs: Seq<usize>,
    indent: Seq<char>,
    pad: Insets,
    row_height: Option<i64>,
    nest: spec_fn(Table) -> Seq<char>, lines: CellLines, ea: bool,
)
    requires
        cells.len() > 0,
    ensures
        cells_text(cells, n, rs, indent, pad, row_height, nest, lines, ea) == ({
            let prev = cells_text(cells.drop_last(), n, rs, indent, pad, row_height, nest, lines, ea);
            let cell = cells.last();
            if cell.col_span == 0 || cell.row_span == 0 {
                prev
            } else {
                let col = next_free(prev.1, prev.2, n);
                if col >= n {
                    (prev.0, prev.1, col)
                } else {
                    let span = clamped_span(cell, col, n);
                    let rs2 = if cell.row_span > 1 {
                        set_span(prev.1, col, span, cell.row_span)
                    } else {
                        prev.1
                    };
                    (prev.0 + cell_text(cell, span, indent, pad, row_height, nest, lines, ea), rs2, col + span)
                }
            }
        }),
{
    reveal(cells_text);
}

// ---------------------------------------------------------------------------
// Generation.
// ---------------------------------------------------------------------------

/// Appends a table: its `#table(..)` call, wrapped in `#align(..)` when the
/// table is centered or right-aligned. Nested tables inside its cells are
/// written one level deeper; the context is left as it was found.
pub fn generate_table(out: &mut String, table: &Table, ctx: &mut GenCtx)
    requires
        old(ctx).table_depth < usize::MAX,
    ensures
        final(out)@ == old(out)@ + table_text(*table, old(ctx).table_depth as int, old(ctx).cell_lines),
        *final(ctx) == *old(ctx),
    decreases fuel(old(ctx).table_depth as int), 8nat,
{
    let ghost d = old(ctx).table_depth as int;
    ctx.table_depth = ctx.table_depth + 1;
    match table.alignment {
        Some(Alignment::Center) => {
            out.append("#align(center)[\n");
            generate_table_inner(out, table, ctx);
            out.append("]\n");
        },
        Some(Alignment::Right) => {
            out.append("#align(right)[\n");
            generate_table_inner(out, table, ctx);
            out.append("]\n");
        },
        _ => generate_table_inner(out, table, ctx),
    }
    ctx.table_depth = ctx.table_depth - 1;
    assert(out@ =~= old(out)@ + table_text(*table, d, old(ctx).cell_lines));
}

/// The row groups of a table, as the generator computes them.
proof fn lemma_row_groups(
    t: Table,
    nest: spec_fn(Table) -> Seq<char>, lines: CellLines,
    n: int,
    pad: Insets,
    fixed: bool,
)
    requires
        n == grid_columns(t) as int,
        pad == default_padding(t),
        fixed == fixed_heights(t),
    ensures
        lead_rows(t, nest, lines) == rows_text(
            t.rows@.subrange(0, lead_count(t)),
            n,
            zero_counters(n as nat),
            "    "@,
            pad,
            fixed,
            nest, lines),
        head_rows(t, nest, lines) == rows_text(
            t.rows@.subrange(lead_count(t), lead_count(t) + header_count(t)),
            n,
            lead_rows(t, nest, lines).1,
            "    "@,
            pad,
            fixed,
            nest, lines),
        body_rows(t, nest, lines) == rows_text(
            t.rows@.subrange(lead_count(t) + header_count(t), t.rows@.len() as int),
            n,
            head_rows(t, nest, lines).1,
            "  "@,
            pad,
            fixed,
            nest, lines),
{
    reveal(lead_rows);
    reveal(head_rows);
    reveal(body_rows);
}

/// Rows of an empty group write nothing and leave the counters as they were.
proof fn lemma_no_rows(
    rows: Seq<TableRow>,
    n: int,
    rs: Seq<usize>,
    indent: Seq<char>,
    pad: Insets,
    fixed: bool,
    nest: spec_fn(Table) -> Seq<char>, lines: CellLines,
)
    requires
        rows.len() == 0,
    ensures
        rows_text(rows, n, rs, indent, pad, fixed, nest, lines) == (Seq::<char>::empty(), rs),
{
    reveal(rows_text);
}

/// Appends a table's `#table(..)` call: its parameters, the rows printed
/// once at the top in a non-repeating header, the repeating header rows, and
/// the body rows.
#[verifier::rlimit(80)]
pub fn generate_table_inner(out: &mut String, table: &Table, ctx: &mut GenCtx)
    ensures
        final(out)@ == old(out)@ + inner_text(*table, nested_at(old(ctx).table_depth as int, old(ctx).cell_lines), old(ctx).cell_lines),
        *final(ctx) == *old(ctx),
    decreases fuel(old(ctx).table_depth as int - 1), 7nat,
{
    let ghost nest = nested_at(ctx.table_depth as int, old(ctx).cell_lines);
    let num_cols: usize = if table.column_widths.len() > 0 {
        table.column_widths.len()
    } else {
        max_row_cells(&table.rows)
    };
    write_table_params(out, table, num_cols);
    let ghost params_end = out@;

    let mut rowspan_remaining: Vec<usize> = zeros(num_cols);
    let nrows: usize = table.rows.len();
    let header_row_count: usize = if table.header_row_count < nrows {
        table.header_row_count
    } else {
        nrows
    };
    let default_cell_padding: Insets = match table.default_cell_padding {
        Some(p) => p,
        None => Insets { top: 50000, right: 50000, bottom: 50000, left: 50000 },
    };
    let fixed_row_heights: bool = !table.use_content_driven_row_heights;

    // Rows above a print-title range belong to the header block but print
    // only once, so they go in a `repeat: false` header; the repeating title
    // rows then need a higher level to keep repeating alongside it.
    let rest: usize = nrows - header_row_count;
    let lead_row_count: usize = if table.non_repeating_header_row_count < rest {
        table.non_repeating_header_row_count
    } else {
        rest
    };
    assert(header_row_count as int == header_count(*table));
    assert(lead_row_count as int == lead_count(*table));
    assert(num_cols as int == grid_columns(*table) as int);
    assert(default_cell_padding == default_padding(*table));
    assert(fixed_row_heights == fixed_heights(*table));
    proof {
        lemma_row_groups(*table, nest, old(ctx).cell_lines, num_cols as int, default_cell_padding, fixed_row_heights);
    }
    let all_rows: &[TableRow] = table.rows.as_slice();
    let lead_slice: &[TableRow] = vstd::slice::slice_subrange(all_rows, 0, lead_row_count);
    let head_slice: &[TableRow] = vstd::slice::slice_subrange(
        all_rows,
        lead_row_count,
        lead_row_count + header_row_count,
    );
    let body_slice: &[TableRow] = vstd::slice::slice_subrange(
        all_rows,
        lead_row_count + header_row_count,
        nrows,
    );
    if lead_row_count > 0 {
        out.append("  table.header(repeat: false,\n");
        generate_table_rows(
            out,
            lead_slice,
            num_cols,
            &mut rowspan_remaining,
            "    ",
            default_cell_padding,
            fixed_row_heights,
            ctx,
        );
        out.append("  ),\n");
    }
    proof {
        if lead_row_count == 0 {
            lemma_no_rows(lead_slice@, num_cols as int, zero_counters(num_cols as nat), "    "@, default_cell_padding, fixed_row_heights, nest, old(ctx).cell_lines);
        }
    }
    assert(out@ =~= params_end + lead_block_text(*table, nest, old(ctx).cell_lines));
    let ghost lead_end = out@;
    if header_row_count > 0 {
        if lead_row_count > 0 {
            out.append("  table.header(level: 2,\n");
        } else {
            out.append("  table.header(\n");
        }
        generate_table_rows(
            out,
            head_slice,
            num_cols,
            &mut rowspan_remaining,
            "    ",
            default_cell_padding,
            fixed_row_heights,
            ctx,
        );
        out.append("  ),\n");
    }
    proof {
        if header_row_count == 0 {
            lemma_no_rows(head_slice@, num_cols as int, lead_rows(*table, nest, old(ctx).cell_lines).1, "    "@, default_cell_padding, fixed_row_heights, nest, old(ctx).cell_lines);
        }
    }
    assert(out@ =~= lead_end + head_block_text(*table, nest, old(ctx).cell_lines));
    let ghost head_end = out@;
    generate_table_rows(
        out,
        body_slice,
        num_cols,
        &mut rowspan_remaining,
        "  ",
        default_cell_padding,
        fixed_row_heights,
        ctx,
    );
    assert(out@ == head_end + body_rows(*table, nest, old(ctx).cell_lines).0);
    out.append(")\n");
    assert(out@ =~= old(out)@ + inner_text(*table, nest, old(ctx).cell_lines));
}

/// Appends rows one after another, carrying the row-span counters from row to
/// row. The counters may be longer than the grid is wide: every counter
/// drops by one per row, and only the first `num_cols` are read or set. A
/// nested table decides its own rows, so the enclosing row's East Asian flag
/// is restored at the end.
pub fn generate_table_rows(
    out: &mut String,
    rows: &[TableRow],
    num_cols: usize,
    rowspan_remaining: &mut Vec<usize>,
    indent: &str,
    default_cell_padding: Insets,
    fixed_row_heights: bool,
    ctx: &mut GenCtx,
)
    requires
        old(rowspan_remaining)@.len() >= num_cols,
    ensures
        final(out)@ == old(out)@ + rows_text(
            rows@,
            num_cols as int,
            old(rowspan_remaining)@,
            indent@,
            default_cell_padding,
            fixed_row_heights,
            nested_at(old(ctx).table_depth as int, old(ctx).cell_lines), old(ctx).cell_lines).0,
        final(rowspan_remaining)@ == rows_text(
            rows@,
            num_cols as int,
            old(rowspan_remaining)@,
            indent@,
            default_cell_padding,
            fixed_row_heights,
            nested_at(old(ctx).table_depth as int, old(ctx).cell_lines), old(ctx).cell_lines).1,
        final(rowspan_remaining)@.len() == old(rowspan_remaining)@.len(),
        *final(ctx) == *old(ctx),
    decreases fuel(old(ctx).table_depth as int - 1), 6nat,
{
    let enclosing_row_has_east_asian_text: bool = ctx.row_has_east_asian_text;
    let ghost e = ctx.table_depth as int;
    proof {
        assert(rows@.take(0) =~= Seq::<TableRow>::empty());
    assert(rows_text(rows@.take(0), num_cols as int, old(rowspan_remaining)@, indent@, default_cell_padding, fixed_row_heights, nested_at(e, old(ctx).cell_lines), old(ctx).cell_lines) == (Seq::<char>::empty(), old(rowspan_remaining)@)) by {
        reveal(rows_text);
    }
    }
    let mut i: usize = 0;
    while i < rows.len()
        invariant
            i <= rows@.len(),
            ctx.table_depth == old(ctx).table_depth,
            ctx.sheet_row_line_pt == old(ctx).sheet_row_line_pt,
            ctx.cell_lines == old(ctx).cell_lines,
            e == old(ctx).table_depth as int,
            rowspan_remaining@.len() == old(rowspan_remaining)@.len(),
            old(rowspan_remaining)@.len() >= num_cols,
            out@ == old(out)@ + rows_text(rows@.take(i as int), num_cols as int, old(rowspan_remaining)@, indent@, default_cell_padding, fixed_row_heights, nested_at(e, old(ctx).cell_lines), old(ctx).cell_lines).0,
            rowspan_remaining@ == rows_text(rows@.take(i as int), num_cols as int, old(rowspan_remaining)@, indent@, default_cell_padding, fixed_row_heights, nested_at(e, old(ctx).cell_lines), old(ctx).cell_lines).1,
        decreases rows@.len() - i,
    {
        assert(rows@.take(i + 1).drop_last() =~= rows@.take(i as int));
        let ghost prev = rows_text(rows@.take(i as int), num_cols as int, old(rowspan_remaining)@, indent@, default_cell_padding, fixed_row_heights, nested_at(e, old(ctx).cell_lines), old(ctx).cell_lines);
        assert(rows_text(rows@.take(i + 1), num_cols as int, old(rowspan_remaining)@, indent@, default_cell_padding, fixed_row_heights, nested_at(e, old(ctx).cell_lines), old(ctx).cell_lines) == ({
            let last = row_text(rows@[i as int], num_cols as int, prev.1, indent@, default_cell_padding, fixed_row_heights, nested_at(e, old(ctx).cell_lines), old(ctx).cell_lines);
            (prev.0 + last.0, last.1)
        })) by {
            reveal(rows_text);
        }
        generate_table_row(
            out,
            &rows[i],
            num_cols,
            rowspan_remaining,
            indent,
            default_cell_padding,
            fixed_row_heights,
            ctx,
        );
        i = i + 1;
    }
    assert(rows@.take(rows@.len() as int) =~= rows@);
    ctx.row_has_east_asian_text = enclosing_row_has_east_asian_text;
}

/// Appends one row: every positive row-span counter drops by one, each cell
/// goes on the first column no span covers, and an empty cell fills every
/// free column left. Word sizes a row's lines from the whole row, so the
/// row's East Asian flag is set for all of its cells.
fn generate_table_row(
    out: &mut String,
    row: &TableRow,
    num_cols: usize,
    rowspan_remaining: &mut Vec<usize>,
    indent: &str,
    default_cell_padding: Insets,
    fixed_row_heights: bool,
    ctx: &mut GenCtx,
)
    requires
        old(rowspan_remaining)@.len() >= num_cols,
    ensures
        final(out)@ == old(out)@ + row_text(
            *row,
            num_cols as int,
            old(rowspan_remaining)@,
            indent@,
            default_cell_padding,
            fixed_row_heights,
            nested_at(old(ctx).table_depth as int, old(ctx).cell_lines), old(ctx).cell_lines).0,
        final(rowspan_remaining)@ == row_text(
            *row,
            num_cols as int,
            old(rowspan_remaining)@,
            indent@,
            default_cell_padding,
            fixed_row_heights,
            nested_at(old(ctx).table_depth as int, old(ctx).cell_lines), old(ctx).cell_lines).1,
        final(rowspan_remaining)@.len() == old(rowspan_remaining)@.len(),
        final(ctx).table_depth == old(ctx).table_depth,
        final(ctx).sheet_row_line_pt == old(ctx).sheet_row_line_pt,
        final(ctx).cell_lines == old(ctx).cell_lines,
        final(ctx).row_has_east_asian_text == row_has_cjk(*row),
    decreases fuel(old(ctx).table_depth as int - 1), 5nat,
{
    let ghost e = ctx.table_depth as int;
    let ghost n = num_cols as int;
    let len: usize = rowspan_remaining.len();
    let mut j: usize = 0;
    while j < len
        invariant
            j <= len,
            len == old(rowspan_remaining)@.len(),
            rowspan_remaining@.len() == old(rowspan_remaining)@.len(),
            forall|k: int| 0 <= k < j ==> rowspan_remaining@[k] == decrement_all(old(rowspan_remaining)@)[k],
            forall|k: int| j <= k < len ==> rowspan_remaining@[k] == old(rowspan_remaining)@[k],
        decreases len - j,
    {
        let r: usize = rowspan_remaining[j];
        assert(decrement_all(old(rowspan_remaining)@)[j as int] == if r > 0 {
            (r - 1) as usize
        } else {
            0usize
        });
        if r > 0 {
            rowspan_remaining.set(j, r - 1);
        }
        j = j + 1;
    }
    assert(rowspan_remaining@ =~= decrement_all(old(rowspan_remaining)@));

    ctx.row_has_east_asian_text = row_has_east_asian_text(row);

    let row_height: Option<i64> = if fixed_row_heights {
        row.height
    } else {
        None
    };
    let ghost rs1 = rowspan_remaining@;
    let ghost out1 = out@;
    let ghost cells = row.cells@;
    assert(cells.take(cells.len() as int) =~= cells);
    assert(cells.take(0) =~= Seq::<TableCell>::empty());
    assert(cells_text(cells.take(0), n, rs1, indent@, default_cell_padding, row_height, nested_at(e, old(ctx).cell_lines), old(ctx).cell_lines, row_has_cjk(*row)) == (Seq::<char>::empty(), rs1, 0int)) by {
        reveal(cells_text);
    }
    let mut col_pos: usize = 0;
    let mut k: usize = 0;
    while k < row.cells.len()
        invariant_except_break
            k <= cells.len(),
            cells == row.cells@,
            cells.take(cells.len() as int) == cells,
            col_pos <= num_cols,
            rowspan_remaining@.len() == old(rowspan_remaining)@.len(),
            old(rowspan_remaining)@.len() >= num_cols,
            ctx.table_depth == old(ctx).table_depth,
            ctx.sheet_row_line_pt == old(ctx).sheet_row_line_pt,
            ctx.cell_lines == old(ctx).cell_lines,
            e == old(ctx).table_depth as int,
            n == num_cols as int,
            ctx.row_has_east_asian_text == row_has_cjk(*row),
            out@ == out1 + cells_text(cells.take(k as int), n, rs1, indent@, default_cell_padding, row_height, nested_at(e, old(ctx).cell_lines), old(ctx).cell_lines, row_has_cjk(*row)).0,
            rowspan_remaining@ == cells_text(cells.take(k as int), n, rs1, indent@, default_cell_padding, row_height, nested_at(e, old(ctx).cell_lines), old(ctx).cell_lines, row_has_cjk(*row)).1,
            col_pos as int == cells_text(cells.take(k as int), n, rs1, indent@, default_cell_padding, row_height, nested_at(e, old(ctx).cell_lines), old(ctx).cell_lines, row_has_cjk(*row)).2,
        ensures
            col_pos <= num_cols,
            rowspan_remaining@.len() == old(rowspan_remaining)@.len(),
            old(rowspan_remaining)@.len() >= num_cols,
            ctx.table_depth == old(ctx).table_depth,
            ctx.sheet_row_line_pt == old(ctx).sheet_row_line_pt,
            ctx.cell_lines == old(ctx).cell_lines,
            ctx.row_has_east_asian_text == row_has_cjk(*row),
            out@ == out1 + cells_text(cells, n, rs1, indent@, default_cell_padding, row_height, nested_at(e, old(ctx).cell_lines), old(ctx).cell_lines, row_has_cjk(*row)).0,
            rowspan_remaining@ == cells_text(cells, n, rs1, indent@, default_cell_padding, row_height, nested_at(e, old(ctx).cell_lines), old(ctx).cell_lines, row_has_cjk(*row)).1,
            col_pos as int == cells_text(cells, n, rs1, indent@, default_cell_padding, row_height, nested_at(e, old(ctx).cell_lines), old(ctx).cell_lines, row_has_cjk(*row)).2,
        decreases cells.len() - k,
    {
        let ghost before_rs = rowspan_remaining@;
        let ghost before_col = col_pos as int;
        assert(cells.take(k + 1).drop_last() =~= cells.take(k as int));
        proof {
            lemma_cells_step(cells.take(k + 1), n, rs1, indent@, default_cell_padding, row_height, nested_at(e, old(ctx).cell_lines), old(ctx).cell_lines, row_has_cjk(*row));
        }
        let cell: &TableCell = &row.cells[k];
        if cell.col_span != 0 && cell.row_span != 0 {
            while col_pos < num_cols && rowspan_remaining[col_pos] > 0
                invariant
                    n == num_cols as int,
                    before_col <= col_pos <= num_cols,
                    rowspan_remaining@ == before_rs,
                    rowspan_remaining@.len() == old(rowspan_remaining)@.len(),
            old(rowspan_remaining)@.len() >= num_cols,
                    next_free(before_rs, before_col, n) == next_free(before_rs, col_pos as int, n),
                decreases num_cols - col_pos,
            {
                assert(next_free(before_rs, col_pos as int, n) == next_free(before_rs, col_pos as int + 1, n));
                col_pos = col_pos + 1;
            }
            if col_pos >= num_cols {
                proof {
                    lemma_cells_stuck(cells, k + 1, n, rs1, indent@, default_cell_padding, row_height, nested_at(e, old(ctx).cell_lines), old(ctx).cell_lines, row_has_cjk(*row));
                }
                break;
            }
            let remaining: usize = num_cols - col_pos;
            let col_span: usize = cell.col_span as usize;
            let clamped_colspan: u32 = if col_span < remaining {
                cell.col_span
            } else {
                remaining as u32
            };
            proof {
                lemma_next_free(before_rs, before_col, n);
                assert(col_pos as int == next_free(before_rs, before_col, n));
                assert(clamped_colspan as int == clamped_span(*cell, col_pos as int, n));
                assert(*cell == cells[k as int]);
            }
            generate_table_cell(
                out,
                cell,
                clamped_colspan,
                indent,
                default_cell_padding,
                row_height,
                ctx,
            );
            assert(out@ == out1 + cells_text(cells.take(k + 1), n, rs1, indent@, default_cell_padding, row_height, nested_at(e, old(ctx).cell_lines), old(ctx).cell_lines, row_has_cjk(*row)).0);
            if cell.row_span > 1 {
                let ghost rs_mid = rowspan_remaining@;
                let mut idx: usize = col_pos;
                let end: usize = col_pos + clamped_colspan as usize;
                while idx < end
                    invariant
                        rs_mid.len() == old(rowspan_remaining)@.len(),
                        col_pos <= idx <= end,
                        end <= num_cols,
                        rowspan_remaining@.len() == old(rowspan_remaining)@.len(),
            old(rowspan_remaining)@.len() >= num_cols,
                        forall|i: int| 0 <= i < rs_mid.len() ==> rowspan_remaining@[i] == if col_pos <= i < idx {
                            cell.row_span as usize
                        } else {
                            rs_mid[i]
                        },
                    decreases end - idx,
                {
                    rowspan_remaining.set(idx, cell.row_span as usize);
                    idx = idx + 1;
                }
                assert(rowspan_remaining@ =~= set_span(rs_mid, col_pos as int, clamped_colspan as int, cell.row_span));
            }
            col_pos = col_pos + clamped_colspan as usize;
        }
        k = k + 1;
    }
    proof {
        if k == cells.len() {
            assert(cells.take(k as int) =~= cells);
        }
    }
    let ghost cells_end = out@;
    let ghost rs2 = rowspan_remaining@;
    let ghost col_end = col_pos as int;
    while col_pos < num_cols
        invariant
            n == num_cols as int,
            col_end <= col_pos <= num_cols,
            rowspan_remaining@ == rs2,
            rs2.len() == old(rowspan_remaining)@.len(),
            rs2.len() >= num_cols,
            cells_end + fill_text(rs2, col_end, n, indent@) == out@ + fill_text(rs2, col_pos as int, n, indent@),
        decreases num_cols - col_pos,
    {
        assert(fill_text(rs2, col_pos as int, n, indent@) == (if rs2[col_pos as int] == 0 {
            indent@ + "[],\n"@
        } else {
            seq![]
        }) + fill_text(rs2, col_pos as int + 1, n, indent@));
        if rowspan_remaining[col_pos] == 0 {
            out.append(indent);
            out.append("[],\n");
        }
        col_pos = col_pos + 1;
    }
    reveal(row_text);
    assert(out@ =~= old(out)@ + row_text(*row, n, old(rowspan_remaining)@, indent@, default_cell_padding, fixed_row_heights, nested_at(e, old(ctx).cell_lines), old(ctx).cell_lines).0);
}

/// The line a cell's content has to fit in. The row's declared height less
/// the padding this cell uses is what one line has to fit inside; a cell
/// spanning rows is sized by the rows together, not by this one.
fn cell_line_of(cell: &TableCell, default_cell_padding: Insets, row_height: Option<i64>) -> (r:
    Option<i128>)
    ensures
        r == cell_line(*cell, default_cell_padding, row_height),
        line_fits(r),
{
    let padding: Insets = match cell.padding {
        Some(p) => p,
        None => default_cell_padding,
    };
    match row_height {
        Some(h) => {
            let available: i128 = h as i128 - padding.top as i128 - padding.bottom as i128;
            if cell.row_span <= 1 && available > 0 {
                Some(available)
            } else {
                None
            }
        },
        None => None,
    }
}

/// Appends one cell: its opening (`table.cell(..)[` when it spans, has a
/// border, fill, alignment or padding of its own), its decorations, its
/// content, and its closing.
pub fn generate_table_cell(
    out: &mut String,
    cell: &TableCell,
    clamped_colspan: u32,
    indent: &str,
    default_cell_padding: Insets,
    row_height: Option<i64>,
    ctx: &mut GenCtx,
)
    ensures
        final(out)@ == old(out)@ + cell_text(
            *cell,
            clamped_colspan as int,
            indent@,
            default_cell_padding,
            row_height,
            nested_at(old(ctx).table_depth as int, old(ctx).cell_lines), old(ctx).cell_lines, old(ctx).row_has_east_asian_text),
        *final(ctx) == *old(ctx),
    decreases fuel(old(ctx).table_depth as int - 1), 3nat,
{
    let ghost line = cell_line(*cell, default_cell_padding, row_height);
    let enclosing_sheet_row_line_pt: Option<i128> = ctx.sheet_row_line_pt;
    let cell_line_pt: Option<i128> = cell_line_of(cell, default_cell_padding, row_height);
    write_cell_open(out, cell, clamped_colspan, indent, default_cell_padding);
    write_cell_decor(out, cell, default_cell_padding, row_height);
    let ghost decor_end = out@;
    assert(decor_end == old(out)@ + cell_open_text(*cell, clamped_colspan as int, indent@, default_cell_padding) + cell_decor_text(*cell, default_cell_padding, row_height));
    ctx.sheet_row_line_pt = cell_line_pt;
    if let Some(spill_width) = cell.spill_width {
        // The content spills across empty neighbors on one clipped line,
        // out of layout, while a zero-width strut holds the row height.
        out.append("#place(left + horizon, box(width: ");
        push_pt(out, spill_width as i128);
        out.append(", height: 1.3em, clip: true)[");
        generate_cell_content(out, cell.content.as_slice(), ctx);
        out.append("])#box(width: 0pt, height: 1.3em)");
    } else {
        generate_cell_content(out, cell.content.as_slice(), ctx);
    }
    ctx.sheet_row_line_pt = enclosing_sheet_row_line_pt;
    let ghost body_end = out@;
    assert(body_end == decor_end + match cell.spill_width {
        Some(w) => "#place(left + horizon, box(width: "@ + pt_text(w as int)
            + ", height: 1.3em, clip: true)["@ + content_text(cell.content@, nested_at(old(ctx).table_depth as int, old(ctx).cell_lines), old(ctx).cell_lines, old(ctx).row_has_east_asian_text, line)
            + "])#box(width: 0pt, height: 1.3em)"@,
        None => content_text(cell.content@, nested_at(old(ctx).table_depth as int, old(ctx).cell_lines), old(ctx).cell_lines, old(ctx).row_has_east_asian_text, line),
    });
    out.append("],\n");
    reveal(cell_text);
    assert(out@ =~= old(out)@ + cell_text(
        *cell,
        clamped_colspan as int,
        indent@,
        default_cell_padding,
        row_height,
        nested_at(old(ctx).table_depth as int, old(ctx).cell_lines), old(ctx).cell_lines, old(ctx).row_has_east_asian_text));
}

/// Appends a paragraph of a cell with the line box of its cell and row,
/// leaving its space after to a line grid that holds it.
fn write_cell_block_paragraph(out: &mut String, para: &Paragraph, ctx: &GenCtx)
    requires
        line_fits(ctx.sheet_row_line_pt),
    ensures
        final(out)@ == old(out)@ + para_text(
            *para,
            cell_line_settings(
                para.runs@,
                ctx.cell_lines,
                ctx.row_has_east_asian_text,
                ctx.sheet_row_line_pt,
            ),
            grid_absorbs(ctx.cell_lines, ctx.row_has_east_asian_text),
        ),
{
    let lb: Option<String> = cell_line_box_settings(&para.runs, ctx);
    let lbs: Option<&str> = match &lb {
        Some(x) => Some(x.as_str()),
        None => None,
    };
    let absorbs: bool = ctx.cell_lines.line_grid_pitch.is_some() && ctx.row_has_east_asian_text;
    generate_cell_paragraph(out, para, lbs, absorbs);
}

/// Appends the blocks of a cell, one per line: paragraphs and captions as
/// paragraphs, nested tables while the nesting limit allows; contents
/// blocks, page and column breaks are left out.
pub fn generate_cell_content(out: &mut String, blocks: &[Block], ctx: &mut GenCtx)
    requires
        line_fits(old(ctx).sheet_row_line_pt),
    ensures
        final(out)@ == old(out)@ + content_text(
            blocks@,
            nested_at(old(ctx).table_depth as int, old(ctx).cell_lines), old(ctx).cell_lines, old(ctx).row_has_east_asian_text,
            old(ctx).sheet_row_line_pt),
        *final(ctx) == *old(ctx),
    decreases fuel(old(ctx).table_depth as int - 1), 2nat,
{
    let ghost e = ctx.table_depth as int;
    let ghost line = ctx.sheet_row_line_pt;
    assert(blocks@.take(0) =~= Seq::<Block>::empty());
    assert(content_text(blocks@.take(0), nested_at(e, old(ctx).cell_lines), old(ctx).cell_lines, old(ctx).row_has_east_asian_text, line) == Seq::<char>::empty()) by {
        reveal(content_text);
    }
    let mut i: usize = 0;
    while i < blocks.len()
        invariant
            i <= blocks@.len(),
            *ctx == *old(ctx),
            e == old(ctx).table_depth as int,
            line == old(ctx).sheet_row_line_pt,
            line_fits(line),
            out@ == old(out)@ + content_text(blocks@.take(i as int), nested_at(e, old(ctx).cell_lines), old(ctx).cell_lines, old(ctx).row_has_east_asian_text, line),
        decreases blocks@.len() - i,
    {
        assert(blocks@.take(i + 1).drop_last() =~= blocks@.take(i as int));
        assert(content_text(blocks@.take(i + 1), nested_at(e, old(ctx).cell_lines), old(ctx).cell_lines, old(ctx).row_has_east_asian_text, line) == content_text(blocks@.take(i as int), nested_at(e, old(ctx).cell_lines), old(ctx).cell_lines, old(ctx).row_has_east_asian_text, line) + (if i > 0 {
            seq!['\n']
        } else {
            seq![]
        }) + block_text(blocks@[i as int], nested_at(e, old(ctx).cell_lines), old(ctx).cell_lines, old(ctx).row_has_east_asian_text, line)) by {
            reveal(content_text);
        }
        if i > 0 {
            crate::typst_text::push_char(out, '\n');
        }
        let ghost sep_end = out@;
        match &blocks[i] {
            Block::TableOfContents(_) => {},
            Block::Caption(caption) => {
                write_caption_marker(out, caption);
                write_cell_block_paragraph(out, &caption.paragraph, ctx);
            },
            Block::Paragraph(para) => write_cell_block_paragraph(out, para, ctx),
            Block::Table(table) => {
                if ctx.table_depth < MAX_TABLE_DEPTH {
                    generate_table(out, table, ctx);
                }
            },
            Block::PageBreak | Block::ColumnBreak => {},
        }
        reveal(block_text);
        assert(out@ =~= sep_end + block_text(blocks@[i as int], nested_at(e, old(ctx).cell_lines), old(ctx).cell_lines, old(ctx).row_has_east_asian_text, line));
        i = i + 1;
        assert(out@ =~= old(out)@ + content_text(blocks@.take(i as int), nested_at(e, old(ctx).cell_lines), old(ctx).cell_lines, old(ctx).row_has_east_asian_text, line));
    }
    assert(blocks@.take(blocks@.len() as int) =~= blocks@);
}

} // verus!
