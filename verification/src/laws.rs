//! Properties of the generated Typst that hold for every input.
use vstd::prelude::*;

use crate::borders::{
    cell_stroke_text, double_line_text, double_overlays_text, geometry_text,
    cell_params, horizontal_double_text, is_double, is_single, round_thousandth, side_part,
    stroke_parts, valign_text,
    vertical_double_text,
};
use crate::captions::{hex_digit, hex_text, is_label_char, label_text};
use crate::document::{
    effective_size, lead_space_text, page_text, pages_text, paper_of, para_params,
};
use crate::header_footer::{
    anchored_paras_text, any_flow, band_height, flow_paras_text, page_anchored,
};
use crate::icons::{
    arrow_shape, flip_y, icon_shape_text, in_icon_box, transpose, up_points, ARROW_ICON_LENGTH,
};
use crate::ir::{
    Alignment, Block, BorderSide, CellBorder, CellLines, CellVerticalAlign, TableCell, TableRow, Color, ConvertOptions, HeaderFooter, HeaderFooterParagraph,
    IconGlyph, Insets, Page, PageNumberFormat, PageSize, ParagraphStyle, Table, TextStyle,
    MAX_TABLE_DEPTH,
};
use crate::runs::{string_escaped, styled_text};
use crate::tables::{
    block_text, cells_text, decrement_all, fill_text, header_count, lead_count, nested_at,
    align_name, para_open_text, par_settings_text, row_has_cjk, row_text, rows_text, table_text,
    valign_param_text,
};
use crate::typst_text::{decimal_text, escaped_text, frac_text, is_markup_char, nat_text, pt_text};

verus! {

/// The rows of a table fall into three consecutive groups that together are
/// all of its rows, in order: the rows printed once above the header, the
/// repeating header rows (as many as declared, at most all rows), and the
/// body rows.
pub proof fn law_row_groups_partition(t: Table)
    ensures
        0 <= lead_count(t) <= lead_count(t) + header_count(t) <= t.rows@.len(),
        header_count(t) == if t.header_row_count < t.rows@.len() {
            t.header_row_count as int
        } else {
            t.rows@.len() as int
        },
        t.rows@.subrange(0, lead_count(t)) + t.rows@.subrange(
            lead_count(t),
            lead_count(t) + header_count(t),
        ) + t.rows@.subrange(lead_count(t) + header_count(t), t.rows@.len() as int) == t.rows@,
{
    let rows = t.rows@;
    let a = lead_count(t);
    let b = lead_count(t) + header_count(t);
    assert(rows.subrange(0, a) + rows.subrange(a, b) + rows.subrange(b, rows.len() as int)
        =~= rows);
}

/// A table nested in a cell is written one level deeper while the nesting
/// limit allows, and left out entirely beyond it.
pub proof fn law_nesting_limit(
    t: Table,
    e: int,
    lines: CellLines,
    ea: bool,
    line: Option<i128>,
)
    ensures
        e < MAX_TABLE_DEPTH ==> block_text(Block::Table(t), nested_at(e, lines), lines, ea, line)
            == table_text(t, e, lines),
        e >= MAX_TABLE_DEPTH ==> block_text(Block::Table(t), nested_at(e, lines), lines, ea, line)
            == Seq::<char>::empty(),
{
    reveal(block_text);
}

/// A double line of a border is never empty.
proof fn lemma_double_line_nonempty(
    align: Seq<char>,
    dx: int,
    dy: int,
    angle: Seq<char>,
    extra: int,
    side: BorderSide,
)
    ensures
        double_line_text(align, dx, dy, angle, extra, side).len() > 0,
{
    reveal_strlit("))");
}

/// Every border side is drawn exactly one way: a single line by the cell's
/// stroke, a double line by overlay lines. The stroke names one part per
/// single side and is empty exactly when no side is single; the overlays are
/// empty exactly when no side is double.
pub proof fn law_border_sides_drawn_once(b: CellBorder, p: Insets)
    ensures
        stroke_parts(b).len() == (if is_single(b.top) {
            1int
        } else {
            0
        }) + (if is_single(b.bottom) {
            1int
        } else {
            0
        }) + (if is_single(b.left) {
            1int
        } else {
            0
        }) + (if is_single(b.right) {
            1int
        } else {
            0
        }),
        (cell_stroke_text(b).len() == 0) <==> !(is_single(b.top) || is_single(b.bottom)
            || is_single(b.left) || is_single(b.right)),
        (double_overlays_text(b, p).len() == 0) <==> !(is_double(b.top) || is_double(b.bottom)
            || is_double(b.left) || is_double(b.right)),
        !(is_single(b.top) && is_double(b.top)),
        !(is_single(b.bottom) && is_double(b.bottom)),
        !(is_single(b.left) && is_double(b.left)),
        !(is_single(b.right) && is_double(b.right)),
{
    reveal_strlit("stroke: (");
    if is_double(b.top) {
        let s = b.top.unwrap();
        reveal(horizontal_double_text);
        let w = s.width as int;
        lemma_double_line_nonempty(
            "top + left"@,
            -(p.left as int),
            -(p.top as int) - w,
            "0deg"@,
            p.left as int + p.right as int,
            s,
        );
    }
    if is_double(b.bottom) {
        let s = b.bottom.unwrap();
        reveal(horizontal_double_text);
        let w = s.width as int;
        lemma_double_line_nonempty(
            "bottom + left"@,
            -(p.left as int),
            p.bottom as int - w,
            "0deg"@,
            p.left as int + p.right as int,
            s,
        );
    }
    if is_double(b.left) {
        let s = b.left.unwrap();
        reveal(vertical_double_text);
        let w = s.width as int;
        lemma_double_line_nonempty(
            "top + left"@,
            -(p.left as int) - w,
            -(p.top as int),
            "90deg"@,
            p.top as int + p.bottom as int,
            s,
        );
    }
    if is_double(b.right) {
        let s = b.right.unwrap();
        reveal(vertical_double_text);
        let w = s.width as int;
        lemma_double_line_nonempty(
            "top + right"@,
            p.right as int - w,
            -(p.top as int),
            "90deg"@,
            p.top as int + p.bottom as int,
            s,
        );
    }
}

/// Circles and arrows are drawn as shapes; every other icon stays text.
pub proof fn law_icon_shapes(g: IconGlyph, color: Option<Color>)
    ensures
        icon_shape_text(g, color) is Some <==> !(g is Text),
{
}

/// Every arrow's outline lies within the icon's 10pt square.
pub proof fn law_arrows_fit_their_box(g: IconGlyph)
    ensures
        arrow_shape(g) matches Some((points, _)) ==> in_icon_box(points),
{
    let up = up_points();
    assert(in_icon_box(up));
    assert(in_icon_box(flip_y(up)));
    assert(in_icon_box(transpose(up)));
}

/// Mirroring an arrow twice gives the arrow back.
pub proof fn law_flip_twice(points: Seq<(i64, i64)>)
    requires
        in_icon_box(points),
    ensures
        flip_y(flip_y(points)) == points,
{
    assert(flip_y(flip_y(points)) =~= points);
}

/// A geometry value that rounds to zero prints as `0`, never as `-0`.
pub proof fn law_no_negative_zero(v: int)
    requires
        round_thousandth(v) == 0,
    ensures
        geometry_text(v) == seq!['0'],
{
    assert(nat_text(0) == seq!['0']);
    assert(frac_text(0) =~= Seq::<char>::empty());
    assert(decimal_text(0) =~= seq!['0']);
}

/// Plain text read back from its escaped form: a backslash makes the next
/// character literal.
pub open spec fn unescaped_text(t: Seq<char>) -> Seq<char>
    decreases t.len(),
{
    if t.len() == 0 {
        seq![]
    } else if t.len() >= 2 && t[0] == '\\' {
        seq![t[1]] + unescaped_text(t.subrange(2, t.len() as int))
    } else {
        seq![t[0]] + unescaped_text(t.drop_first())
    }
}

/// The escape of one character.
pub open spec fn escaped_char(c: char) -> Seq<char> {
    if is_markup_char(c) {
        seq!['\\', c]
    } else {
        seq![c]
    }
}

/// Escaping a text escapes its first character, then the rest.
proof fn lemma_escape_front(s: Seq<char>)
    requires
        s.len() > 0,
    ensures
        escaped_text(s) == escaped_char(s[0]) + escaped_text(s.drop_first()),
    decreases s.len(),
{
    if s.len() == 1 {
        assert(s.drop_first() =~= Seq::<char>::empty());
        assert(s.drop_last() =~= Seq::<char>::empty());
        assert(escaped_text(s.drop_last()) =~= Seq::<char>::empty());
        assert(s.last() == s[0]);
        assert(escaped_text(s) =~= escaped_char(s[0]));
    } else {
        lemma_escape_front(s.drop_last());
        assert(s.drop_last().drop_first() =~= s.drop_first().drop_last());
        assert(s.drop_first().last() == s.last());
        assert(escaped_text(s) =~= escaped_char(s[0]) + escaped_text(s.drop_first()));
    }
}

/// Escaping loses nothing: the escaped text reads back as the text escaped.
pub proof fn law_escape_round_trip(s: Seq<char>)
    ensures
        unescaped_text(escaped_text(s)) == s,
    decreases s.len(),
{
    if s.len() == 0 {
        assert(escaped_text(s) =~= Seq::<char>::empty());
    } else {
        lemma_escape_front(s);
        law_escape_round_trip(s.drop_first());
        let c = s[0];
        let t = escaped_text(s);
        let rest = escaped_text(s.drop_first());
        if is_markup_char(c) {
            assert(t.subrange(2, t.len() as int) =~= rest);
        } else {
            assert(t.drop_first() =~= rest);
        }
        assert(unescaped_text(t) =~= s);
    }
}

/// The escape of one character inside a string literal.
pub open spec fn string_escaped_char(c: char) -> Seq<char> {
    if c == '"' || c == '\\' {
        seq!['\\', c]
    } else {
        seq![c]
    }
}

/// Escaping a string literal escapes its first character, then the rest.
proof fn lemma_string_escape_front(s: Seq<char>)
    requires
        s.len() > 0,
    ensures
        string_escaped(s) == string_escaped_char(s[0]) + string_escaped(s.drop_first()),
    decreases s.len(),
{
    if s.len() == 1 {
        assert(s.drop_first() =~= Seq::<char>::empty());
        assert(s.drop_last() =~= Seq::<char>::empty());
        assert(string_escaped(s.drop_last()) =~= Seq::<char>::empty());
        assert(s.last() == s[0]);
        assert(string_escaped(s) =~= string_escaped_char(s[0]));
    } else {
        lemma_string_escape_front(s.drop_last());
        assert(s.drop_last().drop_first() =~= s.drop_first().drop_last());
        assert(s.drop_first().last() == s.last());
        assert(string_escaped(s) =~= string_escaped_char(s[0]) + string_escaped(s.drop_first()));
    }
}

/// A link target loses nothing in its string literal: the escaped target
/// reads back as written.
pub proof fn law_link_target_round_trip(s: Seq<char>)
    ensures
        unescaped_text(string_escaped(s)) == s,
    decreases s.len(),
{
    if s.len() == 0 {
        assert(string_escaped(s) =~= Seq::<char>::empty());
    } else {
        lemma_string_escape_front(s);
        law_link_target_round_trip(s.drop_first());
        let c = s[0];
        let t = string_escaped(s);
        let rest = string_escaped(s.drop_first());
        if c == '"' || c == '\\' {
            assert(t.subrange(2, t.len() as int) =~= rest);
        } else {
            assert(t.drop_first() =~= rest);
        }
        assert(unescaped_text(t) =~= s);
    }
}

/// A style that sets no property leaves markup bare: no empty `#text()`
/// wrapper.
pub proof fn law_unstyled_markup_is_bare(body: Seq<char>)
    ensures
        styled_text(TextStyle::spec_default(), body) == body,
{
}

/// The options decide a page's orientation: landscape puts the longer side
/// across, portrait puts it down, and either way the page keeps the two sides
/// of its paper. Without options a page keeps its own size.
pub proof fn law_page_orientation(size: PageSize, o: ConvertOptions)
    ensures
        o.landscape == Some(true) ==> effective_size(size, o).width >= effective_size(
            size,
            o,
        ).height,
        o.landscape == Some(false) ==> effective_size(size, o).width <= effective_size(
            size,
            o,
        ).height,
        (effective_size(size, o) == paper_of(size, o)) || (effective_size(size, o).width
            == paper_of(size, o).height && effective_size(size, o).height == paper_of(
            size,
            o,
        ).width),
        o == ConvertOptions::spec_default() ==> effective_size(size, o) == size,
{
}

/// A header or footer is pinned in a band exactly when its declared distance
/// from the page edge is short of the margin; the band then fills the rest of
/// the margin.
pub proof fn law_band_fills_the_margin(hf: HeaderFooter, margin: i64)
    ensures
        band_height(hf, margin) is Some <==> (hf.distance_from_edge matches Some(d) && d
            < margin),
        band_height(hf, margin) matches Some(h) ==> h > 0 && h + hf.distance_from_edge->0
            == margin,
{
}

/// Every digit of a hexadecimal numeral may stand in a label.
proof fn lemma_hex_label_chars(n: nat)
    ensures
        forall|i: int| 0 <= i < hex_text(n).len() ==> is_label_char(#[trigger] hex_text(n)[i]),
    decreases n,
{
    let d = (n % 16) as int;
    assert(is_label_char(hex_digit(d)));
    if n >= 16 {
        lemma_hex_label_chars(n / 16);
        let prev = hex_text(n / 16);
        assert(hex_text(n) == prev.push(hex_digit(d)));
        assert forall|i: int| 0 <= i < hex_text(n).len() implies is_label_char(
            #[trigger] hex_text(n)[i],
        ) by {
            if i < prev.len() {
                assert(hex_text(n)[i] == prev[i]);
            }
        }
    } else {
        assert(hex_text(n) == seq![hex_digit(n as int)]);
    }
}

/// A caption sequence's label is made of label characters only, whatever
/// script its name is written in.
pub proof fn law_labels_use_label_characters(s: Seq<char>)
    ensures
        forall|i: int| 0 <= i < label_text(s).len() ==> is_label_char(#[trigger] label_text(s)[i]),
    decreases s.len(),
{
    if s.len() > 0 {
        law_labels_use_label_characters(s.drop_last());
        let c = s.last();
        lemma_hex_label_chars(c as nat);
        let prev = label_text(s.drop_last());
        let piece = if is_label_char(c) {
            seq![c]
        } else {
            seq!['-'] + hex_text(c as nat)
        };
        assert(label_text(s) == prev + piece);
        assert forall|i: int| 0 <= i < label_text(s).len() implies is_label_char(
            #[trigger] label_text(s)[i],
        ) by {
            if i >= prev.len() {
                let k = i - prev.len();
                if !is_label_char(c) && k > 0 {
                    assert(piece[k] == hex_text(c as nat)[k - 1]);
                }
            }
        }
    }
}

/// The paragraphs framed relative to the page leave the header or footer's
/// flow: when all of a header's paragraphs are framed, nothing flows in it,
/// and when none is, nothing is placed on the page.
pub proof fn law_framed_paragraphs_leave_the_flow(
    ps: Seq<HeaderFooterParagraph>,
    f: PageNumberFormat,
)
    ensures
        (forall|i: int| 0 <= i < ps.len() ==> page_anchored(#[trigger] ps[i])) ==> (
        flow_paras_text(ps, f) == Seq::<char>::empty() && !any_flow(ps)),
        (forall|i: int| 0 <= i < ps.len() ==> !page_anchored(#[trigger] ps[i])) ==> (
        anchored_paras_text(ps, f) == Seq::<char>::empty()),
    decreases ps.len(),
{
    if ps.len() > 0 {
        let init = ps.drop_last();
        law_framed_paragraphs_leave_the_flow(init, f);
        if forall|i: int| 0 <= i < ps.len() ==> page_anchored(#[trigger] ps[i]) {
            assert(forall|i: int| 0 <= i < init.len() ==> page_anchored(#[trigger] init[i])) by {
                assert forall|i: int| 0 <= i < init.len() implies page_anchored(
                    #[trigger] init[i],
                ) by {
                    assert(init[i] == ps[i]);
                }
            }
            assert(page_anchored(ps[ps.len() - 1]));
        }
        if forall|i: int| 0 <= i < ps.len() ==> !page_anchored(#[trigger] ps[i]) {
            assert(forall|i: int| 0 <= i < init.len() ==> !page_anchored(#[trigger] init[i]))
                by {
                assert forall|i: int| 0 <= i < init.len() implies !page_anchored(
                    #[trigger] init[i],
                ) by {
                    assert(init[i] == ps[i]);
                }
            }
            assert(!page_anchored(ps[ps.len() - 1]));
        }
    }
}

/// Only the paragraph that opens the document turns its space before into
/// explicit space; every other paragraph keeps it as block spacing above,
/// and the opening one does not repeat it there.
pub proof fn law_only_the_opening_paragraph_gets_explicit_space(s: ParagraphStyle)
    ensures
        lead_space_text(s, false) == Seq::<char>::empty(),
        s.space_before matches Some(v) ==> para_params(s, false)[0] == "above: "@ + pt_text(
            v as int,
        ),
        s.space_before matches Some(v) ==> lead_space_text(s, true) == "#v("@ + pt_text(v as int)
            + ")\n"@,
        para_params(s, true) == (match s.space_after {
            Some(v) => seq!["below: "@ + pt_text(v as int)],
            None => Seq::<Seq<char>>::empty(),
        }),
{
    if let Some(v) = s.space_after {
        assert(Seq::<Seq<char>>::empty().push("below: "@ + pt_text(v as int)) =~= seq![
            "below: "@ + pt_text(v as int),
        ]);
    }
}

/// Each page after the first follows a single page break, and only the first
/// page opens the document.
pub proof fn law_pages_are_separated_by_breaks(ps: Seq<Page>, p: Page, o: ConvertOptions)
    ensures
        pages_text(seq![p], o) == page_text(p, o, true),
        ps.len() > 0 ==> pages_text(ps.push(p), o) == pages_text(ps, o) + "#pagebreak()\n"@
            + page_text(p, o, false),
{
    assert(seq![p].drop_last() =~= Seq::<Page>::empty());
    assert(pages_text(Seq::<Page>::empty(), o) =~= Seq::<char>::empty());
    assert(seq![p].last() == p);
    assert(ps.push(p).drop_last() =~= ps);
    assert(pages_text(seq![p], o) =~= page_text(p, o, true));
}

/// Writing rows in two parts, the second starting from the row-span counters
/// the first leaves, gives the same text and counters as writing them at
/// once.
pub proof fn law_rows_split(
    rows: Seq<TableRow>,
    k: int,
    n: int,
    rs: Seq<usize>,
    indent: Seq<char>,
    pad: Insets,
    fixed: bool,
    nest: spec_fn(Table) -> Seq<char>, lines: CellLines,
)
    requires
        0 <= k <= rows.len(),
    ensures
        ({
            let a = rows_text(rows.take(k), n, rs, indent, pad, fixed, nest, lines);
            let b = rows_text(rows.skip(k), n, a.1, indent, pad, fixed, nest, lines);
            rows_text(rows, n, rs, indent, pad, fixed, nest, lines) == (a.0 + b.0, b.1)
        }),
    decreases rows.len(),
{
    reveal(rows_text);
    let a = rows_text(rows.take(k), n, rs, indent, pad, fixed, nest, lines);
    if k == rows.len() {
        assert(rows.take(k) =~= rows);
        assert(rows.skip(k) =~= Seq::<TableRow>::empty());
        let b = rows_text(rows.skip(k), n, a.1, indent, pad, fixed, nest, lines);
        assert(b.0 =~= Seq::<char>::empty());
        assert(a.0 + b.0 =~= a.0);
    } else {
        let init = rows.drop_last();
        law_rows_split(init, k, n, rs, indent, pad, fixed, nest, lines);
        assert(init.take(k) =~= rows.take(k));
        assert(rows.skip(k).drop_last() =~= init.skip(k));
        assert(rows.skip(k).last() == rows.last());
        let b0 = rows_text(init.skip(k), n, a.1, indent, pad, fixed, nest, lines);
        let last = row_text(rows.last(), n, b0.1, indent, pad, fixed, nest, lines);
        assert(rows_text(rows.skip(k), n, a.1, indent, pad, fixed, nest, lines) == (b0.0 + last.0, last.1));
        assert(a.0 + (b0.0 + last.0) =~= (a.0 + b0.0) + last.0);
    }
}

/// The border drawn for one side by the cell's overlays.
pub open spec fn side_overlay_text(b: CellBorder, p: Insets, side: int) -> Seq<char> {
    if side == 0 {
        if is_double(b.top) { horizontal_double_text(b.top.unwrap(), p, true) } else { seq![] }
    } else if side == 1 {
        if is_double(b.bottom) { horizontal_double_text(b.bottom.unwrap(), p, false) } else { seq![] }
    } else if side == 2 {
        if is_double(b.left) { vertical_double_text(b.left.unwrap(), p, true) } else { seq![] }
    } else {
        if is_double(b.right) { vertical_double_text(b.right.unwrap(), p, false) } else { seq![] }
    }
}

/// The side of a border by its number: top, bottom, left, right.
pub open spec fn side_of(b: CellBorder, side: int) -> Option<BorderSide> {
    if side == 0 {
        b.top
    } else if side == 1 {
        b.bottom
    } else if side == 2 {
        b.left
    } else {
        b.right
    }
}

/// The name of a side by its number.
pub open spec fn side_name(side: int) -> Seq<char> {
    if side == 0 {
        "top"@
    } else if side == 1 {
        "bottom"@
    } else if side == 2 {
        "left"@
    } else {
        "right"@
    }
}

/// The overlay of a double side is never empty.
proof fn lemma_side_overlay_nonempty(b: CellBorder, p: Insets, side: int)
    requires
        0 <= side < 4,
        is_double(side_of(b, side)),
    ensures
        side_overlay_text(b, p, side).len() > 0,
{
    let s = side_of(b, side).unwrap();
    let w = s.width as int;
    reveal(horizontal_double_text);
    reveal(vertical_double_text);
    if side == 0 {
        lemma_double_line_nonempty("top + left"@, -(p.left as int), -(p.top as int) - w, "0deg"@,
            p.left as int + p.right as int, s);
    } else if side == 1 {
        lemma_double_line_nonempty("bottom + left"@, -(p.left as int), p.bottom as int - w,
            "0deg"@, p.left as int + p.right as int, s);
    } else if side == 2 {
        lemma_double_line_nonempty("top + left"@, -(p.left as int) - w, -(p.top as int),
            "90deg"@, p.top as int + p.bottom as int, s);
    } else {
        lemma_double_line_nonempty("top + right"@, p.right as int - w, -(p.top as int),
            "90deg"@, p.top as int + p.bottom as int, s);
    }
}

/// Whether a text is the stroke part of one of a border's single sides.
pub open spec fn is_single_side_part(b: CellBorder, x: Seq<char>) -> bool {
    exists|j: int|
        0 <= j < 4 && is_single(#[trigger] side_of(b, j)) && x == side_part(
            side_name(j),
            side_of(b, j),
        )
}

/// Each side of a cell border that is set is drawn by exactly one of the two
/// means: a double side by its overlay lines and by no part of the cell's
/// stroke, any other side by its own part of the stroke and by no overlay.
/// The overlays are the four sides' overlays in order.
pub proof fn law_each_side_drawn_by_one_means(b: CellBorder, p: Insets, side: int)
    requires
        0 <= side < 4,
        side_of(b, side) is Some,
    ensures
        double_overlays_text(b, p) == side_overlay_text(b, p, 0) + side_overlay_text(b, p, 1)
            + side_overlay_text(b, p, 2) + side_overlay_text(b, p, 3),
        is_double(side_of(b, side)) ==> side_overlay_text(b, p, side).len() > 0
            && !stroke_parts(b).contains(side_part(side_name(side), side_of(b, side))),
        !is_double(side_of(b, side)) ==> side_overlay_text(b, p, side).len() == 0
            && stroke_parts(b).contains(side_part(side_name(side), side_of(b, side))),
{
    law_border_sides_drawn_once(b, p);
    reveal_strlit("top");
    reveal_strlit("bottom");
    reveal_strlit("left");
    reveal_strlit("right");
    let parts = stroke_parts(b);
    let x = side_part(side_name(side), side_of(b, side));
    assert(x[0] == side_name(side)[0]);
    // Every part starts with the first letter of its own side's name.
    assert forall|i: int| 0 <= i < parts.len() implies is_single_side_part(b, #[trigger] parts[i])
        by {
        if is_single(b.top) && parts[i] == side_part("top"@, b.top) {
            assert(is_single(side_of(b, 0)));
        } else if is_single(b.bottom) && parts[i] == side_part("bottom"@, b.bottom) {
            assert(is_single(side_of(b, 1)));
        } else if is_single(b.left) && parts[i] == side_part("left"@, b.left) {
            assert(is_single(side_of(b, 2)));
        } else {
            assert(is_single(side_of(b, 3)));
        }
    }
    if is_double(side_of(b, side)) {
        lemma_side_overlay_nonempty(b, p, side);
        if parts.contains(x) {
            let i = choose|i: int| 0 <= i < parts.len() && parts[i] == x;
            assert(is_single_side_part(b, parts[i]));
            let j = choose|j: int|
                0 <= j < 4 && is_single(#[trigger] side_of(b, j)) && parts[i] == side_part(
                    side_name(j),
                    side_of(b, j),
                );
            assert(parts[i][0] == side_name(j)[0]);
            assert(j != side);
        }
    } else {
        let k: int = if side == 0 {
            0
        } else if side == 1 {
            (if is_single(b.top) { 1int } else { 0 })
        } else if side == 2 {
            (if is_single(b.top) { 1int } else { 0 }) + (if is_single(b.bottom) { 1int } else { 0 })
        } else {
            (if is_single(b.top) { 1int } else { 0 }) + (if is_single(b.bottom) { 1int } else { 0 })
                + (if is_single(b.left) { 1int } else { 0 })
        };
        assert(parts[k] == x);
    }
}

/// A row's East Asian decision is made once for the whole row: every cell of
/// the row is written with the answer for the row, so all of them share one
/// line box and one grid rule.
pub proof fn law_row_sizes_all_cells_alike(
    row: TableRow,
    n: int,
    rs: Seq<usize>,
    indent: Seq<char>,
    pad: Insets,
    fixed: bool,
    nest: spec_fn(Table) -> Seq<char>,
    lines: CellLines,
)
    ensures
        ({
            let cells = cells_text(
                row.cells@,
                n,
                decrement_all(rs),
                indent,
                pad,
                if fixed {
                    row.height
                } else {
                    None
                },
                nest,
                lines,
                row_has_cjk(row),
            );
            row_text(row, n, rs, indent, pad, fixed, nest, lines) == (
                cells.0 + fill_text(cells.1, cells.2, n, indent),
                cells.1,
            )
        }),
{
    reveal(row_text);
}

/// A vertical alignment is written under its own Typst name: top as `top`,
/// centre as `horizon`, bottom as `bottom`; each name belongs to one
/// alignment only, so no two alignments are written alike.
pub proof fn law_vertical_alignment_names(va: CellVerticalAlign)
    ensures
        (valign_text(va) == "top"@) <==> va == CellVerticalAlign::Top,
        (valign_text(va) == "horizon"@) <==> va == CellVerticalAlign::Center,
        (valign_text(va) == "bottom"@) <==> va == CellVerticalAlign::Bottom,
{
    reveal_strlit("top");
    reveal_strlit("horizon");
    reveal_strlit("bottom");
    assert("top"@.len() == 3);
    assert("horizon"@.len() == 7);
    assert("bottom"@.len() == 6);
}

/// A cell's vertical alignment is its last parameter, `align: ` and the
/// alignment's name; a table's default alignment is its `align:` parameter
/// likewise. With the names above, a top-aligned cell or table is written
/// `align: top`.
pub proof fn law_vertical_alignment_is_written(
    cell: TableCell,
    colspan: u32,
    pad: Insets,
    t: Table,
    va: CellVerticalAlign,
)
    ensures
        cell.vertical_align == Some(va) ==> cell_params(cell, colspan, pad).last() == "align: "@
            + valign_text(va),
        cell.vertical_align == Some(CellVerticalAlign::Top) ==> cell_params(
            cell,
            colspan,
            pad,
        ).last() == "align: top"@,
        t.default_vertical_align == Some(va) ==> valign_param_text(t) == "  align: "@
            + valign_text(va) + ",\n"@,
        t.default_vertical_align == Some(CellVerticalAlign::Top) ==> valign_param_text(t)
            == "  align: top,\n"@,
{
    reveal_strlit("top");
    reveal_strlit("align: ");
    reveal_strlit("align: top");
    reveal_strlit("  align: ");
    reveal_strlit(",\n");
    reveal_strlit("  align: top,\n");
    assert("align: "@ + "top"@ =~= "align: top"@);
    assert("  align: "@ + "top"@ + ",\n"@ =~= "  align: top,\n"@);
}

/// A paragraph's alignment is written under the name of the side it
/// declares: left as `left`, centre as `center`, right as `right`; justified
/// or unaligned text gets no alignment at all. Each name belongs to one
/// alignment only.
pub proof fn law_paragraph_alignment_names(a: Option<Alignment>)
    ensures
        (align_name(a) == Some("left"@)) <==> a == Some(Alignment::Left),
        (align_name(a) == Some("center"@)) <==> a == Some(Alignment::Center),
        (align_name(a) == Some("right"@)) <==> a == Some(Alignment::Right),
        (align_name(a) is None) <==> (a is None || a == Some(Alignment::Justify)),
{
    reveal_strlit("left");
    reveal_strlit("center");
    reveal_strlit("right");
    assert("left"@.len() == 4);
    assert("center"@.len() == 6);
    assert("right"@.len() == 5);
    assert("left"@[0] == 'l');
    assert("right"@[0] == 'r');
}

/// A left-aligned cell paragraph opens a full-width block whose alignment
/// setting is `left`, after its own paragraph settings and before its line
/// box.
pub proof fn law_left_paragraph_is_set_left(style: ParagraphStyle, line_box: Option<Seq<char>>)
    requires
        style.alignment == Some(Alignment::Left),
    ensures
        para_open_text(style, line_box) == "#block("@ + "width: 100%"@ + ")[\n"@
            + par_settings_text(style) + "  #set align("@ + "left"@ + ")\n"@ + (match line_box {
            Some(lb) => lb,
            None => seq![],
        }),
{
}

/// The two lines of a double top or bottom border are both placed from that
/// side's own edge (`top + left` for the top, `bottom + left` for the
/// bottom), one border width either side of the edge's padding line; they
/// differ in nothing but that offset.
pub proof fn law_double_horizontal_lines_share_their_edge(
    side: BorderSide,
    p: Insets,
    is_top: bool,
)
    ensures
        horizontal_double_text(side, p, is_top) == ({
            let anchor = if is_top {
                "top + left"@
            } else {
                "bottom + left"@
            };
            let edge = if is_top {
                -(p.top as int)
            } else {
                p.bottom as int
            };
            let w = side.width as int;
            double_line_text(
                anchor,
                -(p.left as int),
                edge - w,
                "0deg"@,
                p.left as int + p.right as int,
                side,
            ) + double_line_text(
                anchor,
                -(p.left as int),
                edge + w,
                "0deg"@,
                p.left as int + p.right as int,
                side,
            )
        }),
        !is_top ==> horizontal_double_text(side, p, is_top) == double_line_text(
            "bottom + left"@,
            -(p.left as int),
            p.bottom as int - side.width as int,
            "0deg"@,
            p.left as int + p.right as int,
            side,
        ) + double_line_text(
            "bottom + left"@,
            -(p.left as int),
            p.bottom as int + side.width as int,
            "0deg"@,
            p.left as int + p.right as int,
            side,
        ),
{
    reveal(horizontal_double_text);
}

/// The two lines of a double left or right border are both placed from that
/// side's own edge (`top + left` for the left, `top + right` for the right),
/// one border width either side of the edge's padding line.
pub proof fn law_double_vertical_lines_share_their_edge(side: BorderSide, p: Insets, is_left: bool)
    ensures
        vertical_double_text(side, p, is_left) == ({
            let anchor = if is_left {
                "top + left"@
            } else {
                "top + right"@
            };
            let edge = if is_left {
                -(p.left as int)
            } else {
                p.right as int
            };
            let w = side.width as int;
            double_line_text(
                anchor,
                edge - w,
                -(p.top as int),
                "90deg"@,
                p.top as int + p.bottom as int,
                side,
            ) + double_line_text(
                anchor,
                edge + w,
                -(p.top as int),
                "90deg"@,
                p.top as int + p.bottom as int,
                side,
            )
        }),
{
    reveal(vertical_double_text);
}

/// A down arrow is the up arrow mirrored top to bottom, point by point: the
/// same horizontal positions, heights measured from the other end, so its tip
/// sits at the bottom of the box while the up arrow's sits at the top. The
/// same holds of the two diagonal arrows, which turn opposite ways. No down
/// arrow draws the same outline as its up arrow.
pub proof fn law_down_arrows_mirror_up_arrows()
    ensures
        ({
            let up = arrow_shape(IconGlyph::ArrowUp).unwrap().0;
            let down = arrow_shape(IconGlyph::ArrowDown).unwrap().0;
            &&& arrow_shape(IconGlyph::ArrowDown) is Some
            &&& down.len() == up.len()
            &&& forall|i: int|
                0 <= i < up.len() ==> (#[trigger] down[i]).0 == up[i].0 && down[i].1
                    == ARROW_ICON_LENGTH - up[i].1
            &&& up[0] == (40000i64, 0i64)
            &&& down[0] == (40000i64, 100000i64)
            &&& down != up
        }),
        ({
            let up = arrow_shape(IconGlyph::ArrowUpRight).unwrap();
            let down = arrow_shape(IconGlyph::ArrowDownRight).unwrap();
            &&& arrow_shape(IconGlyph::ArrowDownRight) is Some
            &&& down.0.len() == up.0.len()
            &&& forall|i: int|
                0 <= i < up.0.len() ==> (#[trigger] down.0[i]).0 == up.0[i].0 && down.0[i].1
                    == ARROW_ICON_LENGTH - up.0[i].1
            &&& up.1 == Some(45int)
            &&& down.1 == Some(-45int)
        }),
{
    let up = up_points();
    let down = flip_y(up);
    assert(down[0] == (40000i64, 100000i64));
    assert(up[0] != down[0]);
}

} // verus!
