//! Cell borders: the `stroke:` parameter of single lines, the overlay lines
//! that draw double borders, and the inset a bordered cell reserves.
use vstd::prelude::*;

use crate::ir::{BorderLineStyle, BorderSide, CellBorder, CellVerticalAlign, Insets, TableCell};
use crate::typst_text::{
    abs, decimal_text, fill_text, format_color, insets_text, join, lemma_join_push, nat_text,
    push_decimal, push_insets, push_nat, push_rgb, rgb_text, stroke_text, stroke_value,
    write_param,
};

verus! {

/// Geometry values are kept to the thousandth of a point: `v` (in
/// ten-thousandths) rounded half away from zero to a multiple of ten.
pub open spec fn round_thousandth(v: int) -> int {
    if v < 0 {
        -((abs(v) + 5) / 10 * 10)
    } else {
        (v + 5) / 10 * 10
    }
}

/// A geometry value rounded to the thousandth of a point; a value that
/// rounds to zero prints as `0`, never `-0`.
pub open spec fn geometry_text(v: int) -> Seq<char> {
    decimal_text(round_thousandth(v))
}

/// The magnitude bound under which geometry arithmetic stays exact.
pub open spec fn geometry_in_range(v: int) -> bool {
    -0x10_0000_0000_0000_0000_0000 < v < 0x10_0000_0000_0000_0000_0000
}

/// A length in ten-thousandths of a point rounded to the thousandth and
/// printed.
pub fn format_geometry(value: i128) -> (s: String)
    requires
        geometry_in_range(value as int),
    ensures
        s@ == geometry_text(value as int),
{
    let rounded: i128 = if value < 0 {
        -((-value + 5) / 10 * 10)
    } else {
        (value + 5) / 10 * 10
    };
    let mut s = String::new();
    push_decimal(&mut s, rounded);
    s
}

/// One line of a double border, placed out of flow.
pub open spec fn double_line_text(
    align: Seq<char>,
    dx: int,
    dy: int,
    angle: Seq<char>,
    length_extra: int,
    side: BorderSide,
) -> Seq<char> {
    "#place("@ + align + ", dx: "@ + geometry_text(dx) + "pt, dy: "@ + geometry_text(dy)
        + "pt, line(length: 100% + "@ + geometry_text(length_extra) + "pt, angle: "@ + angle
        + ", stroke: "@ + geometry_text(side.width as int) + "pt + "@ + rgb_text(side.color)
        + "))"@
}

/// The two lines of a double top or bottom border, one border width either
/// side of the cell edge, spanning the cell's padding too.
#[verifier::opaque]
pub open spec fn horizontal_double_text(side: BorderSide, p: Insets, is_top: bool) -> Seq<char> {
    let align = if is_top {
        "top + left"@
    } else {
        "bottom + left"@
    };
    let w = side.width as int;
    let first_dy = if is_top {
        -(p.top as int) - w
    } else {
        p.bottom as int - w
    };
    let second_dy = if is_top {
        -(p.top as int) + w
    } else {
        p.bottom as int + w
    };
    let dx = -(p.left as int);
    let extra = p.left as int + p.right as int;
    double_line_text(align, dx, first_dy, "0deg"@, extra, side) + double_line_text(
        align,
        dx,
        second_dy,
        "0deg"@,
        extra,
        side,
    )
}

/// The two lines of a double left or right border.
#[verifier::opaque]
pub open spec fn vertical_double_text(side: BorderSide, p: Insets, is_left: bool) -> Seq<char> {
    let align = if is_left {
        "top + left"@
    } else {
        "top + right"@
    };
    let w = side.width as int;
    let first_dx = if is_left {
        -(p.left as int) - w
    } else {
        p.right as int - w
    };
    let second_dx = if is_left {
        -(p.left as int) + w
    } else {
        p.right as int + w
    };
    let dy = -(p.top as int);
    let extra = p.top as int + p.bottom as int;
    double_line_text(align, first_dx, dy, "90deg"@, extra, side) + double_line_text(
        align,
        second_dx,
        dy,
        "90deg"@,
        extra,
        side,
    )
}

/// Whether a side is present and drawn as a double line.
pub open spec fn is_double(side: Option<BorderSide>) -> bool {
    side matches Some(s) && s.style == BorderLineStyle::Double
}

/// Whether a side is present and drawn as a single line.
pub open spec fn is_single(side: Option<BorderSide>) -> bool {
    side matches Some(s) && s.style != BorderLineStyle::Double
}

/// The overlay lines of every double side: top, bottom, left, right.
pub open spec fn double_overlays_text(b: CellBorder, p: Insets) -> Seq<char> {
    (if is_double(b.top) {
        horizontal_double_text(b.top.unwrap(), p, true)
    } else {
        seq![]
    }) + (if is_double(b.bottom) {
        horizontal_double_text(b.bottom.unwrap(), p, false)
    } else {
        seq![]
    }) + (if is_double(b.left) {
        vertical_double_text(b.left.unwrap(), p, true)
    } else {
        seq![]
    }) + (if is_double(b.right) {
        vertical_double_text(b.right.unwrap(), p, false)
    } else {
        seq![]
    })
}

/// Appends one line of a double border.
fn write_double_border_line(
    out: &mut String,
    align: &str,
    dx: i128,
    dy: i128,
    angle: &str,
    length_extra: i128,
    side: &BorderSide,
)
    requires
        geometry_in_range(dx as int),
        geometry_in_range(dy as int),
        geometry_in_range(length_extra as int),
    ensures
        final(out)@ == old(out)@ + double_line_text(
            align@,
            dx as int,
            dy as int,
            angle@,
            length_extra as int,
            *side,
        ),
{
    out.append("#place(");
    out.append(align);
    out.append(", dx: ");
    let t = format_geometry(dx);
    out.append(t.as_str());
    out.append("pt, dy: ");
    let t = format_geometry(dy);
    out.append(t.as_str());
    out.append("pt, line(length: 100% + ");
    let t = format_geometry(length_extra);
    out.append(t.as_str());
    out.append("pt, angle: ");
    out.append(angle);
    out.append(", stroke: ");
    let t = format_geometry(side.width as i128);
    out.append(t.as_str());
    out.append("pt + ");
    push_rgb(out, &side.color);
    out.append("))");
    assert(out@ =~= old(out)@ + double_line_text(
        align@,
        dx as int,
        dy as int,
        angle@,
        length_extra as int,
        *side,
    ));
}

/// Appends the two lines of a double top (`is_top`) or bottom border.
pub fn write_horizontal_double_border(
    out: &mut String,
    side: &BorderSide,
    padding: Insets,
    is_top: bool,
)
    ensures
        final(out)@ == old(out)@ + horizontal_double_text(*side, padding, is_top),
{
    let align: &str = if is_top {
        "top + left"
    } else {
        "bottom + left"
    };
    let w: i128 = side.width as i128;
    let first_dy: i128 = if is_top {
        -(padding.top as i128) - w
    } else {
        padding.bottom as i128 - w
    };
    let second_dy: i128 = if is_top {
        -(padding.top as i128) + w
    } else {
        padding.bottom as i128 + w
    };
    let dx: i128 = -(padding.left as i128);
    let length_extra: i128 = padding.left as i128 + padding.right as i128;
    write_double_border_line(out, align, dx, first_dy, "0deg", length_extra, side);
    write_double_border_line(out, align, dx, second_dy, "0deg", length_extra, side);
    reveal(horizontal_double_text);
    assert(out@ =~= old(out)@ + horizontal_double_text(*side, padding, is_top));
}

/// Appends the two lines of a double left (`is_left`) or right border.
pub fn write_vertical_double_border(
    out: &mut String,
    side: &BorderSide,
    padding: Insets,
    is_left: bool,
)
    ensures
        final(out)@ == old(out)@ + vertical_double_text(*side, padding, is_left),
{
    let align: &str = if is_left {
        "top + left"
    } else {
        "top + right"
    };
    let w: i128 = side.width as i128;
    let first_dx: i128 = if is_left {
        -(padding.left as i128) - w
    } else {
        padding.right as i128 - w
    };
    let second_dx: i128 = if is_left {
        -(padding.left as i128) + w
    } else {
        padding.right as i128 + w
    };
    let dy: i128 = -(padding.top as i128);
    let length_extra: i128 = padding.top as i128 + padding.bottom as i128;
    write_double_border_line(out, align, first_dx, dy, "90deg", length_extra, side);
    write_double_border_line(out, align, second_dx, dy, "90deg", length_extra, side);
    reveal(vertical_double_text);
    assert(out@ =~= old(out)@ + vertical_double_text(*side, padding, is_left));
}

/// Whether a present side is drawn as a double line.
fn side_is_double(side: &Option<BorderSide>) -> (r: bool)
    ensures
        r == is_double(*side),
{
    match side {
        Some(s) => match s.style {
            BorderLineStyle::Double => true,
            _ => false,
        },
        None => false,
    }
}

/// Appends the overlay lines of every double side of a border; single sides
/// are drawn by the cell's stroke instead.
pub fn write_double_border_overlays(out: &mut String, border: &CellBorder, padding: Insets)
    ensures
        final(out)@ == old(out)@ + double_overlays_text(*border, padding),
{
    if side_is_double(&border.top) {
        write_horizontal_double_border(out, border.top.as_ref().unwrap(), padding, true);
    }
    if side_is_double(&border.bottom) {
        write_horizontal_double_border(out, border.bottom.as_ref().unwrap(), padding, false);
    }
    if side_is_double(&border.left) {
        write_vertical_double_border(out, border.left.as_ref().unwrap(), padding, true);
    }
    if side_is_double(&border.right) {
        write_vertical_double_border(out, border.right.as_ref().unwrap(), padding, false);
    }
    assert(out@ =~= old(out)@ + double_overlays_text(*border, padding));
}

/// A sum clamped to the range of `i64`.
pub open spec fn sat_add(a: int, b: int) -> int {
    if a + b > i64::MAX {
        i64::MAX as int
    } else if a + b < i64::MIN {
        i64::MIN as int
    } else {
        a + b
    }
}

/// Half a border side's width, to the ten-thousandth of a point (rounded
/// toward zero); zero for a missing side.
pub open spec fn half_width(side: Option<BorderSide>) -> int {
    match side {
        Some(s) => if s.width < 0 {
            -(abs(s.width as int) / 2)
        } else {
            s.width as int / 2
        },
        None => 0,
    }
}

/// The padding a cell uses: its own, else the table's default.
pub open spec fn cell_padding(cell: TableCell, default_cell_padding: Insets) -> Insets {
    match cell.padding {
        Some(p) => p,
        None => default_cell_padding,
    }
}

/// A cell's inset: its padding, plus half the width of its top and bottom
/// borders above and below.
pub open spec fn inset_with_border(cell: TableCell, default_cell_padding: Insets) -> Insets {
    let p = cell_padding(cell, default_cell_padding);
    match cell.border {
        None => p,
        Some(b) => Insets {
            top: sat_add(p.top as int, half_width(b.top)) as i64,
            bottom: sat_add(p.bottom as int, half_width(b.bottom)) as i64,
            ..p
        },
    }
}

/// `a + b`, clamped to the range of `i64`.
fn add_clamped(a: i64, b: i64) -> (r: i64)
    ensures
        r == sat_add(a as int, b as int),
{
    let s: i128 = a as i128 + b as i128;
    if s > i64::MAX as i128 {
        i64::MAX
    } else if s < i64::MIN as i128 {
        i64::MIN
    } else {
        s as i64
    }
}

/// Half a side's width; zero when the side is missing.
fn half_of(side: &Option<BorderSide>) -> (r: i64)
    ensures
        r == half_width(*side),
{
    match side {
        Some(s) => s.width / 2,
        None => 0,
    }
}

/// The cell's inset, with the layout space its horizontal borders occupy:
/// each horizontal border is shared by the rows above and below it, so each
/// cell takes half of it. Lengths are whole ten-thousandths of a point, so
/// half of an odd width is rounded toward zero (a 0.0003pt width adds
/// 0.0001pt), and a sum beyond the `i64` range is held at its limit.
pub fn cell_inset_with_border(cell: &TableCell, default_cell_padding: Insets) -> (r: Insets)
    ensures
        r == inset_with_border(*cell, default_cell_padding),
{
    let padding: Insets = match cell.padding {
        Some(p) => p,
        None => default_cell_padding,
    };
    match &cell.border {
        None => padding,
        Some(border) => Insets {
            top: add_clamped(padding.top, half_of(&border.top)),
            bottom: add_clamped(padding.bottom, half_of(&border.bottom)),
            ..padding
        },
    }
}

/// The stroke part of one single-line side: `top: 1pt + rgb(..)`.
pub open spec fn side_part(name: Seq<char>, side: Option<BorderSide>) -> Seq<char> {
    name + ": "@ + stroke_text(side.unwrap())
}

/// The stroke parts of a border's single-line sides, in the order top,
/// bottom, left, right.
pub open spec fn stroke_parts(b: CellBorder) -> Seq<Seq<char>> {
    let p0: Seq<Seq<char>> = seq![];
    let p1 = if is_single(b.top) {
        p0.push(side_part("top"@, b.top))
    } else {
        p0
    };
    let p2 = if is_single(b.bottom) {
        p1.push(side_part("bottom"@, b.bottom))
    } else {
        p1
    };
    let p3 = if is_single(b.left) {
        p2.push(side_part("left"@, b.left))
    } else {
        p2
    };
    if is_single(b.right) {
        p3.push(side_part("right"@, b.right))
    } else {
        p3
    }
}

/// `stroke: (top: .., ..)` for the single-line sides; empty when there are
/// none.
pub open spec fn cell_stroke_text(b: CellBorder) -> Seq<char> {
    if stroke_parts(b).len() == 0 {
        seq![]
    } else {
        "stroke: ("@ + join(stroke_parts(b), ", "@) + ")"@
    }
}

/// The stroke of one border side.
pub fn format_border_side(side: &BorderSide) -> (s: String)
    ensures
        s@ == stroke_text(*side),
{
    stroke_value(side)
}

/// The views of a list of strings.
pub open spec fn views(parts: Seq<String>) -> Seq<Seq<char>> {
    parts.map_values(|p: String| p@)
}

/// Strings joined by a separator.
pub fn join_strings(parts: &Vec<String>, sep: &str) -> (s: String)
    ensures
        s@ == join(views(parts@), sep@),
{
    let mut s = String::new();
    let mut i: usize = 0;
    while i < parts.len()
        invariant
            i <= parts@.len(),
            s@ == join(views(parts@.take(i as int)), sep@),
        decreases parts@.len() - i,
    {
        proof {
            lemma_join_push(views(parts@.take(i as int)), sep@, parts@[i as int]@);
            assert(views(parts@.take(i + 1)) =~= views(parts@.take(i as int)).push(
                parts@[i as int]@,
            ));
        }
        if i > 0 {
            s.append(sep);
        }
        s.append(parts[i].as_str());
        i = i + 1;
    }
    assert(parts@.take(parts@.len() as int) =~= parts@);
    s
}

/// Appends `name: <stroke>` for a side that is present and not double.
fn push_side_part(parts: &mut Vec<String>, name: &str, side: &Option<BorderSide>)
    ensures
        views(final(parts)@) == if is_single(*side) {
            views(old(parts)@).push(side_part(name@, *side))
        } else {
            views(old(parts)@)
        },
{
    if let Some(s) = side {
        match s.style {
            BorderLineStyle::Double => {},
            _ => {
                let mut part = String::new();
                part.append(name);
                part.append(": ");
                let v = format_border_side(s);
                part.append(v.as_str());
                parts.push(part);
                assert(views(parts@) =~= views(old(parts)@).push(side_part(name@, *side)));
            },
        }
    }
}

/// The `stroke:` parameter of a cell's single-line sides; empty when every
/// present side is double (those are drawn as overlays).
pub fn format_cell_stroke(border: &CellBorder) -> (s: String)
    ensures
        s@ == cell_stroke_text(*border),
{
    let mut parts: Vec<String> = Vec::new();
    assert(views(parts@) =~= seq![]);
    push_side_part(&mut parts, "top", &border.top);
    push_side_part(&mut parts, "bottom", &border.bottom);
    push_side_part(&mut parts, "left", &border.left);
    push_side_part(&mut parts, "right", &border.right);
    assert(views(parts@) =~= stroke_parts(*border));
    if parts.len() == 0 {
        String::new()
    } else {
        let mut s = String::new();
        s.append("stroke: (");
        let body = join_strings(&parts, ", ");
        s.append(body.as_str());
        s.append(")");
        s
    }
}

/// The Typst name of a vertical alignment.
pub open spec fn valign_text(va: CellVerticalAlign) -> Seq<char> {
    match va {
        CellVerticalAlign::Top => "top"@,
        CellVerticalAlign::Center => "horizon"@,
        CellVerticalAlign::Bottom => "bottom"@,
    }
}

/// The Typst name of a vertical alignment.
pub fn valign_str(va: &CellVerticalAlign) -> (s: &'static str)
    ensures
        s@ == valign_text(*va),
{
    match va {
        CellVerticalAlign::Top => "top",
        CellVerticalAlign::Center => "horizon",
        CellVerticalAlign::Bottom => "bottom",
    }
}

/// The parameters of a `table.cell(..)` call, in order: column span, row
/// span, fill, inset, stroke, vertical alignment; each only when it applies.
pub open spec fn cell_params(cell: TableCell, colspan: u32, default_cell_padding: Insets) -> Seq<
    Seq<char>,
> {
    let p0: Seq<Seq<char>> = seq![];
    let p1 = if colspan > 1 {
        p0.push("colspan: "@ + nat_text(colspan as nat))
    } else {
        p0
    };
    let p2 = if cell.row_span > 1 {
        p1.push("rowspan: "@ + nat_text(cell.row_span as nat))
    } else {
        p1
    };
    let p3 = match cell.background {
        Some(bg) => p2.push(fill_text(bg)),
        None => p2,
    };
    let p4 = if cell.padding is Some || cell.border is Some {
        p3.push("inset: "@ + insets_text(inset_with_border(cell, default_cell_padding)))
    } else {
        p3
    };
    let p5 = match cell.border {
        Some(b) => if cell_stroke_text(b).len() > 0 {
            p4.push(cell_stroke_text(b))
        } else {
            p4
        },
        None => p4,
    };
    match cell.vertical_align {
        Some(va) => p5.push("align: "@ + valign_text(va)),
        None => p5,
    }
}

/// Appends one parameter to a list written so far.
fn write_cell_param(
    out: &mut String,
    first: &mut bool,
    s: &str,
    Ghost(start): Ghost<Seq<char>>,
    Ghost(parts): Ghost<Seq<Seq<char>>>,
)
    requires
        old(out)@ == start + join(parts, ", "@),
        *old(first) == (parts.len() == 0),
    ensures
        final(out)@ == start + join(parts.push(s@), ", "@),
        *final(first) == false,
{
    proof {
        lemma_join_push(parts, ", "@, s@);
    }
    write_param(out, first, s);
    assert(out@ =~= start + join(parts.push(s@), ", "@));
}

/// Appends the parameters of a cell's `table.cell(..)` call.
pub fn write_cell_params(
    out: &mut String,
    cell: &TableCell,
    clamped_colspan: u32,
    default_cell_padding: Insets,
)
    ensures
        final(out)@ == old(out)@ + join(
            cell_params(*cell, clamped_colspan, default_cell_padding),
            ", "@,
        ),
{
    let ghost start = old(out)@;
    let ghost mut parts: Seq<Seq<char>> = seq![];
    let mut first = true;
    assert(out@ =~= start + join(parts, ", "@));
    if clamped_colspan > 1 {
        let mut p = String::new();
        p.append("colspan: ");
        push_nat(&mut p, clamped_colspan as u128);
        write_cell_param(out, &mut first, p.as_str(), Ghost(start), Ghost(parts));
        proof {
            parts = parts.push(p@);
        }
    }
    if cell.row_span > 1 {
        let mut p = String::new();
        p.append("rowspan: ");
        push_nat(&mut p, cell.row_span as u128);
        write_cell_param(out, &mut first, p.as_str(), Ghost(start), Ghost(parts));
        proof {
            parts = parts.push(p@);
        }
    }
    if let Some(bg) = &cell.background {
        let p = format_color(bg);
        write_cell_param(out, &mut first, p.as_str(), Ghost(start), Ghost(parts));
        proof {
            parts = parts.push(p@);
        }
    }
    let inset: Insets = cell_inset_with_border(cell, default_cell_padding);
    if cell.padding.is_some() || cell.border.is_some() {
        let mut p = String::new();
        p.append("inset: ");
        push_insets(&mut p, &inset);
        write_cell_param(out, &mut first, p.as_str(), Ghost(start), Ghost(parts));
        proof {
            parts = parts.push(p@);
        }
    }
    if let Some(border) = &cell.border {
        let stroke = format_cell_stroke(border);
        if !stroke.as_str().is_empty() {
            write_cell_param(out, &mut first, stroke.as_str(), Ghost(start), Ghost(parts));
            proof {
                parts = parts.push(stroke@);
            }
        }
    }
    if let Some(va) = &cell.vertical_align {
        let mut p = String::new();
        p.append("align: ");
        p.append(valign_str(va));
        write_cell_param(out, &mut first, p.as_str(), Ghost(start), Ghost(parts));
        proof {
            parts = parts.push(p@);
        }
    }
    assert(parts =~= cell_params(*cell, clamped_colspan, default_cell_padding));
}

} // verus!
