//! Conditional-format icons drawn as shapes: circles as discs, arrows as
//! outlined polygons. Other icons stay characters.
use vstd::prelude::*;

use crate::ir::{Color, IconGlyph};
use crate::typst_text::{decimal_text, join, lemma_join_push, nat_text, pt_text, push_nat, push_pt, push_rgb, rgb_text};

verus! {

/// The length of an arrow icon, in ten-thousandths of a point (10pt).
pub const ARROW_ICON_LENGTH: i64 = 100000;

/// The breadth of an arrow icon across its shaft (8pt).
pub const ARROW_ICON_BREADTH: i64 = 80000;

/// The radius of a circular icon: half its 8.96pt diameter.
pub const CIRCLE_ICON_RADIUS: i64 = 44800;

/// The paint of an icon: its color, else black.
pub open spec fn paint_text(color: Option<Color>) -> Seq<char> {
    match color {
        Some(c) => rgb_text(c),
        None => "black"@,
    }
}

/// The outline of an up arrow, clockwise from the tip: the head spans the
/// full breadth and meets the shaft at 45% of the length; the shaft is 56% of
/// the breadth wide.
pub open spec fn up_points() -> Seq<(i64, i64)> {
    seq![
        (40000i64, 0i64),
        (80000i64, 45000i64),
        (62400i64, 45000i64),
        (62400i64, 100000i64),
        (17600i64, 100000i64),
        (17600i64, 45000i64),
        (0i64, 45000i64),
    ]
}

/// Points mirrored top to bottom.
pub open spec fn flip_y(points: Seq<(i64, i64)>) -> Seq<(i64, i64)> {
    points.map_values(|p: (i64, i64)| (p.0, (ARROW_ICON_LENGTH - p.1) as i64))
}

/// Points turned a quarter clockwise: an up arrow becomes a right arrow.
pub open spec fn transpose(points: Seq<(i64, i64)>) -> Seq<(i64, i64)> {
    points.map_values(|p: (i64, i64)| ((ARROW_ICON_LENGTH - p.1) as i64, p.0))
}

/// The outline and rotation of an arrow glyph; `None` for any other glyph.
pub open spec fn arrow_shape(glyph: IconGlyph) -> Option<(Seq<(i64, i64)>, Option<int>)> {
    match glyph {
        IconGlyph::ArrowUp => Some((up_points(), None)),
        IconGlyph::ArrowDown => Some((flip_y(up_points()), None)),
        IconGlyph::ArrowRight => Some((transpose(up_points()), None)),
        IconGlyph::ArrowUpRight => Some((up_points(), Some(45))),
        IconGlyph::ArrowDownRight => Some((flip_y(up_points()), Some(-45))),
        _ => None,
    }
}

/// `(x pt, y pt)`.
pub open spec fn point_text(p: (i64, i64)) -> Seq<char> {
    "("@ + pt_text(p.0 as int) + ", "@ + pt_text(p.1 as int) + ")"@
}

/// The coordinates of a polygon, comma separated.
pub open spec fn points_text(points: Seq<(i64, i64)>) -> Seq<char> {
    join(points.map_values(|p: (i64, i64)| point_text(p)), ", "@)
}

/// A signed whole number.
pub open spec fn int_text(v: int) -> Seq<char> {
    if v < 0 {
        seq!['-'] + nat_text((-v) as nat)
    } else {
        nat_text(v as nat)
    }
}

/// The Typst polygon of an arrow glyph, filled with its paint, outlined a
/// shade darker, rotated for the diagonal arrows.
pub open spec fn arrow_polygon_text(glyph: IconGlyph, color: Option<Color>) -> Option<Seq<char>> {
    match arrow_shape(glyph) {
        None => None,
        Some((points, rotation)) => {
            let paint = paint_text(color);
            let shape = "polygon(fill: "@ + paint + ", stroke: 0.4pt + "@ + paint
                + ".darken(30%), "@ + points_text(points) + ")"@;
            Some(
                match rotation {
                    Some(deg) => "rotate("@ + int_text(deg) + "deg, "@ + shape + ")"@,
                    None => shape,
                },
            )
        },
    }
}

/// The drawn shape of an icon glyph; `None` for glyphs that stay characters.
pub open spec fn icon_shape_text(glyph: IconGlyph, color: Option<Color>) -> Option<Seq<char>> {
    match glyph {
        IconGlyph::Circle => Some(
            "circle(radius: "@ + decimal_text(CIRCLE_ICON_RADIUS as int) + "pt, fill: "@
                + paint_text(color) + ", stroke: none)"@,
        ),
        _ => arrow_polygon_text(glyph, color),
    }
}

/// Appends the paint of an icon.
fn push_paint(out: &mut String, color: Option<Color>)
    ensures
        final(out)@ == old(out)@ + paint_text(color),
{
    match color {
        Some(c) => push_rgb(out, &c),
        None => out.append("black"),
    }
}

/// The outline of an up arrow.
fn up_arrow_points() -> (v: Vec<(i64, i64)>)
    ensures
        v@ == up_points(),
{
    let v: Vec<(i64, i64)> = vec![
        (40000i64, 0i64),
        (80000i64, 45000i64),
        (62400i64, 45000i64),
        (62400i64, 100000i64),
        (17600i64, 100000i64),
        (17600i64, 45000i64),
        (0i64, 45000i64),
    ];
    assert(v@ =~= up_points());
    v
}

/// Whether a point lies within the arrow's bounding square.
pub open spec fn in_icon_box(points: Seq<(i64, i64)>) -> bool {
    forall|i: int|
        0 <= i < points.len() ==> 0 <= #[trigger] points[i].0 <= ARROW_ICON_LENGTH && 0
            <= points[i].1 <= ARROW_ICON_LENGTH
}

/// The points mirrored top to bottom.
fn flip_points(points: &Vec<(i64, i64)>) -> (r: Vec<(i64, i64)>)
    requires
        in_icon_box(points@),
    ensures
        r@ == flip_y(points@),
        in_icon_box(r@),
{
    let mut r: Vec<(i64, i64)> = Vec::new();
    let mut i: usize = 0;
    while i < points.len()
        invariant
            i <= points@.len(),
            in_icon_box(points@),
            r@ == flip_y(points@.take(i as int)),
        decreases points@.len() - i,
    {
        let (x, y) = points[i];
        r.push((x, ARROW_ICON_LENGTH - y));
        i = i + 1;
        assert(r@ =~= flip_y(points@.take(i as int)));
    }
    assert(points@.take(points@.len() as int) =~= points@);
    r
}

/// The points turned a quarter clockwise.
fn transpose_points(points: &Vec<(i64, i64)>) -> (r: Vec<(i64, i64)>)
    requires
        in_icon_box(points@),
    ensures
        r@ == transpose(points@),
{
    let mut r: Vec<(i64, i64)> = Vec::new();
    let mut i: usize = 0;
    while i < points.len()
        invariant
            i <= points@.len(),
            in_icon_box(points@),
            r@ == transpose(points@.take(i as int)),
        decreases points@.len() - i,
    {
        let (x, y) = points[i];
        r.push((ARROW_ICON_LENGTH - y, x));
        i = i + 1;
        assert(r@ =~= transpose(points@.take(i as int)));
    }
    assert(points@.take(points@.len() as int) =~= points@);
    r
}

/// Appends the coordinates of a polygon.
fn push_points(out: &mut String, points: &Vec<(i64, i64)>)
    ensures
        final(out)@ == old(out)@ + points_text(points@),
{
    let ghost start = old(out)@;
    let mut i: usize = 0;
    while i < points.len()
        invariant
            i <= points@.len(),
            out@ == start + points_text(points@.take(i as int)),
        decreases points@.len() - i,
    {
        let ghost parts = points@.take(i as int).map_values(|p: (i64, i64)| point_text(p));
        proof {
            lemma_join_push(parts, ", "@, point_text(points@[i as int]));
            assert(points@.take(i + 1).map_values(|p: (i64, i64)| point_text(p)) =~= parts.push(
                point_text(points@[i as int]),
            ));
        }
        if i > 0 {
            out.append(", ");
        }
        let (x, y) = points[i];
        out.append("(");
        push_pt(out, x as i128);
        out.append(", ");
        push_pt(out, y as i128);
        out.append(")");
        i = i + 1;
        assert(out@ =~= start + points_text(points@.take(i as int)));
    }
    assert(points@.take(points@.len() as int) =~= points@);
}

/// The Typst `polygon` for one of the arrow icon-set glyphs, or `None` for
/// any other glyph.
pub fn arrow_icon_polygon(glyph: &IconGlyph, color: Option<Color>) -> (r: Option<String>)
    ensures
        r matches Some(s) ==> arrow_polygon_text(*glyph, color) == Some(s@),
        r is None ==> arrow_polygon_text(*glyph, color) is None,
{
    let up = up_arrow_points();
    assert(in_icon_box(up@));
    let (points, rotation): (Vec<(i64, i64)>, Option<i32>) = match glyph {
        IconGlyph::ArrowUp => (up, None),
        IconGlyph::ArrowDown => (flip_points(&up), None),
        IconGlyph::ArrowRight => (transpose_points(&up), None),
        IconGlyph::ArrowUpRight => (up, Some(45)),
        IconGlyph::ArrowDownRight => (flip_points(&up), Some(-45)),
        _ => {
            return None;
        },
    };
    let ghost sh = arrow_shape(*glyph).unwrap();
    assert(points@ == sh.0);
    let mut shape = String::new();
    shape.append("polygon(fill: ");
    push_paint(&mut shape, color);
    shape.append(", stroke: 0.4pt + ");
    push_paint(&mut shape, color);
    shape.append(".darken(30%), ");
    push_points(&mut shape, &points);
    shape.append(")");
    match rotation {
        Some(degrees) => {
            let mut s = String::new();
            s.append("rotate(");
            if degrees < 0 {
                s.append("-");
                push_nat(&mut s, (-degrees) as u128);
            } else {
                push_nat(&mut s, degrees as u128);
            }
            s.append("deg, ");
            s.append(shape.as_str());
            s.append(")");
            proof {
                reveal_strlit("-");
            }
            assert(s@ =~= arrow_polygon_text(*glyph, color).unwrap());
            Some(s)
        },
        None => {
            assert(shape@ =~= arrow_polygon_text(*glyph, color).unwrap());
            Some(shape)
        },
    }
}

/// The drawn shape for an icon-set glyph, or `None` for the glyphs that stay
/// characters.
pub fn icon_shape(glyph: &IconGlyph, color: Option<Color>) -> (r: Option<String>)
    ensures
        r matches Some(s) ==> icon_shape_text(*glyph, color) == Some(s@),
        r is None ==> icon_shape_text(*glyph, color) is None,
{
    match glyph {
        IconGlyph::Circle => {
            let mut s = String::new();
            s.append("circle(radius: ");
            push_pt(&mut s, CIRCLE_ICON_RADIUS as i128);
            s.append(", fill: ");
            push_paint(&mut s, color);
            s.append(", stroke: none)");
            proof {
                reveal_strlit("pt, fill: ");
                reveal_strlit(", fill: ");
                reveal_strlit("pt");
            }
            assert(s@ =~= icon_shape_text(*glyph, color).unwrap());
            Some(s)
        },
        _ => arrow_icon_polygon(glyph, color),
    }
}

} // verus!
