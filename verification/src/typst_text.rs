//! Text pieces of generated Typst source: numbers, colors, insets, strokes,
//! escaped text and comma-separated parameter lists.
use vstd::prelude::*;

use crate::ir::{BorderLineStyle, BorderSide, Color, Insets};

verus! {

/// The character of a decimal digit.
pub open spec fn digit_char(d: int) -> char {
    (48 + d) as char
}

/// The decimal numeral of a natural number, without leading zeros.
pub open spec fn nat_text(n: nat) -> Seq<char>
    decreases n,
{
    if n < 10 {
        seq![digit_char(n as int)]
    } else {
        nat_text(n / 10).push(digit_char((n % 10) as int))
    }
}

/// The absolute value of an integer.
pub open spec fn abs(v: int) -> nat {
    if v < 0 {
        (-v) as nat
    } else {
        v as nat
    }
}

/// The fractional digits of a value in ten-thousandths, trailing zeros
/// dropped, after a decimal point; nothing when the fraction is zero.
pub open spec fn frac_text(f: nat) -> Seq<char> {
    let d1 = digit_char((f / 1000) as int);
    let d2 = digit_char(((f / 100) % 10) as int);
    let d3 = digit_char(((f / 10) % 10) as int);
    let d4 = digit_char((f % 10) as int);
    if f == 0 {
        seq![]
    } else if f % 1000 == 0 {
        seq!['.', d1]
    } else if f % 100 == 0 {
        seq!['.', d1, d2]
    } else if f % 10 == 0 {
        seq!['.', d1, d2, d3]
    } else {
        seq!['.', d1, d2, d3, d4]
    }
}

/// The shortest decimal numeral of `v / 10000`: a minus sign when negative,
/// the integer part, then at most four fractional digits.
pub open spec fn decimal_text(v: int) -> Seq<char> {
    let sign: Seq<char> = if v < 0 {
        seq!['-']
    } else {
        seq![]
    };
    sign + nat_text(abs(v) / 10000) + frac_text(abs(v) % 10000)
}

/// A length in ten-thousandths of a point, written in points: `12.5pt`.
pub open spec fn pt_text(v: int) -> Seq<char> {
    decimal_text(v) + seq!['p', 't']
}

/// `rgb(r, g, b)`.
pub open spec fn rgb_text(c: Color) -> Seq<char> {
    seq!['r', 'g', 'b', '('] + nat_text(c.r as nat) + seq![',', ' '] + nat_text(c.g as nat)
        + seq![',', ' '] + nat_text(c.b as nat) + seq![')']
}

/// `fill: rgb(r, g, b)`.
pub open spec fn fill_text(c: Color) -> Seq<char> {
    "fill: "@ + rgb_text(c)
}

/// `(top: ..pt, right: ..pt, bottom: ..pt, left: ..pt)`.
pub open spec fn insets_text(p: Insets) -> Seq<char> {
    "(top: "@ + pt_text(p.top as int) + ", right: "@ + pt_text(p.right as int) + ", bottom: "@
        + pt_text(p.bottom as int) + ", left: "@ + pt_text(p.left as int) + ")"@
}

/// The Typst stroke of one border side: `0.5pt + rgb(..)` for a plain line,
/// a dictionary with a dash pattern for dashed and dotted lines.
pub open spec fn stroke_text(side: BorderSide) -> Seq<char> {
    match side.style {
        BorderLineStyle::Dashed => "(paint: "@ + rgb_text(side.color) + ", thickness: "@ + pt_text(
            side.width as int,
        ) + ", dash: \"dashed\")"@,
        BorderLineStyle::Dotted => "(paint: "@ + rgb_text(side.color) + ", thickness: "@ + pt_text(
            side.width as int,
        ) + ", dash: \"dotted\")"@,
        _ => pt_text(side.width as int) + " + "@ + rgb_text(side.color),
    }
}

/// Parts joined by a separator.
pub open spec fn join(parts: Seq<Seq<char>>, sep: Seq<char>) -> Seq<char>
    decreases parts.len(),
{
    if parts.len() == 0 {
        seq![]
    } else if parts.len() == 1 {
        parts[0]
    } else {
        join(parts.drop_last(), sep) + sep + parts.last()
    }
}

/// Joining one more part adds the separator only after a first part.
pub proof fn lemma_join_push(parts: Seq<Seq<char>>, sep: Seq<char>, p: Seq<char>)
    ensures
        join(parts.push(p), sep) == if parts.len() == 0 {
            p
        } else {
            join(parts, sep) + sep + p
        },
{
    assert(parts.push(p).drop_last() =~= parts);
}

/// The characters that Typst markup gives a meaning to, which plain text has
/// to escape with a backslash.
pub open spec fn is_markup_char(c: char) -> bool {
    c == '\\' || c == '#' || c == '*' || c == '_' || c == '$' || c == '[' || c == ']' || c == '@'
        || c == '<' || c == '>' || c == '`' || c == '~'
}

/// Plain text escaped for Typst markup.
pub open spec fn escaped_text(s: Seq<char>) -> Seq<char>
    decreases s.len(),
{
    if s.len() == 0 {
        seq![]
    } else {
        let c = s.last();
        escaped_text(s.drop_last()) + if is_markup_char(c) {
            seq!['\\', c]
        } else {
            seq![c]
        }
    }
}

/// Characters of the East Asian scripts: Hangul, kana, CJK ideographs and
/// punctuation, Bopomofo, and the full-width forms.
pub open spec fn is_cjk_like_spec(c: char) -> bool {
    let v = c as int;
    (0x1100 <= v <= 0x11FF) || (0x2E80 <= v <= 0x2FDF) || (0x3000 <= v <= 0x303F) || (0x3040
        <= v <= 0x30FF) || (0x3100 <= v <= 0x318F) || (0x31F0 <= v <= 0x31FF) || (0x3400 <= v
        <= 0x4DBF) || (0x4E00 <= v <= 0x9FFF) || (0xA960 <= v <= 0xA97F) || (0xAC00 <= v
        <= 0xD7AF) || (0xF900 <= v <= 0xFAFF) || (0xFF00 <= v <= 0xFFEF) || (0x20000 <= v
        <= 0x2FFFF)
}

/// Whether a character belongs to an East Asian script.
#[verifier::when_used_as_spec(is_cjk_like_spec)]
pub fn is_cjk_like(c: char) -> (r: bool)
    ensures
        r == is_cjk_like_spec(c),
{
    let v: u32 = c as u32;
    (0x1100 <= v && v <= 0x11FF) || (0x2E80 <= v && v <= 0x2FDF) || (0x3000 <= v && v <= 0x303F)
        || (0x3040 <= v && v <= 0x30FF) || (0x3100 <= v && v <= 0x318F) || (0x31F0 <= v && v
        <= 0x31FF) || (0x3400 <= v && v <= 0x4DBF) || (0x4E00 <= v && v <= 0x9FFF) || (0xA960
        <= v && v <= 0xA97F) || (0xAC00 <= v && v <= 0xD7AF) || (0xF900 <= v && v <= 0xFAFF)
        || (0xFF00 <= v && v <= 0xFFEF) || (0x20000 <= v && v <= 0x2FFFF)
}

/// Whether any character of a text belongs to an East Asian script.
pub open spec fn has_cjk(s: Seq<char>) -> bool {
    exists|i: int| 0 <= i < s.len() && #[trigger] is_cjk_like_spec(s[i])
}

/// Appends one character.
///
/// Calls `String::push`, which appends the character to the string's
/// contents; the contract claims exactly that.
#[verifier::external_body]
pub(crate) fn push_char(out: &mut String, c: char)
    ensures
        final(out)@ == old(out)@.push(c),
{
    out.push(c);
}

/// Appends the decimal numeral of a natural number.
pub fn push_nat(out: &mut String, n: u128)
    ensures
        final(out)@ == old(out)@ + nat_text(n as nat),
    decreases n,
{
    if n >= 10 {
        push_nat(out, n / 10);
    }
    let d: u8 = (n % 10) as u8;
    push_char(out, (48u8 + d) as char);
    proof {
        assert(((48u8 + d) as char) == digit_char(d as int));
    }
    assert(out@ =~= old(out)@ + nat_text(n as nat)) by {
        if n >= 10 {
            assert(nat_text(n as nat) == nat_text((n / 10) as nat).push(digit_char((n % 10) as int)));
        }
    }
}


/// Appends a decimal digit.
fn push_digit(out: &mut String, d: u128)
    requires
        d < 10,
    ensures
        final(out)@ == old(out)@.push(digit_char(d as int)),
{
    let b: u8 = d as u8;
    push_char(out, (48u8 + b) as char);
}

/// Appends the shortest decimal numeral of `v / 10000`.
pub fn push_decimal(out: &mut String, v: i128)
    requires
        v > i128::MIN,
    ensures
        final(out)@ == old(out)@ + decimal_text(v as int),
{
    let a: u128 = if v < 0 {
        push_char(out, '-');
        (-v) as u128
    } else {
        v as u128
    };
    push_nat(out, a / 10000);
    let f: u128 = a % 10000;
    if f != 0 {
        push_char(out, '.');
        push_digit(out, f / 1000);
        if f % 1000 != 0 {
            push_digit(out, (f / 100) % 10);
            if f % 100 != 0 {
                push_digit(out, (f / 10) % 10);
                if f % 10 != 0 {
                    push_digit(out, f % 10);
                }
            }
        }
    }
    assert(a as nat == abs(v as int));
    assert(out@ =~= old(out)@ + decimal_text(v as int));
}

/// Appends a length in ten-thousandths of a point, written in points.
pub fn push_pt(out: &mut String, v: i128)
    requires
        v > i128::MIN,
    ensures
        final(out)@ == old(out)@ + pt_text(v as int),
{
    push_decimal(out, v);
    out.append("pt");
    proof {
        reveal_strlit("pt");
    }
    assert(out@ =~= old(out)@ + pt_text(v as int));
}

/// Appends `rgb(r, g, b)`.
pub fn push_rgb(out: &mut String, c: &Color)
    ensures
        final(out)@ == old(out)@ + rgb_text(*c),
{
    out.append("rgb(");
    push_nat(out, c.r as u128);
    out.append(", ");
    push_nat(out, c.g as u128);
    out.append(", ");
    push_nat(out, c.b as u128);
    out.append(")");
    proof {
        reveal_strlit("rgb(");
        reveal_strlit(", ");
        reveal_strlit(")");
    }
    assert(out@ =~= old(out)@ + rgb_text(*c));
}

/// The Typst color of a color: `rgb(r, g, b)`.
pub fn rgb(c: &Color) -> (s: String)
    ensures
        s@ == rgb_text(*c),
{
    let mut s = String::new();
    push_rgb(&mut s, c);
    s
}

/// The fill parameter of a color: `fill: rgb(r, g, b)`.
pub fn format_color(c: &Color) -> (s: String)
    ensures
        s@ == fill_text(*c),
{
    let mut s = String::new();
    s.append("fill: ");
    push_rgb(&mut s, c);
    s
}

/// Appends an inset dictionary.
pub fn push_insets(out: &mut String, p: &Insets)
    ensures
        final(out)@ == old(out)@ + insets_text(*p),
{
    out.append("(top: ");
    push_pt(out, p.top as i128);
    out.append(", right: ");
    push_pt(out, p.right as i128);
    out.append(", bottom: ");
    push_pt(out, p.bottom as i128);
    out.append(", left: ");
    push_pt(out, p.left as i128);
    out.append(")");
    assert(out@ =~= old(out)@ + insets_text(*p));
}

/// The Typst inset dictionary of a padding.
pub fn format_insets(p: &Insets) -> (s: String)
    ensures
        s@ == insets_text(*p),
{
    let mut s = String::new();
    push_insets(&mut s, p);
    s
}

/// The Typst stroke of one border side.
pub fn stroke_value(side: &BorderSide) -> (s: String)
    ensures
        s@ == stroke_text(*side),
{
    let mut s = String::new();
    match side.style {
        BorderLineStyle::Dashed => {
            s.append("(paint: ");
            push_rgb(&mut s, &side.color);
            s.append(", thickness: ");
            push_pt(&mut s, side.width as i128);
            s.append(", dash: \"dashed\")");
        },
        BorderLineStyle::Dotted => {
            s.append("(paint: ");
            push_rgb(&mut s, &side.color);
            s.append(", thickness: ");
            push_pt(&mut s, side.width as i128);
            s.append(", dash: \"dotted\")");
        },
        _ => {
            push_pt(&mut s, side.width as i128);
            s.append(" + ");
            push_rgb(&mut s, &side.color);
        },
    }
    assert(s@ =~= stroke_text(*side));
    s
}

/// Appends one parameter of a comma-separated list: a separator before every
/// parameter but the first.
pub fn write_param(out: &mut String, first: &mut bool, s: &str)
    ensures
        final(out)@ == old(out)@ + (if *old(first) {
            s@
        } else {
            ", "@ + s@
        }),
        *final(first) == false,
{
    if !*first {
        out.append(", ");
    }
    out.append(s);
    *first = false;
    assert(out@ =~= old(out)@ + (if *old(first) {
        s@
    } else {
        ", "@ + s@
    }));
}

/// Appends one more parameter to a list that holds `parts` so far.
pub(crate) fn write_next_param(
    out: &mut String,
    first: &mut bool,
    p: &str,
    Ghost(start): Ghost<Seq<char>>,
    Ghost(parts): Ghost<Seq<Seq<char>>>,
)
    requires
        old(out)@ == start + join(parts, ", "@),
        *old(first) == (parts.len() == 0),
    ensures
        final(out)@ == start + join(parts.push(p@), ", "@),
        *final(first) == false,
{
    write_param(out, first, p);
    proof {
        lemma_join_push(parts, ", "@, p@);
    }
    assert(out@ =~= start + join(parts.push(p@), ", "@));
}

/// Appends plain text escaped for Typst markup.
pub fn push_escaped(out: &mut String, s: &str)
    ensures
        final(out)@ == old(out)@ + escaped_text(s@),
{
    let n: usize = s.unicode_len();
    let mut i: usize = 0;
    while i < n
        invariant
            n == s@.len(),
            i <= n,
            out@ == old(out)@ + escaped_text(s@.take(i as int)),
        decreases n - i,
    {
        let c: char = s.get_char(i);
        if c == '\\' || c == '#' || c == '*' || c == '_' || c == '$' || c == '[' || c == ']'
            || c == '@' || c == '<' || c == '>' || c == '`' || c == '~' {
            push_char(out, '\\');
        }
        push_char(out, c);
        proof {
            assert(s@.take(i + 1).drop_last() =~= s@.take(i as int));
        }
        i = i + 1;
        assert(out@ =~= old(out)@ + escaped_text(s@.take(i as int)));
    }
    assert(s@.take(n as int) =~= s@);
}

} // verus!
