//! Runs of text as Typst markup: their character properties, the links they
//! point to and the notes they carry.
use vstd::prelude::*;

use crate::ir::{Run, TextStyle};
use crate::typst_text::{
    escaped_text, join, pt_text, push_char, push_escaped, push_pt, push_rgb, rgb_text,
    write_next_param,
};

verus! {

/// The weight parameter a style sets.
pub open spec fn weight_params(s: TextStyle) -> Seq<Seq<char>> {
    if s.bold == Some(true) {
        seq!["weight: \"bold\""@]
    } else {
        seq![]
    }
}

/// The weight and slant parameters a style sets.
pub open spec fn slant_params(s: TextStyle) -> Seq<Seq<char>> {
    if s.italic == Some(true) {
        weight_params(s).push("style: \"italic\""@)
    } else {
        weight_params(s)
    }
}

/// The weight, slant and size parameters a style sets.
pub open spec fn size_params(s: TextStyle) -> Seq<Seq<char>> {
    match s.font_size {
        Some(v) => slant_params(s).push("size: "@ + pt_text(v as int)),
        None => slant_params(s),
    }
}

/// The `text` parameters a style sets, in order: weight, style, size, fill.
pub open spec fn style_params(s: TextStyle) -> Seq<Seq<char>> {
    match s.color {
        Some(col) => size_params(s).push("fill: "@ + rgb_text(col)),
        None => size_params(s),
    }
}

/// The opening of a styled piece of markup: `#text(params)[`, or nothing when
/// the style sets no property.
pub open spec fn style_open_text(s: TextStyle) -> Seq<char> {
    if style_params(s).len() == 0 {
        seq![]
    } else {
        "#text("@ + join(style_params(s), ", "@) + ")["@
    }
}

/// Markup in a style: inside `#text(params)[..]` when the style sets a
/// property, else unchanged.
pub open spec fn styled_text(s: TextStyle, body: Seq<char>) -> Seq<char> {
    if style_params(s).len() == 0 {
        body
    } else {
        style_open_text(s) + body + "]"@
    }
}

/// Text escaped for a Typst string literal: a backslash before each `"` and
/// each `\`.
pub open spec fn string_escaped(s: Seq<char>) -> Seq<char>
    decreases s.len(),
{
    if s.len() == 0 {
        seq![]
    } else {
        let c = s.last();
        string_escaped(s.drop_last()) + if c == '"' || c == '\\' {
            seq!['\\', c]
        } else {
            seq![c]
        }
    }
}

/// A run's text, escaped and in its style (nothing for an empty text), inside
/// `#link("target")[..]` when the run links somewhere.
#[verifier::opaque]
pub open spec fn run_body_text(r: Run) -> Seq<char> {
    let t = if r.text@.len() == 0 {
        seq![]
    } else {
        styled_text(r.style, escaped_text(r.text@))
    };
    match r.href {
        Some(u) => "#link(\""@ + string_escaped(u@) + "\")["@ + t + "]"@,
        None => t,
    }
}

/// The runs of a note, one after another.
pub open spec fn note_text(notes: Seq<Run>) -> Seq<char>
    decreases notes.len(),
{
    if notes.len() == 0 {
        seq![]
    } else {
        note_text(notes.drop_last()) + run_body_text(notes.last())
    }
}

/// The note a run carries: `#footnote[..]`, or nothing.
pub open spec fn footnote_text(r: Run) -> Seq<char> {
    match r.footnote {
        Some(notes) => "#footnote["@ + note_text(notes@) + "]"@,
        None => seq![],
    }
}

/// A run: its body, then its note.
#[verifier::opaque]
pub open spec fn run_text(r: Run) -> Seq<char> {
    run_body_text(r) + footnote_text(r)
}

/// Runs one after another.
pub open spec fn runs_text(runs: Seq<Run>) -> Seq<char>
    decreases runs.len(),
{
    if runs.len() == 0 {
        seq![]
    } else {
        runs_text(runs.drop_last()) + run_text(runs.last())
    }
}

/// Appends the parameters of a style, separated by commas.
fn write_style_params(out: &mut String, s: &TextStyle)
    ensures
        final(out)@ == old(out)@ + join(style_params(*s), ", "@),
{
    let ghost start: Seq<char> = out@;
    let mut first: bool = true;
    let ghost none: Seq<Seq<char>> = Seq::empty();
    assert(out@ =~= start + join(none, ", "@));
    if matches!(s.bold, Some(true)) {
        write_next_param(out, &mut first, "weight: \"bold\"", Ghost(start), Ghost(none));
        assert(none.push("weight: \"bold\""@) =~= weight_params(*s));
    }
    assert(out@ == start + join(weight_params(*s), ", "@));
    if matches!(s.italic, Some(true)) {
        write_next_param(
            out,
            &mut first,
            "style: \"italic\"",
            Ghost(start),
            Ghost(weight_params(*s)),
        );
    }
    assert(out@ == start + join(slant_params(*s), ", "@));
    if let Some(v) = s.font_size {
        let mut p = String::new();
        p.append("size: ");
        push_pt(&mut p, v as i128);
        write_next_param(out, &mut first, p.as_str(), Ghost(start), Ghost(slant_params(*s)));
    }
    assert(out@ == start + join(size_params(*s), ", "@));
    if let Some(col) = s.color {
        let mut p = String::new();
        p.append("fill: ");
        push_rgb(&mut p, &col);
        write_next_param(out, &mut first, p.as_str(), Ghost(start), Ghost(size_params(*s)));
    }
}

/// Appends the opening of a styled piece of markup; says whether it opened
/// one, which then needs a closing `]`.
pub fn write_style_open(out: &mut String, s: &TextStyle) -> (wrapped: bool)
    ensures
        wrapped == (style_params(*s).len() > 0),
        final(out)@ == old(out)@ + style_open_text(*s),
{
    let wrapped: bool = matches!(s.bold, Some(true)) || matches!(s.italic, Some(true))
        || s.font_size.is_some() || s.color.is_some();
    if !wrapped {
        assert(style_params(*s).len() == 0);
        assert(out@ =~= old(out)@ + style_open_text(*s));
        return false;
    }
    out.append("#text(");
    write_style_params(out, s);
    out.append(")[");
    assert(out@ =~= old(out)@ + style_open_text(*s));
    true
}

/// Appends text escaped for a Typst string literal.
pub fn push_string_escaped(out: &mut String, s: &str)
    ensures
        final(out)@ == old(out)@ + string_escaped(s@),
{
    let n: usize = s.unicode_len();
    let mut i: usize = 0;
    while i < n
        invariant
            n == s@.len(),
            i <= n,
            out@ == old(out)@ + string_escaped(s@.take(i as int)),
        decreases n - i,
    {
        let c: char = s.get_char(i);
        if c == '"' || c == '\\' {
            push_char(out, '\\');
        }
        push_char(out, c);
        proof {
            assert(s@.take(i + 1).drop_last() =~= s@.take(i as int));
        }
        i = i + 1;
        assert(out@ =~= old(out)@ + string_escaped(s@.take(i as int)));
    }
    assert(s@.take(n as int) =~= s@);
}

/// Appends a run's body: its text in its style, inside a link when it has a
/// target.
pub fn write_run_body(out: &mut String, r: &Run)
    ensures
        final(out)@ == old(out)@ + run_body_text(*r),
{
    reveal(run_body_text);
    if let Some(u) = &r.href {
        out.append("#link(\"");
        push_string_escaped(out, u.as_str());
        out.append("\")[");
    }
    let ghost mid: Seq<char> = out@;
    if !r.text.as_str().is_empty() {
        let wrapped: bool = write_style_open(out, &r.style);
        push_escaped(out, r.text.as_str());
        if wrapped {
            out.append("]");
        }
    }
    let ghost t: Seq<char> = if r.text@.len() == 0 {
        seq![]
    } else {
        styled_text(r.style, escaped_text(r.text@))
    };
    assert(out@ =~= mid + t);
    if r.href.is_some() {
        out.append("]");
    }
    assert(out@ =~= old(out)@ + run_body_text(*r));
}

/// Appends a run: its body, then its note.
pub fn write_run(out: &mut String, r: &Run)
    ensures
        final(out)@ == old(out)@ + run_text(*r),
{
    reveal(run_text);
    write_run_body(out, r);
    let ghost mid: Seq<char> = out@;
    if let Some(notes) = &r.footnote {
        out.append("#footnote[");
        let mut i: usize = 0;
        while i < notes.len()
            invariant
                i <= notes@.len(),
                out@ == mid + "#footnote["@ + note_text(notes@.take(i as int)),
            decreases notes@.len() - i,
        {
            write_run_body(out, &notes[i]);
            proof {
                assert(notes@.take(i + 1).drop_last() =~= notes@.take(i as int));
            }
            i = i + 1;
            assert(out@ =~= mid + "#footnote["@ + note_text(notes@.take(i as int)));
        }
        assert(notes@.take(notes@.len() as int) =~= notes@);
        out.append("]");
    }
    assert(out@ =~= old(out)@ + run_text(*r));
}

/// Appends runs one after another.
pub fn generate_runs(out: &mut String, runs: &[Run])
    ensures
        final(out)@ == old(out)@ + runs_text(runs@),
{
    let mut i: usize = 0;
    while i < runs.len()
        invariant
            i <= runs@.len(),
            out@ == old(out)@ + runs_text(runs@.take(i as int)),
        decreases runs@.len() - i,
    {
        write_run(out, &runs[i]);
        proof {
            assert(runs@.take(i + 1).drop_last() =~= runs@.take(i as int));
        }
        i = i + 1;
        assert(out@ =~= old(out)@ + runs_text(runs@.take(i as int)));
    }
    assert(runs@.take(runs@.len() as int) =~= runs@);
}

/// Appends markup in a style: the opening, the markup `body` writes, the
/// closing.
pub fn write_styled_str(out: &mut String, s: &TextStyle, body: &str)
    ensures
        final(out)@ == old(out)@ + styled_text(*s, body@),
{
    let wrapped: bool = write_style_open(out, s);
    out.append(body);
    if wrapped {
        out.append("]");
    }
    assert(out@ =~= old(out)@ + styled_text(*s, body@));
}

} // verus!
