//! Captions and the lists that collect them: the invisible marker a caption
//! drops where it is laid out, the label its sequence is queried by, and the
//! list that resolves each entry's page from the layout.
use vstd::prelude::*;

use crate::ir::Caption;
use crate::typst_text::{escaped_text, push_char, push_escaped};

verus! {

/// Whether a character may stand in a Typst label as it is.
pub open spec fn is_label_char(c: char) -> bool {
    let v = c as int;
    (97 <= v <= 122) || (65 <= v <= 90) || (48 <= v <= 57) || v == 45 || v == 95
}

/// A lower-case hexadecimal digit.
pub open spec fn hex_digit(d: int) -> char {
    if d < 10 {
        (48 + d) as char
    } else {
        (87 + d) as char
    }
}

/// The lower-case hexadecimal numeral of a natural number.
pub open spec fn hex_text(n: nat) -> Seq<char>
    decreases n,
{
    if n < 16 {
        seq![hex_digit(n as int)]
    } else {
        hex_text(n / 16).push(hex_digit((n % 16) as int))
    }
}

/// A caption sequence's name reduced to label characters: a character that
/// may not stand in a label becomes `-` and its code point in hexadecimal.
pub open spec fn label_text(s: Seq<char>) -> Seq<char>
    decreases s.len(),
{
    if s.len() == 0 {
        seq![]
    } else {
        label_text(s.drop_last()) + if is_label_char(s.last()) {
            seq![s.last()]
        } else {
            seq!['-'] + hex_text(s.last() as nat)
        }
    }
}

/// The invisible marker a caption drops where it is laid out, which the list
/// of its sequence queries.
pub open spec fn caption_marker_text(c: Caption) -> Seq<char> {
    "#metadata["@ + escaped_text(c.entry_text@) + "]<o2p-seq-"@ + label_text(c.identifier@)
        + ">\n"@
}

/// The body of a caption list's loop: each entry links to its caption and
/// shows the page it landed on, in the numerals of that page's section.
pub open spec fn caption_row_text() -> Seq<char> {
    "    let target = entry.location()\n    [#link(target)[#entry.value] #box(width: 1fr, repeat[.]) #link(target)[#numbering(o2p-page-format.at(target), ..counter(page).at(target))] \\ ]\n"@
}

/// A list of the captions of one sequence, resolved by the layout.
pub open spec fn caption_list_text(id: Seq<char>) -> Seq<char> {
    "#context {\n  for entry in query(<o2p-seq-"@ + label_text(id) + ">) {\n"@
        + caption_row_text() + "  }\n}\n"@
}

// ---------------------------------------------------------------------------
// Writers.
// ---------------------------------------------------------------------------

/// Appends the lower-case hexadecimal numeral of a natural number.
pub(crate) fn push_hex(out: &mut String, n: u32)
    ensures
        final(out)@ == old(out)@ + hex_text(n as nat),
    decreases n,
{
    if n >= 16 {
        push_hex(out, n / 16);
    }
    let d: u8 = (n % 16) as u8;
    let c: char = if d < 10 {
        (48u8 + d) as char
    } else {
        (87u8 + d) as char
    };
    assert(c == hex_digit(d as int));
    push_char(out, c);
    assert(out@ =~= old(out)@ + hex_text(n as nat)) by {
        if n >= 16 {
            assert(hex_text(n as nat) == hex_text((n / 16) as nat).push(
                hex_digit((n % 16) as int),
            ));
        }
    }
}

/// Appends a caption sequence's name reduced to label characters.
pub(crate) fn write_label(out: &mut String, s: &str)
    ensures
        final(out)@ == old(out)@ + label_text(s@),
{
    let n: usize = s.unicode_len();
    let mut i: usize = 0;
    while i < n
        invariant
            n == s@.len(),
            i <= n,
            out@ == old(out)@ + label_text(s@.take(i as int)),
        decreases n - i,
    {
        let c: char = s.get_char(i);
        let v: u32 = c as u32;
        if (97 <= v && v <= 122) || (65 <= v && v <= 90) || (48 <= v && v <= 57) || v == 45 || v
            == 95 {
            push_char(out, c);
        } else {
            push_char(out, '-');
            push_hex(out, v);
        }
        proof {
            assert(s@.take(i + 1).drop_last() =~= s@.take(i as int));
        }
        i = i + 1;
        assert(out@ =~= old(out)@ + label_text(s@.take(i as int)));
    }
    assert(s@.take(n as int) =~= s@);
}

/// Appends the marker a caption drops for the list of its sequence.
pub fn write_caption_marker(out: &mut String, c: &Caption)
    ensures
        final(out)@ == old(out)@ + caption_marker_text(*c),
{
    out.append("#metadata[");
    push_escaped(out, c.entry_text.as_str());
    out.append("]<o2p-seq-");
    write_label(out, c.identifier.as_str());
    out.append(">\n");
    assert(out@ =~= old(out)@ + caption_marker_text(*c));
}

/// Appends the list of the captions of one sequence.
pub(crate) fn write_caption_list(out: &mut String, id: &str)
    ensures
        final(out)@ == old(out)@ + caption_list_text(id@),
{
    out.append("#context {\n  for entry in query(<o2p-seq-");
    write_label(out, id);
    out.append(">) {\n");
    out.append(
        "    let target = entry.location()\n    [#link(target)[#entry.value] #box(width: 1fr, repeat[.]) #link(target)[#numbering(o2p-page-format.at(target), ..counter(page).at(target))] \\ ]\n",
    );
    out.append("  }\n}\n");
    assert(out@ =~= old(out)@ + caption_list_text(id@));
}

} // verus!
