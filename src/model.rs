use vstd::prelude::*;
use crate::config::Alignment;

verus! {

/// A character that counts toward a line's indentation.
pub open spec fn is_indent_char(c: char) -> bool {
    c == ' ' || c == '\t'
}

/// Number of leading space or tab characters of a line.
pub open spec fn indent_of(s: Seq<char>) -> nat
    decreases s.len(),
{
    if s.len() > 0 && is_indent_char(s[0]) {
        1 + indent_of(s.drop_first())
    } else {
        0
    }
}

/// A run of `n` space characters.
pub open spec fn spaces(n: nat) -> Seq<char> {
    Seq::new(n, |i: int| ' ')
}

/// The character sequences held by a document of lines.
pub open spec fn doc_of(data: Seq<String>) -> Seq<Seq<char>> {
    data.map_values(|s: String| s@)
}

/// Greatest line length of a document, 0 when it has no line.
pub open spec fn max_len(doc: Seq<Seq<char>>) -> nat
    decreases doc.len(),
{
    if doc.len() == 0 {
        0
    } else {
        let m = max_len(doc.drop_last());
        if doc.last().len() > m {
            doc.last().len()
        } else {
            m
        }
    }
}

/// Greatest indentation of a document, 0 when it has no line.
pub open spec fn max_indent(doc: Seq<Seq<char>>) -> nat
    decreases doc.len(),
{
    if doc.len() == 0 {
        0
    } else {
        let m = max_indent(doc.drop_last());
        if indent_of(doc.last()) > m {
            indent_of(doc.last())
        } else {
            m
        }
    }
}

/// The width every line is padded to: the greatest length, plus the
/// greatest indentation when indentation is preserved.
pub open spec fn wall_of(doc: Seq<Seq<char>>, preserve: bool) -> nat {
    if preserve {
        max_len(doc) + max_indent(doc)
    } else {
        max_len(doc)
    }
}

/// The indentation-preserving wall of a document fits a machine word.
pub open spec fn wall_fits(doc: Seq<Seq<char>>) -> bool {
    max_len(doc) + max_indent(doc) <= usize::MAX
}

/// Spaces added in front of a right-aligned line.
pub open spec fn right_pad(line: Seq<char>, wall: nat, preserve: bool) -> int {
    if preserve {
        wall - line.len() - indent_of(line)
    } else {
        wall - line.len()
    }
}

/// A line right-aligned against `wall`.
pub open spec fn right_line(line: Seq<char>, wall: nat, preserve: bool) -> Seq<char> {
    spaces(right_pad(line, wall, preserve) as nat) + line
}

/// Spaces in front of a centered line: the larger half of the gap.
pub open spec fn center_left(line: Seq<char>, wall: nat) -> nat {
    ((wall - line.len()) - (wall - line.len()) / 2) as nat
}

/// Spaces after a centered line: the smaller half of the gap.
pub open spec fn center_right(line: Seq<char>, wall: nat) -> nat {
    ((wall - line.len()) / 2) as nat
}

/// A line centered within `wall`.
pub open spec fn center_line(line: Seq<char>, wall: nat) -> Seq<char> {
    spaces(center_left(line, wall)) + line + spaces(center_right(line, wall))
}

/// A line of `doc` aligned under the given policy.
pub open spec fn aligned_line(line: Seq<char>, doc: Seq<Seq<char>>, alignment: Alignment, preserve: bool) -> Seq<char> {
    match alignment {
        Alignment::Right => right_line(line, wall_of(doc, preserve), preserve),
        Alignment::Center => center_line(line, max_len(doc)),
    }
}

/// A document aligned under the given policy, line by line.
pub open spec fn align_doc(doc: Seq<Seq<char>>, alignment: Alignment, preserve: bool) -> Seq<Seq<char>> {
    Seq::new(doc.len(), |i: int| aligned_line(doc[i], doc, alignment, preserve))
}

/// A line without its leading and trailing space characters.
pub open spec fn strip_spaces(s: Seq<char>) -> Seq<char>
    decreases s.len(),
{
    if s.len() > 0 && s[0] == ' ' {
        strip_spaces(s.drop_first())
    } else if s.len() > 0 && s.last() == ' ' {
        strip_spaces(s.drop_last())
    } else {
        s
    }
}

/// A line's indentation never exceeds its length.
pub proof fn lemma_indent_le_len(s: Seq<char>)
    ensures
        indent_of(s) <= s.len(),
    decreases s.len(),
{
    if s.len() > 0 && is_indent_char(s[0]) {
        lemma_indent_le_len(s.drop_first());
    }
}

/// Every line is within the document's greatest length and indentation.
pub proof fn lemma_max_bounds(doc: Seq<Seq<char>>)
    ensures
        forall|i: int| 0 <= i < doc.len() ==> #[trigger] doc[i].len() <= max_len(doc),
        forall|i: int| 0 <= i < doc.len() ==> indent_of(#[trigger] doc[i]) <= max_indent(doc),
        max_indent(doc) <= max_len(doc),
    decreases doc.len(),
{
    if doc.len() > 0 {
        let d = doc.drop_last();
        lemma_max_bounds(d);
        lemma_indent_le_len(doc.last());
        assert(doc[doc.len() - 1] == doc.last());
        assert(max_len(d) <= max_len(doc));
        assert(max_indent(d) <= max_indent(doc));
        assert forall|i: int| 0 <= i < doc.len() implies #[trigger] doc[i].len() <= max_len(doc)
            && indent_of(doc[i]) <= max_indent(doc) by {
            if i < doc.len() - 1 {
                assert(doc[i] == d[i]);
            }
        }
    }
}

/// The greatest length of a non-empty document is the length of one of its lines.
pub proof fn lemma_max_len_attained(doc: Seq<Seq<char>>)
    requires
        doc.len() > 0,
    ensures
        exists|i: int| 0 <= i < doc.len() && #[trigger] doc[i].len() == max_len(doc),
    decreases doc.len(),
{
    let d = doc.drop_last();
    if d.len() > 0 && doc.last().len() <= max_len(d) {
        lemma_max_len_attained(d);
        let i = choose|i: int| 0 <= i < d.len() && #[trigger] d[i].len() == max_len(d);
        assert(doc[i] == d[i]);
        assert(doc[i].len() == max_len(doc));
    } else {
        assert(doc[doc.len() - 1] == doc.last());
        assert(d.len() == 0 ==> max_len(d) == 0);
        assert(doc.last().len() == max_len(doc));
    }
}

} // verus!
