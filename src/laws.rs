use vstd::prelude::*;
use crate::config::Alignment;
use crate::model::{
    align_doc, aligned_line, center_left, center_line, center_right, indent_of, lemma_max_bounds,
    lemma_max_len_attained, max_indent, max_len, right_line, right_pad, spaces, strip_spaces,
    wall_of,
};

verus! {

/// Indentation of a line behind `n` spaces grows by `n`.
pub proof fn lemma_indent_after_spaces(n: nat, s: Seq<char>)
    ensures
        indent_of(spaces(n) + s) == n + indent_of(s),
    decreases n,
{
    if n > 0 {
        let t = spaces(n) + s;
        assert(t.drop_first() =~= spaces((n - 1) as nat) + s);
        lemma_indent_after_spaces((n - 1) as nat, s);
    } else {
        assert(spaces(0) + s =~= s);
    }
}

/// A document whose lines all have length `w` has greatest length `w`, or 0
/// when it is empty.
pub proof fn lemma_max_len_uniform(doc: Seq<Seq<char>>, w: nat)
    requires
        forall|i: int| 0 <= i < doc.len() ==> #[trigger] doc[i].len() == w,
    ensures
        max_len(doc) == if doc.len() == 0 { 0 } else { w },
    decreases doc.len(),
{
    if doc.len() > 0 {
        let d = doc.drop_last();
        assert forall|i: int| 0 <= i < d.len() implies #[trigger] d[i].len() == w by {
            assert(d[i] == doc[i]);
        }
        lemma_max_len_uniform(d, w);
        assert(doc[doc.len() - 1] == doc.last());
    }
}

/// Right alignment without indentation: every output line of a non-empty
/// document is exactly as long as the wall, and the wall is the length of its
/// longest line.
pub proof fn law_right_flush_width(doc: Seq<Seq<char>>)
    requires
        doc.len() > 0,
    ensures
        wall_of(doc, false) == max_len(doc),
        exists|i: int| 0 <= i < doc.len() && #[trigger] doc[i].len() == wall_of(doc, false),
        forall|i: int|
            0 <= i < doc.len() ==> (#[trigger] align_doc(doc, Alignment::Right, false)[i]).len()
                == wall_of(doc, false),
{
    lemma_max_bounds(doc);
    lemma_max_len_attained(doc);
}

/// Stripping spaces from a padded line that neither starts nor ends with a
/// space gives the line back.
pub proof fn lemma_strip_padded(l: nat, line: Seq<char>, r: nat)
    requires
        line.len() > 0 ==> line[0] != ' ' && line.last() != ' ',
    ensures
        strip_spaces(spaces(l) + line + spaces(r)) == line,
    decreases l + r,
{
    let t = spaces(l) + line + spaces(r);
    if l > 0 {
        assert(t[0] == ' ');
        assert(t.drop_first() =~= spaces((l - 1) as nat) + line + spaces(r));
        lemma_strip_padded((l - 1) as nat, line, r);
    } else if r > 0 && line.len() == 0 {
        assert(t[0] == ' ');
        assert(t.drop_first() =~= spaces(l) + line + spaces((r - 1) as nat));
        lemma_strip_padded(l, line, (r - 1) as nat);
    } else if r > 0 {
        assert(t[0] == line[0]);
        assert(t.last() == ' ');
        assert(t.drop_last() =~= spaces(l) + line + spaces((r - 1) as nat));
        lemma_strip_padded(l, line, (r - 1) as nat);
    } else {
        assert(t =~= line);
        if line.len() > 0 {
            assert(t.last() == line.last());
        }
    }
}

/// Center alignment: every output line is exactly as long as the wall, and
/// holds the original line between runs of spaces; stripping those spaces
/// gives the original back whenever the line itself neither starts nor ends
/// with a space.
pub proof fn law_center_width_and_content(doc: Seq<Seq<char>>, preserve: bool, i: int)
    requires
        0 <= i < doc.len(),
    ensures
        align_doc(doc, Alignment::Center, preserve)[i].len() == max_len(doc),
        align_doc(doc, Alignment::Center, preserve)[i] == spaces(center_left(doc[i], max_len(doc)))
            + doc[i] + spaces(center_right(doc[i], max_len(doc))),
        doc[i].len() > 0 ==> doc[i][0] != ' ' && doc[i].last() != ' ' ==> strip_spaces(
            align_doc(doc, Alignment::Center, preserve)[i],
        ) == doc[i],
        doc[i].len() == 0 ==> strip_spaces(align_doc(doc, Alignment::Center, preserve)[i])
            == doc[i],
{
    lemma_max_bounds(doc);
    let w = max_len(doc);
    if doc[i].len() > 0 ==> doc[i][0] != ' ' && doc[i].last() != ' ' {
        lemma_strip_padded(center_left(doc[i], w), doc[i], center_right(doc[i], w));
    }
}

/// Aligning an already aligned document again changes nothing, for right
/// alignment without indentation and for center alignment.
pub proof fn law_realign_unchanged(doc: Seq<Seq<char>>, alignment: Alignment, preserve: bool)
    requires
        alignment == Alignment::Right ==> !preserve,
    ensures
        align_doc(align_doc(doc, alignment, preserve), alignment, preserve) == align_doc(
            doc,
            alignment,
            preserve,
        ),
{
    let out = align_doc(doc, alignment, preserve);
    let w = max_len(doc);
    lemma_max_bounds(doc);
    assert forall|i: int| 0 <= i < out.len() implies #[trigger] out[i].len() == w by {}
    lemma_max_len_uniform(out, w);
    assert(wall_of(out, preserve) == w || alignment == Alignment::Center);
    assert forall|i: int| 0 <= i < out.len() implies #[trigger] aligned_line(
        out[i],
        out,
        alignment,
        preserve,
    ) == out[i] by {
        assert(spaces(0) + out[i] =~= out[i]);
        assert(spaces(0) + out[i] + spaces(0) =~= out[i]);
    }
    assert(align_doc(out, alignment, preserve) =~= out);
}

/// Right alignment with indentation: each output line's indentation is its
/// original indentation plus the spaces put in front of it, so two lines that
/// receive the same pad keep the difference of their indentations.
pub proof fn law_indent_kept(doc: Seq<Seq<char>>, i: int, j: int)
    requires
        0 <= i < doc.len(),
        0 <= j < doc.len(),
    ensures
        right_pad(doc[i], wall_of(doc, true), true) >= 0,
        indent_of(align_doc(doc, Alignment::Right, true)[i]) == indent_of(doc[i]) + right_pad(
            doc[i],
            wall_of(doc, true),
            true,
        ),
        doc[i].len() + indent_of(doc[i]) == doc[j].len() + indent_of(doc[j]) ==> indent_of(
            align_doc(doc, Alignment::Right, true)[i],
        ) - indent_of(align_doc(doc, Alignment::Right, true)[j]) == indent_of(doc[i]) - indent_of(
            doc[j],
        ),
{
    lemma_max_bounds(doc);
    let w = wall_of(doc, true);
    lemma_indent_after_spaces(right_pad(doc[i], w, true) as nat, doc[i]);
    lemma_indent_after_spaces(right_pad(doc[j], w, true) as nat, doc[j]);
}

/// A document of one line: aligned under any policy it comes out unchanged,
/// and without indentation its wall is that line's length.
pub proof fn law_single_line(line: Seq<char>, alignment: Alignment, preserve: bool)
    ensures
        wall_of(seq![line], false) == line.len(),
        align_doc(seq![line], alignment, preserve) == seq![line],
{
    let doc = seq![line];
    assert(doc.drop_last() =~= Seq::<Seq<char>>::empty());
    assert(doc.last() == line);
    assert(max_len(doc.drop_last()) == 0);
    assert(max_indent(doc.drop_last()) == 0);
    assert(max_len(doc) == line.len());
    assert(max_indent(doc) == indent_of(line));
    assert(doc[0] == line);
    assert(spaces(0) + line =~= line);
    assert(spaces(0) + line + spaces(0) =~= line);
    assert(align_doc(doc, alignment, preserve) =~= doc);
}

} // verus!
