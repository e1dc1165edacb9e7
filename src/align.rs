use vstd::prelude::*;
use crate::config::{Alignment, Config};
use crate::model::{
    align_doc, aligned_line, center_left, center_line, center_right, doc_of, indent_of,
    is_indent_char, lemma_max_bounds, max_indent, max_len, right_line, right_pad, spaces,
    wall_fits, wall_of,
};

verus! {

/// Counts the leading spaces and tabs of `line`.
pub fn find_indent_level(line: &str) -> (r: usize)
    ensures
        r == indent_of(line@),
{
    let n = line.unicode_len();
    let mut i: usize = 0;
    assert(line@.subrange(0, n as int) =~= line@);
    while i < n
        invariant
            n == line@.len(),
            i <= n,
            forall|j: int| 0 <= j < i ==> is_indent_char(#[trigger] line@[j]),
            indent_of(line@) == i + indent_of(line@.subrange(i as int, n as int)),
        decreases n - i,
    {
        let c = line.get_char(i);
        if c != ' ' && c != '\t' {
            return i;
        }
        proof {
            let rest = line@.subrange(i as int, n as int);
            assert(rest.drop_first() =~= line@.subrange(i + 1, n as int));
        }
        i = i + 1;
    }
    proof {
        assert(line@.subrange(n as int, n as int).len() == 0);
    }
    i
}

/// Computes the wall of `data`: its greatest line length, plus its greatest
/// indentation when `conf` preserves indentation.
pub fn find_right_wall(data: &[String], conf: &Config) -> (r: usize)
    requires
        conf.preserve_indent ==> wall_fits(doc_of(data@)),
    ensures
        r == wall_of(doc_of(data@), conf.preserve_indent),
{
    wall_for(data, conf.preserve_indent)
}

fn wall_for(data: &[String], preserve: bool) -> (r: usize)
    requires
        preserve ==> wall_fits(doc_of(data@)),
    ensures
        r == wall_of(doc_of(data@), preserve),
{
    let ghost doc = doc_of(data@);
    let mut right_wall: usize = 0;
    let mut max_ind: usize = 0;
    let mut i: usize = 0;
    while i < data.len()
        invariant
            doc == doc_of(data@),
            i <= data@.len(),
            right_wall == max_len(doc.take(i as int)),
            preserve ==> max_ind == max_indent(doc.take(i as int)),
        decreases data@.len() - i,
    {
        let line = data[i].as_str();
        let len = line.unicode_len();
        proof {
            assert(doc.take(i + 1).drop_last() =~= doc.take(i as int));
            assert(doc.take(i + 1).last() == line@);
        }
        if preserve {
            let indent = find_indent_level(line);
            if indent > max_ind {
                max_ind = indent;
            }
        }
        if len > right_wall {
            right_wall = len;
        }
        i = i + 1;
    }
    proof {
        assert(doc.take(data@.len() as int) =~= doc);
        lemma_max_bounds(doc);
    }
    if preserve {
        right_wall + max_ind
    } else {
        right_wall
    }
}

/// Appends `n` spaces to `s`.
fn push_spaces(s: &mut String, n: usize)
    ensures
        final(s)@ == old(s)@ + spaces(n as nat),
{
    let ghost start = s@;
    let mut k: usize = 0;
    while k < n
        invariant
            k <= n,
            s@ == start + spaces(k as nat),
        decreases n - k,
    {
        proof {
            reveal_strlit(" ");
        }
        s.append(" ");
        proof {
            assert(start + spaces((k + 1) as nat) =~= start + spaces(k as nat) + " "@);
        }
        k = k + 1;
    }
}

/// Whether `n` is even.
pub fn is_even(n: i64) -> (r: bool)
    ensures
        r == (n % 2 == 0),
{
    n % 2 == 0
}

/// Pads every line of `data` on the left so that it ends at the wall. When
/// `conf` preserves indentation, the pad is reduced by the line's own
/// indentation, which stays in place after the pad.
pub fn right_align_contents(data: &[String], conf: &Config) -> (out: Vec<String>)
    requires
        conf.preserve_indent ==> wall_fits(doc_of(data@)),
    ensures
        out@.len() == data@.len(),
        forall|i: int|
            0 <= i < data@.len() ==> #[trigger] out@[i]@ == right_line(
                data@[i]@,
                wall_of(doc_of(data@), conf.preserve_indent),
                conf.preserve_indent,
            ),
{
    let preserve = conf.preserve_indent;
    let right_wall = find_right_wall(data, conf);
    let ghost doc = doc_of(data@);
    proof {
        lemma_max_bounds(doc);
    }
    let mut out: Vec<String> = Vec::new();
    let mut i: usize = 0;
    while i < data.len()
        invariant
            doc == doc_of(data@),
            preserve == conf.preserve_indent,
            right_wall == wall_of(doc, preserve),
            forall|j: int| 0 <= j < doc.len() ==> #[trigger] doc[j].len() <= max_len(doc),
            forall|j: int| 0 <= j < doc.len() ==> indent_of(#[trigger] doc[j]) <= max_indent(doc),
            i <= data@.len(),
            out@.len() == i,
            forall|j: int|
                0 <= j < i ==> #[trigger] out@[j]@ == right_line(data@[j]@, right_wall as nat, preserve),
        decreases data@.len() - i,
    {
        let line = data[i].as_str();
        let len = line.unicode_len();
        proof {
            assert(doc[i as int] == line@);
        }
        let pad = if preserve {
            let indent_level = find_indent_level(line);
            right_wall - len - indent_level
        } else {
            right_wall - len
        };
        let mut newline = String::new();
        push_spaces(&mut newline, pad);
        newline.append(line);
        proof {
            assert(pad == right_pad(line@, right_wall as nat, preserve));
        }
        out.push(newline);
        i = i + 1;
    }
    out
}

/// Centers every line of `data` between column 0 and the wall, the greatest
/// line length. An odd gap leaves the extra space on the left. Indentation is
/// not preserved here, whatever the settings ask.
pub fn center_align_contents(data: &[String], _conf: &Config) -> (out: Vec<String>)
    ensures
        out@.len() == data@.len(),
        forall|i: int|
            0 <= i < data@.len() ==> #[trigger] out@[i]@ == center_line(
                data@[i]@,
                max_len(doc_of(data@)),
            ),
{
    let right_wall = wall_for(data, false);
    let ghost doc = doc_of(data@);
    proof {
        lemma_max_bounds(doc);
    }
    let mut out: Vec<String> = Vec::new();
    let mut i: usize = 0;
    while i < data.len()
        invariant
            doc == doc_of(data@),
            right_wall == max_len(doc),
            forall|j: int| 0 <= j < doc.len() ==> #[trigger] doc[j].len() <= max_len(doc),
            i <= data@.len(),
            out@.len() == i,
            forall|j: int|
                0 <= j < i ==> #[trigger] out@[j]@ == center_line(data@[j]@, right_wall as nat),
        decreases data@.len() - i,
    {
        let line = data[i].as_str();
        let len = line.unicode_len();
        proof {
            assert(doc[i as int] == line@);
        }
        let gap: usize = right_wall - len;
        proof {
            assert(((gap as i64) % 2 == 0) == (gap % 2 == 0)) by (bit_vector);
        }
        let (left, right) = if is_even(gap as i64) {
            (gap / 2, gap / 2)
        } else {
            let even_gap: usize = gap - 1;
            (even_gap / 2 + 1, even_gap / 2)
        };
        let mut newline = String::new();
        push_spaces(&mut newline, left);
        newline.append(line);
        push_spaces(&mut newline, right);
        proof {
            assert(left == center_left(line@, right_wall as nat));
            assert(right == center_right(line@, right_wall as nat));
        }
        out.push(newline);
        i = i + 1;
    }
    out
}

/// Aligns `data` under the policy that `conf` selects.
pub fn align_contents(data: &[String], conf: &Config) -> (out: Vec<String>)
    requires
        conf.alignment == Alignment::Right && conf.preserve_indent ==> wall_fits(doc_of(data@)),
    ensures
        out@.len() == data@.len(),
        forall|i: int|
            0 <= i < data@.len() ==> #[trigger] out@[i]@ == aligned_line(
                data@[i]@,
                doc_of(data@),
                conf.alignment,
                conf.preserve_indent,
            ),
        doc_of(out@) == align_doc(doc_of(data@), conf.alignment, conf.preserve_indent),
{
    let out = match conf.alignment {
        Alignment::Right => right_align_contents(data, conf),
        Alignment::Center => center_align_contents(data, conf),
    };
    assert(doc_of(out@) =~= align_doc(doc_of(data@), conf.alignment, conf.preserve_indent));
    out
}

} // verus!
