use vstd::prelude::*;
use crate::model::doc_of;

verus! {

/// The text of a document: every line followed by a line feed.
pub open spec fn framed(doc: Seq<Seq<char>>) -> Seq<char>
    decreases doc.len(),
{
    if doc.len() == 0 {
        Seq::empty()
    } else {
        framed(doc.drop_last()) + doc.last() + seq!['\n']
    }
}

/// Index of the first line feed of `t`, or its length when it has none.
pub open spec fn newline_at(t: Seq<char>) -> nat
    decreases t.len(),
{
    if t.len() == 0 || t[0] == '\n' {
        0
    } else {
        1 + newline_at(t.drop_first())
    }
}

/// A line without the carriage return that ended it, if any.
pub open spec fn drop_cr(l: Seq<char>) -> Seq<char> {
    if l.len() > 0 && l.last() == '\r' {
        l.drop_last()
    } else {
        l
    }
}

/// The lines of a text: cut at each line feed, which is dropped together with
/// a carriage return just before it. A last line need not end in a line feed;
/// an empty text has no line.
pub open spec fn lines_of(t: Seq<char>) -> Seq<Seq<char>>
    decreases t.len(),
{
    if t.len() == 0 {
        Seq::empty()
    } else if newline_at(t) < t.len() {
        seq![drop_cr(t.take(newline_at(t) as int))] + lines_of(t.skip(newline_at(t) + 1int))
    } else {
        seq![t]
    }
}

/// The first line feed of a text stands right after its part before it.
proof fn lemma_newline_at(a: Seq<char>, b: Seq<char>)
    requires
        !a.contains('\n'),
    ensures
        newline_at(a + seq!['\n'] + b) == a.len(),
        newline_at(a) == a.len(),
    decreases a.len(),
{
    if a.len() > 0 {
        assert(a[0] != '\n') by {
            if a[0] == '\n' {
                assert(a.contains('\n'));
            }
        }
        let t = a + seq!['\n'] + b;
        assert(t.drop_first() =~= a.drop_first() + seq!['\n'] + b);
        assert(!a.drop_first().contains('\n')) by {
            if a.drop_first().contains('\n') {
                let i = choose|i: int| 0 <= i < a.drop_first().len() && a.drop_first()[i] == '\n';
                assert(a[i + 1] == '\n');
            }
        }
        lemma_newline_at(a.drop_first(), b);
    }
}

/// Relies on `str::split_once` with a `'\n'` pattern: the text before and
/// after its first line feed, or nothing when it has none.
#[verifier::external_body]
fn split_at_newline<'a>(s: &'a str) -> (r: Option<(&'a str, &'a str)>)
    ensures
        match r {
            Some((before, after)) => s@ == before@ + seq!['\n'] + after@ && !before@.contains('\n'),
            None => !s@.contains('\n'),
        },
{
    s.split_once('\n')
}

/// Cuts `text` into its lines.
pub fn split_lines(text: &str) -> (r: Vec<String>)
    ensures
        doc_of(r@) == lines_of(text@),
{
    let mut out: Vec<String> = Vec::new();
    let mut rest: &str = text;
    loop
        invariant
            lines_of(text@) == doc_of(out@) + lines_of(rest@),
        decreases rest@.len(),
    {
        match split_at_newline(rest) {
            Some((before, after)) => {
                proof {
                    lemma_newline_at(before@, after@);
                    let t = rest@;
                    assert(t.take(before@.len() as int) =~= before@);
                    assert(t.skip(before@.len() + 1int) =~= after@);
                }
                let n = before.unicode_len();
                let line = if n > 0 && before.get_char(n - 1) == '\r' {
                    before.substring_char(0, n - 1)
                } else {
                    before
                };
                proof {
                    assert(line@ =~= drop_cr(before@));
                }
                let ghost prev = out@;
                out.push(String::from_str(line));
                proof {
                    assert(doc_of(out@) =~= doc_of(prev) + seq![line@]);
                    assert(lines_of(rest@) =~= seq![line@] + lines_of(after@));
                    assert(doc_of(prev) + lines_of(rest@) =~= doc_of(out@) + lines_of(after@));
                }
                rest = after;
            },
            None => {
                proof {
                    lemma_newline_at(rest@, Seq::empty());
                }
                if rest.unicode_len() > 0 {
                    let ghost prev = out@;
                    out.push(String::from_str(rest));
                    proof {
                        assert(doc_of(out@) =~= doc_of(prev) + seq![rest@]);
                    }
                } else {
                    proof {
                        assert(doc_of(out@) + lines_of(rest@) =~= doc_of(out@));
                    }
                }
                return out;
            },
        }
    }
}

/// The text that `lines` are written as: each line followed by a line feed.
pub fn output_text(lines: &[String]) -> (r: String)
    ensures
        r@ == framed(doc_of(lines@)),
{
    let ghost doc = doc_of(lines@);
    let mut text = String::new();
    let mut i: usize = 0;
    while i < lines.len()
        invariant
            doc == doc_of(lines@),
            i <= lines@.len(),
            text@ == framed(doc.take(i as int)),
        decreases lines@.len() - i,
    {
        proof {
            assert(doc.take(i + 1).drop_last() =~= doc.take(i as int));
            assert(doc.take(i + 1).last() == lines@[i as int]@);
            reveal_strlit("\n");
        }
        text.append(lines[i].as_str());
        text.append("\n");
        i = i + 1;
    }
    proof {
        assert(doc.take(lines@.len() as int) =~= doc);
    }
    text
}

} // verus!
