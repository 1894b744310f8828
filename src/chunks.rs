//! Splitting a catalog text into the texts of its top-level objects: an
//! object opens at a line that holds `{` alone and closes at the next line
//! that holds `}` alone, white space at a line's end not counting.
use vstd::prelude::*;
use crate::text::push_char;

verus! {

/// `c` has the Unicode White_Space property.
pub open spec fn is_white_space(c: char) -> bool {
    let u = c as u32;
    (0x9 <= u && u <= 0xd) || u == 0x20 || u == 0x85 || u == 0xa0 || u == 0x1680 || (0x2000 <= u
        && u <= 0x200a) || u == 0x2028 || u == 0x2029 || u == 0x202f || u == 0x205f || u == 0x3000
}

/// Relies on `char::is_whitespace`: true exactly for the characters with
/// the Unicode White_Space property.
#[verifier::external_body]
fn white_space(c: char) -> (r: bool)
    ensures
        r == is_white_space(c),
{
    c.is_whitespace()
}

/// The pieces of `s` between line feeds, in order; the last one is what
/// follows the last line feed, perhaps nothing.
pub open spec fn pieces(s: Seq<char>) -> Seq<Seq<char>>
    decreases s.len(),
{
    if s.len() == 0 {
        seq![Seq::empty()]
    } else {
        let p = pieces(s.drop_last());
        if s.last() == '\n' {
            p.push(Seq::empty())
        } else {
            p.update(p.len() - 1, p.last().push(s.last()))
        }
    }
}

/// A line that ended with a carriage return and a line feed loses the
/// carriage return.
pub open spec fn strip_cr(l: Seq<char>) -> Seq<char> {
    if l.len() > 0 && l.last() == '\r' {
        l.drop_last()
    } else {
        l
    }
}

/// The lines of `s`: split at each `\n` or `\r\n`, with no empty line after
/// a final line ending.
pub open spec fn lines_of(s: Seq<char>) -> Seq<Seq<char>> {
    let p = pieces(s);
    let body = p.drop_last().map_values(|l: Seq<char>| strip_cr(l));
    if p.last().len() == 0 {
        body
    } else {
        body.push(p.last())
    }
}

/// Without its trailing white space, `line` is the one character `b`.
pub open spec fn is_lone(line: Seq<char>, b: char) -> bool {
    &&& line.len() >= 1
    &&& line[0] == b
    &&& forall|i: int| 1 <= i < line.len() ==> is_white_space(#[trigger] line[i])
}

/// Going through `lines` in order: the objects closed so far, the text of
/// the current one, and whether one is open. A `{` line always opens a new
/// object, dropping one left open; lines outside an object are skipped.
pub open spec fn chunking(lines: Seq<Seq<char>>) -> (Seq<Seq<char>>, Seq<char>, bool)
    decreases lines.len(),
{
    if lines.len() == 0 {
        (Seq::empty(), Seq::empty(), false)
    } else {
        let (chunks, chunk, open) = chunking(lines.drop_last());
        let line = lines.last().push('\n');
        if is_lone(lines.last(), '{') {
            (chunks, line, true)
        } else if open && is_lone(lines.last(), '}') {
            (chunks.push(chunk + line), chunk + line, false)
        } else if open {
            (chunks, chunk + line, true)
        } else {
            (chunks, chunk, false)
        }
    }
}

/// The texts of the objects of `s`, each line ending in `\n`.
pub open spec fn chunks_of(s: Seq<char>) -> Seq<Seq<char>> {
    chunking(lines_of(s)).0
}

/// The character sequences of a list of strings.
pub open spec fn views(v: Seq<String>) -> Seq<Seq<char>> {
    v.map_values(|x: String| x@)
}

/// The lines of `s`, as `lines_of` gives them.
pub fn split_lines(s: &str) -> (lines: Vec<String>)
    ensures
        views(lines@) == lines_of(s@),
{
    let mut lines: Vec<String> = Vec::new();
    let mut cur = String::new();
    let mut cr = false;
    proof {
        assert(s@.take(0) =~= Seq::<char>::empty());
    }
    for c in it: s.chars()
        invariant
            it.seq() == s@,
            pieces(s@.take(it.index() as int)).len() == lines@.len() + 1,
            forall|j: int|
                0 <= j < lines@.len() ==> (#[trigger] lines@[j])@ == strip_cr(
                    pieces(s@.take(it.index() as int))[j],
                ),
            pieces(s@.take(it.index() as int)).last() == if cr {
                cur@.push('\r')
            } else {
                cur@
            },
            !cr ==> cur@.len() == 0 || cur@.last() != '\r',
    {
        let ghost i = it.index() as int;
        let ghost p0 = pieces(s@.take(i));
        let ghost lines0 = lines@;
        proof {
            let t = s@.take(i + 1);
            assert(t.drop_last() =~= s@.take(i));
            assert(t.last() == c);
        }
        if c == '\n' {
            proof {
                if cr {
                    assert(cur@.push('\r').drop_last() =~= cur@);
                }
            }
            lines.push(cur);
            cur = String::new();
            cr = false;
            proof {
                assert forall|j: int| 0 <= j < lines@.len() implies (#[trigger] lines@[j])@
                    == strip_cr(pieces(s@.take(i + 1))[j]) by {
                    if j < lines0.len() {
                        assert(lines@[j] == lines0[j]);
                    }
                }
            }
        } else {
            if cr {
                push_char(&mut cur, '\r');
            }
            if c == '\r' {
                cr = true;
            } else {
                push_char(&mut cur, c);
                cr = false;
            }
            proof {
                assert forall|j: int| 0 <= j < lines@.len() implies (#[trigger] lines@[j])@
                    == strip_cr(pieces(s@.take(i + 1))[j]) by {
                    assert(pieces(s@.take(i + 1))[j] == p0[j]);
                }
            }
        }
    }
    let ghost p = pieces(s@);
    proof {
        assert(s@.take(s@.len() as int) =~= s@);
        assert(views(lines@) =~= p.drop_last().map_values(|l: Seq<char>| strip_cr(l)));
    }
    if cr {
        push_char(&mut cur, '\r');
    }
    if cur.as_str().unicode_len() > 0 {
        let ghost before = lines@;
        lines.push(cur);
        proof {
            assert(views(lines@) =~= views(before).push(p.last()));
        }
    }
    lines
}

/// Whether `line` without its trailing white space is the one character `b`.
pub fn lone(line: &str, b: char) -> (r: bool)
    ensures
        r == is_lone(line@, b),
{
    let mut ok = true;
    let mut seen = false;
    for c in it: line.chars()
        invariant
            it.seq() == line@,
            seen == (it.index() > 0),
            ok == (!seen || (line@[0] == b && forall|i: int|
                1 <= i < it.index() ==> is_white_space(#[trigger] line@[i]))),
    {
        if !seen {
            ok = c == b;
        } else {
            ok = ok && white_space(c);
        }
        seen = true;
    }
    seen && ok
}

/// The texts of the top-level objects of a catalog text, in order.
pub fn json_to_chunks(json: &str) -> (chunks: Vec<String>)
    ensures
        views(chunks@) == chunks_of(json@),
{
    let lines = split_lines(json);
    let ghost ls = views(lines@);
    let mut chunks: Vec<String> = Vec::new();
    let mut chunk = String::new();
    let mut open = false;
    let mut j: usize = 0;
    proof {
        assert(ls.take(0) =~= Seq::<Seq<char>>::empty());
        assert(views(chunks@) =~= Seq::<Seq<char>>::empty());
    }
    while j < lines.len()
        invariant
            ls == views(lines@),
            j <= lines@.len(),
            chunking(ls.take(j as int)) == (views(chunks@), chunk@, open),
        decreases lines@.len() - j,
    {
        let line = &lines[j];
        proof {
            let t = ls.take(j + 1);
            assert(t.drop_last() =~= ls.take(j as int));
            assert(t.last() == line@);
        }
        if lone(line.as_str(), '{') {
            open = true;
            chunk = String::new();
            chunk.append(line.as_str());
            push_char(&mut chunk, '\n');
        } else if open && lone(line.as_str(), '}') {
            open = false;
            chunk.append(line.as_str());
            push_char(&mut chunk, '\n');
            let ghost before = chunks@;
            chunks.push(chunk.clone());
            proof {
                assert(views(chunks@) =~= views(before).push(chunk@));
            }
        } else if open {
            chunk.append(line.as_str());
            push_char(&mut chunk, '\n');
        }
        proof {
            assert(chunk@ == chunking(ls.take(j + 1)).1);
        }
        j = j + 1;
    }
    proof {
        assert(ls.take(lines@.len() as int) =~= ls);
    }
    chunks
}

} // verus!
