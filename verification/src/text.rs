//! Text as sequences of characters: joining, splitting, lines and
//! replacement, each with the sequence-level function that defines it.

use vstd::prelude::*;
use vstd::string::StringExecFns;

verus! {

/// The concatenation of `parts` with `sep` between neighbours.
pub open spec fn joined(parts: Seq<Seq<char>>, sep: Seq<char>) -> Seq<char>
    decreases parts.len(),
{
    if parts.len() == 0 {
        Seq::empty()
    } else if parts.len() == 1 {
        parts[0]
    } else {
        joined(parts.drop_last(), sep) + sep + parts.last()
    }
}

/// The pieces of `s` that occurrences of `sep` delimit, in order. There is
/// always at least one piece, and a piece may be empty.
pub open spec fn pieces(s: Seq<char>, sep: char) -> Seq<Seq<char>>
    decreases s.len(),
{
    if s.len() == 0 {
        seq![Seq::empty()]
    } else {
        let before = pieces(s.drop_last(), sep);
        if s.last() == sep {
            before.push(Seq::empty())
        } else {
            before.drop_last().push(before.last().push(s.last()))
        }
    }
}

/// `line` without one trailing carriage return.
pub open spec fn without_cr(line: Seq<char>) -> Seq<char> {
    if line.len() > 0 && line.last() == '\r' {
        line.drop_last()
    } else {
        line
    }
}

/// The pieces of `s` that a line feed ends, each without the carriage return
/// that may stand before the line feed.
pub open spec fn ended_lines(s: Seq<char>) -> Seq<Seq<char>> {
    pieces(s, '\n').drop_last().map_values(|l: Seq<char>| without_cr(l))
}

/// The lines of `s`. A line ends at a line feed, or at a carriage return
/// directly followed by one; the ending is not part of the line. Text after
/// the last line feed is a line of its own unless it is empty.
pub open spec fn lines(s: Seq<char>) -> Seq<Seq<char>> {
    let rest = pieces(s, '\n').last();
    if rest.len() == 0 {
        ended_lines(s)
    } else {
        ended_lines(s).push(rest)
    }
}

/// `s` with every occurrence of `from` replaced by `to`. Occurrences are
/// found from left to right and do not overlap. An empty `from` occurs
/// before every character and at the end.
pub open spec fn replaced(s: Seq<char>, from: Seq<char>, to: Seq<char>) -> Seq<char>
    decreases s.len(),
{
    if s.len() < from.len() {
        s
    } else if from.len() == 0 {
        if s.len() == 0 {
            to
        } else {
            to + seq![s[0]] + replaced(s.drop_first(), from, to)
        }
    } else if s.subrange(0, from.len() as int) == from {
        to + replaced(s.subrange(from.len() as int, s.len() as int), from, to)
    } else {
        seq![s[0]] + replaced(s.drop_first(), from, to)
    }
}

/// Splitting never yields an empty list.
pub proof fn lemma_pieces_len(s: Seq<char>, sep: char)
    ensures
        pieces(s, sep).len() >= 1,
    decreases s.len(),
{
    if s.len() > 0 {
        lemma_pieces_len(s.drop_last(), sep);
    }
}

/// No piece holds the separator.
pub proof fn lemma_pieces_free(s: Seq<char>, sep: char)
    ensures
        forall|i: int| 0 <= i < pieces(s, sep).len() ==> !(#[trigger] pieces(s, sep)[i]).contains(sep),
    decreases s.len(),
{
    if s.len() > 0 {
        lemma_pieces_len(s.drop_last(), sep);
        lemma_pieces_free(s.drop_last(), sep);
        let before = pieces(s.drop_last(), sep);
        if s.last() != sep {
            let grown = before.last().push(s.last());
            assert forall|j: int| 0 <= j < grown.len() implies grown[j] != sep by {
                if j < before.last().len() {
                    assert(before.last()[j] == grown[j]);
                    assert(!before[before.len() - 1].contains(sep));
                }
            }
        }
    }
}

/// Joining the pieces with the separator gives the text back.
pub proof fn lemma_joined_pieces(s: Seq<char>, sep: char)
    ensures
        joined(pieces(s, sep), seq![sep]) == s,
    decreases s.len(),
{
    if s.len() == 0 {
        assert(joined(pieces(s, sep), seq![sep]) =~= s);
    } else {
        let front = s.drop_last();
        let before = pieces(front, sep);
        lemma_pieces_len(front, sep);
        lemma_joined_pieces(front, sep);
        if s.last() == sep {
            let all = before.push(Seq::empty());
            assert(all.drop_last() =~= before);
            assert(joined(all, seq![sep]) =~= s);
        } else {
            let all = before.drop_last().push(before.last().push(s.last()));
            assert(all.drop_last() =~= before.drop_last());
            assert(all.last() == before.last().push(s.last()));
            assert(s =~= front.push(s.last()));
            if before.len() == 1 {
                assert(joined(all, seq![sep]) == all[0]);
            } else {
                assert(joined(all, seq![sep]) == joined(all.drop_last(), seq![sep]) + seq![sep]
                    + all.last());
                assert(joined(all, seq![sep]) =~= s);
            }
        }
    }
}

/// A piece that holds no separator, put behind a text, lengthens the last
/// piece of that text.
proof fn lemma_pieces_append(a: Seq<char>, b: Seq<char>, sep: char)
    requires
        !b.contains(sep),
    ensures
        pieces(a + b, sep) == pieces(a, sep).drop_last().push(pieces(a, sep).last() + b),
    decreases b.len(),
{
    lemma_pieces_len(a, sep);
    let pa = pieces(a, sep);
    if b.len() == 0 {
        assert(a + b =~= a);
        assert(pa.last() + b =~= pa.last());
        assert(pa.drop_last().push(pa.last()) =~= pa);
    } else {
        let front = b.drop_last();
        assert(b[b.len() - 1] == b.last());
        assert(b.last() != sep);
        assert forall|j: int| 0 <= j < front.len() implies front[j] != sep by {
            assert(front[j] == b[j]);
        }
        lemma_pieces_append(a, front, sep);
        assert((a + b).drop_last() =~= a + front);
        assert((a + b).last() == b.last());
        let before = pieces(a + front, sep);
        assert(before.drop_last() =~= pa.drop_last());
        assert(before.last().push(b.last()) =~= pa.last() + b);
    }
}

/// Splitting what was joined gives the parts back, where there is at least
/// one part and none holds the separator.
pub proof fn lemma_pieces_joined(parts: Seq<Seq<char>>, sep: char)
    requires
        parts.len() >= 1,
        forall|i: int| 0 <= i < parts.len() ==> !(#[trigger] parts[i]).contains(sep),
    ensures
        pieces(joined(parts, seq![sep]), sep) == parts,
    decreases parts.len(),
{
    if parts.len() == 1 {
        lemma_pieces_append(Seq::empty(), parts[0], sep);
        assert(Seq::<char>::empty() + parts[0] =~= parts[0]);
        assert(pieces(Seq::empty(), sep) =~= seq![Seq::<char>::empty()]);
        assert(pieces(parts[0], sep) =~= parts);
    } else {
        let front = parts.drop_last();
        assert forall|i: int| 0 <= i < front.len() implies !(#[trigger] front[i]).contains(sep) by {
            assert(front[i] == parts[i]);
        }
        lemma_pieces_joined(front, sep);
        let head = joined(front, seq![sep]) + seq![sep];
        assert(head.drop_last() =~= joined(front, seq![sep]));
        assert(pieces(head, sep) == front.push(Seq::empty()));
        lemma_pieces_append(head, parts.last(), sep);
        assert(Seq::<char>::empty() + parts.last() =~= parts.last());
        assert(front.push(Seq::empty()).drop_last() =~= front);
        assert(front.push(parts.last()) =~= parts);
    }
}

/// The characters of `s`, in order.
pub fn chars_of(s: &str) -> (v: Vec<char>)
    ensures
        v@ == s@,
{
    let mut v: Vec<char> = Vec::new();
    for c in it: s.chars()
        invariant
            v@ == it.seq().take(it.index() as int),
            it.seq() == s@,
    {
        v.push(c);
    }
    v
}

/// `String::push` appends one character to the end of the string.
pub assume_specification[ String::push ](s: &mut String, c: char)
    ensures
        final(s)@ == old(s)@.push(c),
;

/// Joins `parts` with `sep` between neighbours.
pub fn join(parts: &[String], sep: &str) -> (s: String)
    ensures
        s@ == joined(parts.deep_view(), sep@),
{
    let mut s = String::new();
    let mut i: usize = 0;
    while i < parts.len()
        invariant
            i <= parts.len(),
            s@ == joined(parts.deep_view().take(i as int), sep@),
        decreases parts.len() - i,
    {
        proof {
            let now = parts.deep_view().take(i + 1);
            assert(now.drop_last() =~= parts.deep_view().take(i as int));
            assert(now.last() == parts[i as int]@);
        }
        if i > 0 {
            s.append(sep);
        }
        s.append(parts[i].as_str());
        i += 1;
    }
    assert(parts.deep_view().take(i as int) =~= parts.deep_view());
    s
}

/// Splits `s` at every occurrence of `sep`.
pub fn split(s: &str, sep: char) -> (parts: Vec<String>)
    ensures
        parts.deep_view() == pieces(s@, sep),
{
    let mut parts: Vec<String> = Vec::new();
    let mut piece = String::new();
    for c in it: s.chars()
        invariant
            it.seq() == s@,
            parts.deep_view().push(piece@) == pieces(s@.take(it.index() as int), sep),
    {
        proof {
            let now = s@.take(it.index() + 1);
            assert(now.drop_last() =~= s@.take(it.index() as int));
            assert(now.last() == c);
        }
        let ghost before = parts.deep_view();
        if c == sep {
            parts.push(piece);
            piece = String::new();
            assert(parts.deep_view() =~= before.push(parts[parts.len() - 1]@));
        } else {
            let ghost grown = piece@.push(c);
            piece.push(c);
            assert(before.push(piece@) =~= before.push(grown));
            assert(before.push(grown).drop_last() =~= before);
        }
    }
    let ghost before = parts.deep_view();
    parts.push(piece);
    assert(parts.deep_view() =~= before.push(parts[parts.len() - 1]@));
    assert(s@.take(s@.len() as int) =~= s@);
    parts
}

/// `String::pop` takes the last character off the string and returns it; on
/// an empty string it returns `None` and changes nothing.
pub assume_specification[ String::pop ](s: &mut String) -> (c: Option<char>)
    ensures
        old(s)@.len() == 0 ==> c is None && final(s)@ == old(s)@,
        old(s)@.len() > 0 ==> c == Some(old(s)@.last()) && final(s)@ == old(s)@.drop_last(),
;

/// Takes one trailing carriage return off `line`.
fn strip_cr(line: String) -> (r: String)
    ensures
        r@ == without_cr(line@),
{
    let mut line = line;
    let ghost whole = line@;
    match line.pop() {
        Some(c) => {
            if c != '\r' {
                line.push(c);
                assert(line@ =~= whole);
            }
        },
        None => {},
    }
    line
}

/// Splits `s` into its lines.
pub fn split_lines(s: &str) -> (out: Vec<String>)
    ensures
        out.deep_view() == lines(s@),
{
    let mut out: Vec<String> = Vec::new();
    let mut piece = String::new();
    for c in it: s.chars()
        invariant
            it.seq() == s@,
            out.deep_view() == ended_lines(s@.take(it.index() as int)),
            piece@ == pieces(s@.take(it.index() as int), '\n').last(),
    {
        proof {
            let now = s@.take(it.index() + 1);
            assert(now.drop_last() =~= s@.take(it.index() as int));
            assert(now.last() == c);
            lemma_pieces_len(now.drop_last(), '\n');
        }
        let ghost before = pieces(s@.take(it.index() as int), '\n');
        let ghost now = s@.take(it.index() + 1);
        if c == '\n' {
            let ghost earlier = out.deep_view();
            let line = strip_cr(piece);
            out.push(line);
            piece = String::new();
            assert(out.deep_view() =~= earlier.push(without_cr(before.last())));
            assert(pieces(now, '\n').drop_last() =~= before);
            assert(ended_lines(now) =~= earlier.push(without_cr(before.last())));
        } else {
            piece.push(c);
            assert(pieces(now, '\n').drop_last() =~= before.drop_last());
            assert(out.deep_view() =~= ended_lines(now));
        }
    }
    assert(s@.take(s@.len() as int) =~= s@);
    if !piece.as_str().is_empty() {
        let ghost before = out.deep_view();
        out.push(piece);
        assert(out.deep_view() =~= before.push(out[out.len() - 1]@));
    }
    out
}

/// Whether `pat` stands in `s` at index `i`.
fn occurs_at(s: &[char], i: usize, pat: &[char]) -> (r: bool)
    requires
        i + pat.len() <= s.len(),
    ensures
        r == (s@.subrange(i as int, i + pat.len()) == pat@),
{
    let mut j: usize = 0;
    while j < pat.len()
        invariant
            j <= pat.len(),
            i + pat.len() <= s.len(),
            forall|k: int| 0 <= k < j ==> s@[i + k] == pat@[k],
        decreases pat.len() - j,
    {
        if s[i + j] != pat[j] {
            assert(s@.subrange(i as int, i + pat.len())[j as int] == s@[i + j]);
            return false;
        }
        j += 1;
    }
    assert(s@.subrange(i as int, i + pat.len()) =~= pat@);
    true
}

/// Replaces every occurrence of `from` in `s` by `to`.
pub fn replace(s: &str, from: &str, to: &str) -> (r: String)
    ensures
        r@ == replaced(s@, from@, to@),
{
    let text = chars_of(s);
    let pat = chars_of(from);
    let n = text.len();
    let m = pat.len();
    let mut r = String::new();
    let mut i: usize = 0;
    let mut open = true;
    assert(s@.subrange(0, n as int) =~= s@);
    assert(r@ + s@ =~= s@);
    assert(r@ + replaced(s@, from@, to@) =~= replaced(s@, from@, to@));
    while open
        invariant
            i <= n,
            n == text.len(),
            m == pat.len(),
            text@ == s@,
            pat@ == from@,
            replaced(s@, from@, to@) == r@ + (if open {
                replaced(s@.subrange(i as int, n as int), from@, to@)
            } else {
                Seq::empty()
            }),
        decreases n - i + (if open { 1int } else { 0int }),
    {
        let ghost tail = s@.subrange(i as int, n as int);
        let ghost done = r@;
        if n - i < m {
            if i == n {
                open = false;
            } else {
                r.push(text[i]);
                i += 1;
                assert(replaced(s@.subrange(i as int, n as int), from@, to@) == s@.subrange(
                    i as int,
                    n as int,
                ));
                assert(done + tail =~= r@ + s@.subrange(i as int, n as int));
            }
        } else if m == 0 {
            r.append(to);
            if i == n {
                open = false;
                assert(done + to@ =~= r@ + Seq::<char>::empty());
            } else {
                r.push(text[i]);
                i += 1;
                assert(tail.drop_first() =~= s@.subrange(i as int, n as int));
                assert(done + (to@ + seq![tail[0]] + replaced(tail.drop_first(), from@, to@)) =~= r@
                    + replaced(tail.drop_first(), from@, to@));
            }
        } else if occurs_at(text.as_slice(), i, pat.as_slice()) {
            r.append(to);
            assert(tail.subrange(0, m as int) =~= s@.subrange(i as int, i + m));
            assert(tail.subrange(m as int, tail.len() as int) =~= s@.subrange(i + m, n as int));
            i += m;
            assert(done + (to@ + replaced(s@.subrange(i as int, n as int), from@, to@)) =~= r@
                + replaced(s@.subrange(i as int, n as int), from@, to@));
        } else {
            assert(tail.subrange(0, m as int) =~= s@.subrange(i as int, i + m));
            r.push(text[i]);
            i += 1;
            assert(tail.drop_first() =~= s@.subrange(i as int, n as int));
            assert(done + (seq![tail[0]] + replaced(tail.drop_first(), from@, to@)) =~= r@
                + replaced(tail.drop_first(), from@, to@));
        }
    }
    assert(r@ + Seq::<char>::empty() =~= r@);
    r
}

} // verus!
