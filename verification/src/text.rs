//! Texts: what the library does with strings, stated over their characters.

use vstd::prelude::*;

verus! {

/// `c` with an ASCII capital letter replaced by its small letter.
pub open spec fn ascii_lower(c: char) -> char {
    if 'A' <= c && c <= 'Z' {
        ((c as u32) + 32) as char
    } else {
        c
    }
}

/// `c` with an ASCII small letter replaced by its capital letter.
pub open spec fn ascii_upper(c: char) -> char {
    if 'a' <= c && c <= 'z' {
        ((c as u32) - 32) as char
    } else {
        c
    }
}

/// `c` with an ASCII capital letter replaced by its small letter.
pub(crate) fn lower(c: char) -> (r: char)
    ensures
        r == ascii_lower(c),
{
    if 'A' <= c && c <= 'Z' {
        ((c as u8) + 32) as char
    } else {
        c
    }
}

/// `c` with an ASCII small letter replaced by its capital letter.
pub(crate) fn upper(c: char) -> (r: char)
    ensures
        r == ascii_upper(c),
{
    if 'a' <= c && c <= 'z' {
        ((c as u8) - 32) as char
    } else {
        c
    }
}

/// `String::push`: appends one character.
#[verifier::external_body]
pub(crate) fn push_char(s: &mut String, c: char)
    ensures
        final(s)@ == old(s)@.push(c),
{
    s.push(c);
}

/// `str::eq`: whether two strings hold the same characters.
#[verifier::external_body]
pub(crate) fn same_text(a: &str, b: &str) -> (same: bool)
    ensures
        same == (a@ == b@),
{
    a == b
}

/// Whether `part` stands somewhere in `whole`, as it is.
pub open spec fn occurs_in(part: Seq<char>, whole: Seq<char>) -> bool {
    exists|at: int|
        0 <= at && at + part.len() <= whole.len() && #[trigger] whole.subrange(
            at,
            at + part.len(),
        ) == part
}

/// `s` with each occurrence of `from` replaced by `to`: the occurrences are taken from the
/// left and do not overlap. An empty `from` occurs nowhere.
pub open spec fn substituted(s: Seq<char>, from: Seq<char>, to: Seq<char>) -> Seq<char>
    decreases s.len(),
{
    if from.len() == 0 || s.len() < from.len() {
        s
    } else if s.subrange(0, from.len() as int) == from {
        to + substituted(s.skip(from.len() as int), from, to)
    } else {
        seq![s[0]] + substituted(s.skip(1), from, to)
    }
}

/// The characters of a string.
fn chars_of(s: &str) -> (chars: Vec<char>)
    ensures
        chars@ == s@,
{
    let mut chars: Vec<char> = Vec::new();
    for c in it: s.chars()
        invariant
            it.seq() == s@,
            chars@ == s@.take(it.index() as int),
    {
        chars.push(c);
        proof {
            assert(chars@ =~= s@.take(it.index() as int + 1));
        }
    }
    proof {
        assert(s@.take(s@.len() as int) =~= s@);
    }
    chars
}

/// Whether `pattern` stands in `text` at the place `at`.
fn stands_at(text: &Vec<char>, at: usize, pattern: &Vec<char>) -> (stands: bool)
    requires
        at + pattern@.len() <= text@.len(),
    ensures
        stands == (text@.subrange(at as int, at + pattern@.len()) == pattern@),
{
    assert(text.len() <= usize::MAX);
    let mut k: usize = 0;
    while k < pattern.len()
        invariant
            k <= pattern@.len(),
            at + pattern@.len() <= text@.len() <= usize::MAX,
            forall|j: int| 0 <= j < k ==> text@[at + j] == pattern@[j],
        decreases pattern@.len() - k,
    {
        if text[at + k] != pattern[k] {
            proof {
                assert(text@.subrange(at as int, at + pattern@.len())[k as int] == text@[at + k]);
            }
            return false;
        }
        k += 1;
    }
    proof {
        assert(text@.subrange(at as int, at + pattern@.len()) =~= pattern@);
    }
    true
}

/// Whether `part` stands somewhere in `whole`.
pub(crate) fn contains_text(whole: &str, part: &str) -> (found: bool)
    ensures
        found == occurs_in(part@, whole@),
{
    let text = chars_of(whole);
    let pattern = chars_of(part);
    if pattern.len() > text.len() {
        return false;
    }
    let last = text.len() - pattern.len();
    let mut at: usize = 0;
    while at < last
        invariant
            at <= last,
            last == text@.len() - pattern@.len(),
            text@ == whole@,
            pattern@ == part@,
            forall|j: int| 0 <= j < at ==> #[trigger] text@.subrange(j, j + pattern@.len()) != pattern@,
        decreases last - at,
    {
        if stands_at(&text, at, &pattern) {
            return true;
        }
        at += 1;
    }
    stands_at(&text, last, &pattern)
}

/// `s` with each occurrence of `from` replaced by `to`.
pub(crate) fn replace(s: &str, from: &str, to: &str) -> (replaced: String)
    requires
        from@.len() > 0,
    ensures
        replaced@ == substituted(s@, from@, to@),
{
    let text = chars_of(s);
    let pattern = chars_of(from);
    let mut replaced = String::new();
    let mut at: usize = 0;
    proof {
        assert(text@.skip(0) =~= text@);
        assert(replaced@ + substituted(text@, pattern@, to@) =~= substituted(text@, pattern@, to@));
    }
    while at < text.len()
        invariant
            at <= text@.len(),
            text@ == s@,
            pattern@ == from@,
            pattern@.len() > 0,
            replaced@ + substituted(text@.skip(at as int), pattern@, to@) == substituted(text@, pattern@, to@),
        decreases text@.len() - at,
    {
        let ghost rest = text@.skip(at as int);
        if text.len() - at >= pattern.len() && stands_at(&text, at, &pattern) {
            proof {
                assert(rest.subrange(0, pattern@.len() as int) =~= text@.subrange(at as int, at + pattern@.len()));
                assert(rest.skip(pattern@.len() as int) =~= text@.skip(at + pattern@.len()));
                assert(replaced@ + to@ + substituted(text@.skip(at + pattern@.len()), pattern@, to@)
                    =~= replaced@ + substituted(rest, pattern@, to@));
            }
            replaced.append(to);
            at += pattern.len();
        } else {
            proof {
                if rest.len() >= pattern@.len() {
                    assert(rest.subrange(0, pattern@.len() as int) =~= text@.subrange(
                        at as int,
                        at + pattern@.len(),
                    ));
                } else {
                    assert(rest.skip(1).len() < pattern@.len());
                    assert(rest =~= seq![rest[0]] + rest.skip(1));
                }
                assert(rest.skip(1) =~= text@.skip(at + 1));
                assert(replaced@.push(text@[at as int]) + substituted(text@.skip(at + 1), pattern@, to@)
                    =~= replaced@ + substituted(rest, pattern@, to@));
            }
            push_char(&mut replaced, text[at]);
            at += 1;
        }
    }
    proof {
        assert(text@.skip(text@.len() as int) =~= Seq::<char>::empty());
        assert(replaced@ + Seq::<char>::empty() =~= replaced@);
    }
    replaced
}

/// The pieces of `s` between the occurrences of `sep`, in order: always one more than
/// there are occurrences, so the empty text has one empty piece.
pub open spec fn pieces(s: Seq<char>, sep: char) -> Seq<Seq<char>>
    decreases s.len(),
{
    if s.len() == 0 {
        seq![Seq::empty()]
    } else {
        let before = pieces(s.drop_last(), sep);
        if s.last() == sep {
            before.push(Seq::empty())
        } else {
            before.drop_last().push(before.last().push(s.last()))
        }
    }
}

/// The pieces put together again, with `sep` between each two.
pub open spec fn joined(parts: Seq<Seq<char>>, sep: char) -> Seq<char>
    decreases parts.len(),
{
    if parts.len() == 0 {
        Seq::empty()
    } else if parts.len() == 1 {
        parts[0]
    } else {
        joined(parts.drop_last(), sep).push(sep) + parts.last()
    }
}

/// Cutting a text at a separator loses nothing: there is at least one piece, no piece
/// holds the separator, and the pieces joined by the separator are the text.
pub proof fn lemma_pieces(s: Seq<char>, sep: char)
    ensures
        pieces(s, sep).len() >= 1,
        forall|i: int, j: int|
            0 <= i < pieces(s, sep).len() && 0 <= j < pieces(s, sep)[i].len() ==> #[trigger] pieces(
                s,
                sep,
            )[i][j] != sep,
        joined(pieces(s, sep), sep) == s,
    decreases s.len(),
{
    if s.len() == 0 {
        assert(joined(pieces(s, sep), sep) =~= s);
    } else {
        let shorter = s.drop_last();
        lemma_pieces(shorter, sep);
        let before = pieces(shorter, sep);
        let now = pieces(s, sep);
        if s.last() == sep {
            assert(now.drop_last() =~= before);
            assert(joined(now, sep) =~= shorter.push(sep));
            assert(shorter.push(sep) =~= s);
        } else {
            let grown = before.last().push(s.last());
            assert(now == before.drop_last().push(grown));
            assert forall|i: int, j: int| 0 <= i < now.len() && 0 <= j < now[i].len() implies #[trigger] now[i][j]
                != sep by {
                if i < now.len() - 1 {
                    assert(now[i] == before[i]);
                } else if j < before.last().len() {
                    assert(now[i][j] == before[before.len() - 1][j]);
                }
            }
            if before.len() == 1 {
                assert(joined(before, sep) == before[0]);
                assert(joined(now, sep) =~= s);
            } else {
                assert(now.drop_last() =~= before.drop_last());
                assert(joined(before, sep) == joined(before.drop_last(), sep).push(sep) + before.last());
                assert(joined(now, sep) =~= joined(before, sep).push(s.last()));
                assert(joined(before, sep).push(s.last()) =~= s);
            }
        }
    }
}

/// The views of the strings of a vector.
pub open spec fn texts(lines: Seq<String>) -> Seq<Seq<char>> {
    Seq::new(lines.len(), |i: int| lines[i]@)
}

/// Cuts `line` at each `sep`.
pub fn split_line(line: &str, sep: char) -> (parts: Vec<String>)
    ensures
        texts(parts@) == pieces(line@, sep),
{
    let mut done: Vec<String> = Vec::new();
    let mut current = String::new();
    for c in it: line.chars()
        invariant
            it.seq() == line@,
            texts(done@).push(current@) == pieces(line@.take(it.index() as int), sep),
    {
        let ghost seen = line@.take(it.index() as int);
        let ghost more = line@.take(it.index() as int + 1);
        proof {
            assert(more.drop_last() =~= seen);
            assert(more.last() == c);
        }
        if c == sep {
            done.push(current);
            current = String::new();
            proof {
                assert(texts(done@) =~= pieces(seen, sep));
                assert(texts(done@).push(current@) =~= pieces(more, sep));
            }
        } else {
            push_char(&mut current, c);
            proof {
                assert(pieces(seen, sep).drop_last() =~= texts(done@));
                assert(texts(done@).push(current@) =~= pieces(more, sep));
            }
        }
    }
    proof {
        assert(line@.take(line@.len() as int) =~= line@);
    }
    let ghost earlier = texts(done@);
    done.push(current);
    proof {
        assert(texts(done@) =~= earlier.push(current@));
    }
    done
}

} // verus!
