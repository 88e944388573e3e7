//! Texts as sequences of lines.

use crate::text::to_chars;
use vstd::prelude::*;

verus! {

/// A text without a line break.
pub open spec fn plain(text: Seq<char>) -> bool {
    forall|i: int| 0 <= i < text.len() ==> text[i] != '\n'
}

/// Every text of the list is without a line break.
pub open spec fn all_plain(lines: Seq<Seq<char>>) -> bool {
    forall|k: int| 0 <= k < lines.len() ==> plain(#[trigger] lines[k])
}

/// A line followed by its line break.
pub open spec fn ended(line: Seq<char>) -> Seq<char> {
    line.push('\n')
}

/// The text made of the given lines, each followed by a line break.
pub open spec fn unlines(lines: Seq<Seq<char>>) -> Seq<char>
    decreases lines.len(),
{
    if lines.len() == 0 {
        Seq::<char>::empty()
    } else {
        unlines(lines.drop_last()) + ended(lines.last())
    }
}

/// Reading one more character: a line break closes the open line, any other
/// character is added to it.
pub open spec fn read_char(state: (Seq<Seq<char>>, Seq<char>), c: char) -> (
    Seq<Seq<char>>,
    Seq<char>,
) {
    if c == '\n' {
        (state.0.push(state.1), Seq::<char>::empty())
    } else {
        (state.0, state.1.push(c))
    }
}

/// A text read character by character: the lines that a line break has
/// closed, and what follows the last line break.
pub open spec fn read(text: Seq<char>) -> (Seq<Seq<char>>, Seq<char>)
    decreases text.len(),
{
    if text.len() == 0 {
        (Seq::<Seq<char>>::empty(), Seq::<char>::empty())
    } else {
        read_char(read(text.drop_last()), text.last())
    }
}

/// The lines of a text that a line break closes.
pub open spec fn lines_of(text: Seq<char>) -> Seq<Seq<char>> {
    read(text).0
}

/// Nothing follows the last line break of the text: it is empty or ends with
/// a line break.
pub open spec fn terminated(text: Seq<char>) -> bool {
    read(text).1.len() == 0
}

/// A text is its closed lines followed by the rest, and neither a line nor
/// the rest holds a line break.
pub proof fn lemma_read_sound(text: Seq<char>)
    ensures
        text == unlines(read(text).0) + read(text).1,
        all_plain(read(text).0),
        plain(read(text).1),
    decreases text.len(),
{
    if text.len() == 0 {
        assert(text =~= unlines(read(text).0) + read(text).1);
    } else {
        let before = text.drop_last();
        lemma_read_sound(before);
        let done = read(before).0;
        let open = read(before).1;
        assert(before == unlines(done) + open);
        assert(text =~= before.push(text.last()));
        if text.last() == '\n' {
            assert(read(text) == (done.push(open), Seq::<char>::empty()));
            assert(done.push(open).drop_last() =~= done);
            assert(done.push(open).last() == open);
            assert(unlines(done.push(open)) == unlines(done) + ended(open));
            assert((unlines(done) + open).push('\n') =~= unlines(done) + ended(open));
            assert(text =~= unlines(done.push(open)) + Seq::<char>::empty());
            assert forall|k: int| 0 <= k < done.push(open).len() implies plain(
                #[trigger] done.push(open)[k],
            ) by {
                if k < done.len() {
                    assert(done.push(open)[k] == done[k]);
                }
            }
        } else {
            assert(read(text) == (done, open.push(text.last())));
            assert((unlines(done) + open).push(text.last()) =~= unlines(done) + open.push(
                text.last(),
            ));
        }
    }
}

/// Reading a text and then another is reading the two in a row.
pub proof fn lemma_read_more(a: Seq<char>, b: Seq<char>)
    ensures
        plain(b) ==> read(a + b) == (read(a).0, read(a).1 + b),
        terminated(a) ==> read(a + b) == (read(a).0 + read(b).0, read(b).1),
    decreases b.len(),
{
    if b.len() == 0 {
        assert(a + b =~= a);
        assert(read(a).1 + b =~= read(a).1);
        assert(read(a).0 + read(b).0 =~= read(a).0);
    } else {
        let shorter = b.drop_last();
        lemma_read_more(a, shorter);
        assert((a + b).drop_last() =~= a + shorter);
        assert((a + b).last() == b.last());
        if plain(b) {
            assert(plain(shorter));
            assert(b.last() == b[b.len() - 1]);
            assert(read(a).1 + b =~= (read(a).1 + shorter).push(b.last()));
        }
        if terminated(a) {
            if b.last() == '\n' {
                assert(read(a).0 + read(shorter).0.push(read(shorter).1) =~= (read(a).0 + read(
                    shorter,
                ).0).push(read(shorter).1));
            }
        }
    }
}

/// Reading a line and its line break closes that line.
pub proof fn lemma_read_line(line: Seq<char>)
    requires
        plain(line),
    ensures
        read(ended(line)) == (seq![line], Seq::<char>::empty()),
{
    lemma_read_more(Seq::<char>::empty(), line);
    assert(Seq::<char>::empty() + line =~= line);
    assert(ended(line).drop_last() =~= line);
    assert(read(line).1 =~= line);
    assert(read(line).0 =~= Seq::<Seq<char>>::empty());
    assert(Seq::<Seq<char>>::empty().push(line) =~= seq![line]);
}

/// Lines that are written one after the other are read back as they were.
pub proof fn lemma_read_unlines(lines: Seq<Seq<char>>)
    requires
        all_plain(lines),
    ensures
        read(unlines(lines)) == (lines, Seq::<char>::empty()),
    decreases lines.len(),
{
    if lines.len() > 0 {
        let before = lines.drop_last();
        assert(all_plain(before)) by {
            assert forall|k: int| 0 <= k < before.len() implies plain(#[trigger] before[k]) by {
                assert(before[k] == lines[k]);
            }
        }
        lemma_read_unlines(before);
        lemma_read_line(lines.last());
        lemma_read_more(unlines(before), ended(lines.last()));
        assert(before + seq![lines.last()] =~= lines);
    }
}

/// Writing two lists of lines in a row is writing the one after the other.
pub proof fn lemma_unlines_more(a: Seq<Seq<char>>, b: Seq<Seq<char>>)
    ensures
        unlines(a + b) == unlines(a) + unlines(b),
    decreases b.len(),
{
    if b.len() == 0 {
        assert(a + b =~= a);
        assert(unlines(a) + unlines(b) =~= unlines(a));
    } else {
        lemma_unlines_more(a, b.drop_last());
        assert((a + b).drop_last() =~= a + b.drop_last());
        assert((a + b).last() == b.last());
        assert(unlines(a + b) =~= unlines(a) + unlines(b));
    }
}

/// A terminated text is its lines written one after the other.
pub proof fn lemma_terminated(text: Seq<char>)
    requires
        terminated(text),
    ensures
        text == unlines(lines_of(text)),
        all_plain(lines_of(text)),
{
    lemma_read_sound(text);
    assert(unlines(read(text).0) + read(text).1 =~= unlines(read(text).0));
}

/// What a list of strings stands for.
pub open spec fn lines_view(lines: Seq<String>) -> Seq<Seq<char>> {
    lines.map_values(|l: String| l@)
}

/// The lines of a text that a line break closes, and whether nothing follows
/// the last of them.
pub fn split_lines(text: &str) -> (r: (Vec<String>, bool))
    ensures
        lines_view(r.0@) == lines_of(text@),
        r.1 == terminated(text@),
{
    let chars = to_chars(text);
    let mut lines: Vec<String> = Vec::new();
    let mut start: usize = 0;
    let mut i: usize = 0;
    assert(chars@.take(0) =~= Seq::<char>::empty());
    assert(lines_view(lines@) =~= Seq::<Seq<char>>::empty());
    assert(chars@.subrange(0, 0) =~= Seq::<char>::empty());
    while i < chars.len()
        invariant
            chars@ == text@,
            start <= i <= chars@.len(),
            read(chars@.take(i as int)) == (lines_view(lines@), chars@.subrange(
                start as int,
                i as int,
            )),
        decreases chars@.len() - i,
    {
        let ghost before = chars@.take(i as int);
        let ghost after = chars@.take(i + 1);
        let ghost held = lines_view(lines@);
        assert(after.drop_last() =~= before);
        assert(after.last() == chars@[i as int]);
        if chars[i] == '\n' {
            let line = text.substring_char(start, i);
            lines.push(line.to_owned());
            start = i + 1;
            proof {
                assert(lines_view(lines@) =~= held.push(line@));
                assert(chars@.subrange(start as int, i + 1) =~= Seq::<char>::empty());
            }
        } else {
            proof {
                assert(chars@.subrange(start as int, i + 1) =~= chars@.subrange(
                    start as int,
                    i as int,
                ).push(chars@[i as int]));
            }
        }
        i += 1;
    }
    assert(chars@.take(chars@.len() as int) =~= chars@);
    (lines, start == i)
}

} // verus!
