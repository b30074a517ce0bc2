use vstd::prelude::*;
use crate::text::{append, slice, texts};

verus! {

/// A word cut into pieces of `width` characters; the last piece holds what
/// is left, a whole word that fits being its own last piece.
pub open spec fn pieces(word: Seq<char>, width: int) -> Seq<Seq<char>>
    decreases word.len(),
{
    if width <= 0 || word.len() <= width {
        seq![word]
    } else {
        seq![word.take(width)] + pieces(word.skip(width), width)
    }
}

/// The lines that the words from position `from` on fill, `line` being the
/// line that is open when the first of them comes. A word goes behind a
/// blank on the open line where it fits within `width`; else the open line
/// is closed and the word begins a new one, cut into pieces where it is
/// longer than `width`.
pub open spec fn wrapped(words: Seq<Seq<char>>, from: int, line: Seq<char>, width: int) -> Seq<
    Seq<char>,
>
    decreases words.len() - from,
{
    if from < 0 || from >= words.len() {
        if line.len() == 0 {
            Seq::empty()
        } else {
            seq![line]
        }
    } else if line.len() > 0 && line.len() + 1 + words[from].len() <= width {
        wrapped(words, from + 1, line + seq![' '] + words[from], width)
    } else {
        let cut = pieces(words[from], width);
        (if line.len() > 0 {
            seq![line]
        } else {
            Seq::empty()
        }) + cut.drop_last() + wrapped(words, from + 1, cut.last(), width)
    }
}

/// The words wrapped into lines of `width` characters at most.
pub open spec fn wrap_lines(words: Seq<Seq<char>>, width: int) -> Seq<Seq<char>> {
    wrapped(words, 0, Seq::empty(), width)
}

pub proof fn lemma_pieces_last(word: Seq<char>, width: int)
    ensures
        pieces(word, width).len() >= 1,
        width > 0 ==> pieces(word, width).last().len() <= width,
        width > 0 && word.len() > 0 ==> pieces(word, width).last().len() > 0,
        forall|k: int|
            0 <= k < pieces(word, width).len() - 1 ==> (#[trigger] pieces(word, width)[k]).len()
                == width,
    decreases word.len(),
{
    if !(width <= 0 || word.len() <= width) {
        lemma_pieces_last(word.skip(width), width);
        let rest = pieces(word.skip(width), width);
        let all = pieces(word, width);
        assert(all =~= seq![word.take(width)] + rest);
        assert(all.last() == rest.last());
        assert forall|k: int| 0 <= k < all.len() - 1 implies (#[trigger] all[k]).len() == width by {
            if k > 0 {
                assert(all[k] == rest[k - 1]);
            }
        }
    }
}

/// No wrapped line is longer than `width`, and none is empty, as long as
/// the line that was open is neither and no word is empty.
pub proof fn lemma_wrapped_fits(words: Seq<Seq<char>>, from: int, line: Seq<char>, width: int)
    requires
        width > 0,
        line.len() <= width,
        0 <= from,
        forall|k: int| 0 <= k < words.len() ==> (#[trigger] words[k]).len() > 0,
    ensures
        forall|k: int|
            0 <= k < wrapped(words, from, line, width).len() ==> 0 < (#[trigger] wrapped(
                words,
                from,
                line,
                width,
            )[k]).len() <= width,
    decreases words.len() - from,
{
    let lines = wrapped(words, from, line, width);
    if from >= words.len() {
        if line.len() > 0 {
            assert(lines =~= seq![line]);
        }
    } else if line.len() > 0 && line.len() + 1 + words[from].len() <= width {
        lemma_wrapped_fits(words, from + 1, line + seq![' '] + words[from], width);
        assert(lines == wrapped(words, from + 1, line + seq![' '] + words[from], width));
    } else {
        let cut = pieces(words[from], width);
        lemma_pieces_last(words[from], width);
        lemma_wrapped_fits(words, from + 1, cut.last(), width);
        let head: Seq<Seq<char>> = if line.len() > 0 {
            seq![line]
        } else {
            Seq::empty()
        };
        let tail = wrapped(words, from + 1, cut.last(), width);
        assert(lines =~= head + cut.drop_last() + tail);
        assert forall|k: int| 0 <= k < lines.len() implies 0 < (#[trigger] lines[k]).len()
            <= width by {
            if k < head.len() {
                assert(lines[k] == line);
            } else if k < head.len() + cut.drop_last().len() {
                assert(lines[k] == cut[k - head.len()]);
            } else {
                assert(lines[k] == tail[k - head.len() - cut.drop_last().len()]);
            }
        }
    }
}

/// Words that are not empty wrap into lines of which none is longer than
/// `width` and none is empty.
pub proof fn law_wrapped_lines_fit(words: Seq<Seq<char>>, width: int)
    requires
        width > 0,
        forall|k: int| 0 <= k < words.len() ==> (#[trigger] words[k]).len() > 0,
    ensures
        forall|k: int|
            0 <= k < wrap_lines(words, width).len() ==> 0 < (#[trigger] wrap_lines(
                words,
                width,
            )[k]).len() <= width,
{
    lemma_wrapped_fits(words, 0, Seq::empty(), width);
}

/// Wraps the words into lines of `width` characters at most.
pub fn wrap(words: &Vec<Vec<char>>, width: usize) -> (lines: Vec<Vec<char>>)
    requires
        width > 0,
    ensures
        texts(lines@) == wrap_lines(texts(words@), width as int),
{
    let ghost all = texts(words@);
    let ghost goal = wrap_lines(all, width as int);
    let mut lines: Vec<Vec<char>> = Vec::new();
    let mut line: Vec<char> = Vec::new();
    let mut i: usize = 0;
    assert(texts(lines@) + wrapped(all, 0, line@, width as int) =~= goal);
    while i < words.len()
        invariant
            i <= words.len(),
            width > 0,
            all == texts(words@),
            texts(lines@) + wrapped(all, i as int, line@, width as int) == goal,
        decreases words.len() - i,
    {
        let word = &words[i];
        assert(all[i as int] == word@);
        if line.len() > 0 && word.len() < width && line.len() < width - word.len() {
            let ghost open = line@;
            line.push(' ');
            append(&mut line, word);
            assert(line@ =~= open + seq![' '] + word@);
        } else {
            let ghost open = line@;
            let ghost shut = texts(lines@);
            let ghost cut = pieces(word@, width as int);
            if line.len() > 0 {
                lines.push(line);
                assert(texts(lines@) =~= shut + seq![open]);
            }
            let ghost head = texts(lines@);
            let mut at: usize = 0;
            assert(word@.skip(0) =~= word@);
            assert(head + cut =~= head + pieces(word@.skip(0), width as int));
            while word.len() - at > width
                invariant
                    at <= word.len(),
                    width > 0,
                    cut == pieces(word@, width as int),
                    texts(lines@) + pieces(word@.skip(at as int), width as int) == head + cut,
                decreases word.len() - at,
            {
                let piece = slice(word, at, at + width);
                let ghost before = texts(lines@);
                let ghost rest = word@.skip(at as int);
                assert(rest.take(width as int) =~= piece@);
                assert(rest.skip(width as int) =~= word@.skip(at + width));
                lines.push(piece);
                assert(texts(lines@) =~= before.push(piece@));
                assert(texts(lines@) + pieces(word@.skip(at + width), width as int) =~= before
                    + pieces(rest, width as int));
                at = at + width;
            }
            line = slice(word, at, word.len());
            proof {
                let rest = word@.skip(at as int);
                assert(line@ =~= rest);
                assert(pieces(rest, width as int) =~= seq![rest]);
                lemma_pieces_last(word@, width as int);
                let full = head + cut;
                assert(texts(lines@).push(rest) =~= texts(lines@) + seq![rest]);
                assert(full == texts(lines@).push(rest));
                assert(full.drop_last() =~= texts(lines@));
                assert(full.last() == rest);
                assert(full.drop_last() =~= head + cut.drop_last());
                assert(full.last() == cut.last());
            }
        }
        i = i + 1;
    }
    if line.len() > 0 {
        let ghost shut = texts(lines@);
        let ghost open = line@;
        lines.push(line);
        assert(texts(lines@) =~= shut + seq![open]);
    } else {
        assert(texts(lines@) + Seq::<Seq<char>>::empty() =~= texts(lines@));
    }
    lines
}

} // verus!
