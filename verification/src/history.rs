//! The text forms of the command history: the file that holds one entry per
//! line, and the numbered listing that the `history` builtin prints.

use crate::text::{
    append_chars, char_seqs, chars_of, lemma_split_nonempty, split, split_chars, string_of,
    strings_of, texts,
};
use vstd::prelude::*;

verus! {

/// A line without the carriage return at its end, if it has one.
pub open spec fn strip_cr(line: Seq<char>) -> Seq<char> {
    if line.len() > 0 && line.last() == '\r' {
        line.drop_last()
    } else {
        line
    }
}

/// The lines of a text. A line ends at a line feed; a carriage return just
/// before that line feed belongs to the line ending. What follows the last
/// line feed is a line of its own unless it is empty.
pub open spec fn lines(text: Seq<char>) -> Seq<Seq<char>> {
    let pieces = split(text, '\n');
    let ended = Seq::new((pieces.len() - 1) as nat, |i: int| strip_cr(pieces[i]));
    if pieces.last().len() > 0 {
        ended.push(pieces.last())
    } else {
        ended
    }
}

/// The text that holds each entry on a line of its own, each line ended by a
/// line feed.
pub open spec fn render(entries: Seq<Seq<char>>) -> Seq<char>
    decreases entries.len(),
{
    if entries.len() == 0 {
        Seq::empty()
    } else {
        render(entries.drop_last()) + entries.last().push('\n')
    }
}

/// The lines of a text, as [`lines`] defines them.
pub fn lines_of(text: &str) -> (found: Vec<String>)
    ensures
        texts(found@) == lines(text@),
{
    let chars = chars_of(text);
    let mut pieces = split_chars(&chars, '\n');
    proof {
        lemma_split_nonempty(text@, '\n');
    }
    let ghost all = char_seqs(pieces@);
    let last = match pieces.pop() {
        Some(last) => last,
        None => Vec::new(),
    };
    assert(last@ == all.last());
    let mut found: Vec<Vec<char>> = Vec::new();
    let mut i: usize = 0;
    while i < pieces.len()
        invariant
            i <= pieces.len(),
            pieces.len() == all.len() - 1,
            forall|k: int| 0 <= k < pieces.len() ==> (#[trigger] pieces[k])@ == all[k],
            found.len() == i,
            forall|k: int| 0 <= k < i ==> (#[trigger] found[k])@ == strip_cr(all[k]),
        decreases pieces.len() - i,
    {
        let piece = &pieces[i];
        let mut line = piece.clone();
        if line.len() > 0 && line[line.len() - 1] == '\r' {
            line.pop();
            assert(line@ =~= piece@.drop_last());
        }
        found.push(line);
        i += 1;
    }
    if last.len() > 0 {
        found.push(last);
    }
    assert(char_seqs(found@) =~= lines(text@));
    strings_of(&found)
}

/// The text of the entries from position `from` on, one per line.
pub fn render_lines(entries: &Vec<String>, from: usize) -> (text: String)
    requires
        from <= entries.len(),
    ensures
        text@ == render(texts(entries@).skip(from as int)),
{
    let mut text: Vec<char> = Vec::new();
    let ghost rest = texts(entries@).skip(from as int);
    let mut i: usize = from;
    while i < entries.len()
        invariant
            from <= i <= entries.len(),
            rest == texts(entries@).skip(from as int),
            text@ == render(rest.take(i - from)),
        decreases entries.len() - i,
    {
        let entry = chars_of(entries[i].as_str());
        proof {
            assert(rest.take(i + 1 - from).drop_last() =~= rest.take(i - from));
            assert(rest.take(i + 1 - from).last() == entry@);
        }
        append_chars(&mut text, &entry);
        text.push('\n');
        assert(text@ =~= render(rest.take(i - from)) + entry@.push('\n'));
        i += 1;
    }
    assert(rest.take(i - from) =~= rest);
    string_of(&text)
}

/// The character of a decimal digit.
pub open spec fn digit_char(d: nat) -> char
    recommends
        d < 10,
{
    (d + 48) as char
}

/// The decimal numeral of a number, without leading zeros.
pub open spec fn decimal(n: nat) -> Seq<char>
    decreases n,
{
    if n < 10 {
        seq![digit_char(n)]
    } else {
        decimal(n / 10).push(digit_char(n % 10))
    }
}

/// The decimal numeral of `n`.
pub fn decimal_of(n: usize) -> (digits: Vec<char>)
    ensures
        digits@ == decimal(n as nat),
    decreases n,
{
    let low: u8 = (n % 10) as u8;
    let digit: char = (low + 48) as char;
    if n < 10 {
        let mut digits: Vec<char> = Vec::new();
        digits.push(digit);
        assert(digits@ =~= seq![digit_char(n as nat)]);
        digits
    } else {
        let mut digits = decimal_of(n / 10);
        digits.push(digit);
        digits
    }
}

/// The text moved to the right edge of a field of the given width, which
/// spaces fill on the left. A text that is wider than the field stays whole.
pub open spec fn right_aligned(s: Seq<char>, width: nat) -> Seq<char> {
    Seq::new(
        if s.len() < width {
            (width - s.len()) as nat
        } else {
            0
        },
        |i: int| ' ',
    ) + s
}

/// One line of the history listing: the number in a field of five
/// characters, two spaces, and the command.
pub open spec fn listing_line(number: nat, command: Seq<char>) -> Seq<char> {
    right_aligned(decimal(number), 5) + seq![' ', ' '] + command
}

/// The listing of the given entries, numbered from 1.
pub open spec fn listing(entries: Seq<Seq<char>>) -> Seq<Seq<char>> {
    Seq::new(entries.len(), |i: int| listing_line((i + 1) as nat, entries[i]))
}

fn listing_line_of(number: usize, command: &str) -> (line: String)
    ensures
        line@ == listing_line(number as nat, command@),
{
    let digits = decimal_of(number);
    let mut line: Vec<char> = Vec::new();
    let mut width: usize = digits.len();
    while width < 5
        invariant
            digits.len() <= width,
            width <= 5 || width == digits.len(),
            line.len() == width - digits.len(),
            forall|k: int| 0 <= k < line.len() ==> line[k] == ' ',
        decreases 5 - width,
    {
        line.push(' ');
        width += 1;
    }
    append_chars(&mut line, &digits);
    assert(line@ =~= right_aligned(digits@, 5));
    line.push(' ');
    line.push(' ');
    let command = chars_of(command);
    append_chars(&mut line, &command);
    assert(line@ =~= listing_line(number as nat, command@));
    string_of(&line)
}

/// The listing of the entries from position `start` on. The numbers count
/// what is listed: the first line has the number 1 wherever it starts.
pub fn history_listing(entries: &Vec<String>, start: usize) -> (shown: Vec<String>)
    requires
        start <= entries.len(),
    ensures
        texts(shown@) == listing(texts(entries@).skip(start as int)),
{
    let mut shown: Vec<String> = Vec::new();
    let ghost rest = texts(entries@).skip(start as int);
    let mut i: usize = start;
    while i < entries.len()
        invariant
            start <= i <= entries.len(),
            rest == texts(entries@).skip(start as int),
            shown.len() == i - start,
            forall|k: int|
                0 <= k < i - start ==> (#[trigger] shown[k])@ == listing_line(
                    (k + 1) as nat,
                    rest[k],
                ),
        decreases entries.len() - i,
    {
        shown.push(listing_line_of(i - start + 1, entries[i].as_str()));
        i += 1;
    }
    assert(texts(shown@) =~= listing(rest));
    shown
}

/// Whether the text is a decimal numeral: one digit or more, and nothing
/// else.
pub open spec fn is_numeral(s: Seq<char>) -> bool {
    s.len() > 0 && forall|i: int| 0 <= i < s.len() ==> '0' <= #[trigger] s[i] <= '9'
}

/// The number that a decimal numeral stands for.
pub open spec fn numeral_value(s: Seq<char>) -> nat
    decreases s.len(),
{
    if s.len() == 0 {
        0
    } else {
        numeral_value(s.drop_last()) * 10 + (s.last() as nat - 48) as nat
    }
}

/// The position from which the last `count` of `len` entries start: all of
/// them where there are not that many.
pub open spec fn tail_start(len: nat, count: nat) -> nat {
    if count >= len {
        0
    } else {
        (len - count) as nat
    }
}

/// Reads a count from an argument: `None` unless the argument is a decimal
/// numeral, and else the position from which the last so many of `len`
/// entries start.
pub fn tail_start_of(len: usize, argument: &str) -> (start: Option<usize>)
    ensures
        start == if is_numeral(argument@) {
            Some(tail_start(len as nat, numeral_value(argument@)) as usize)
        } else {
            None
        },
{
    let digits = chars_of(argument);
    if digits.len() == 0 {
        return None;
    }
    // The count read so far, or `len` once it has reached `len`.
    let mut count: usize = 0;
    let mut i: usize = 0;
    while i < digits.len()
        invariant
            i <= digits.len(),
            digits@ == argument@,
            forall|k: int| 0 <= k < i ==> '0' <= #[trigger] digits[k] <= '9',
            count <= len,
            count < len ==> count == numeral_value(digits@.take(i as int)),
            count == len ==> numeral_value(digits@.take(i as int)) >= len,
        decreases digits.len() - i,
    {
        let c = digits[i];
        if !('0' <= c && c <= '9') {
            return None;
        }
        let d: usize = (c as u32 - 48) as usize;
        proof {
            assert(digits@.take(i + 1).drop_last() =~= digits@.take(i as int));
            assert(digits@.take(i + 1).last() == c);
        }
        if count < len {
            let next: u128 = count as u128 * 10 + d as u128;
            if next >= len as u128 {
                count = len;
            } else {
                count = next as usize;
            }
        }
        i += 1;
    }
    assert(digits@.take(i as int) =~= digits@);
    Some(len - count)
}

/// Whether an entry can stand on a line of a history file: it holds no line
/// feed and does not end in a carriage return.
pub open spec fn fits_a_line(entry: Seq<char>) -> bool {
    &&& forall|i: int| 0 <= i < entry.len() ==> entry[i] != '\n'
    &&& entry.len() > 0 ==> entry.last() != '\r'
}

/// Text without the separator adds to the last piece.
pub proof fn lemma_split_append(s: Seq<char>, more: Seq<char>, sep: char)
    requires
        forall|i: int| 0 <= i < more.len() ==> more[i] != sep,
    ensures
        split(s + more, sep) == split(s, sep).drop_last().push(split(s, sep).last() + more),
    decreases more.len(),
{
    lemma_split_nonempty(s, sep);
    let pieces = split(s, sep);
    if more.len() == 0 {
        assert(s + more =~= s);
        assert(pieces.last() + more =~= pieces.last());
        assert(pieces.drop_last().push(pieces.last()) =~= pieces);
    } else {
        let shorter = more.drop_last();
        lemma_split_append(s, shorter, sep);
        assert((s + more).drop_last() =~= s + shorter);
        assert((s + more).last() == more.last());
        let before = split(s + shorter, sep);
        assert(before.last() == pieces.last() + shorter);
        assert(before.drop_last() =~= pieces.drop_last());
        assert((pieces.last() + shorter).push(more.last()) =~= pieces.last() + more);
    }
}

/// The pieces of a rendered history are its entries, and an empty piece
/// after the last line feed.
pub proof fn lemma_split_render(entries: Seq<Seq<char>>)
    requires
        forall|i: int| 0 <= i < entries.len() ==> fits_a_line(#[trigger] entries[i]),
    ensures
        split(render(entries), '\n') == entries.push(Seq::empty()),
    decreases entries.len(),
{
    if entries.len() == 0 {
        assert(split(render(entries), '\n') =~= entries.push(Seq::empty()));
    } else {
        let before = entries.drop_last();
        let last = entries.last();
        assert forall|i: int| 0 <= i < before.len() implies fits_a_line(#[trigger] before[i]) by {
            assert(before[i] == entries[i]);
        }
        lemma_split_render(before);
        assert(fits_a_line(last));
        lemma_split_append(render(before), last, '\n');
        let text = render(before) + last;
        assert(before.push(Seq::empty()).last() + last =~= last);
        assert(split(text, '\n') =~= before.push(last));
        assert(render(entries) =~= text.push('\n'));
        assert(text.push('\n').drop_last() =~= text);
        assert(split(render(entries), '\n') =~= entries.push(Seq::empty()));
    }
}

/// A history that is written to a file and read from it again is the same
/// history: the same entries in the same order. This holds of entries that
/// can stand on a line; an entry with a line feed in it would come back as
/// two, and one that ends in a carriage return would lose it.
pub proof fn lemma_history_round_trip(entries: Seq<Seq<char>>)
    requires
        forall|i: int| 0 <= i < entries.len() ==> fits_a_line(#[trigger] entries[i]),
    ensures
        lines(render(entries)) == entries,
{
    lemma_split_render(entries);
    let pieces = split(render(entries), '\n');
    assert(pieces.last().len() == 0);
    assert forall|i: int| 0 <= i < entries.len() implies strip_cr(pieces[i]) == entries[i] by {
        assert(fits_a_line(entries[i]));
    }
    assert(lines(render(entries)) =~= entries);
}

/// Listing the last `count` entries of a history that holds as many shows
/// exactly those entries, in their order, numbered from 1.
pub proof fn lemma_listing_of_tail(entries: Seq<Seq<char>>, count: nat)
    requires
        count <= entries.len(),
    ensures
        listing(entries.skip(tail_start(entries.len(), count) as int)).len() == count,
        forall|i: int|
            0 <= i < count ==> #[trigger] listing(
                entries.skip(tail_start(entries.len(), count) as int),
            )[i] == listing_line((i + 1) as nat, entries[entries.len() - count + i]),
{
}

} // verus!
