//! Conversions between strings and character vectors, and small helpers on
//! character sequences that the other modules share.

use vstd::prelude::*;

verus! {

/// Taken on trust from the standard library: `String::push` appends the
/// character to the end of the string and changes nothing else of it.
pub assume_specification[ String::push ](s: &mut String, ch: char)
    ensures
        final(s)@ == old(s)@.push(ch),
;

/// The characters of a string, in order.
pub fn chars_of(s: &str) -> (v: Vec<char>)
    ensures
        v@ == s@,
{
    let mut v: Vec<char> = Vec::new();
    let mut it = s.chars();
    for c in iter: it
        invariant
            v@ == iter.seq().take(iter.index() as int),
            iter.seq() == s@,
    {
        v.push(c);
    }
    v
}

/// The string made of the given characters, in order.
pub fn string_of(v: &Vec<char>) -> (s: String)
    ensures
        s@ == v@,
{
    let mut s = String::new();
    let mut i: usize = 0;
    while i < v.len()
        invariant
            i <= v.len(),
            s@ == v@.take(i as int),
        decreases v.len() - i,
    {
        s.push(v[i]);
        i += 1;
    }
    s
}

/// The strings of a vector, each as its sequence of characters.
pub open spec fn texts(v: Seq<String>) -> Seq<Seq<char>> {
    Seq::new(v.len(), |i: int| v[i]@)
}

/// The pieces into which the occurrences of `sep` cut `s`. There is always
/// one piece more than there are separators, so the empty sequence has one
/// empty piece, and a separator at the end is followed by an empty piece.
pub open spec fn split(s: Seq<char>, sep: char) -> Seq<Seq<char>>
    decreases s.len(),
{
    if s.len() == 0 {
        seq![Seq::empty()]
    } else {
        let before = split(s.drop_last(), sep);
        if s.last() == sep {
            before.push(Seq::empty())
        } else {
            before.drop_last().push(before.last().push(s.last()))
        }
    }
}

/// `split` always gives at least one piece.
pub proof fn lemma_split_nonempty(s: Seq<char>, sep: char)
    ensures
        split(s, sep).len() >= 1,
    decreases s.len(),
{
    if s.len() > 0 {
        lemma_split_nonempty(s.drop_last(), sep);
    }
}

/// The pieces put together, with `sep` between each two.
pub open spec fn join(pieces: Seq<Seq<char>>, sep: Seq<char>) -> Seq<char>
    decreases pieces.len(),
{
    if pieces.len() == 0 {
        Seq::empty()
    } else if pieces.len() == 1 {
        pieces[0]
    } else {
        join(pieces.drop_last(), sep) + sep + pieces.last()
    }
}

/// Joining the pieces of a text with the separator gives the text again.
pub proof fn lemma_join_split(s: Seq<char>, sep: char)
    ensures
        join(split(s, sep), seq![sep]) == s,
    decreases s.len(),
{
    if s.len() == 0 {
        assert(join(split(s, sep), seq![sep]) =~= s);
    } else {
        let before = split(s.drop_last(), sep);
        lemma_split_nonempty(s.drop_last(), sep);
        lemma_join_split(s.drop_last(), sep);
        let pieces = split(s, sep);
        if s.last() == sep {
            assert(pieces.drop_last() =~= before);
            assert(join(pieces, seq![sep]) =~= s.drop_last() + seq![sep]);
        } else {
            let grown = before.last().push(s.last());
            assert(pieces.drop_last() =~= before.drop_last());
            assert(pieces.last() == grown);
            if before.len() == 1 {
                assert(join(pieces, seq![sep]) =~= s.drop_last().push(s.last()));
            } else {
                let head = join(before.drop_last(), seq![sep]);
                assert(join(pieces, seq![sep]) =~= (head + seq![sep] + before.last()).push(
                    s.last(),
                ));
            }
        }
        assert(s.drop_last().push(s.last()) =~= s);
        assert(s.drop_last() + seq![sep] =~= s.drop_last().push(sep));
    }
}

/// No piece of a text holds the separator.
pub proof fn lemma_split_pieces(s: Seq<char>, sep: char)
    ensures
        forall|i: int, k: int|
            0 <= i < split(s, sep).len() && 0 <= k < split(s, sep)[i].len() ==> split(
                s,
                sep,
            )[i][k] != sep,
    decreases s.len(),
{
    if s.len() > 0 {
        lemma_split_pieces(s.drop_last(), sep);
        lemma_split_nonempty(s.drop_last(), sep);
    }
}

/// The vectors of a vector, each as its sequence of characters.
pub open spec fn char_seqs(v: Seq<Vec<char>>) -> Seq<Seq<char>> {
    Seq::new(v.len(), |i: int| v[i]@)
}

/// Cuts `s` at every occurrence of `sep`.
pub fn split_chars(s: &Vec<char>, sep: char) -> (pieces: Vec<Vec<char>>)
    ensures
        char_seqs(pieces@) == split(s@, sep),
{
    let mut pieces: Vec<Vec<char>> = Vec::new();
    let mut piece: Vec<char> = Vec::new();
    let mut i: usize = 0;
    while i < s.len()
        invariant
            i <= s.len(),
            char_seqs(pieces@).push(piece@) == split(s@.take(i as int), sep),
        decreases s.len() - i,
    {
        let c = s[i];
        let ghost before = char_seqs(pieces@);
        proof {
            assert(s@.take(i + 1).drop_last() =~= s@.take(i as int));
            assert(before.push(piece@).drop_last() =~= before);
        }
        if c == sep {
            pieces.push(piece);
            assert(char_seqs(pieces@) =~= before.push(piece@));
            piece = Vec::new();
        } else {
            piece.push(c);
        }
        i += 1;
    }
    assert(s@.take(i as int) =~= s@);
    let ghost before = char_seqs(pieces@);
    pieces.push(piece);
    assert(char_seqs(pieces@) =~= before.push(piece@));
    pieces
}

/// The strings made of the given character vectors.
pub fn strings_of(v: &Vec<Vec<char>>) -> (strings: Vec<String>)
    ensures
        texts(strings@) == char_seqs(v@),
{
    let mut strings: Vec<String> = Vec::new();
    let mut i: usize = 0;
    while i < v.len()
        invariant
            i <= v.len(),
            texts(strings@) == char_seqs(v@).take(i as int),
        decreases v.len() - i,
    {
        let ghost before = texts(strings@);
        strings.push(string_of(&v[i]));
        assert(texts(strings@) =~= before.push(v[i as int]@));
        assert(char_seqs(v@).take(i + 1) =~= char_seqs(v@).take(i as int).push(v[i as int]@));
        i += 1;
    }
    assert(char_seqs(v@).take(i as int) =~= char_seqs(v@));
    strings
}

/// Whether two character vectors hold the same text.
pub fn same_chars(a: &Vec<char>, b: &Vec<char>) -> (same: bool)
    ensures
        same == (a@ == b@),
{
    if a.len() != b.len() {
        return false;
    }
    let mut i: usize = 0;
    while i < a.len()
        invariant
            i <= a.len(),
            a.len() == b.len(),
            a@.take(i as int) == b@.take(i as int),
        decreases a.len() - i,
    {
        if a[i] != b[i] {
            return false;
        }
        assert(a@.take(i + 1) =~= a@.take(i as int).push(a[i as int]));
        assert(b@.take(i + 1) =~= b@.take(i as int).push(b[i as int]));
        i += 1;
    }
    assert(a@.take(i as int) =~= a@);
    assert(b@.take(i as int) =~= b@);
    true
}

/// Whether two strings hold the same text.
pub fn same_text(a: &str, b: &str) -> (same: bool)
    ensures
        same == (a@ == b@),
{
    let a = chars_of(a);
    let b = chars_of(b);
    same_chars(&a, &b)
}

/// Whether `s` begins with `prefix`.
pub fn has_prefix(s: &Vec<char>, prefix: &Vec<char>) -> (found: bool)
    ensures
        found == prefix@.is_prefix_of(s@),
{
    if prefix.len() > s.len() {
        return false;
    }
    let mut i: usize = 0;
    while i < prefix.len()
        invariant
            i <= prefix.len() <= s.len(),
            prefix@.take(i as int) == s@.take(i as int),
        decreases prefix.len() - i,
    {
        if prefix[i] != s[i] {
            assert(s@.subrange(0, prefix.len() as int)[i as int] != prefix[i as int]);
            return false;
        }
        assert(prefix@.take(i + 1) =~= prefix@.take(i as int).push(prefix[i as int]));
        assert(s@.take(i + 1) =~= s@.take(i as int).push(s[i as int]));
        i += 1;
    }
    assert(prefix@.take(i as int) =~= prefix@);
    assert(s@.take(i as int) =~= s@.subrange(0, prefix.len() as int));
    true
}

/// The characters of `s` from position `from` on.
pub fn tail_of(s: &Vec<char>, from: usize) -> (tail: Vec<char>)
    requires
        from <= s.len(),
    ensures
        tail@ == s@.skip(from as int),
{
    let mut tail: Vec<char> = Vec::new();
    let mut i: usize = from;
    while i < s.len()
        invariant
            from <= i <= s.len(),
            tail@ == s@.subrange(from as int, i as int),
        decreases s.len() - i,
    {
        tail.push(s[i]);
        assert(s@.subrange(from as int, i + 1) =~= s@.subrange(from as int, i as int).push(
            s[i as int],
        ));
        i += 1;
    }
    assert(s@.subrange(from as int, i as int) =~= s@.skip(from as int));
    tail
}

/// Appends the characters of `more` to `s`.
pub fn append_chars(s: &mut Vec<char>, more: &Vec<char>)
    ensures
        final(s)@ == old(s)@ + more@,
{
    let mut i: usize = 0;
    while i < more.len()
        invariant
            i <= more.len(),
            s@ == old(s)@ + more@.take(i as int),
        decreases more.len() - i,
    {
        s.push(more[i]);
        assert(more@.take(i + 1) =~= more@.take(i as int).push(more[i as int]));
        assert(s@ =~= old(s)@ + more@.take(i + 1));
        i += 1;
    }
    assert(more@.take(i as int) =~= more@);
}

/// Puts the pieces together, with `sep` between each two.
pub fn join_chars(pieces: &Vec<Vec<char>>, sep: &Vec<char>) -> (joined: Vec<char>)
    ensures
        joined@ == join(char_seqs(pieces@), sep@),
{
    let mut joined: Vec<char> = Vec::new();
    let ghost all = char_seqs(pieces@);
    let mut i: usize = 0;
    while i < pieces.len()
        invariant
            i <= pieces.len(),
            all == char_seqs(pieces@),
            joined@ == join(all.take(i as int), sep@),
        decreases pieces.len() - i,
    {
        proof {
            assert(all.take(i + 1).drop_last() =~= all.take(i as int));
            assert(all.take(i + 1).last() == pieces[i as int]@);
        }
        if i > 0 {
            append_chars(&mut joined, sep);
        }
        append_chars(&mut joined, &pieces[i]);
        i += 1;
    }
    assert(all.take(i as int) =~= all);
    joined
}

/// The number of bytes that a text takes in UTF-8.
pub open spec fn byte_len(s: Seq<char>) -> nat {
    vstd::utf8::encode_utf8(s).len()
}

/// The bytes of a text in UTF-8.
pub fn bytes_of(s: &Vec<char>) -> (bytes: Vec<u8>)
    ensures
        bytes@ == vstd::utf8::encode_utf8(s@),
{
    string_of(s).as_str().as_bytes_vec()
}

} // verus!
