//! The order in which completion candidates are listed: shorter ones first,
//! and those of one length as a dictionary has them.

use crate::text::{byte_len, bytes_of, char_seqs};
use vstd::prelude::*;

verus! {

/// Whether `a` comes before `b` in the dictionary, looking only at the
/// characters from position `from` on: at the first position where they
/// differ `a` has the smaller character, or `a` ends there and `b` goes on.
pub open spec fn lex_less_from(a: Seq<char>, b: Seq<char>, from: int) -> bool
    decreases b.len() - from,
{
    if from >= b.len() {
        false
    } else if from >= a.len() {
        true
    } else if a[from] != b[from] {
        a[from] < b[from]
    } else {
        lex_less_from(a, b, from + 1)
    }
}

/// Whether `a` comes before `b` in the dictionary.
pub open spec fn lex_less(a: Seq<char>, b: Seq<char>) -> bool {
    lex_less_from(a, b, 0)
}

/// Whether `a` is listed before `b`: it takes fewer bytes, or as many and
/// comes first in the dictionary.
pub open spec fn precedes(a: Seq<char>, b: Seq<char>) -> bool {
    byte_len(a) < byte_len(b) || (byte_len(a) == byte_len(b) && lex_less(a, b))
}

/// Whether each entry of the list is listed before all that follow it.
pub open spec fn is_sorted(list: Seq<Seq<char>>) -> bool {
    forall|i: int, j: int|
        0 <= i < j < list.len() ==> precedes(#[trigger] list[i], #[trigger] list[j])
}

proof fn lemma_lex_transitive(a: Seq<char>, b: Seq<char>, c: Seq<char>, from: int)
    requires
        0 <= from,
        lex_less_from(a, b, from),
        lex_less_from(b, c, from),
    ensures
        lex_less_from(a, c, from),
    decreases b.len() - from,
{
    if from < a.len() && from < b.len() && from < c.len() && a[from] == b[from] && b[from]
        == c[from] {
        lemma_lex_transitive(a, b, c, from + 1);
    }
}

proof fn lemma_lex_total(a: Seq<char>, b: Seq<char>, from: int)
    requires
        0 <= from,
        !lex_less_from(a, b, from),
        !lex_less_from(b, a, from),
    ensures
        a.len() == b.len() || (a.len() <= from && b.len() <= from),
        forall|k: int| from <= k < a.len() ==> a[k] == b[k],
    decreases a.len() - from,
{
    if from < a.len() && from < b.len() {
        lemma_lex_total(a, b, from + 1);
    }
}

proof fn lemma_lex_irreflexive(a: Seq<char>, from: int)
    requires
        0 <= from,
    ensures
        !lex_less_from(a, a, from),
    decreases a.len() - from,
{
    if from < a.len() {
        lemma_lex_irreflexive(a, from + 1);
    }
}

/// Nothing is listed before itself.
pub proof fn lemma_precedes_irreflexive(a: Seq<char>)
    ensures
        !precedes(a, a),
{
    lemma_lex_irreflexive(a, 0);
}

/// What is listed before something that is listed before a third is listed
/// before the third.
pub proof fn lemma_precedes_transitive(a: Seq<char>, b: Seq<char>, c: Seq<char>)
    requires
        precedes(a, b),
        precedes(b, c),
    ensures
        precedes(a, c),
{
    if byte_len(a) == byte_len(b) && byte_len(b) == byte_len(c) {
        lemma_lex_transitive(a, b, c, 0);
    }
}

/// Of two different texts one is listed before the other.
pub proof fn lemma_precedes_total(a: Seq<char>, b: Seq<char>)
    requires
        a != b,
    ensures
        precedes(a, b) || precedes(b, a),
{
    if byte_len(a) == byte_len(b) && !lex_less(a, b) && !lex_less(b, a) {
        lemma_lex_total(a, b, 0);
        assert(a =~= b);
    }
}

/// Two sorted lists of the same texts are the same list.
pub proof fn lemma_sorted_unique(a: Seq<Seq<char>>, b: Seq<Seq<char>>)
    requires
        is_sorted(a),
        is_sorted(b),
        forall|s: Seq<char>| a.contains(s) <==> b.contains(s),
    ensures
        a == b,
    decreases a.len(),
{
    if a.len() == 0 {
        if b.len() > 0 {
            assert(b.contains(b[0]));
        }
        assert(a =~= b);
    } else {
        let top = a.last();
        assert(a.contains(top));
        assert(b.contains(top));
        let j = choose|j: int| 0 <= j < b.len() && b[j] == top;
        assert(b.contains(b.last()));
        let i = choose|i: int| 0 <= i < a.len() && a[i] == b.last();
        if j < b.len() - 1 {
            assert(precedes(b[j], b.last()));
            if i < a.len() - 1 {
                assert(precedes(a[i], a.last()));
                lemma_precedes_transitive(top, b.last(), top);
            }
            lemma_precedes_irreflexive(top);
        }
        assert(b.last() == top);
        let a0 = a.drop_last();
        let b0 = b.drop_last();
        lemma_precedes_irreflexive(top);
        assert forall|s: Seq<char>| a0.contains(s) <==> b0.contains(s) by {
            if a0.contains(s) {
                let k = choose|k: int| 0 <= k < a0.len() && a0[k] == s;
                assert(a[k] == s);
                assert(precedes(a[k], a.last()));
                assert(a.contains(s));
                let m = choose|m: int| 0 <= m < b.len() && b[m] == s;
                assert(b0[m] == s);
            }
            if b0.contains(s) {
                let k = choose|k: int| 0 <= k < b0.len() && b0[k] == s;
                assert(b[k] == s);
                assert(precedes(b[k], b.last()));
                assert(b.contains(s));
                let m = choose|m: int| 0 <= m < a.len() && a[m] == s;
                assert(a0[m] == s);
            }
        }
        assert(is_sorted(a0)) by {
            assert forall|i: int, j: int| 0 <= i < j < a0.len() implies precedes(
                #[trigger] a0[i],
                #[trigger] a0[j],
            ) by {
                assert(precedes(a[i], a[j]));
            }
        }
        assert(is_sorted(b0)) by {
            assert forall|i: int, j: int| 0 <= i < j < b0.len() implies precedes(
                #[trigger] b0[i],
                #[trigger] b0[j],
            ) by {
                assert(precedes(b[i], b[j]));
            }
        }
        lemma_sorted_unique(a0, b0);
        assert(a =~= a0.push(top));
        assert(b =~= b0.push(top));
    }
}

/// Whether `a` comes before `b` in the dictionary.
fn comes_first(a: &Vec<char>, b: &Vec<char>) -> (less: bool)
    ensures
        less == lex_less(a@, b@),
{
    let mut i: usize = 0;
    while i < a.len() && i < b.len()
        invariant
            i <= a.len(),
            i <= b.len(),
            lex_less(a@, b@) == lex_less_from(a@, b@, i as int),
        decreases a.len() - i,
    {
        if a[i] != b[i] {
            return a[i] < b[i];
        }
        i += 1;
    }
    i < b.len()
}

/// Whether `a` is listed before `b`.
pub fn is_listed_before(a: &Vec<char>, b: &Vec<char>) -> (before: bool)
    ensures
        before == precedes(a@, b@),
{
    let a_len = bytes_of(a).len();
    let b_len = bytes_of(b).len();
    if a_len != b_len {
        a_len < b_len
    } else {
        comes_first(a, b)
    }
}

/// Puts the entries in the order of the listing. No two of them may be the
/// same text.
pub fn sort_candidates(list: Vec<Vec<char>>) -> (sorted: Vec<Vec<char>>)
    requires
        char_seqs(list@).no_duplicates(),
    ensures
        is_sorted(char_seqs(sorted@)),
        char_seqs(sorted@).no_duplicates(),
        forall|s: Seq<char>| char_seqs(sorted@).contains(s) <==> char_seqs(list@).contains(s),
{
    let mut list = list;
    let ghost given = char_seqs(list@);
    let mut sorted: Vec<Vec<char>> = Vec::new();
    while list.len() > 0
        invariant
            is_sorted(char_seqs(sorted@)),
            (char_seqs(sorted@) + char_seqs(list@)).no_duplicates(),
            forall|s: Seq<char>|
                (char_seqs(sorted@) + char_seqs(list@)).contains(s) <==> given.contains(s),
        decreases list.len(),
    {
        let ghost done = char_seqs(sorted@);
        let ghost rest = char_seqs(list@);
        let item = match list.pop() {
            Some(item) => item,
            None => Vec::new(),
        };
        assert(item@ == rest.last());
        assert(char_seqs(list@) =~= rest.drop_last());
        assert((done + rest)[done.len() + rest.len() - 1] == item@);
        // The place of the item: behind all that are listed before it.
        let mut at: usize = sorted.len();
        while at > 0 && is_listed_before(&item, &sorted[at - 1])
            invariant
                at <= sorted.len(),
                done == char_seqs(sorted@),
                forall|k: int| at <= k < done.len() ==> precedes(item@, #[trigger] done[k]),
            decreases at,
        {
            at -= 1;
        }
        proof {
            assert forall|k: int| 0 <= k < at implies precedes(#[trigger] done[k], item@) by {
                let near = done[at - 1];
                assert((done + rest)[at - 1] == near);
                assert(near != item@);
                lemma_precedes_total(near, item@);
                if k < at - 1 {
                    lemma_precedes_transitive(done[k], near, item@);
                }
            }
        }
        sorted.insert(at, item);
        proof {
            let now = char_seqs(sorted@);
            assert(now =~= done.insert(at as int, item@));
            assert forall|i: int, j: int| 0 <= i < j < now.len() implies precedes(
                #[trigger] now[i],
                #[trigger] now[j],
            ) by {
                if i == at {
                    assert(now[j] == done[j - 1]);
                } else if j == at {
                    assert(now[i] == done[i]);
                } else {
                    let i0 = if i < at { i } else { i - 1 };
                    let j0 = if j < at { j } else { j - 1 };
                    assert(now[i] == done[i0] && now[j] == done[j0]);
                }
            }
            lemma_moved(done, rest, at as int);
        }
    }
    assert(char_seqs(sorted@) + char_seqs(list@) =~= char_seqs(sorted@));
    sorted
}

/// Moving the last entry of `rest` into `done` at position `at` keeps the
/// entries and keeps them different.
proof fn lemma_moved(done: Seq<Seq<char>>, rest: Seq<Seq<char>>, at: int)
    requires
        rest.len() > 0,
        0 <= at <= done.len(),
        (done + rest).no_duplicates(),
    ensures
        (done.insert(at, rest.last()) + rest.drop_last()).no_duplicates(),
        forall|s: Seq<char>|
            (done.insert(at, rest.last()) + rest.drop_last()).contains(s) <==> (done
                + rest).contains(s),
{
    let before = done + rest;
    let after = done.insert(at, rest.last()) + rest.drop_last();
    let last = before.len() - 1;
    // Where the entry at position `i` of `after` stood in `before`.
    let origin = |i: int|
        if i < at {
            i
        } else if i == at {
            last
        } else {
            i - 1
        };
    assert forall|i: int| 0 <= i < after.len() implies after[i] == before[#[trigger] origin(i)]
        && 0 <= origin(i) < before.len() by {}
    assert forall|i: int, j: int|
        0 <= i < after.len() && 0 <= j < after.len() && i != j implies after[i] != after[j] by {
        assert(after[i] == before[origin(i)]);
        assert(after[j] == before[origin(j)]);
        assert(origin(i) != origin(j));
    }
    assert forall|s: Seq<char>| after.contains(s) <==> before.contains(s) by {
        if after.contains(s) {
            let i = choose|i: int| 0 <= i < after.len() && after[i] == s;
            assert(before[origin(i)] == s);
        }
        if before.contains(s) {
            let i = choose|i: int| 0 <= i < before.len() && before[i] == s;
            let j = if i < at {
                i
            } else if i == last {
                at
            } else {
                i + 1
            };
            assert(after[j] == s);
        }
    }
}

} // verus!
