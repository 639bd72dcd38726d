//! Completion of the word that is being typed.
//!
//! The candidates are the ways in which the typed text can be continued to
//! the name of a builtin or of an executable file in a directory of the
//! search path. One candidate is taken at once; of several, what they all
//! begin with is taken; and where they begin with nothing in common, a second
//! request in a row lists them.

use crate::order::{is_sorted, lemma_sorted_unique, sort_candidates};
use crate::shell::{Builtin, Shell};
use crate::text::{
    append_chars, char_seqs, chars_of, has_prefix, join, join_chars, same_chars, string_of,
    strings_of, tail_of, texts,
};
use vstd::prelude::*;

verus! {

/// The text that asks for a command line.
pub open spec fn prompt_text() -> Seq<char> {
    seq!['$', ' ']
}

/// The text that asks for a command line.
pub fn prompt() -> (text: &'static str)
    ensures
        text@ == prompt_text(),
{
    proof {
        reveal_strlit("$ ");
    }
    let text = "$ ";
    assert(text@ =~= prompt_text());
    text
}

/// The byte that rings the terminal's bell.
pub fn bell() -> (byte: u8)
    ensures
        byte == 7,
{
    7
}

/// How a completion request ended.
#[derive(Debug, Clone, Copy, PartialEq, Eq, Structural)]
pub enum AutocompleteResult {
    /// Nothing continues the typed text.
    NoMatch,
    /// The typed text was extended.
    Found,
    /// Several candidates continue the typed text, and they begin with
    /// nothing in common.
    More,
}

/// An entry of a directory of the search path, as the file system shows it.
pub struct PathEntry {
    pub name: String,
    /// Whether the entry is a regular file.
    pub is_file: bool,
    /// The permission bits of the entry.
    pub mode: u32,
}

/// A [`PathEntry`] as a mathematical value.
pub struct PathEntryView {
    pub name: Seq<char>,
    pub is_file: bool,
    pub mode: u32,
}

impl View for PathEntry {
    type V = PathEntryView;

    open spec fn view(&self) -> PathEntryView {
        PathEntryView { name: self.name@, is_file: self.is_file, mode: self.mode }
    }
}

/// The entries of a vector, each as a mathematical value.
pub open spec fn entry_views(v: Seq<PathEntry>) -> Seq<PathEntryView> {
    Seq::new(v.len(), |i: int| v[i]@)
}

/// Whether the entry is a regular file that someone may execute.
pub open spec fn is_executable(entry: PathEntryView) -> bool {
    entry.is_file && entry.mode & 0o111 != 0
}

/// Whether one of the builtins has the given name.
pub open spec fn names_builtin(builtins: Seq<Builtin>, name: Seq<char>) -> bool {
    exists|i: int| 0 <= i < builtins.len() && (#[trigger] builtins[i]).spec_name() == name
}

/// Whether one of the entries is an executable file of the given name.
pub open spec fn names_executable(entries: Seq<PathEntryView>, name: Seq<char>) -> bool {
    exists|i: int|
        0 <= i < entries.len() && is_executable(#[trigger] entries[i]) && entries[i].name == name
}

/// Whether `suffix` is a candidate: the typed text followed by it is the name
/// of a builtin or of an executable entry.
pub open spec fn is_candidate(
    builtins: Seq<Builtin>,
    entries: Seq<PathEntryView>,
    line: Seq<char>,
    suffix: Seq<char>,
) -> bool {
    names_builtin(builtins, line + suffix) || names_executable(entries, line + suffix)
}

/// Whether `list` is the listing of the candidates: it holds each candidate
/// once, and nothing else, in the order of [`is_sorted`].
pub open spec fn is_listing(
    list: Seq<Seq<char>>,
    builtins: Seq<Builtin>,
    entries: Seq<PathEntryView>,
    line: Seq<char>,
) -> bool {
    &&& is_sorted(list)
    &&& list.no_duplicates()
    &&& forall|suffix: Seq<char>| #[trigger]
        list.contains(suffix) <==> is_candidate(builtins, entries, line, suffix)
}

/// The listing of the candidates.
pub open spec fn listing(
    builtins: Seq<Builtin>,
    entries: Seq<PathEntryView>,
    line: Seq<char>,
) -> Seq<Seq<char>> {
    choose|list: Seq<Seq<char>>| is_listing(list, builtins, entries, line)
}

/// The candidates have one listing only.
pub proof fn lemma_listing_unique(
    list: Seq<Seq<char>>,
    builtins: Seq<Builtin>,
    entries: Seq<PathEntryView>,
    line: Seq<char>,
)
    requires
        is_listing(list, builtins, entries, line),
    ensures
        listing(builtins, entries, line) == list,
{
    let chosen = listing(builtins, entries, line);
    assert(is_listing(chosen, builtins, entries, line));
    assert forall|s: Seq<char>| chosen.contains(s) <==> list.contains(s) by {
        assert(chosen.contains(s) <==> is_candidate(builtins, entries, line, s));
        assert(list.contains(s) <==> is_candidate(builtins, entries, line, s));
    }
    lemma_sorted_unique(chosen, list);
}

/// Whether every text of the list begins with `prefix`.
pub open spec fn is_shared_prefix(prefix: Seq<char>, list: Seq<Seq<char>>) -> bool {
    forall|i: int| 0 <= i < list.len() ==> prefix.is_prefix_of(#[trigger] list[i])
}

/// Whether `prefix` is the longest text with which every text of the list
/// begins.
pub open spec fn is_longest_shared_prefix(prefix: Seq<char>, list: Seq<Seq<char>>) -> bool {
    &&& is_shared_prefix(prefix, list)
    &&& forall|other: Seq<char>| #[trigger]
        is_shared_prefix(other, list) ==> other.len() <= prefix.len()
}

/// The longest text with which every text of the list begins.
pub open spec fn shared_prefix(list: Seq<Seq<char>>) -> Seq<char> {
    choose|prefix: Seq<char>| is_longest_shared_prefix(prefix, list)
}

/// A list that is not empty has one longest shared prefix only.
pub proof fn lemma_shared_prefix_unique(prefix: Seq<char>, list: Seq<Seq<char>>)
    requires
        list.len() > 0,
        is_longest_shared_prefix(prefix, list),
    ensures
        shared_prefix(list) == prefix,
{
    let chosen = shared_prefix(list);
    assert(is_longest_shared_prefix(chosen, list));
    assert(is_shared_prefix(chosen, list));
    assert(chosen.is_prefix_of(list[0]));
    assert(prefix.is_prefix_of(list[0]));
    assert(chosen.len() == prefix.len());
    assert(chosen =~= prefix);
}

/// The longest text with which all the candidates begin.
pub fn find_shared_prefix(candidates: &Vec<String>) -> (prefix: String)
    requires
        candidates.len() > 0,
    ensures
        is_longest_shared_prefix(prefix@, texts(candidates@)),
        prefix@ == shared_prefix(texts(candidates@)),
{
    let mut list: Vec<Vec<char>> = Vec::new();
    let mut i: usize = 0;
    while i < candidates.len()
        invariant
            i <= candidates.len(),
            list.len() == i,
            forall|k: int| 0 <= k < i ==> (#[trigger] list[k])@ == candidates[k]@,
        decreases candidates.len() - i,
    {
        list.push(chars_of(candidates[i].as_str()));
        i += 1;
    }
    assert(char_seqs(list@) =~= texts(candidates@));
    let prefix = shared_prefix_of(&list);
    string_of(&prefix)
}

fn shared_prefix_of(list: &Vec<Vec<char>>) -> (prefix: Vec<char>)
    requires
        list.len() > 0,
    ensures
        is_longest_shared_prefix(prefix@, char_seqs(list@)),
        prefix@ == shared_prefix(char_seqs(list@)),
{
    let ghost all = char_seqs(list@);
    let first = &list[0];
    let mut prefix: Vec<char> = Vec::new();
    let mut end: usize = 0;
    let mut agree = true;
    while agree && end < first.len()
        invariant
            list.len() > 0,
            all == char_seqs(list@),
            first@ == all[0],
            end <= first.len(),
            prefix@ == first@.take(end as int),
            is_shared_prefix(prefix@, all),
            !agree ==> exists|k: int|
                0 <= k < all.len() && (all[k].len() <= end || all[k][end as int]
                    != first@[end as int]),
        decreases first.len() - end + (if agree { 1int } else { 0int }),
    {
        let c = first[end];
        let mut k: usize = 1;
        while agree && k < list.len()
            invariant
                1 <= k <= list.len(),
                all == char_seqs(list@),
                first@ == all[0],
                end < first.len(),
                c == first@[end as int],
                agree ==> forall|m: int|
                    0 <= m < k ==> (#[trigger] all[m]).len() > end && all[m][end as int] == c,
                !agree ==> exists|m: int|
                    0 <= m < all.len() && (all[m].len() <= end || all[m][end as int] != c),
            decreases list.len() - k + (if agree { 1int } else { 0int }),
        {
            let other = &list[k];
            if other.len() <= end || other[end] != c {
                agree = false;
                assert(all[k as int].len() <= end || all[k as int][end as int] != c);
            } else {
                k += 1;
            }
        }
        if agree {
            let ghost shorter = prefix@;
            prefix.push(c);
            end += 1;
            assert(prefix@ =~= first@.take(end as int));
            assert forall|m: int| 0 <= m < all.len() implies prefix@.is_prefix_of(
                #[trigger] all[m],
            ) by {
                assert(shorter.is_prefix_of(all[m]));
                assert(prefix@ =~= all[m].subrange(0, prefix@.len() as int));
            }
        }
    }
    proof {
        assert forall|other: Seq<char>| #[trigger] is_shared_prefix(other, all) implies other.len()
            <= prefix@.len() by {
            assert(other.is_prefix_of(all[0]));
            if other.len() > end {
                let k = choose|k: int|
                    0 <= k < all.len() && (all[k].len() <= end || all[k][end as int]
                        != first@[end as int]);
                assert(other.is_prefix_of(all[k]));
                assert(other[end as int] == all[0].subrange(0, other.len() as int)[end as int]);
                assert(other[end as int] == all[k].subrange(0, other.len() as int)[end as int]);
            }
        }
        lemma_shared_prefix_unique(prefix@, all);
    }
    prefix
}

/// What a completion request comes to.
pub struct Completion {
    pub result: AutocompleteResult,
    /// The candidates, in the order in which they are listed.
    pub candidates: Vec<String>,
    /// What to show on the terminal.
    pub output: String,
}

/// The outcome of a completion request: the result, the text of the line
/// afterwards, and what is shown on the terminal.
pub struct Outcome {
    pub result: AutocompleteResult,
    pub line: Seq<char>,
    pub output: Seq<char>,
}

/// The list of the candidates as it is shown: each after the typed text, two
/// spaces between them, on a line of its own, and below it the prompt and the
/// typed text again.
pub open spec fn menu(list: Seq<Seq<char>>, line: Seq<char>) -> Seq<char> {
    seq!['\n'] + join(Seq::new(list.len(), |i: int| line + list[i]), seq![' ', ' ']) + seq!['\n']
        + prompt_text() + line
}

/// What becomes of a request with the given listing of candidates.
///
/// With no candidate nothing changes. A single candidate is appended to the
/// line with a space after it. Of several, the longest text with which they
/// all begin is appended; where that is empty the line stays, and the
/// candidates are shown if the bell rang at the request before.
pub open spec fn decide(list: Seq<Seq<char>>, line: Seq<char>, bell_rang: bool) -> Outcome {
    if list.len() == 0 {
        Outcome { result: AutocompleteResult::NoMatch, line, output: Seq::empty() }
    } else if list.len() == 1 {
        Outcome {
            result: AutocompleteResult::Found,
            line: line + list[0].push(' '),
            output: list[0].push(' '),
        }
    } else if shared_prefix(list).len() > 0 {
        Outcome {
            result: AutocompleteResult::Found,
            line: line + shared_prefix(list),
            output: shared_prefix(list),
        }
    } else {
        Outcome {
            result: AutocompleteResult::More,
            line,
            output: if bell_rang {
                menu(list, line)
            } else {
                Seq::empty()
            },
        }
    }
}

fn holds(list: &Vec<Vec<char>>, item: &Vec<char>) -> (found: bool)
    ensures
        found == char_seqs(list@).contains(item@),
{
    let mut i: usize = 0;
    while i < list.len()
        invariant
            i <= list.len(),
            forall|k: int| 0 <= k < i ==> (#[trigger] char_seqs(list@)[k]) != item@,
        decreases list.len() - i,
    {
        if same_chars(&list[i], item) {
            assert(char_seqs(list@)[i as int] == item@);
            return true;
        }
        i += 1;
    }
    false
}

/// Adds what continues `line` to `name` to the candidates found, unless it
/// is among them already.
fn offer(found: &mut Vec<Vec<char>>, name: &Vec<char>, line: &Vec<char>)
    requires
        char_seqs(old(found)@).no_duplicates(),
    ensures
        char_seqs(final(found)@).no_duplicates(),
        forall|suffix: Seq<char>| #[trigger]
            char_seqs(final(found)@).contains(suffix) <==> (char_seqs(old(found)@).contains(suffix)
                || name@ == line@ + suffix),
{
    let ghost before = char_seqs(found@);
    if has_prefix(name, line) {
        let suffix = tail_of(name, line.len());
        assert(name@ =~= line@ + suffix@);
        assert forall|other: Seq<char>| name@ == line@ + other implies other == suffix@ by {
            assert((line@ + other).skip(line@.len() as int) =~= other);
        }
        if !holds(found, &suffix) {
            found.push(suffix);
            let ghost after = char_seqs(found@);
            assert(after =~= before.push(suffix@));
            assert forall|other: Seq<char>| #[trigger]
                after.contains(other) <==> (before.contains(other) || name@ == line@
                    + other) by {
                if before.contains(other) {
                    let k = choose|k: int| 0 <= k < before.len() && before[k] == other;
                    assert(after[k] == other);
                }
                if name@ == line@ + other {
                    assert(after[before.len() as int] == other);
                }
            }
        }
    } else {
        assert forall|other: Seq<char>| name@ != line@ + other by {
            if name@ == line@ + other {
                assert(name@.subrange(0, line@.len() as int) =~= line@);
            }
        }
    }
}

/// The listing of the candidates for the typed text.
fn candidates_of(
    shell: &Shell,
    entries: &Vec<PathEntry>,
    line: &Vec<char>,
) -> (list: Vec<Vec<char>>)
    ensures
        is_listing(char_seqs(list@), shell.builtins@, entry_views(entries@), line@),
{
    let ghost builtins = shell.builtins@;
    let ghost views = entry_views(entries@);
    let mut found: Vec<Vec<char>> = Vec::new();
    let mut i: usize = 0;
    while i < shell.builtins.len()
        invariant
            i <= shell.builtins.len(),
            builtins == shell.builtins@,
            char_seqs(found@).no_duplicates(),
            forall|suffix: Seq<char>| #[trigger]
                char_seqs(found@).contains(suffix) <==> names_builtin(
                    builtins.take(i as int),
                    line@ + suffix,
                ),
        decreases shell.builtins.len() - i,
    {
        let name = chars_of(shell.builtins[i].name());
        let ghost before = char_seqs(found@);
        offer(&mut found, &name, line);
        proof {
            let shorter = builtins.take(i as int);
            let longer = builtins.take(i + 1);
            assert forall|suffix: Seq<char>| #[trigger]
                char_seqs(found@).contains(suffix) <==> names_builtin(
                    longer,
                    line@ + suffix,
                ) by {
                assert(before.contains(suffix) <==> names_builtin(shorter, line@ + suffix));
                if names_builtin(shorter, line@ + suffix) {
                    let k = choose|k: int|
                        0 <= k < shorter.len() && (#[trigger] shorter[k]).spec_name() == line@
                            + suffix;
                    assert(longer[k].spec_name() == line@ + suffix);
                }
                if name@ == line@ + suffix {
                    assert(longer[i as int].spec_name() == line@ + suffix);
                }
                if names_builtin(longer, line@ + suffix) {
                    let k = choose|k: int|
                        0 <= k < longer.len() && (#[trigger] longer[k]).spec_name() == line@
                            + suffix;
                    if k < i {
                        assert(shorter[k].spec_name() == line@ + suffix);
                    }
                }
            }
        }
        i += 1;
    }
    assert(builtins.take(i as int) =~= builtins);
    let mut j: usize = 0;
    while j < entries.len()
        invariant
            j <= entries.len(),
            views == entry_views(entries@),
            char_seqs(found@).no_duplicates(),
            forall|suffix: Seq<char>| #[trigger]
                char_seqs(found@).contains(suffix) <==> (names_builtin(builtins, line@ + suffix)
                    || names_executable(views.take(j as int), line@ + suffix)),
        decreases entries.len() - j,
    {
        let entry = &entries[j];
        let ghost before = char_seqs(found@);
        let ghost shorter = views.take(j as int);
        let ghost longer = views.take(j + 1);
        let executable = entry.is_file && entry.mode & 0o111 != 0;
        let ghost name = entry.name@;
        if executable {
            let name = chars_of(entry.name.as_str());
            offer(&mut found, &name, line);
        }
        proof {
            assert(longer[j as int] == entry@);
            assert forall|suffix: Seq<char>| #[trigger]
                char_seqs(found@).contains(suffix) <==> (names_builtin(builtins, line@ + suffix)
                    || names_executable(longer, line@ + suffix)) by {
                assert(before.contains(suffix) <==> (names_builtin(builtins, line@ + suffix)
                    || names_executable(shorter, line@ + suffix)));
                if names_executable(shorter, line@ + suffix) {
                    let k = choose|k: int|
                        0 <= k < shorter.len() && is_executable(#[trigger] shorter[k])
                            && shorter[k].name == line@ + suffix;
                    assert(is_executable(longer[k]) && longer[k].name == line@ + suffix);
                }
                if executable && name == line@ + suffix {
                    assert(is_executable(longer[j as int]) && longer[j as int].name == line@
                        + suffix);
                }
                if names_executable(longer, line@ + suffix) {
                    let k = choose|k: int|
                        0 <= k < longer.len() && is_executable(#[trigger] longer[k])
                            && longer[k].name == line@ + suffix;
                    if k < j {
                        assert(is_executable(shorter[k]) && shorter[k].name == line@ + suffix);
                    }
                }
            }
        }
        j += 1;
    }
    assert(views.take(j as int) =~= views);
    sort_candidates(found)
}

/// Carries out a completion request on the characters of the line.
pub fn complete(
    shell: &Shell,
    entries: &Vec<PathEntry>,
    line: &mut Vec<char>,
    bell_rang: bool,
) -> (completion: Completion)
    ensures
        is_listing(
            texts(completion.candidates@),
            shell.builtins@,
            entry_views(entries@),
            old(line)@,
        ),
        texts(completion.candidates@) == listing(
            shell.builtins@,
            entry_views(entries@),
            old(line)@,
        ),
        decide(texts(completion.candidates@), old(line)@, bell_rang) == (Outcome {
            result: completion.result,
            line: final(line)@,
            output: completion.output@,
        }),
{
    let list = candidates_of(shell, entries, line);
    let candidates = strings_of(&list);
    let ghost all = char_seqs(list@);
    proof {
        lemma_listing_unique(all, shell.builtins@, entry_views(entries@), line@);
    }
    if list.len() == 0 {
        return Completion {
            result: AutocompleteResult::NoMatch,
            candidates,
            output: String::new(),
        };
    }
    if list.len() == 1 {
        let mut shown = list[0].clone();
        shown.push(' ');
        append_chars(line, &shown);
        return Completion {
            result: AutocompleteResult::Found,
            candidates,
            output: string_of(&shown),
        };
    }
    let prefix = shared_prefix_of(&list);
    if prefix.len() > 0 {
        append_chars(line, &prefix);
        return Completion {
            result: AutocompleteResult::Found,
            candidates,
            output: string_of(&prefix),
        };
    }
    let mut shown: Vec<char> = Vec::new();
    if bell_rang {
        let mut items: Vec<Vec<char>> = Vec::new();
        let mut i: usize = 0;
        while i < list.len()
            invariant
                i <= list.len(),
                all == char_seqs(list@),
                items.len() == i,
                forall|k: int| 0 <= k < i ==> (#[trigger] items[k])@ == line@ + all[k],
            decreases list.len() - i,
        {
            let mut item = line.clone();
            append_chars(&mut item, &list[i]);
            items.push(item);
            i += 1;
        }
        assert(char_seqs(items@) =~= Seq::new(all.len(), |i: int| line@ + all[i]));
        let mut gap: Vec<char> = Vec::new();
        gap.push(' ');
        gap.push(' ');
        assert(gap@ =~= seq![' ', ' ']);
        let row = join_chars(&items, &gap);
        shown.push('\n');
        append_chars(&mut shown, &row);
        shown.push('\n');
        let ask = chars_of(prompt());
        append_chars(&mut shown, &ask);
        append_chars(&mut shown, line);
        assert(shown@ =~= menu(all, line@));
    }
    Completion { result: AutocompleteResult::More, candidates, output: string_of(&shown) }
}

/// Carries out a completion request: extends the line where the candidates
/// allow it, and says what to show on the terminal.
///
/// `entries` holds the entries of the directories of the search path, in the
/// order in which they were read.
pub fn autocomplete(
    shell: &Shell,
    entries: &Vec<PathEntry>,
    line: &mut String,
    bell_rang: bool,
) -> (completion: Completion)
    ensures
        is_listing(
            texts(completion.candidates@),
            shell.builtins@,
            entry_views(entries@),
            old(line)@,
        ),
        texts(completion.candidates@) == listing(
            shell.builtins@,
            entry_views(entries@),
            old(line)@,
        ),
        decide(texts(completion.candidates@), old(line)@, bell_rang) == (Outcome {
            result: completion.result,
            line: final(line)@,
            output: completion.output@,
        }),
{
    let mut chars = chars_of(line.as_str());
    let completion = complete(shell, entries, &mut chars, bell_rang);
    *line = string_of(&chars);
    completion
}

} // verus!
