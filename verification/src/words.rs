//! What holds of the tokenizer whatever the line: a command is empty only
//! if the line is blank; words of ordinary characters come out as they went
//! in, however much whitespace stands between and around them; a redirect
//! operator ends the word before it, takes the word after it, and leaves
//! the rest alone; and quotes and backslashes protect what they are meant to
//! protect.

use crate::parser::{finish, is_blank, is_digit, is_whitespace, parse, run, start, step};
use crate::parser::{stream_of_digit, Mode, ParsedLineView, RedirectView, StandardNamedStream};
use crate::parser::{State, Target};
use vstd::prelude::*;

verus! {

/// Reading two texts one after the other is reading them as one.
pub proof fn lemma_run_concat(st: State, first: Seq<char>, second: Seq<char>)
    ensures
        run(st, first + second) == run(run(st, first), second),
    decreases second.len(),
{
    if second.len() == 0 {
        assert(first + second =~= first);
    } else {
        lemma_run_concat(st, first, second.drop_last());
        assert((first + second).drop_last() =~= first + second.drop_last());
        assert((first + second).last() == second.last());
    }
}

proof fn lemma_run_one(st: State, c: char)
    ensures
        run(st, seq![c]) == step(st, c),
{
    assert(seq![c].drop_last() =~= Seq::<char>::empty());
    assert(run(st, seq![c].drop_last()) == st);
}

/// Something has been read that will show in the command.
spec fn engaged(st: State) -> bool {
    ||| st.arguments.len() > 0
    ||| st.redirects.len() > 0
    ||| st.started
    ||| st.target is Some
    ||| st.mode is Digit
}

/// What holds of every state that the tokenizer comes to: inside quotes and
/// behind a backslash a word is at hand, and behind an operator a redirect is
/// open.
spec fn sound(st: State) -> bool {
    &&& st.mode == Mode::Operator ==> st.target is Some
    &&& (st.mode == Mode::SingleQuoted || st.mode == Mode::DoubleQuoted || st.mode == Mode::Escape
        || st.mode == Mode::QuotedEscape) ==> st.started
}

proof fn lemma_step_engaged(st: State, c: char)
    requires
        sound(st),
    ensures
        sound(step(st, c)),
        engaged(st) || !is_whitespace(c) ==> engaged(step(st, c)),
        is_whitespace(c) && st == start() ==> step(st, c) == start(),
{
}

proof fn lemma_run_engaged(line: Seq<char>)
    ensures
        sound(run(start(), line)),
        is_blank(line) ==> run(start(), line) == start(),
        !is_blank(line) ==> engaged(run(start(), line)),
    decreases line.len(),
{
    if line.len() > 0 {
        let before = line.drop_last();
        lemma_run_engaged(before);
        lemma_step_engaged(run(start(), before), line.last());
        if is_blank(line) {
            assert forall|i: int| 0 <= i < before.len() implies is_whitespace(
                #[trigger] before[i],
            ) by {
                assert(before[i] == line[i]);
            }
            assert(is_whitespace(line[line.len() - 1]));
        } else if is_blank(before) {
            if is_whitespace(line.last()) {
                assert forall|i: int| 0 <= i < line.len() implies is_whitespace(
                    #[trigger] line[i],
                ) by {
                    if i < before.len() {
                        assert(before[i] == line[i]);
                    }
                }
            }
        }
    }
}

/// A command is empty, without an argument and without a redirect, if and
/// only if the line is blank.
pub proof fn lemma_empty_if_blank(line: Seq<char>)
    ensures
        (parse(line).arguments.len() == 0 && parse(line).redirects.len() == 0) <==> is_blank(line),
{
    lemma_run_engaged(line);
}

/// Whether the character means nothing to the tokenizer but itself. (A digit
/// does as long as no `>` follows it.)
pub open spec fn is_literal(c: char) -> bool {
    !is_whitespace(c) && c != '\'' && c != '"' && c != '\\' && c != '>'
}

/// Whether the text is a word: not empty, and of literal characters only.
pub open spec fn is_word(word: Seq<char>) -> bool {
    word.len() > 0 && forall|i: int| 0 <= i < word.len() ==> is_literal(#[trigger] word[i])
}

/// The line that holds the words in order, with the whitespace `gaps[0]`
/// before the first, `gaps[i]` between word `i - 1` and word `i`, and the
/// last gap after the last word.
pub open spec fn spaced(words: Seq<Seq<char>>, gaps: Seq<Seq<char>>) -> Seq<char>
    decreases words.len(),
{
    if words.len() == 0 {
        gaps[0]
    } else {
        spaced(words.drop_last(), gaps.drop_last()) + words.last() + gaps.last()
    }
}

/// Whether the gaps can stand around the words: one more gap than words,
/// each of whitespace only, and not empty between two words.
pub open spec fn separates(gaps: Seq<Seq<char>>, words: Seq<Seq<char>>) -> bool {
    &&& gaps.len() == words.len() + 1
    &&& forall|i: int| 0 <= i < gaps.len() ==> is_blank(#[trigger] gaps[i])
    &&& forall|i: int| 0 < i < words.len() ==> (#[trigger] gaps[i]).len() > 0
}

/// The tokenizer is between words: what it has read so far are the
/// arguments and the redirects given, and the redirect `target` waits for
/// its destination, if one does.
spec fn idle(
    st: State,
    arguments: Seq<Seq<char>>,
    redirects: Seq<RedirectView>,
    target: Option<Target>,
) -> bool {
    &&& st.mode == Mode::Plain || (st.mode == Mode::Operator && target is Some)
    &&& !st.started
    &&& st.word.len() == 0
    &&& st.target == target
    &&& st.arguments == arguments
    &&& st.redirects == redirects
}

/// The tokenizer is outside quotes and has read `word` of the word at hand.
/// (A digit at its end still waits to see whether a `>` follows.)
spec fn reading(
    st: State,
    arguments: Seq<Seq<char>>,
    redirects: Seq<RedirectView>,
    target: Option<Target>,
    word: Seq<char>,
) -> bool {
    &&& st.target == target
    &&& st.arguments == arguments
    &&& st.redirects == redirects
    &&& match st.mode {
        Mode::Plain => st.started && st.word == word,
        Mode::Digit(d) => is_digit(d) && st.word.push(d) == word && (st.started || st.word.len()
            == 0),
        _ => false,
    }
}

/// The arguments after a word is closed.
spec fn with_word(
    arguments: Seq<Seq<char>>,
    target: Option<Target>,
    word: Seq<char>,
) -> Seq<Seq<char>> {
    if target is None {
        arguments.push(word)
    } else {
        arguments
    }
}

/// The redirects after a word is closed.
spec fn with_path(
    redirects: Seq<RedirectView>,
    target: Option<Target>,
    word: Seq<char>,
) -> Seq<RedirectView> {
    match target {
        Some(target) => redirects.push(
            RedirectView { stream_name: target.stream_name, path: word, append: target.append },
        ),
        None => redirects,
    }
}

proof fn lemma_literal(
    st: State,
    arguments: Seq<Seq<char>>,
    redirects: Seq<RedirectView>,
    target: Option<Target>,
    word: Seq<char>,
    c: char,
)
    requires
        is_literal(c),
        reading(st, arguments, redirects, target, word) || (idle(st, arguments, redirects, target)
            && word.len() == 0),
    ensures
        reading(step(st, c), arguments, redirects, target, word.push(c)),
{
    if idle(st, arguments, redirects, target) && word.len() == 0 {
        assert(st.word =~= word);
    }
}

proof fn lemma_run_literals(
    st: State,
    arguments: Seq<Seq<char>>,
    redirects: Seq<RedirectView>,
    target: Option<Target>,
    word: Seq<char>,
    more: Seq<char>,
)
    requires
        reading(st, arguments, redirects, target, word) || (idle(st, arguments, redirects, target)
            && word.len() == 0),
        more.len() > 0,
        forall|i: int| 0 <= i < more.len() ==> is_literal(#[trigger] more[i]),
    ensures
        reading(run(st, more), arguments, redirects, target, word + more),
    decreases more.len(),
{
    let before = more.drop_last();
    if before.len() == 0 {
        assert(run(st, before) == st);
        lemma_literal(st, arguments, redirects, target, word, more.last());
    } else {
        lemma_run_literals(st, arguments, redirects, target, word, before);
        lemma_literal(run(st, before), arguments, redirects, target, word + before, more.last());
    }
    assert((word + before).push(more.last()) =~= word + more);
    if before.len() == 0 {
        assert(word.push(more.last()) =~= word + more);
    }
}

proof fn lemma_whitespace(
    st: State,
    arguments: Seq<Seq<char>>,
    redirects: Seq<RedirectView>,
    target: Option<Target>,
    word: Seq<char>,
    c: char,
)
    requires
        is_whitespace(c),
    ensures
        idle(st, arguments, redirects, target) ==> idle(step(st, c), arguments, redirects, target),
        reading(st, arguments, redirects, target, word) ==> idle(
            step(st, c),
            with_word(arguments, target, word),
            with_path(redirects, target, word),
            None,
        ),
{
}

proof fn lemma_run_whitespace(
    st: State,
    arguments: Seq<Seq<char>>,
    redirects: Seq<RedirectView>,
    target: Option<Target>,
    word: Seq<char>,
    gap: Seq<char>,
)
    requires
        is_blank(gap),
    ensures
        idle(st, arguments, redirects, target) ==> idle(
            run(st, gap),
            arguments,
            redirects,
            target,
        ),
        gap.len() > 0 && reading(st, arguments, redirects, target, word) ==> idle(
            run(st, gap),
            with_word(arguments, target, word),
            with_path(redirects, target, word),
            None,
        ),
    decreases gap.len(),
{
    if gap.len() > 0 {
        let before = gap.drop_last();
        assert(is_blank(before)) by {
            assert forall|i: int| 0 <= i < before.len() implies is_whitespace(
                #[trigger] before[i],
            ) by {
                assert(before[i] == gap[i]);
            }
        }
        assert(is_whitespace(gap[gap.len() - 1]));
        lemma_run_whitespace(st, arguments, redirects, target, word, before);
        let mid = run(st, before);
        if idle(st, arguments, redirects, target) {
            lemma_whitespace(mid, arguments, redirects, target, word, gap.last());
        } else if reading(st, arguments, redirects, target, word) {
            if before.len() == 0 {
                assert(mid == st);
                lemma_whitespace(mid, arguments, redirects, target, word, gap.last());
            } else {
                lemma_whitespace(
                    mid,
                    with_word(arguments, target, word),
                    with_path(redirects, target, word),
                    None,
                    word,
                    gap.last(),
                );
            }
        }
    }
}

proof fn lemma_finish(
    st: State,
    arguments: Seq<Seq<char>>,
    redirects: Seq<RedirectView>,
    target: Option<Target>,
    word: Seq<char>,
)
    ensures
        idle(st, arguments, redirects, target) ==> finish(st) == (ParsedLineView {
            arguments,
            redirects: with_path(redirects, target, Seq::empty()),
        }),
        reading(st, arguments, redirects, target, word) ==> finish(st) == (ParsedLineView {
            arguments: with_word(arguments, target, word),
            redirects: with_path(redirects, target, word),
        }),
{
    if idle(st, arguments, redirects, target) {
        assert(st.word =~= Seq::empty());
    }
}

/// Reading words with whitespace around them, from a state that is between
/// words once the first gap is read.
proof fn lemma_run_spaced(
    st: State,
    arguments: Seq<Seq<char>>,
    redirects: Seq<RedirectView>,
    words: Seq<Seq<char>>,
    gaps: Seq<Seq<char>>,
)
    requires
        separates(gaps, words),
        forall|i: int| 0 <= i < words.len() ==> is_word(#[trigger] words[i]),
        idle(run(st, gaps[0]), arguments, redirects, None),
    ensures
        words.len() == 0 || gaps.last().len() > 0 ==> idle(
            run(st, spaced(words, gaps)),
            arguments + words,
            redirects,
            None,
        ),
        words.len() > 0 && gaps.last().len() == 0 ==> reading(
            run(st, spaced(words, gaps)),
            arguments + words.drop_last(),
            redirects,
            None,
            words.last(),
        ),
    decreases words.len(),
{
    if words.len() == 0 {
        assert(arguments + words =~= arguments);
    } else {
        let before = words.drop_last();
        let last = words.last();
        let inner = gaps.drop_last();
        assert(separates(inner, before)) by {
            assert forall|i: int| 0 <= i < inner.len() implies is_blank(#[trigger] inner[i]) by {
                assert(inner[i] == gaps[i]);
            }
            assert forall|i: int| 0 < i < before.len() implies (#[trigger] inner[i]).len() > 0 by {
                assert(inner[i] == gaps[i]);
            }
        }
        assert forall|i: int| 0 <= i < before.len() implies is_word(#[trigger] before[i]) by {
            assert(before[i] == words[i]);
        }
        assert(inner[0] == gaps[0]);
        lemma_run_spaced(st, arguments, redirects, before, inner);
        let head = spaced(before, inner);
        let rested = run(st, head);
        let done = arguments + before;
        assert(idle(rested, done, redirects, None)) by {
            if before.len() > 0 {
                assert(inner.last() == gaps[before.len() as int]);
            }
        }
        assert(is_word(last));
        lemma_run_literals(rested, done, redirects, None, Seq::empty(), last);
        assert(Seq::<char>::empty() + last =~= last);
        lemma_run_concat(st, head, last);
        let worded = run(st, head + last);
        assert(is_blank(gaps[gaps.len() - 1]));
        lemma_run_whitespace(worded, done, redirects, None, last, gaps.last());
        lemma_run_concat(st, head + last, gaps.last());
        assert(done.push(last) =~= arguments + words);
        assert(done =~= arguments + words.drop_last());
        if gaps.last().len() == 0 {
            assert(head + last + gaps.last() =~= head + last);
        }
    }
}

/// Whitespace between words collapses. A line made of words with
/// whitespace between and around them, however much and of whatever kind,
/// stands for a command with exactly those words as its arguments, and
/// without redirects.
pub proof fn lemma_whitespace_collapses(words: Seq<Seq<char>>, gaps: Seq<Seq<char>>)
    requires
        separates(gaps, words),
        forall|i: int| 0 <= i < words.len() ==> is_word(#[trigger] words[i]),
    ensures
        parse(spaced(words, gaps)) == (ParsedLineView {
            arguments: words,
            redirects: Seq::empty(),
        }),
{
    let none = Seq::<Seq<char>>::empty();
    let free = Seq::<RedirectView>::empty();
    assert(idle(start(), none, free, None));
    assert(is_blank(gaps[0]));
    lemma_run_whitespace(start(), none, free, None, Seq::empty(), gaps[0]);
    lemma_run_spaced(start(), none, free, words, gaps);
    let st = run(start(), spaced(words, gaps));
    assert(none + words =~= words);
    if words.len() == 0 || gaps.last().len() > 0 {
        lemma_finish(st, words, free, None, Seq::empty());
    } else {
        assert(none + words.drop_last() =~= words.drop_last());
        lemma_finish(st, words.drop_last(), free, None, words.last());
        assert(words.drop_last().push(words.last()) =~= words);
    }
}

/// The text of a redirect operator: the digit of the stream, if one is
/// written, and one `>`, or two to append.
pub open spec fn operator(digit: Option<char>, append: bool) -> Seq<char> {
    let mark = if append {
        seq!['>', '>']
    } else {
        seq!['>']
    };
    match digit {
        Some(d) => seq![d] + mark,
        None => mark,
    }
}

/// The stream that an operator names: the output unless a digit says
/// otherwise.
pub open spec fn operator_stream(digit: Option<char>) -> StandardNamedStream {
    match digit {
        Some(d) => stream_of_digit(d),
        None => StandardNamedStream::Output,
    }
}

/// An operator ends the word at hand and opens its redirect.
proof fn lemma_run_operator(
    st: State,
    arguments: Seq<Seq<char>>,
    word: Option<Seq<char>>,
    digit: Option<char>,
    append: bool,
)
    requires
        digit matches Some(d) ==> is_digit(d),
        match word {
            Some(word) => reading(st, arguments, Seq::empty(), None, word) && (digit is None
                ==> st.mode == Mode::Plain),
            None => idle(st, arguments, Seq::empty(), None),
        },
    ensures
        idle(
            run(st, operator(digit, append)),
            match word {
                Some(word) => arguments.push(word),
                None => arguments,
            },
            Seq::empty(),
            Some(Target { stream_name: operator_stream(digit), append }),
        ),
{
    let lead: Seq<char> = match digit {
        Some(d) => seq![d],
        None => Seq::empty(),
    };
    let ready = run(st, lead);
    if digit is Some {
        lemma_run_one(st, digit->0);
        if word is Some {
            assert(st.mode is Digit ==> st.put(st.mode->Digit_0).word == word->0);
        }
    }
    let once = lead.push('>');
    assert(once.drop_last() =~= lead);
    let opened = run(st, once);
    assert(opened == step(ready, '>'));
    if word is None {
        assert(ready.word =~= Seq::empty());
    }
    if append {
        let twice = once.push('>');
        assert(twice.drop_last() =~= once);
        assert(operator(digit, append) =~= twice);
    } else {
        assert(operator(digit, append) =~= once);
    }
}

/// A redirect operator ends the word before it, takes the word after it as
/// its destination, and leaves the rest alone. On a line of words, an
/// operator, a destination and more words, the words before and after are
/// the arguments, in order, and the one redirect has the operator's stream,
/// the destination as its path, and appends if the operator has two `>`.
///
/// The operator may stand right behind a word; only where it has no digit of
/// its own, that word must not end in a digit, which would be taken for the
/// operator's.
pub proof fn lemma_redirect(
    before: Seq<Seq<char>>,
    gaps_before: Seq<Seq<char>>,
    digit: Option<char>,
    append: bool,
    gap: Seq<char>,
    path: Seq<char>,
    after: Seq<Seq<char>>,
    gaps_after: Seq<Seq<char>>,
)
    requires
        separates(gaps_before, before),
        separates(gaps_after, after),
        forall|i: int| 0 <= i < before.len() ==> is_word(#[trigger] before[i]),
        forall|i: int| 0 <= i < after.len() ==> is_word(#[trigger] after[i]),
        digit matches Some(d) ==> is_digit(d),
        digit is None && before.len() > 0 && gaps_before.last().len() == 0 ==> !is_digit(
            before.last().last(),
        ),
        is_blank(gap),
        is_word(path),
        after.len() > 0 ==> gaps_after[0].len() > 0,
    ensures
        parse(
            spaced(before, gaps_before) + operator(digit, append) + gap + path + spaced(
                after,
                gaps_after,
            ),
        ) == (ParsedLineView {
            arguments: before + after,
            redirects: seq![RedirectView { stream_name: operator_stream(digit), path, append }],
        }),
{
    let none = Seq::<Seq<char>>::empty();
    let free = Seq::<RedirectView>::empty();
    let target = Some(Target { stream_name: operator_stream(digit), append });
    let redirect = RedirectView { stream_name: operator_stream(digit), path, append };
    let head = spaced(before, gaps_before);
    let mark = operator(digit, append);
    let tail = spaced(after, gaps_after);

    // The words before.
    assert(idle(start(), none, free, None));
    assert(is_blank(gaps_before[0]));
    lemma_run_whitespace(start(), none, free, None, Seq::empty(), gaps_before[0]);
    lemma_run_spaced(start(), none, free, before, gaps_before);
    let s1 = run(start(), head);
    assert(none + before =~= before);

    // The operator.
    if before.len() == 0 || gaps_before.last().len() > 0 {
        lemma_run_operator(s1, before, None, digit, append);
    } else {
        assert(none + before.drop_last() =~= before.drop_last());
        assert(is_word(before[before.len() - 1]));
        if digit is None && s1.mode is Digit {
            let d = s1.mode->Digit_0;
            assert(s1.word.push(d).last() == d);
        }
        lemma_run_operator(s1, before.drop_last(), Some(before.last()), digit, append);
        assert(before.drop_last().push(before.last()) =~= before);
    }
    lemma_run_concat(start(), head, mark);
    let s2 = run(start(), head + mark);
    assert(idle(s2, before, free, target));

    // The whitespace and the destination.
    lemma_run_whitespace(s2, before, free, target, Seq::empty(), gap);
    lemma_run_concat(start(), head + mark, gap);
    let s3 = run(start(), head + mark + gap);
    lemma_run_literals(s3, before, free, target, Seq::empty(), path);
    assert(Seq::<char>::empty() + path =~= path);
    lemma_run_concat(start(), head + mark + gap, path);
    let s4 = run(start(), head + mark + gap + path);
    assert(reading(s4, before, free, target, path));
    assert(with_path(free, target, path) =~= seq![redirect]);

    // The words after.
    lemma_run_concat(start(), head + mark + gap + path, tail);
    let s5 = run(s4, tail);
    assert(is_blank(gaps_after[0]));
    if gaps_after[0].len() > 0 {
        lemma_run_whitespace(s4, before, free, target, path, gaps_after[0]);
        lemma_run_spaced(s4, before, seq![redirect], after, gaps_after);
        if after.len() == 0 || gaps_after.last().len() > 0 {
            lemma_finish(s5, before + after, seq![redirect], None, Seq::empty());
        } else {
            lemma_finish(s5, before + after.drop_last(), seq![redirect], None, after.last());
            assert((before + after.drop_last()).push(after.last()) =~= before + after);
        }
    } else {
        assert(tail =~= Seq::<char>::empty());
        assert(s5 == s4);
        lemma_finish(s4, before, free, target, path);
        assert(before + after =~= before);
    }
}

proof fn lemma_run_quoted(st: State, text: Seq<char>)
    requires
        st.mode == Mode::SingleQuoted,
        st.started,
        forall|i: int| 0 <= i < text.len() ==> text[i] != '\'',
    ensures
        run(st, text) == (State { word: st.word + text, ..st }),
    decreases text.len(),
{
    if text.len() == 0 {
        assert(st.word + text =~= st.word);
    } else {
        lemma_run_quoted(st, text.drop_last());
        assert((st.word + text.drop_last()).push(text.last()) =~= st.word + text);
    }
}

/// Between single quotes everything is taken as it is. A line that is one
/// text between single quotes, with no single quote in it, stands for a
/// command with that text as its one argument, also where the text is
/// empty.
pub proof fn lemma_single_quoted(text: Seq<char>)
    requires
        forall|i: int| 0 <= i < text.len() ==> text[i] != '\'',
    ensures
        parse(seq!['\''] + text + seq!['\'']) == (ParsedLineView {
            arguments: seq![text],
            redirects: Seq::empty(),
        }),
{
    let open = seq!['\''];
    lemma_run_one(start(), '\'');
    let opened = run(start(), open);
    lemma_run_quoted(opened, text);
    lemma_run_concat(start(), open, text);
    lemma_run_concat(start(), open + text, seq!['\'']);
    lemma_run_one(run(start(), open + text), '\'');
    let closed = run(start(), open + text + seq!['\'']);
    assert(Seq::<char>::empty() + text =~= text);
    assert(finish(closed).arguments =~= seq![text]);
    assert(finish(closed).redirects =~= Seq::empty());
}

/// A character as it is written between double quotes: a backslash before
/// a double quote and before a backslash, and every other character as it
/// is.
pub open spec fn written(c: char) -> Seq<char> {
    if c == '"' || c == '\\' {
        seq!['\\', c]
    } else {
        seq![c]
    }
}

/// A text as it is written between double quotes.
pub open spec fn quoted(text: Seq<char>) -> Seq<char>
    decreases text.len(),
{
    if text.len() == 0 {
        Seq::empty()
    } else {
        quoted(text.drop_last()) + written(text.last())
    }
}

proof fn lemma_run_written(st: State, c: char)
    requires
        st.mode == Mode::DoubleQuoted,
        st.started,
    ensures
        run(st, written(c)) == st.put(c),
{
    if c == '"' || c == '\\' {
        lemma_run_one(st, '\\');
        assert(written(c) =~= seq!['\\'] + seq![c]);
        lemma_run_concat(st, seq!['\\'], seq![c]);
        lemma_run_one(run(st, seq!['\\']), c);
    } else {
        lemma_run_one(st, c);
    }
}

proof fn lemma_run_quoted_text(st: State, text: Seq<char>)
    requires
        st.mode == Mode::DoubleQuoted,
        st.started,
    ensures
        run(st, quoted(text)) == (State { word: st.word + text, ..st }),
    decreases text.len(),
{
    if text.len() == 0 {
        assert(st.word + text =~= st.word);
    } else {
        let before = text.drop_last();
        lemma_run_quoted_text(st, before);
        lemma_run_concat(st, quoted(before), written(text.last()));
        lemma_run_written(run(st, quoted(before)), text.last());
        assert((st.word + before).push(text.last()) =~= st.word + text);
    }
}

/// Every text can be handed over as one argument: written between double
/// quotes, with a backslash before each double quote and each backslash of
/// its own, it comes out as it went in, also where it is empty.
pub proof fn lemma_double_quoted(text: Seq<char>)
    ensures
        parse(seq!['"'] + quoted(text) + seq!['"']) == (ParsedLineView {
            arguments: seq![text],
            redirects: Seq::empty(),
        }),
{
    let open = seq!['"'];
    lemma_run_one(start(), '"');
    let opened = run(start(), open);
    lemma_run_quoted_text(opened, text);
    lemma_run_concat(start(), open, quoted(text));
    lemma_run_concat(start(), open + quoted(text), seq!['"']);
    lemma_run_one(run(start(), open + quoted(text)), '"');
    let closed = run(start(), open + quoted(text) + seq!['"']);
    assert(Seq::<char>::empty() + text =~= text);
    assert(finish(closed).arguments =~= seq![text]);
    assert(finish(closed).redirects =~= Seq::empty());
}

/// Between double quotes a backslash escapes nothing but a double quote and
/// a backslash: before any other character it stays, and the character
/// with it.
pub proof fn lemma_quoted_backslash_stays(c: char)
    requires
        c != '"',
        c != '\\',
    ensures
        parse(seq!['"', '\\', c, '"']) == (ParsedLineView {
            arguments: seq![seq!['\\', c]],
            redirects: Seq::empty(),
        }),
{
    let line = seq!['"', '\\', c, '"'];
    assert(line =~= seq!['"'] + seq!['\\'] + seq![c] + seq!['"']);
    lemma_run_one(start(), '"');
    let s1 = run(start(), seq!['"']);
    lemma_run_concat(start(), seq!['"'], seq!['\\']);
    lemma_run_one(s1, '\\');
    let s2 = run(start(), seq!['"'] + seq!['\\']);
    lemma_run_concat(start(), seq!['"'] + seq!['\\'], seq![c]);
    lemma_run_one(s2, c);
    let s3 = run(start(), seq!['"'] + seq!['\\'] + seq![c]);
    lemma_run_concat(start(), seq!['"'] + seq!['\\'] + seq![c], seq!['"']);
    lemma_run_one(s3, '"');
    let closed = run(start(), line);
    assert(closed.word =~= seq!['\\', c]);
    assert(finish(closed).arguments =~= seq![seq!['\\', c]]);
    assert(finish(closed).redirects =~= Seq::empty());
}

/// Outside quotes a backslash takes the character after it as it is,
/// whatever the character.
pub proof fn lemma_backslash_escapes(c: char)
    ensures
        parse(seq!['\\', c]) == (ParsedLineView {
            arguments: seq![seq![c]],
            redirects: Seq::empty(),
        }),
{
    let line = seq!['\\', c];
    assert(line =~= seq!['\\'] + seq![c]);
    lemma_run_one(start(), '\\');
    lemma_run_concat(start(), seq!['\\'], seq![c]);
    lemma_run_one(run(start(), seq!['\\']), c);
    let closed = run(start(), line);
    assert(closed.word =~= seq![c]);
    assert(finish(closed).arguments =~= seq![seq![c]]);
    assert(finish(closed).redirects =~= Seq::empty());
}

} // verus!
