//! What the parameter commands and the parameters of a session promise.

use vstd::prelude::*;

use super::params;
use super::store;
use super::store::{Parameters, PeerAddr};
use crate::text;

verus! {

/// The end of a text that keeps something of its last part, or whose first part ends in what is
/// kept, is the end of the last part.
proof fn lemma_end_of_sum(a: Seq<char>, b: Seq<char>, p: spec_fn(char) -> bool)
    requires
        text::end_dropped(b, p).len() > 0 || a.len() > 0 && !p(a.last()),
    ensures
        text::end_dropped(a + b, p) == a + text::end_dropped(b, p),
    decreases b.len(),
{
    if b.len() == 0 {
        assert(a + b =~= a);
        assert(a + text::end_dropped(b, p) =~= a);
    } else {
        assert((a + b).last() == b.last());
        if p(b.last()) {
            assert((a + b).drop_last() =~= a + b.drop_last());
            lemma_end_of_sum(a, b.drop_last(), p);
        }
    }
}

proof fn lemma_end_is_prefix(s: Seq<char>, p: spec_fn(char) -> bool)
    ensures
        text::end_dropped(s, p).is_prefix_of(s),
        text::end_dropped(s, p).len() > 0 ==> !p(text::end_dropped(s, p).last()),
    decreases s.len(),
{
    if s.len() > 0 && p(s.last()) {
        lemma_end_is_prefix(s.drop_last(), p);
    }
}

spec fn all_drop(s: Seq<char>, p: spec_fn(char) -> bool) -> bool {
    forall|i: int| 0 <= i < s.len() ==> p(#[trigger] s[i])
}

/// Nothing is left of a text exactly where every character of it is dropped.
proof fn lemma_nothing_left(s: Seq<char>, p: spec_fn(char) -> bool)
    ensures
        text::start_dropped(s, p).len() == 0 <==> all_drop(s, p),
        text::end_dropped(s, p).len() == 0 <==> all_drop(s, p),
    decreases s.len(),
{
    if s.len() > 0 {
        let tail = s.drop_first();
        let head = s.drop_last();
        lemma_nothing_left(tail, p);
        lemma_nothing_left(head, p);
        if all_drop(s, p) {
            assert(p(s[0]) && p(s[s.len() - 1]));
            assert forall|i: int| 0 <= i < tail.len() implies p(#[trigger] tail[i]) by {
                assert(tail[i] == s[i + 1]);
            }
            assert forall|i: int| 0 <= i < head.len() implies p(#[trigger] head[i]) by {
                assert(head[i] == s[i]);
            }
        }
        if p(s[0]) && all_drop(tail, p) {
            assert forall|i: int| 0 <= i < s.len() implies p(#[trigger] s[i]) by {
                if i > 0 {
                    assert(tail[i - 1] == s[i]);
                }
            }
        }
        if p(s.last()) && all_drop(head, p) {
            assert forall|i: int| 0 <= i < s.len() implies p(#[trigger] s[i]) by {
                if i < head.len() {
                    assert(head[i] == s[i]);
                }
            }
        }
    }
}

/// Dealing with the end first makes no difference.
proof fn lemma_ends_commute(s: Seq<char>, p: spec_fn(char) -> bool)
    ensures
        text::end_dropped(text::start_dropped(text::end_dropped(s, p), p), p) == text::end_dropped(
            text::start_dropped(s, p),
            p,
        ),
    decreases s.len(),
{
    if s.len() > 0 {
        let kept = text::end_dropped(s, p);
        lemma_nothing_left(s, p);
        lemma_end_is_prefix(s, p);
        if kept.len() == 0 {
            assert(kept =~= Seq::empty());
            assert(text::start_dropped(s, p) =~= Seq::empty());
        } else {
            assert(kept[0] == s[0]);
            if p(s[0]) {
                let rest = s.drop_first();
                let first = seq![s[0]];
                lemma_ends_commute(rest, p);
                lemma_nothing_left(rest, p);
                assert(s =~= first + rest);
                if all_drop(rest, p) {
                    assert forall|i: int| 0 <= i < s.len() implies p(#[trigger] s[i]) by {
                        if i > 0 {
                            assert(rest[i - 1] == s[i]);
                        }
                    }
                }
                lemma_end_of_sum(first, rest, p);
                assert(kept.drop_first() =~= text::end_dropped(rest, p));
            } else {
                assert(text::end_dropped(kept, p) == kept);
            }
        }
    }
}

/// `s` without the white space at its end.
spec fn ended(s: Seq<char>) -> Seq<char> {
    text::end_dropped(s, text::any_white())
}

proof fn lemma_ended(s: Seq<char>)
    ensures
        ended(s).is_prefix_of(s),
        text::trimmed(ended(s)) == text::trimmed(s),
        ended(s).len() > 0 <==> text::trimmed(s).len() > 0,
        ended(s).len() > 0 ==> !text::white(ended(s).last()),
{
    lemma_end_is_prefix(s, text::any_white());
    lemma_ends_commute(s, text::any_white());
    let after = text::start_dropped(s, text::any_white());
    lemma_nothing_left(s, text::any_white());
    lemma_nothing_left(after, text::any_white());
    if after.len() > 0 {
        lemma_start_kept(s, text::any_white());
        assert(!all_drop(after, text::any_white())) by {
            assert(!text::any_white()(after[0]));
        }
    }
}

proof fn lemma_start_kept(s: Seq<char>, p: spec_fn(char) -> bool)
    ensures
        text::start_dropped(s, p).len() > 0 ==> !p(text::start_dropped(s, p)[0]),
    decreases s.len(),
{
    if s.len() > 0 && p(s[0]) {
        lemma_start_kept(s.drop_first(), p);
    }
}

/// Trimming `a + b` deals only with the end of `b`, where `a` begins with something that stays.
proof fn lemma_trim_sum(a: Seq<char>, b: Seq<char>)
    requires
        a.len() > 0,
        !text::white(a[0]),
        ended(b).len() > 0 || !text::white(a.last()),
    ensures
        text::trimmed(a + b) == a + ended(b),
{
    assert((a + b)[0] == a[0]);
    lemma_end_of_sum(a, b, text::any_white());
}

/// Trimming leaves text alone that begins and ends in something that stays.
proof fn lemma_trim_nothing(s: Seq<char>)
    requires
        s.len() > 0,
        !text::white(s[0]),
        !text::white(s.last()),
    ensures
        text::trimmed(s) == s,
{
}

/// Small letters stay small.
pub proof fn lemma_lower_twice(s: Seq<char>)
    ensures
        text::ascii_lowered(text::ascii_lowered(s)) == text::ascii_lowered(s),
{
    assert(text::ascii_lowered(text::ascii_lowered(s)) =~= text::ascii_lowered(s));
}

/// Whether `word` is in capitals.
spec fn in_capitals(word: Seq<char>) -> bool {
    forall|i: int| 0 <= i < word.len() ==> text::capitals(#[trigger] word[i]) == seq![word[i]]
}

/// Where `s` goes on with the capitals `a`, it spells `a + b` exactly where it goes on to spell `b`.
proof fn lemma_spells_on(s: Seq<char>, at: int, a: Seq<char>, b: Seq<char>)
    requires
        in_capitals(a),
        0 <= at,
        at + a.len() <= s.len(),
        forall|i: int| 0 <= i < a.len() ==> #[trigger] a[i] == s[at + i],
    ensures
        text::spelled(s, at, a + b) == (match text::spelled(s, at + a.len(), b) {
            Some(n) => Some(n + a.len()),
            None => None,
        }),
    decreases a.len(),
{
    if a.len() == 0 {
        assert(a + b =~= b);
    } else {
        let rest = a.drop_first();
        assert(a[0] == s[at + 0]);
        assert(text::capitals(a[0]) == seq![a[0]]);
        assert((a + b).subrange(0, 1) =~= seq![a[0]]);
        assert((a + b).skip(1) =~= rest + b);
        assert forall|i: int| 0 <= i < rest.len() implies #[trigger] rest[i] == s[at + 1 + i] by {
            assert(rest[i] == a[i + 1]);
        }
        assert(in_capitals(rest)) by {
            assert forall|i: int| 0 <= i < rest.len() implies text::capitals(#[trigger] rest[i])
                == seq![rest[i]] by {
                assert(rest[i] == a[i + 1]);
            }
        }
        lemma_spells_on(s, at + 1, rest, b);
    }
}

/// A text that begins with the capitals `word` spells it.
proof fn lemma_spells_itself(word: Seq<char>, rest: Seq<char>)
    requires
        in_capitals(word),
    ensures
        text::spelled(word + rest, 0, word) == Some(word.len() as int),
{
    lemma_spells_on(word + rest, 0, word, Seq::empty());
    assert(word + Seq::<char>::empty() =~= word);
}

/// What stands before a place makes no difference to what is spelled there, and neither does more
/// text behind what is spelled.
proof fn lemma_spelled_inside(
    before: Seq<char>,
    s: Seq<char>,
    after: Seq<char>,
    at: int,
    word: Seq<char>,
)
    requires
        0 <= at,
        text::spelled(before + s, before.len() + at, word) is Some,
    ensures
        text::spelled(s + after, at, word) == text::spelled(before + s, before.len() + at, word),
    decreases word.len(),
{
    if word.len() > 0 {
        assert((before + s)[before.len() + at] == s[at]);
        assert((s + after)[at] == s[at]);
        lemma_spelled_inside(
            before,
            s,
            after,
            at + 1,
            word.skip(text::capitals(s[at]).len() as int),
        );
    }
}

/// A first letter that is in capitals, and not that of the word, spells nothing.
proof fn lemma_other_letter(s: Seq<char>, at: int, word: Seq<char>)
    requires
        0 <= at < s.len(),
        word.len() > 0,
        text::capitals(s[at])[0] != word[0],
    ensures
        text::spelled(s, at, word) is None,
{
    if text::capitals(s[at]).is_prefix_of(word) {
        assert(text::capitals(s[at]).len() > 0);
        assert(word.subrange(0, text::capitals(s[at]).len() as int)[0] == word[0]);
    }
}

/// The keywords of `SET` commands, and what they are made of.
proof fn lemma_keywords()
    ensures
        "SET SESSION "@ == "SET SESSION"@ + seq![' '],
        "SET LOCAL "@ == "SET LOCAL"@ + seq![' '],
        "SET "@ == "SET"@ + seq![' '],
        "SET SESSION "@ == "SET "@ + "SESSION "@,
        "SET LOCAL "@ == "SET "@ + "LOCAL "@,
        "SET SESSION"@ == "SET "@ + "SESSION"@,
        "SET LOCAL"@ == "SET "@ + "LOCAL"@,
        "SET SESSION "@.len() == 12,
        "SET LOCAL "@.len() == 10,
        "SET "@.len() == 4,
        in_capitals("SET SESSION "@),
        in_capitals("SET LOCAL "@),
        in_capitals("SET "@),
        in_capitals("SET SESSION"@),
        in_capitals("SET LOCAL"@),
        in_capitals("SET"@),
        "SET SESSION "@[0] == 'S',
        "SET LOCAL "@[0] == 'S',
        "SET "@[0] == 'S',
        "SESSION "@.len() == 8,
        "SESSION "@[0] == 'S',
        "LOCAL "@.len() == 6,
        "LOCAL "@[0] == 'L',
{
    reveal_strlit("SET SESSION ");
    reveal_strlit("SET LOCAL ");
    reveal_strlit("SET ");
    reveal_strlit("SET SESSION");
    reveal_strlit("SET LOCAL");
    reveal_strlit("SET");
    reveal_strlit("SESSION ");
    reveal_strlit("LOCAL ");
    reveal_strlit("SESSION");
    reveal_strlit("LOCAL");
    assert("SET SESSION "@ =~= "SET SESSION"@ + seq![' ']);
    assert("SET LOCAL "@ =~= "SET LOCAL"@ + seq![' ']);
    assert("SET "@ =~= "SET"@ + seq![' ']);
    assert("SET SESSION "@ =~= "SET "@ + "SESSION "@);
    assert("SET LOCAL "@ =~= "SET "@ + "LOCAL "@);
    assert("SET SESSION"@ =~= "SET "@ + "SESSION"@);
    assert("SET LOCAL"@ =~= "SET "@ + "LOCAL"@);
}

/// How a command that begins with `SET ` and goes on with `rest` begins to be read.
proof fn lemma_after_set(rest: Seq<char>)
    ensures
        text::spelled("SET "@ + rest, 0, "SET "@) == Some(4int),
        text::spelled("SET "@ + rest, 0, "SET SESSION "@) is Some ==> text::spelled(
            rest,
            0,
            "SESSION "@,
        ) is Some,
        text::spelled("SET "@ + rest, 0, "SET LOCAL "@) is Some ==> text::spelled(
            rest,
            0,
            "LOCAL "@,
        ) is Some,
{
    lemma_keywords();
    let command = "SET "@ + rest;
    lemma_spells_itself("SET "@, rest);
    lemma_spells_on(command, 0, "SET "@, "SESSION "@);
    lemma_spells_on(command, 0, "SET "@, "LOCAL "@);
    assert(rest + Seq::<char>::empty() =~= rest);
    if text::spelled(command, 4, "SESSION "@) is Some {
        lemma_spelled_inside("SET "@, rest, Seq::empty(), 0, "SESSION "@);
    }
    if text::spelled(command, 4, "LOCAL "@) is Some {
        lemma_spelled_inside("SET "@, rest, Seq::empty(), 0, "LOCAL "@);
    }
}

/// What a command means that begins with `keyword` and goes on with `body`.
proof fn lemma_command(keyword: Seq<char>, body: Seq<char>)
    requires
        text::trimmed(body).len() > 0,
        keyword == "SET SESSION "@ || keyword == "SET LOCAL "@ || keyword == "SET "@
            && text::spelled(body, 0, "SESSION "@) is None && text::spelled(body, 0, "LOCAL "@)
            is None,
    ensures
        params::set_command(keyword + body) == params::assignment(text::trimmed(body)),
{
    lemma_keywords();
    let kept = ended(body);
    lemma_ended(body);
    lemma_trim_sum(keyword, body);
    let command = keyword + kept;
    let n = keyword.len() as int;
    lemma_spells_itself(keyword, kept);
    if keyword == "SET LOCAL "@ {
        let rest = "LOCAL "@ + kept;
        assert(command =~= "SET "@ + rest);
        lemma_after_set(rest);
        assert(rest[0] == 'L');
        lemma_other_letter(rest, 0, "SESSION "@);
    }
    if keyword == "SET "@ {
        lemma_after_set(kept);
        let dropped = body.skip(kept.len() as int);
        assert(kept + dropped =~= body);
        assert(Seq::<char>::empty() + kept =~= kept);
        if text::spelled(kept, 0, "SESSION "@) is Some {
            lemma_spelled_inside(Seq::empty(), kept, dropped, 0, "SESSION "@);
        }
        if text::spelled(kept, 0, "LOCAL "@) is Some {
            lemma_spelled_inside(Seq::empty(), kept, dropped, 0, "LOCAL "@);
        }
    }
    assert(params::set_keyword_len(command) == Some(n));
    assert(command.skip(n) =~= kept);
}

/// Whether no separator begins in `s` from `from` on.
spec fn unseparated(s: Seq<char>, from: int) -> bool {
    forall|i: int|
        from <= i < s.len() ==> #[trigger] s[i] != '=' && !text::spells(s, i, " TO "@)
}

proof fn lemma_no_separator(s: Seq<char>, from: int)
    requires
        0 <= from,
        unseparated(s, from),
    ensures
        params::separator(s, from) is None,
    decreases s.len() - from,
{
    if from < s.len() {
        assert(s[from] != '=');
        lemma_no_separator(s, from + 1);
    }
}

/// What is left of a command whose last part is blank.
proof fn lemma_blank_end(words: Seq<char>, blank: Seq<char>)
    requires
        words.len() > 0,
        !text::white(words[0]),
        !text::white(words.last()),
        text::trimmed(blank).len() == 0,
    ensures
        text::trimmed(words + (seq![' '] + blank)) == words,
{
    let end = seq![' '] + blank;
    let white = text::any_white();
    let kept = text::start_dropped(blank, white);
    lemma_nothing_left(blank, white);
    lemma_nothing_left(kept, white);
    if kept.len() > 0 {
        lemma_start_kept(blank, white);
        assert(white(kept[0]));
    }
    assert(all_drop(end, white)) by {
        assert forall|i: int| 0 <= i < end.len() implies white(#[trigger] end[i]) by {
            if i > 0 {
                assert(end[i] == blank[i - 1]);
            }
        }
    }
    lemma_nothing_left(end, white);
    lemma_trim_sum(words, end);
    assert(words + ended(end) =~= words);
}

/// A `SET` command with nothing but blanks behind its keywords sets nothing.
proof fn lemma_blank_command(body: Seq<char>)
    requires
        text::trimmed(body).len() == 0,
    ensures
        params::set_command("SET SESSION "@ + body) is None,
        params::set_command("SET LOCAL "@ + body) is None,
        params::set_command("SET "@ + body) is None,
{
    lemma_keywords();
    reveal_strlit("SET SESSION");
    reveal_strlit("SET LOCAL");
    reveal_strlit("SET");
    assert("SET SESSION "@ + body =~= "SET SESSION"@ + (seq![' '] + body));
    assert("SET LOCAL "@ + body =~= "SET LOCAL"@ + (seq![' '] + body));
    assert("SET "@ + body =~= "SET"@ + (seq![' '] + body));
    lemma_blank_end("SET SESSION"@, body);
    lemma_blank_end("SET LOCAL"@, body);
    lemma_blank_end("SET"@, body);
    lemma_words_set_nothing("SET SESSION"@, "SESSION"@);
    lemma_words_set_nothing("SET LOCAL"@, "LOCAL"@);
    reveal_strlit("SET SESSION ");
    reveal_strlit("SET LOCAL ");
    reveal_strlit(" SESSION ");
    reveal_strlit(" LOCAL ");
    assert("SET SESSION "@ =~= "SET"@ + " SESSION "@);
    assert("SET LOCAL "@ =~= "SET"@ + " LOCAL "@);
    lemma_spells_on("SET"@, 0, "SET"@, " SESSION "@);
    lemma_spells_on("SET"@, 0, "SET"@, " LOCAL "@);
    lemma_spells_on("SET"@, 0, "SET"@, seq![' ']);
}

/// The words `SET SESSION` and `SET LOCAL` alone set nothing.
proof fn lemma_words_set_nothing(command: Seq<char>, word: Seq<char>)
    requires
        command == "SET SESSION"@ && word == "SESSION"@ || command == "SET LOCAL"@ && word
            == "LOCAL"@,
    ensures
        params::set_keyword_len(command) matches Some(n) ==> params::assignment(
            text::trimmed(command.skip(n)),
        ) is None,
{
    lemma_keywords();
    reveal_strlit("SESSION");
    reveal_strlit("LOCAL");
    reveal_strlit(" TO ");
    reveal_strlit("TIME ZONE ");
    lemma_after_set(word);
    if command == "SET SESSION"@ {
        lemma_spells_on(command, 0, command, seq![' ']);
        lemma_other_letter(word, 0, "LOCAL "@);
    } else {
        lemma_spells_on(command, 0, command, seq![' ']);
        lemma_other_letter(word, 0, "SESSION "@);
    }
    assert(params::set_keyword_len(command) == Some(4int));
    assert(command.skip(4) =~= word);
    lemma_trim_nothing(word);
    lemma_other_letter(word, 0, "TIME ZONE "@);
    assert(unseparated(word, 0)) by {
        assert forall|i: int| 0 <= i < word.len() implies #[trigger] word[i] != '='
            && !text::spells(word, i, " TO "@) by {
            if text::spells(word, i, " TO "@) {
                assert(text::ascii_upper(word[i + 0]) == " TO "@[0]);
            }
        }
    }
    lemma_no_separator(word, 0);
}

/// `SESSION` and `LOCAL` make no difference to what a command sets, unless what follows `SET` is
/// itself one of these words.
pub proof fn law_session_and_local_are_noise(body: Seq<char>)
    requires
        text::spelled(body, 0, "SESSION "@) is None,
        text::spelled(body, 0, "LOCAL "@) is None,
    ensures
        params::set_command("SET SESSION "@ + body) == params::set_command("SET "@ + body),
        params::set_command("SET LOCAL "@ + body) == params::set_command("SET "@ + body),
{
    if text::trimmed(body).len() == 0 {
        lemma_blank_command(body);
    } else {
        lemma_command("SET SESSION "@, body);
        lemma_command("SET LOCAL "@, body);
        lemma_command("SET "@, body);
    }
}

/// Whether `key` is one word that can stand to the left of the separator and is no keyword.
pub open spec fn plain_key(key: Seq<char>) -> bool {
    &&& key.len() > 0
    &&& forall|i: int| 0 <= i < key.len() ==> !text::white(#[trigger] key[i]) && key[i] != '='
    &&& text::spelled(key, 0, "SESSION"@) != Some(key.len() as int)
    &&& text::spelled(key, 0, "LOCAL"@) != Some(key.len() as int)
}

/// A key followed by a blank spells two words only where it spells the first and what follows
/// spells the second.
proof fn lemma_blank_meets_blank(
    key: Seq<char>,
    rest: Seq<char>,
    at: int,
    word: Seq<char>,
    tail: Seq<char>,
)
    requires
        forall|i: int| 0 <= i < key.len() ==> !text::white(#[trigger] key[i]),
        forall|i: int| 0 <= i < word.len() ==> #[trigger] word[i] != ' ',
        rest.len() > 0,
        rest[0] == ' ',
        0 <= at <= key.len(),
        text::spelled(key + rest, at, word + (seq![' '] + tail)) is Some,
    ensures
        text::spelled(key, at, word) == Some(key.len() - at),
        text::spelled(key + rest, key.len() as int + 1, tail) is Some,
    decreases word.len(),
{
    let all = key + rest;
    let words = word + (seq![' '] + tail);
    let up = text::capitals(all[at]);
    assert(up.is_prefix_of(words));
    assert(up[0] == words[0]);
    assert(words.skip(up.len() as int).len() == words.len() - up.len());
    if word.len() == 0 {
        assert(words[0] == ' ');
        if at < key.len() {
            assert(all[at] == key[at] && !text::white(key[at]));
        }
        assert(at == key.len());
        assert(words.skip(1) =~= tail);
    } else {
        assert(words[0] == word[0]);
        assert(at < key.len());
        assert(all[at] == key[at] && !text::white(key[at]));
        if up.len() == 2 && word.len() == 1 {
            assert(up[1] == words[1]);
            assert(words[1] == ' ');
        }
        let left = word.skip(up.len() as int);
        assert(words.skip(up.len() as int) =~= left + (seq![' '] + tail));
        assert forall|i: int| 0 <= i < left.len() implies #[trigger] left[i] != ' ' by {
            assert(left[i] == word[i + up.len()]);
        }
        assert(up.is_prefix_of(word)) by {
            assert(up =~= word.subrange(0, up.len() as int)) by {
                assert forall|i: int| 0 <= i < up.len() implies up[i] == word[i] by {
                    assert(up[i] == words[i]);
                }
            }
        }
        lemma_blank_meets_blank(key, rest, at + 1, left, tail);
    }
}

/// A plain key followed by a blank spells none of the words that may follow `SET`.
proof fn lemma_no_keyword(key: Seq<char>, rest: Seq<char>)
    requires
        plain_key(key),
        rest.len() > 0,
        rest[0] == ' ',
    ensures
        text::spelled(key + rest, 0, "SESSION "@) is None,
        text::spelled(key + rest, 0, "LOCAL "@) is None,
{
    reveal_strlit("SESSION ");
    reveal_strlit("LOCAL ");
    reveal_strlit("SESSION");
    reveal_strlit("LOCAL");
    let nothing = Seq::<char>::empty();
    assert("SESSION "@ =~= "SESSION"@ + (seq![' '] + nothing));
    assert("LOCAL "@ =~= "LOCAL"@ + (seq![' '] + nothing));
    if text::spelled(key + rest, 0, "SESSION "@) is Some {
        lemma_blank_meets_blank(key, rest, 0, "SESSION"@, nothing);
    }
    if text::spelled(key + rest, 0, "LOCAL "@) is Some {
        lemma_blank_meets_blank(key, rest, 0, "LOCAL"@, nothing);
    }
}

/// A plain key followed by a blank and then by `=` or `T` does not spell `TIME ZONE`.
proof fn lemma_no_time_zone(key: Seq<char>, rest: Seq<char>)
    requires
        plain_key(key),
        rest.len() > 1,
        rest[0] == ' ',
        rest[1] == '=' || rest[1] == 'T',
    ensures
        text::spelled(key + rest, 0, "TIME ZONE "@) is None,
{
    reveal_strlit("TIME ZONE ");
    reveal_strlit("TIME");
    reveal_strlit("ZONE ");
    assert("TIME ZONE "@ =~= "TIME"@ + (seq![' '] + "ZONE "@));
    if text::spelled(key + rest, 0, "TIME ZONE "@) is Some {
        lemma_blank_meets_blank(key, rest, 0, "TIME"@, "ZONE "@);
        assert((key + rest)[key.len() as int + 1] == rest[1]);
        lemma_other_letter(key + rest, key.len() as int + 1, "ZONE "@);
    }
}

/// No separator begins inside a plain key.
proof fn lemma_separator_after(key: Seq<char>, rest: Seq<char>, from: int)
    requires
        plain_key(key),
        0 <= from <= key.len(),
    ensures
        params::separator(key + rest, from) == params::separator(key + rest, key.len() as int),
    decreases key.len() - from,
{
    reveal_strlit(" TO ");
    let all = key + rest;
    if from < key.len() {
        assert(all[from] == key[from] && !text::white(key[from]));
        if text::spells(all, from, " TO "@) {
            assert(text::ascii_upper(all[from]) == " TO "@[0]);
        }
        lemma_separator_after(key, rest, from + 1);
    }
}

proof fn lemma_key_trims(key: Seq<char>)
    requires
        plain_key(key),
    ensures
        text::trimmed(key) == key,
        text::trimmed(key + seq![' ']) == key,
{
    assert(!text::white(key[0]) && !text::white(key[key.len() - 1]));
    lemma_trim_nothing(key);
    lemma_trim_sum(key, seq![' ']);
    assert(ended(seq![' ']) =~= Seq::empty()) by {
        lemma_nothing_left(seq![' '], text::any_white());
    }
    assert(key + Seq::<char>::empty() =~= key);
}

/// `SET key = value` sets the key to the value without the white space and the quotes around it.
pub proof fn law_equals_assigns(key: Seq<char>, value: Seq<char>)
    requires
        plain_key(key),
    ensures
        params::set_command("SET "@ + (key + (" = "@ + value))) == Some(
            (key, params::unquoted(text::trimmed(value))),
        ),
{
    reveal_strlit(" = ");
    reveal_strlit(" TO ");
    let blank = seq![' '];
    let right = blank + value;
    let sign = seq![' ', '='];
    assert(" = "@ + value =~= sign + right);
    let body = key + (sign + right);
    let kept = ended(right);
    lemma_no_keyword(key, sign + right);
    // What is left of the body once it is trimmed.
    lemma_end_of_sum(sign, right, text::any_white());
    assert(ended(sign + right) == sign + kept);
    assert(!text::white(key[0]) && !text::white(key[key.len() - 1]));
    lemma_trim_sum(key, sign + right);
    let rest = key + (sign + kept);
    assert(text::trimmed(body) == rest);
    lemma_command("SET "@, body);
    lemma_no_time_zone(key, sign + kept);
    let n = key.len() as int;
    lemma_separator_after(key, sign + kept, 0);
    assert(rest[n] == ' ' && rest[n + 1] == '=');
    if text::spells(rest, n, " TO "@) {
        assert(text::ascii_upper(rest[n + 1]) == " TO "@[1]);
    }
    assert(params::separator(rest, n + 1) == Some((n + 1, 1int)));
    assert(rest.take(n + 1) =~= key + blank);
    assert(rest.skip(n + 2) =~= kept);
    lemma_key_trims(key);
    lemma_ended(right);
    assert(right.drop_first() =~= value);
    assert(text::start_dropped(right, text::any_white()) == text::start_dropped(
        value,
        text::any_white(),
    ));
}

/// `SET key TO value` does what `SET key = value` does, where the value is not blank.
pub proof fn law_to_assigns(key: Seq<char>, value: Seq<char>)
    requires
        plain_key(key),
        text::trimmed(value).len() > 0,
    ensures
        params::set_command("SET "@ + (key + (" TO "@ + value))) == params::set_command(
            "SET "@ + (key + (" = "@ + value)),
        ),
{
    reveal_strlit(" TO ");
    law_equals_assigns(key, value);
    let sign = " TO "@;
    let body = key + (sign + value);
    let kept = ended(value);
    lemma_ended(value);
    lemma_no_keyword(key, sign + value);
    lemma_end_of_sum(sign, value, text::any_white());
    assert(ended(sign + value) == sign + kept);
    assert(!text::white(key[0]) && !text::white(key[key.len() - 1]));
    lemma_trim_sum(key, sign + value);
    let rest = key + (sign + kept);
    assert(text::trimmed(body) == rest);
    lemma_command("SET "@, body);
    lemma_no_time_zone(key, sign + kept);
    let n = key.len() as int;
    lemma_separator_after(key, sign + kept, 0);
    assert(rest[n] == ' ' && rest[n + 1] == 'T' && rest[n + 2] == 'O' && rest[n + 3] == ' ');
    assert(text::spells(rest, n, sign)) by {
        assert forall|i: int| 0 <= i < 4 implies text::ascii_upper(rest[n + i])
                == #[trigger] sign[i] by {
            assert(rest[n + i] == sign[i]);
        }
    }
    assert(rest.take(n) =~= key);
    assert(rest.skip(n + 4) =~= kept);
    lemma_key_trims(key);
}

/// `SET TIME ZONE value` sets `timezone` to the value without the white space and the quotes around
/// it, where the value is not blank.
pub proof fn law_time_zone_assigns(value: Seq<char>)
    requires
        text::trimmed(value).len() > 0,
    ensures
        params::set_command("SET "@ + ("TIME ZONE "@ + value)) == Some(
            ("timezone"@, params::unquoted(text::trimmed(value))),
        ),
{
    reveal_strlit("TIME ZONE ");
    reveal_strlit("SESSION ");
    reveal_strlit("LOCAL ");
    let words = "TIME ZONE "@;
    let body = words + value;
    let kept = ended(value);
    lemma_ended(value);
    assert(body[0] == 'T');
    lemma_other_letter(body, 0, "SESSION "@);
    lemma_other_letter(body, 0, "LOCAL "@);
    lemma_trim_sum(words, value);
    let rest = words + kept;
    assert(text::trimmed(body) == rest);
    lemma_command("SET "@, body);
    assert(in_capitals(words));
    lemma_spells_itself(words, kept);
    assert(rest.skip(10) =~= kept);
}

proof fn lemma_timezone_is_plain()
    ensures
        plain_key("timezone"@),
{
    reveal_strlit("timezone");
    reveal_strlit("SESSION");
    reveal_strlit("LOCAL");
    lemma_other_letter("timezone"@, 0, "SESSION"@);
    lemma_other_letter("timezone"@, 0, "LOCAL"@);
}

/// Words that hold no separator and do not spell `TIME ZONE` with something behind it assign
/// nothing, with blanks behind them or not.
proof fn lemma_unseparated_words(words: Seq<char>, blank: Seq<char>)
    requires
        words.len() > 0,
        !text::white(words[0]),
        !text::white(words.last()),
        text::trimmed(blank).len() == 0,
        unseparated(words, 0),
        text::spelled(words, 0, "TIME ZONE "@) is None,
        text::spelled(words + (seq![' '] + blank), 0, "SESSION "@) is None,
        text::spelled(words + (seq![' '] + blank), 0, "LOCAL "@) is None,
    ensures
        params::set_command("SET "@ + (words + (seq![' '] + blank))) is None,
{
    lemma_blank_end(words, blank);
    lemma_command("SET "@, words + (seq![' '] + blank));
    lemma_no_separator(words, 0);
}

/// `SET TIME ZONE value` does what `SET timezone TO value` does.
pub proof fn law_time_zone_is_timezone(value: Seq<char>)
    ensures
        params::set_command("SET "@ + ("TIME ZONE "@ + value)) == params::set_command(
            "SET "@ + ("timezone"@ + (" TO "@ + value)),
        ),
{
    lemma_timezone_is_plain();
    if text::trimmed(value).len() > 0 {
        law_time_zone_assigns(value);
        law_to_assigns("timezone"@, value);
        law_equals_assigns("timezone"@, value);
    } else {
        reveal_strlit("TIME ZONE ");
        reveal_strlit("TIME ZONE");
        reveal_strlit("timezone TO");
        reveal_strlit("timezone");
        reveal_strlit(" TO ");
        reveal_strlit("SESSION ");
        reveal_strlit("LOCAL ");
        let zone = "TIME ZONE"@;
        let named = "timezone TO"@;
        let end = seq![' '] + value;
        assert("TIME ZONE "@ + value =~= zone + end);
        assert("timezone"@ + (" TO "@ + value) =~= named + end);
        assert((zone + end)[0] == 'T' && (named + end)[0] == 't');
        lemma_other_letter(zone + end, 0, "SESSION "@);
        lemma_other_letter(zone + end, 0, "LOCAL "@);
        lemma_other_letter(named + end, 0, "SESSION "@);
        lemma_other_letter(named + end, 0, "LOCAL "@);
        assert(unseparated(zone, 0)) by {
            assert forall|i: int| 0 <= i < zone.len() implies #[trigger] zone[i] != '='
                && !text::spells(zone, i, " TO "@) by {
                if text::spells(zone, i, " TO "@) {
                    assert(text::ascii_upper(zone[i]) == " TO "@[0]);
                    assert(text::ascii_upper(zone[i + 1]) == " TO "@[1]);
                }
            }
        }
        assert(unseparated(named, 0)) by {
            assert forall|i: int| 0 <= i < named.len() implies #[trigger] named[i] != '='
                && !text::spells(named, i, " TO "@) by {
                if text::spells(named, i, " TO "@) {
                    assert(text::ascii_upper(named[i]) == " TO "@[0]);
                }
            }
        }
        assert("TIME ZONE "@ =~= zone + seq![' ']);
        assert(in_capitals(zone));
        lemma_spells_on(zone, 0, zone, seq![' ']);
        assert(named =~= "timezone"@ + seq![' ', 'T', 'O']);
        lemma_no_time_zone("timezone"@, seq![' ', 'T', 'O']);
        lemma_unseparated_words(zone, value);
        lemma_unseparated_words(named, value);
    }
}

/// What is dropped from the end of a text does not depend on more of it behind.
proof fn lemma_end_grows(s: Seq<char>, more: Seq<char>, p: spec_fn(char) -> bool)
    requires
        all_drop(more, p),
    ensures
        text::end_dropped(s + more, p) == text::end_dropped(s, p),
    decreases more.len(),
{
    if more.len() == 0 {
        assert(s + more =~= s);
    } else {
        let less = more.drop_last();
        assert(p(more[more.len() - 1]));
        assert((s + more).last() == more.last());
        assert((s + more).drop_last() =~= s + less);
        assert forall|i: int| 0 <= i < less.len() implies p(#[trigger] less[i]) by {
            assert(less[i] == more[i]);
        }
        lemma_end_grows(s, less, p);
    }
}

/// What is dropped from the start of a text does not depend on more of it in front.
proof fn lemma_start_grows(more: Seq<char>, s: Seq<char>, p: spec_fn(char) -> bool)
    requires
        all_drop(more, p),
    ensures
        text::start_dropped(more + s, p) == text::start_dropped(s, p),
    decreases more.len(),
{
    if more.len() == 0 {
        assert(more + s =~= s);
    } else {
        let less = more.drop_first();
        assert(p(more[0]));
        assert((more + s)[0] == more[0]);
        assert((more + s).drop_first() =~= less + s);
        assert forall|i: int| 0 <= i < less.len() implies p(#[trigger] less[i]) by {
            assert(less[i] == more[i + 1]);
        }
        lemma_start_grows(less, s, p);
    }
}

/// Dropping from the start of a text leaves alone what stands behind something that is kept.
proof fn lemma_start_of_sum(s: Seq<char>, more: Seq<char>, p: spec_fn(char) -> bool)
    requires
        !all_drop(s, p),
    ensures
        text::start_dropped(s + more, p) == text::start_dropped(s, p) + more,
    decreases s.len(),
{
    assert((s + more)[0] == s[0]);
    if p(s[0]) {
        let rest = s.drop_first();
        assert((s + more).drop_first() =~= rest + more);
        if all_drop(rest, p) {
            assert forall|i: int| 0 <= i < s.len() implies p(#[trigger] s[i]) by {
                if i > 0 {
                    assert(rest[i - 1] == s[i]);
                }
            }
        }
        lemma_start_of_sum(rest, more, p);
    }
}

/// Whether a text is nothing but white space.
pub open spec fn blank(s: Seq<char>) -> bool {
    forall|i: int| 0 <= i < s.len() ==> text::white(#[trigger] s[i])
}

proof fn lemma_trimmed_in_blanks(before: Seq<char>, s: Seq<char>, after: Seq<char>)
    requires
        blank(before),
        blank(after),
    ensures
        text::trimmed(before + (s + after)) == text::trimmed(s),
{
    let p = text::any_white();
    assert(all_drop(before, p) && all_drop(after, p));
    lemma_start_grows(before, s + after, p);
    if all_drop(s, p) {
        let sum = s + after;
        assert forall|i: int| 0 <= i < sum.len() implies p(#[trigger] sum[i]) by {
            if i < s.len() {
                assert(sum[i] == s[i]);
            } else {
                assert(sum[i] == after[i - s.len()]);
            }
        }
        lemma_nothing_left(sum, p);
        lemma_nothing_left(s, p);
        assert(text::start_dropped(sum, p) =~= text::start_dropped(s, p));
    } else {
        lemma_start_of_sum(s, after, p);
        lemma_end_grows(text::start_dropped(s, p), after, p);
    }
}

/// White space around a command makes no difference.
pub proof fn law_white_space_around_commands_is_noise(
    before: Seq<char>,
    sql: Seq<char>,
    after: Seq<char>,
)
    requires
        blank(before),
        blank(after),
    ensures
        params::set_command(before + (sql + after)) == params::set_command(sql),
        params::show_command(before + (sql + after)) == params::show_command(sql),
{
    lemma_trimmed_in_blanks(before, sql, after);
}

/// `SHOW name` asks for the name without the white space around it, in whatever case `SHOW` is
/// written.
pub proof fn law_show_asks_for_the_name(word: Seq<char>, name: Seq<char>)
    requires
        text::spelled(word, 0, "SHOW "@) == Some(word.len() as int),
        text::trimmed(name).len() > 0,
    ensures
        params::show_command(word + name) == Some(text::trimmed(name)),
{
    reveal_strlit("SHOW ");
    let kept = ended(name);
    let nothing = Seq::<char>::empty();
    lemma_ended(name);
    assert(text::capitals(word[0]).is_prefix_of("SHOW "@));
    assert("SHOW "@.subrange(0, text::capitals(word[0]).len() as int)[0] == 'S');
    assert(text::capitals(word[0])[0] == 'S');
    lemma_trim_sum(word, name);
    assert(nothing + word =~= word);
    lemma_spelled_inside(nothing, word, kept, 0, "SHOW "@);
    assert((word + kept).skip(word.len() as int) =~= kept);
}

/// Capitals make no difference to which parameter is meant: names that differ in nothing else are
/// one name in small letters.
pub proof fn law_names_are_the_same_in_capitals(
    a: Seq<char>,
    b: Seq<char>,
    small_a: Seq<char>,
    small_b: Seq<char>,
)
    requires
        text::ascii(a),
        text::ascii(b),
        text::ascii_lowered(a) == text::ascii_lowered(b),
        params::is_lowered(small_a, a),
        params::is_lowered(small_b, b),
    ensures
        small_a == small_b,
{
}

/// Every name that `SET` accepts is a known runtime parameter, but for the identity keys and knobs
/// that are written and never shown by this way.
pub proof fn law_settable_names_are_known(i: int)
    requires
        0 <= i < params::SETTABLE_RUNTIME_PARAMETERS@.len(),
    ensures
        ({
            let name = params::SETTABLE_RUNTIME_PARAMETERS@[i]@;
            ||| params::names_parameter(params::KNOWN_PG_RUNTIME_PARAMETERS@, name)
            ||| name == "tenant"@
            ||| name == "role"@
            ||| name == "nodedb.read_consistency"@
            ||| name == "nodedb.cross_shard_mode"@
            ||| name == "nodedb.auth_session"@
            ||| name == "cross_shard_txn"@
        }),
{
    let known = params::KNOWN_PG_RUNTIME_PARAMETERS@;
    if i == 0 {
        assert(known[1]@ == "application_name"@);
    }
    if i == 1 {
        assert(known[2]@ == "client_encoding"@);
    }
    if i == 2 {
        assert(known[3]@ == "client_min_messages"@);
    }
    if i == 3 {
        assert(known[4]@ == "datestyle"@);
    }
    if i == 4 {
        assert(known[5]@ == "default_transaction_isolation"@);
    }
    if i == 5 {
        assert(known[6]@ == "default_transaction_read_only"@);
    }
    if i == 6 {
        assert(known[7]@ == "extra_float_digits"@);
    }
    if i == 7 {
        assert(known[9]@ == "intervalstyle"@);
    }
    if i == 8 {
        assert(known[11]@ == "lc_collate"@);
    }
    if i == 9 {
        assert(known[12]@ == "lc_ctype"@);
    }
    if i == 10 {
        assert(known[13]@ == "lc_messages"@);
    }
    if i == 11 {
        assert(known[14]@ == "lc_monetary"@);
    }
    if i == 12 {
        assert(known[15]@ == "lc_numeric"@);
    }
    if i == 13 {
        assert(known[16]@ == "lc_time"@);
    }
    if i == 14 {
        assert(known[20]@ == "search_path"@);
    }
    if i == 15 {
        assert(known[22]@ == "standard_conforming_strings"@);
    }
    if i == 16 {
        assert(known[23]@ == "statement_timeout"@);
    }
    if i == 17 {
        assert(known[24]@ == "timezone"@);
    }
    if i == 18 {
        assert(known[25]@ == "time zone"@);
    }
    if i == 19 {
        assert(known[26]@ == "transaction_isolation"@);
    }
    if i == 20 {
        assert(known[27]@ == "transaction_read_only"@);
    }
    if i == 21 {
        assert(known[36]@ == "rounding_mode"@);
    }
    if i == 24 {
        assert(known[21]@ == "session_authorization"@);
    }
    if i == 25 {
        assert(known[28]@ == "nodedb.consistency"@);
    }
    if i == 28 {
        assert(known[29]@ == "nodedb.tenant_id"@);
    }
    if i == 30 {
        assert(known[30]@ == "nodedb.force_shuffle_join"@);
    }
    if i == 31 {
        assert(known[31]@ == "nodedb.shuffle_num_parts"@);
    }
    if i == 32 {
        assert(known[32]@ == "nodedb.force_shuffle_agg"@);
    }
    if i == 33 {
        assert(known[33]@ == "nodedb.shuffle_agg_num_parts"@);
    }
    if i == 34 {
        assert(known[34]@ == "nodedb.broadcast_threshold_bytes"@);
    }
    if i == 35 {
        assert(known[35]@ == "nodedb.shuffle_agg_threshold"@);
    }
}

/// A parameter that was set is read back; other parameters and other sessions keep what they had.
pub proof fn law_parameters_are_read_back(
    sessions: Map<PeerAddr, Parameters>,
    addr: PeerAddr,
    key: Seq<char>,
    value: String,
    other_addr: PeerAddr,
    other_key: Seq<char>,
)
    ensures
        sessions.contains_key(addr) ==> store::parameter(
            store::with_parameter(sessions, addr, key, value),
            addr,
            key,
        ) == Some(value),
        other_addr != addr || other_key != key ==> store::parameter(
            store::with_parameter(sessions, addr, key, value),
            other_addr,
            other_key,
        ) == store::parameter(sessions, other_addr, other_key),
{
}

} // verus!
