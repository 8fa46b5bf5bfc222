//! What the text helpers promise.

use vstd::prelude::*;

use crate::text;
use crate::text_map;
use crate::text_map::Entry;

verus! {

/// Whether `c` is white space, by its code point.
pub open spec fn is_space(c: char) -> bool {
    let n = c as u32;
    9 <= n <= 13 || n == 0x20 || n == 0x85 || n == 0xa0 || n == 0x1680 || 0x2000 <= n <= 0x200a || n
        == 0x2028 || n == 0x2029 || n == 0x202f || n == 0x205f || n == 0x3000
}

/// Whether `t` is the part of `s` from `a` to `b`, which begins and ends with what is kept, and all
/// around it is dropped.
pub open spec fn is_cut(
    s: Seq<char>,
    t: Seq<char>,
    dropped: spec_fn(char) -> bool,
    a: int,
    b: int,
) -> bool {
    &&& 0 <= a <= b <= s.len()
    &&& t == s.subrange(a, b)
    &&& forall|i: int| 0 <= i < a ==> dropped(#[trigger] s[i])
    &&& forall|i: int| b <= i < s.len() ==> dropped(#[trigger] s[i])
    &&& t.len() > 0 ==> !dropped(t[0]) && !dropped(t.last())
}

proof fn lemma_start_cut(s: Seq<char>, p: spec_fn(char) -> bool) -> (a: int)
    ensures
        0 <= a <= s.len(),
        text::start_dropped(s, p) == s.skip(a),
        forall|i: int| 0 <= i < a ==> p(#[trigger] s[i]),
        a < s.len() ==> !p(s[a]),
    decreases s.len(),
{
    if s.len() > 0 && p(s[0]) {
        let rest = s.drop_first();
        let a = lemma_start_cut(rest, p);
        assert(rest.skip(a) =~= s.skip(a + 1));
        assert forall|i: int| 0 <= i < a + 1 implies p(#[trigger] s[i]) by {
            if i > 0 {
                assert(rest[i - 1] == s[i]);
            }
        }
        a + 1
    } else {
        assert(s.skip(0) =~= s);
        0
    }
}

proof fn lemma_end_cut(s: Seq<char>, p: spec_fn(char) -> bool) -> (b: int)
    ensures
        0 <= b <= s.len(),
        text::end_dropped(s, p) == s.take(b),
        forall|i: int| b <= i < s.len() ==> p(#[trigger] s[i]),
        b > 0 ==> !p(s[b - 1]),
    decreases s.len(),
{
    if s.len() > 0 && p(s.last()) {
        let rest = s.drop_last();
        let b = lemma_end_cut(rest, p);
        assert(rest.take(b) =~= s.take(b));
        assert forall|i: int| b <= i < s.len() implies p(#[trigger] s[i]) by {
            if i < rest.len() {
                assert(rest[i] == s[i]);
            }
        }
        b
    } else {
        assert(s.take(s.len() as int) =~= s);
        s.len() as int
    }
}

proof fn lemma_cut(s: Seq<char>, p: spec_fn(char) -> bool) -> (cut: (int, int))
    ensures
        is_cut(s, text::end_dropped(text::start_dropped(s, p), p), p, cut.0, cut.1),
{
    let a = lemma_start_cut(s, p);
    let rest = s.skip(a);
    let b = lemma_end_cut(rest, p);
    let t = rest.take(b);
    assert(t =~= s.subrange(a, a + b));
    assert forall|i: int| a + b <= i < s.len() implies p(#[trigger] s[i]) by {
        assert(rest[i - a] == s[i]);
    }
    if b > 0 {
        assert(t[0] == s[a]);
        assert(t.last() == rest[b - 1]);
    }
    (a, a + b)
}

/// The test that white space passes, by its code point.
pub open spec fn space() -> spec_fn(char) -> bool {
    |c: char| is_space(c)
}

/// The test that only the mark passes.
pub open spec fn this(mark: char) -> spec_fn(char) -> bool {
    |c: char| c == mark
}

proof fn lemma_white(c: char)
    ensures
        text::white(c) == is_space(c),
{
}

/// Trimming takes the white space at both ends away, all of it and nothing else.
pub proof fn law_trimming_takes_white_space_away(s: Seq<char>)
    ensures
        exists|a: int, b: int| #[trigger] is_cut(s, text::trimmed(s), space(), a, b),
{
    assert forall|c: char| #[trigger] text::white(c) == is_space(c) by {
        lemma_white(c);
    }
    assert(text::any_white() =~= space());
    let (a, b) = lemma_cut(s, text::any_white());
    assert(is_cut(s, text::trimmed(s), space(), a, b));
}

/// Stripping takes a mark at both ends away, all of it and nothing else.
pub proof fn law_stripping_takes_marks_away(s: Seq<char>, mark: char)
    ensures
        exists|a: int, b: int| #[trigger] is_cut(s, text::stripped(s, mark), this(mark), a, b),
{
    assert(text::only(mark) =~= this(mark));
    let (a, b) = lemma_cut(s, text::only(mark));
    assert(is_cut(s, text::stripped(s, mark), this(mark), a, b));
}

/// Where a cut begins and ends with what is kept, or nothing is kept, there is but one.
pub proof fn law_there_is_one_cut(
    s: Seq<char>,
    dropped: spec_fn(char) -> bool,
    t: Seq<char>,
    a: int,
    b: int,
    u: Seq<char>,
    c: int,
    d: int,
)
    requires
        is_cut(s, t, dropped, a, b),
        is_cut(s, u, dropped, c, d),
    ensures
        t == u,
{
    if t.len() > 0 {
        assert(t[0] == s[a] && t.last() == s[b - 1]);
        assert(c <= a && b <= d);
    }
    if u.len() > 0 {
        assert(u[0] == s[c] && u.last() == s[d - 1]);
        assert(a <= c && d <= b);
    }
    assert(t =~= u);
}

/// In small letters each ASCII capital becomes the small letter of the same place in the alphabet, and
/// nothing else changes.
pub proof fn law_small_letters(s: Seq<char>)
    ensures
        text::ascii_lowered(s).len() == s.len(),
        forall|i: int|
            0 <= i < s.len() ==> if 65 <= s[i] as u32 <= 90 {
                #[trigger] text::ascii_lowered(s)[i] as u32 == s[i] as u32 + 32
            } else {
                text::ascii_lowered(s)[i] == s[i]
            },
{
    assert forall|i: int| 0 <= i < s.len() implies if 65 <= s[i] as u32 <= 90 {
        #[trigger] text::ascii_lowered(s)[i] as u32 == s[i] as u32 + 32
    } else {
        text::ascii_lowered(s)[i] == s[i]
    } by {
        assert(text::ascii_lowered(s)[i] == text::ascii_lower(s[i]));
    }
}

/// A character in capitals: an ASCII small letter, the dotless i, the long s and the sharp s become
/// the capitals that stand for them, and anything else stays.
pub open spec fn large(c: char) -> Seq<char> {
    if 97 <= c as u32 <= 122 {
        seq![((c as u32) - 32) as char]
    } else if c as u32 == 0x131 {
        seq!['I']
    } else if c as u32 == 0x17f {
        seq!['S']
    } else if c as u32 == 0xdf {
        seq!['S', 'S']
    } else {
        seq![c]
    }
}

/// A text in capitals.
pub open spec fn all_large(s: Seq<char>) -> Seq<char>
    decreases s.len(),
{
    if s.len() == 0 {
        Seq::empty()
    } else {
        large(s[0]) + all_large(s.drop_first())
    }
}

/// A keyword stands at a place exactly if the characters from there on, in capitals, are the keyword,
/// and then it is as long as those characters are many.
pub proof fn law_keywords_are_spelled_in_any_case(s: Seq<char>, at: int, word: Seq<char>, n: int)
    requires
        0 <= at <= s.len(),
    ensures
        text::spelled(s, at, word) == Some(n) <==> 0 <= n && at + n <= s.len() && all_large(
            s.subrange(at, at + n),
        ) == word,
    decreases word.len(),
{
    if 0 <= n && at + n <= s.len() {
        let part = s.subrange(at, at + n);
        if n > 0 {
            assert(part[0] == s[at]);
            assert(part.drop_first() =~= s.subrange(at + 1, at + n));
            assert(all_large(part) == large(s[at]) + all_large(part.drop_first()));
            assert(large(s[at]).len() > 0);
        }
    }
    if word.len() == 0 {
        if 0 <= n && at + n <= s.len() && n == 0 {
            assert(all_large(s.subrange(at, at)) =~= word);
        }
    } else if at < s.len() {
        let first = text::capitals(s[at]);
        assert(first =~= large(s[at]));
        if first.is_prefix_of(word) {
            let rest = word.skip(first.len() as int);
            assert(word =~= first + rest);
            law_keywords_are_spelled_in_any_case(s, at + 1, rest, n - 1);
            if 0 < n && at + n <= s.len() {
                let tail = all_large(s.subrange(at + 1, at + n));
                assert((first + tail).skip(first.len() as int) =~= tail);
            }
        } else if 0 < n && at + n <= s.len() {
            let tail = all_large(s.subrange(at + 1, at + n));
            assert((first + tail).subrange(0, first.len() as int) =~= first);
        }
    }
}

/// The number that decimal digits spell.
pub open spec fn number(s: Seq<char>) -> int
    decreases s.len(),
{
    if s.len() == 0 {
        0
    } else {
        10 * number(s.drop_last()) + (s.last() as u32 - 48)
    }
}

/// Decimal notation is made of digits that spell the number, and begins with a zero only for zero.
pub proof fn law_decimals_spell_the_number(n: nat)
    ensures
        text::decimal(n).len() > 0,
        number(text::decimal(n)) == n,
        forall|i: int|
            0 <= i < text::decimal(n).len() ==> 48 <= #[trigger] text::decimal(n)[i] as u32 <= 57,
        n > 0 ==> text::decimal(n)[0] as u32 != 48,
        n == 0 ==> text::decimal(n).len() == 1,
    decreases n,
{
    let all = text::decimal(n);
    if n < 10 {
        assert(all.drop_last() =~= Seq::empty());
        assert(number(all.drop_last()) == 0);
        assert(all.last() as u32 == 48 + n);
        assert(number(all) == n);
    } else {
        law_decimals_spell_the_number(n / 10);
        let before = text::decimal(n / 10);
        assert(all == before.push(text::digit(n % 10)));
        assert(all.drop_last() =~= before);
        assert(all.last() as u32 == 48 + n % 10);
        assert forall|i: int| 0 <= i < all.len() implies 48 <= #[trigger] all[i] as u32 <= 57 by {
            if i < before.len() {
                assert(all[i] == before[i]);
            }
        }
        assert(all[0] == before[0]);
    }
}

/// Whether `a` and `b` are the same up to `k`, where `a` ends or has the smaller character.
pub open spec fn differ_at(a: Seq<char>, b: Seq<char>, k: int) -> bool {
    &&& 0 <= k < b.len()
    &&& k <= a.len()
    &&& forall|i: int| 0 <= i < k ==> #[trigger] a[i] == b[i]
    &&& k == a.len() || (a[k] as u32) < (b[k] as u32)
}

proof fn lemma_code_points(c: char, d: char)
    ensures
        c < d <==> (c as u32) < (d as u32),
{
}

/// Of two texts the one comes first that ends, or has the smaller code point, where they differ.
pub proof fn law_texts_are_ordered_by_code_points(a: Seq<char>, b: Seq<char>)
    ensures
        text::text_before(a, b) <==> exists|k: int| #[trigger] differ_at(a, b, k),
    decreases a.len(),
{
    if b.len() > 0 && a.len() > 0 && a[0] == b[0] {
        let x = a.drop_first();
        let y = b.drop_first();
        law_texts_are_ordered_by_code_points(x, y);
        if text::text_before(a, b) {
            let k = choose|k: int| #[trigger] differ_at(x, y, k);
            assert forall|i: int| 0 <= i < k + 1 implies #[trigger] a[i] == b[i] by {
                if i > 0 {
                    assert(x[i - 1] == y[i - 1]);
                }
            }
            assert(differ_at(a, b, k + 1));
        }
        if exists|k: int| #[trigger] differ_at(a, b, k) {
            let k = choose|k: int| #[trigger] differ_at(a, b, k);
            assert(k > 0);
            assert forall|i: int| 0 <= i < k - 1 implies #[trigger] x[i] == y[i] by {
                assert(a[i + 1] == b[i + 1]);
            }
            assert(differ_at(x, y, k - 1));
        }
    } else if b.len() > 0 {
        if a.len() > 0 {
            lemma_code_points(a[0], b[0]);
        }
        if text::text_before(a, b) {
            assert(differ_at(a, b, 0));
        }
        if exists|k: int| #[trigger] differ_at(a, b, k) {
            let k = choose|k: int| #[trigger] differ_at(a, b, k);
            if k > 0 {
                assert(a[0] == b[0]);
            }
        }
    }
}

proof fn lemma_upper_letter(c: char, large: char)
    ensures
        text::ascii_upper(c) == large <==> c == large && !(97 <= c as u32 <= 122) || 65
            <= large as u32 <= 90 && c as u32 == large as u32 + 32,
{
}

/// A word in capitals stands at a place exactly if each character there is the one of the word or its
/// ASCII small letter.
pub proof fn law_words_stand_in_any_case(s: Seq<char>, at: int, word: Seq<char>)
    requires
        forall|i: int| 0 <= i < word.len() ==> !(97 <= (#[trigger] word[i]) as u32 <= 122),
    ensures
        text::spells(s, at, word) <==> 0 <= at && at + word.len() <= s.len() && forall|i: int|
            0 <= i < word.len() ==> s[at + i] == #[trigger] word[i] || 65 <= word[i] as u32 <= 90
                && s[at + i] as u32 == word[i] as u32 + 32,
{
    assert forall|i: int| 0 <= i < word.len() implies (text::ascii_upper(s[at + i])
        == #[trigger] word[i] <==> s[at + i] == word[i] || 65 <= word[i] as u32 <= 90 && s[at
        + i] as u32 == word[i] as u32 + 32) by {
        lemma_upper_letter(s[at + i], word[i]);
    }
}

/// The entries of a map come in the order of their keys, each key once.
pub proof fn law_entries_come_in_order<V>(list: Seq<Entry<V>>, i: int, j: int)
    requires
        text_map::keys_rise(list),
        0 <= i < j < list.len(),
    ensures
        list[i].key@ != list[j].key@,
        exists|k: int| #[trigger] differ_at(list[i].key@, list[j].key@, k),
{
    assert(text::text_before(list[i].key@, list[j].key@));
    text::lemma_order_strict(list[i].key@, list[j].key@);
    law_texts_are_ordered_by_code_points(list[i].key@, list[j].key@);
}

} // verus!
