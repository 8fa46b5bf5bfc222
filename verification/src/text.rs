//! Text helpers shared by the parsers and the wire formats.
//!
//! Every contract is stated over the view of a string: its sequence of characters.

use vstd::prelude::*;

verus! {

/// The character that `c` becomes when ASCII capitals are turned into small letters.
pub open spec fn ascii_lower(c: char) -> char {
    if 'A' <= c <= 'Z' {
        ((c as u32) + 32) as char
    } else {
        c
    }
}

/// The character that `c` becomes when ASCII small letters are turned into capitals.
pub open spec fn ascii_upper(c: char) -> char {
    if 'a' <= c <= 'z' {
        ((c as u32) - 32) as char
    } else {
        c
    }
}

/// `s` with its ASCII capitals turned into small letters.
pub open spec fn ascii_lowered(s: Seq<char>) -> Seq<char> {
    s.map_values(|c: char| ascii_lower(c))
}

/// Whether `c` has the Unicode property `White_Space`.
pub open spec fn white(c: char) -> bool {
    ||| '\u{9}' <= c <= '\u{d}'
    ||| c == ' '
    ||| c == '\u{85}'
    ||| c == '\u{a0}'
    ||| c == '\u{1680}'
    ||| '\u{2000}' <= c <= '\u{200a}'
    ||| c == '\u{2028}'
    ||| c == '\u{2029}'
    ||| c == '\u{202f}'
    ||| c == '\u{205f}'
    ||| c == '\u{3000}'
}

/// `s` without the characters at its start that satisfy `p`.
pub open spec fn start_dropped(s: Seq<char>, p: spec_fn(char) -> bool) -> Seq<char>
    decreases s.len(),
{
    if s.len() > 0 && p(s[0]) {
        start_dropped(s.drop_first(), p)
    } else {
        s
    }
}

/// `s` without the characters at its end that satisfy `p`.
pub open spec fn end_dropped(s: Seq<char>, p: spec_fn(char) -> bool) -> Seq<char>
    decreases s.len(),
{
    if s.len() > 0 && p(s.last()) {
        end_dropped(s.drop_last(), p)
    } else {
        s
    }
}

/// The test that white space passes.
pub open spec fn any_white() -> spec_fn(char) -> bool {
    |c: char| white(c)
}

/// `s` without the white space around it.
pub open spec fn trimmed(s: Seq<char>) -> Seq<char> {
    end_dropped(start_dropped(s, any_white()), any_white())
}

/// The test that only `mark` passes.
pub open spec fn only(mark: char) -> spec_fn(char) -> bool {
    |c: char| c == mark
}

/// `s` without any number of `mark` around it.
pub open spec fn stripped(s: Seq<char>, mark: char) -> Seq<char> {
    end_dropped(start_dropped(s, only(mark)), only(mark))
}

/// Whether `word`, which is in capitals, stands in `s` at `at`, in capitals or small letters.
pub open spec fn spells(s: Seq<char>, at: int, word: Seq<char>) -> bool {
    &&& 0 <= at
    &&& at + word.len() <= s.len()
    &&& forall|i: int| 0 <= i < word.len() ==> ascii_upper(s[at + i]) == #[trigger] word[i]
}

/// What `c` is in capitals, as far as a keyword can tell. Of the letters outside ASCII, the dotless
/// i, the long s and the sharp s have capitals that keywords are written in; those of any other are
/// in no keyword, and neither is the letter itself.
pub open spec fn capitals(c: char) -> Seq<char> {
    if c == '\u{131}' {
        seq!['I']
    } else if c == '\u{17f}' {
        seq!['S']
    } else if c == '\u{df}' {
        seq!['S', 'S']
    } else {
        seq![ascii_upper(c)]
    }
}

/// How many characters of `s` from `at` on are the keyword `word`, which is in capitals, when they
/// are turned into capitals.
pub open spec fn spelled(s: Seq<char>, at: int, word: Seq<char>) -> Option<int>
    decreases word.len(),
{
    if word.len() == 0 {
        Some(0)
    } else if at < 0 || at >= s.len() {
        None
    } else if !capitals(s[at]).is_prefix_of(word) {
        None
    } else {
        match spelled(s, at + 1, word.skip(capitals(s[at]).len() as int)) {
            Some(n) => Some(n + 1),
            None => None,
        }
    }
}

/// Whether `a` comes before `b` in the order of strings, which goes by code points.
pub open spec fn text_before(a: Seq<char>, b: Seq<char>) -> bool
    decreases a.len(),
{
    if b.len() == 0 {
        false
    } else if a.len() == 0 {
        true
    } else if a[0] == b[0] {
        text_before(a.drop_first(), b.drop_first())
    } else {
        a[0] < b[0]
    }
}

/// The order of strings is total: of two strings that differ, one comes before the other.
pub proof fn lemma_order_total(a: Seq<char>, b: Seq<char>)
    ensures
        text_before(a, b) || text_before(b, a) || a == b,
    decreases a.len(),
{
    if a.len() == 0 || b.len() == 0 {
        assert(a.len() == 0 && b.len() == 0 ==> a =~= b);
    } else if a[0] == b[0] {
        lemma_order_total(a.drop_first(), b.drop_first());
        if a.drop_first() == b.drop_first() {
            assert(a =~= seq![a[0]] + a.drop_first());
            assert(b =~= seq![b[0]] + b.drop_first());
            assert(a == b);
        }
    }
}

/// No string comes before itself, nor after one that it comes before.
pub proof fn lemma_order_strict(a: Seq<char>, b: Seq<char>)
    ensures
        text_before(a, b) ==> !text_before(b, a),
        !text_before(a, a),
    decreases a.len(),
{
    if a.len() > 0 {
        lemma_order_strict(a.drop_first(), a.drop_first());
        if b.len() > 0 && a[0] == b[0] {
            lemma_order_strict(a.drop_first(), b.drop_first());
        }
    }
}

/// The order of strings is transitive.
pub proof fn lemma_order_transitive(a: Seq<char>, b: Seq<char>, c: Seq<char>)
    requires
        text_before(a, b),
        text_before(b, c),
    ensures
        text_before(a, c),
    decreases a.len(),
{
    if a.len() > 0 && b.len() > 0 && c.len() > 0 && a[0] == b[0] && b[0] == c[0] {
        lemma_order_transitive(a.drop_first(), b.drop_first(), c.drop_first());
    }
}

/// Whether `s` is ASCII text.
pub open spec fn ascii(s: Seq<char>) -> bool {
    vstd::utf8::is_ascii_chars(s)
}

/// What `str::to_lowercase` makes of a text.
pub uninterp spec fn lower_text(s: Seq<char>) -> Seq<char>;

/// Calls `str::to_lowercase`, which maps each character by the Unicode tables. Claims that the
/// result depends on the text alone, and that in ASCII text each capital becomes its small letter
/// and nothing else changes.
#[verifier::external_body]
pub(crate) fn to_lowercase(s: &str) -> (r: String)
    ensures
        r@ == lower_text(s@),
        ascii(s@) ==> r@ == ascii_lowered(s@),
{
    s.to_lowercase()
}

/// The characters of `s`, in order.
pub fn chars_of(s: &str) -> (r: Vec<char>)
    ensures
        r@ == s@,
{
    let mut out: Vec<char> = Vec::new();
    let mut rest = s.chars();
    loop
        invariant
            vstd::std_specs::iter::IteratorSpec::obeys_prophetic_iter_laws(&rest),
            s@ == out@ + vstd::std_specs::iter::IteratorSpec::remaining(&rest),
        decreases s@.len() - out@.len(),
    {
        let ghost before = vstd::std_specs::iter::IteratorSpec::remaining(&rest);
        match rest.next() {
            Some(c) => {
                out.push(c);
                assert(before =~= seq![c] + before.drop_first());
                assert(s@ =~= out@ + before.drop_first());
            },
            None => {
                return out;
            },
        }
    }
}

/// Whether two strings hold the same characters.
pub fn same_text(a: &str, b: &str) -> (r: bool)
    ensures
        r == (a@ == b@),
{
    let x = chars_of(a);
    let y = chars_of(b);
    if x.len() != y.len() {
        return false;
    }
    let mut i: usize = 0;
    while i < x.len()
        invariant
            x@ == a@,
            y@ == b@,
            x@.len() == y@.len(),
            i <= x@.len(),
            forall|j: int| 0 <= j < i ==> x@[j] == y@[j],
        decreases x@.len() - i,
    {
        if x[i] != y[i] {
            return false;
        }
        i += 1;
    }
    assert(a@ =~= b@);
    true
}

/// The code point of a character with its ASCII capitals made small.
fn lower_code(c: char) -> (r: u32)
    ensures
        r == ascii_lower(c) as u32,
{
    let code = c as u32;
    if 65 <= code && code <= 90 {
        code + 32
    } else {
        code
    }
}

/// Whether two strings are the same once their ASCII capitals are turned into small letters.
pub fn eq_ignore_ascii_case(a: &str, b: &str) -> (r: bool)
    ensures
        r == (ascii_lowered(a@) == ascii_lowered(b@)),
{
    let x = chars_of(a);
    let y = chars_of(b);
    let ghost low_x = ascii_lowered(a@);
    let ghost low_y = ascii_lowered(b@);
    if x.len() != y.len() {
        assert(low_x.len() != low_y.len());
        return false;
    }
    let mut i: usize = 0;
    while i < x.len()
        invariant
            x@ == a@,
            y@ == b@,
            low_x == ascii_lowered(a@),
            low_y == ascii_lowered(b@),
            x@.len() == y@.len(),
            i <= x@.len(),
            forall|j: int| 0 <= j < i ==> low_x[j] == low_y[j],
        decreases x@.len() - i,
    {
        assert(low_x[i as int] == ascii_lower(x@[i as int]));
        assert(low_y[i as int] == ascii_lower(y@[i as int]));
        if lower_code(x[i]) != lower_code(y[i]) {
            return false;
        }
        i += 1;
    }
    assert(low_x =~= low_y);
    true
}

/// Whether `s` begins with `prefix`.
pub fn starts_with(s: &str, prefix: &str) -> (r: bool)
    ensures
        r == prefix@.is_prefix_of(s@),
{
    let x = chars_of(s);
    let y = chars_of(prefix);
    if x.len() < y.len() {
        return false;
    }
    let mut i: usize = 0;
    while i < y.len()
        invariant
            x@ == s@,
            y@ == prefix@,
            y@.len() <= x@.len(),
            i <= y@.len(),
            forall|j: int| 0 <= j < i ==> x@[j] == y@[j],
        decreases y@.len() - i,
    {
        if x[i] != y[i] {
            assert(prefix@[i as int] != s@[i as int]);
            return false;
        }
        i += 1;
    }
    assert(prefix@ =~= s@.subrange(0, prefix@.len() as int));
    true
}

/// Whether `c` is white space.
fn is_white(c: char) -> (r: bool)
    ensures
        r == white(c),
{
    let code = c as u32;
    (9 <= code && code <= 13) || code == 0x20 || code == 0x85 || code == 0xa0 || code == 0x1680 || (
    0x2000 <= code && code <= 0x200a) || code == 0x2028 || code == 0x2029 || code == 0x202f || code
        == 0x205f || code == 0x3000
}

/// Whether trimming drops `c`: the mark where there is one, white space where there is none.
fn drops(mark: Option<char>, c: char) -> (r: bool)
    ensures
        r == (match mark {
            Some(m) => c == m,
            None => white(c),
        }),
{
    match mark {
        Some(m) => c == m,
        None => is_white(c),
    }
}

/// `s` without what `mark` says around it.
fn cut_around<'a>(s: &'a str, mark: Option<char>, Ghost(p): Ghost<spec_fn(char) -> bool>) -> (r:
    &'a str)
    requires
        forall|c: char| #[trigger]
            p(c) == (match mark {
                Some(m) => c == m,
                None => white(c),
            }),
    ensures
        r@ == end_dropped(start_dropped(s@, p), p),
{
    let chars = chars_of(s);
    let mut from: usize = 0;
    assert(s@.skip(0) =~= s@);
    while from < chars.len() && drops(mark, chars[from])
        invariant
            chars@ == s@,
            from <= s@.len(),
            forall|c: char| #[trigger]
                p(c) == (match mark {
                    Some(m) => c == m,
                    None => white(c),
                }),
            start_dropped(s@, p) == start_dropped(s@.skip(from as int), p),
        decreases s@.len() - from,
    {
        assert(s@.skip(from as int).drop_first() =~= s@.skip(from as int + 1));
        assert(p(s@[from as int]));
        from += 1;
    }
    let mut to: usize = chars.len();
    let ghost kept = start_dropped(s@, p);
    assert(kept == s@.skip(from as int)) by {
        if from < s@.len() {
            assert(!p(s@[from as int]));
        }
    }
    assert(kept =~= s@.subrange(from as int, to as int));
    while from < to && drops(mark, chars[to - 1])
        invariant
            chars@ == s@,
            from <= to <= s@.len(),
            forall|c: char| #[trigger]
                p(c) == (match mark {
                    Some(m) => c == m,
                    None => white(c),
                }),
            end_dropped(kept, p) == end_dropped(s@.subrange(from as int, to as int), p),
        decreases to,
    {
        assert(s@.subrange(from as int, to as int).drop_last() =~= s@.subrange(
            from as int,
            to as int - 1,
        ));
        assert(p(s@[to as int - 1]));
        to -= 1;
    }
    proof {
        let left = s@.subrange(from as int, to as int);
        if from < to {
            assert(!p(s@[to as int - 1]));
            assert(left.last() == s@[to as int - 1]);
        }
        assert(end_dropped(left, p) == left);
    }
    s.substring_char(from, to)
}

/// `s` without the white space around it.
pub fn trim<'a>(s: &'a str) -> (r: &'a str)
    ensures
        r@ == trimmed(s@),
{
    cut_around(s, None, Ghost(any_white()))
}

/// `s` without any number of `mark` around it.
pub fn trim_matches<'a>(s: &'a str, mark: char) -> (r: &'a str)
    ensures
        r@ == stripped(s@, mark),
{
    cut_around(s, Some(mark), Ghost(only(mark)))
}

/// Whether `letter` is `c` or its ASCII capital.
fn is_upper_of(letter: char, c: char) -> (r: bool)
    ensures
        r == (ascii_upper(c) == letter),
{
    let code = c as u32;
    if 97 <= code && code <= 122 {
        code - 32 == letter as u32
    } else {
        code == letter as u32
    }
}

/// Whether `word`, which is in capitals, stands in `s` at `at`, in capitals or small letters.
pub fn spells_at(s: &Vec<char>, at: usize, word: &str) -> (r: bool)
    ensures
        r == spells(s@, at as int, word@),
{
    let letters = chars_of(word);
    if at > s.len() || letters.len() > s.len() - at {
        return false;
    }
    let mut i: usize = 0;
    while i < letters.len()
        invariant
            letters@ == word@,
            i <= letters@.len(),
            at + letters@.len() <= s@.len() <= usize::MAX,
            forall|j: int| 0 <= j < i ==> ascii_upper(s@[at + j]) == #[trigger] word@[j],
        decreases letters@.len() - i,
    {
        if !is_upper_of(letters[i], s[at + i]) {
            assert(ascii_upper(s@[at + i]) != word@[i as int]);
            return false;
        }
        i += 1;
    }
    true
}

/// How many of `letters` from `at` on are the capitals of `c`.
fn capitals_at(letters: &Vec<char>, at: usize, c: char) -> (r: Option<usize>)
    requires
        at < letters@.len(),
    ensures
        match r {
            Some(n) => capitals(c).is_prefix_of(letters@.skip(at as int)) && n
                == capitals(c).len() && at + n <= letters@.len(),
            None => !capitals(c).is_prefix_of(letters@.skip(at as int)),
        },
{
    let ghost rest = letters@.skip(at as int);
    assert(rest[0] == letters@[at as int]);
    if c == '\u{df}' {
        let both = letters.len() - at >= 2 && letters[at] == 'S' && letters[at + 1] == 'S';
        proof {
            if both {
                assert(capitals(c) =~= rest.subrange(0, 2));
            } else if capitals(c).is_prefix_of(rest) {
                assert(rest[0] == capitals(c)[0]);
                assert(rest[1] == capitals(c)[1]);
            }
        }
        return if both {
            Some(2)
        } else {
            None
        };
    }
    let same = if c == '\u{131}' {
        letters[at] == 'I'
    } else if c == '\u{17f}' {
        letters[at] == 'S'
    } else {
        is_upper_of(letters[at], c)
    };
    proof {
        if same {
            assert(capitals(c) =~= rest.subrange(0, 1));
        } else if capitals(c).is_prefix_of(rest) {
            assert(rest[0] == capitals(c)[0]);
        }
    }
    if same {
        Some(1)
    } else {
        None
    }
}

/// How many characters at the start of `s` are the keyword `word`, which is in capitals, when they
/// are turned into capitals.
pub fn keyword_at_start(s: &Vec<char>, word: &str) -> (r: Option<usize>)
    ensures
        match r {
            Some(n) => spelled(s@, 0, word@) == Some(n as int) && n <= s@.len(),
            None => spelled(s@, 0, word@) is None,
        },
{
    let letters = chars_of(word);
    let mut i: usize = 0;
    let mut k: usize = 0;
    assert(word@.skip(0) =~= word@);
    while k < letters.len()
        invariant
            letters@ == word@,
            i <= s@.len(),
            k <= letters@.len(),
            spelled(s@, 0, word@) == (match spelled(s@, i as int, word@.skip(k as int)) {
                Some(n) => Some(n + i),
                None => None,
            }),
        decreases letters@.len() - k,
    {
        if i >= s.len() {
            return None;
        }
        let c = s[i];
        match capitals_at(&letters, k, c) {
            Some(n) => {
                assert(word@.skip(k as int).skip(n as int) =~= word@.skip(k + n));
                k += n;
            },
            None => {
                return None;
            },
        }
        i += 1;
    }
    Some(i)
}

/// Whether the code point of `c` is the smaller one.
fn is_below(c: char, d: char) -> (r: bool)
    ensures
        r == (c < d),
{
    (c as u32) < (d as u32)
}

/// Whether `a` comes before `b` in the order of strings.
pub fn comes_before(a: &str, b: &str) -> (r: bool)
    ensures
        r == text_before(a@, b@),
{
    let x = chars_of(a);
    let y = chars_of(b);
    let mut i: usize = 0;
    assert(a@.skip(0) =~= a@);
    assert(b@.skip(0) =~= b@);
    while i < x.len() && i < y.len()
        invariant
            x@ == a@,
            y@ == b@,
            i <= x@.len(),
            i <= y@.len(),
            text_before(a@, b@) == text_before(a@.skip(i as int), b@.skip(i as int)),
        decreases x@.len() - i,
    {
        if x[i] != y[i] {
            return is_below(x[i], y[i]);
        }
        assert(a@.skip(i as int).drop_first() =~= a@.skip(i as int + 1));
        assert(b@.skip(i as int).drop_first() =~= b@.skip(i as int + 1));
        i += 1;
    }
    i < y.len()
}

/// The digit that stands for `d`.
pub open spec fn digit(d: nat) -> char {
    (('0' as nat) + d) as char
}

/// `n` in decimal notation.
pub open spec fn decimal(n: nat) -> Seq<char>
    decreases n,
{
    if n < 10 {
        seq![digit(n)]
    } else {
        decimal(n / 10).push(digit(n % 10))
    }
}

fn digit_text(d: u64) -> (r: &'static str)
    requires
        d < 10,
    ensures
        r@ == seq![digit(d as nat)],
{
    proof {
        reveal_strlit("0");
        reveal_strlit("1");
        reveal_strlit("2");
        reveal_strlit("3");
        reveal_strlit("4");
        reveal_strlit("5");
        reveal_strlit("6");
        reveal_strlit("7");
        reveal_strlit("8");
        reveal_strlit("9");
    }
    match d {
        0 => "0",
        1 => "1",
        2 => "2",
        3 => "3",
        4 => "4",
        5 => "5",
        6 => "6",
        7 => "7",
        8 => "8",
        _ => "9",
    }
}

/// `n` in decimal notation.
pub fn decimal_text(n: u64) -> (r: String)
    ensures
        r@ == decimal(n as nat),
    decreases n,
{
    if n < 10 {
        digit_text(n).to_owned()
    } else {
        let last = digit_text(n % 10);
        let r = decimal_text(n / 10).concat(last);
        assert(r@ =~= decimal((n / 10) as nat).push(digit((n % 10) as nat)));
        r
    }
}

} // verus!
