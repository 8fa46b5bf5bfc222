//! What the parameter commands say, and which names they may use.

use vstd::prelude::*;

use super::params;
use super::store;
use super::store::{Parameters, PeerAddr};
use crate::text;
use crate::text_laws;

verus! {

/// Whether the first `n` characters of a command are the keyword `word`, in any case.
pub open spec fn begins(command: Seq<char>, word: Seq<char>, n: int) -> bool {
    0 <= n <= command.len() && text_laws::all_large(command.subrange(0, n)) == word
}

/// Whether a command begins with the keyword `word`, in any case.
pub open spec fn has_keyword(command: Seq<char>, word: Seq<char>) -> bool {
    exists|n: int| #[trigger] begins(command, word, n)
}

proof fn lemma_begins(command: Seq<char>, word: Seq<char>)
    ensures
        forall|n: int| #[trigger] begins(command, word, n) <==> text::spelled(command, 0, word) == Some(n),
        has_keyword(command, word) <==> text::spelled(command, 0, word) is Some,
{
    assert forall|n: int| #[trigger] begins(command, word, n) <==> text::spelled(command, 0, word)
        == Some(n) by {
        text_laws::law_keywords_are_spelled_in_any_case(command, 0, word, n);
    }
    if text::spelled(command, 0, word) is Some {
        assert(begins(command, word, text::spelled(command, 0, word)->0));
    }
}

/// What a command sets is what follows its keywords, `SET SESSION`, `SET LOCAL` or `SET`, the first of
/// these that it begins with, without the white space around it. A command that begins with none of
/// them sets nothing.
pub proof fn law_what_follows_set_is_assigned(sql: Seq<char>, n: int)
    ensures
        ({
            let command = text::trimmed(sql);
            let rest = text::trimmed(command.skip(n));
            &&& begins(command, "SET SESSION "@, n) ==> params::set_command(sql)
                == params::assignment(rest)
            &&& begins(command, "SET LOCAL "@, n) && !has_keyword(command, "SET SESSION "@)
                ==> params::set_command(sql) == params::assignment(rest)
            &&& begins(command, "SET "@, n) && !has_keyword(command, "SET SESSION "@)
                && !has_keyword(command, "SET LOCAL "@) ==> params::set_command(sql)
                == params::assignment(rest)
            &&& !has_keyword(command, "SET SESSION "@) && !has_keyword(command, "SET LOCAL "@)
                && !has_keyword(command, "SET "@) ==> params::set_command(sql) is None
        }),
{
    let command = text::trimmed(sql);
    lemma_begins(command, "SET SESSION "@);
    lemma_begins(command, "SET LOCAL "@);
    lemma_begins(command, "SET "@);
}

/// A command asks for what follows `SHOW`, without the white space around it, unless that is blank. A
/// command that does not begin with `SHOW` asks for nothing.
pub proof fn law_what_follows_show_is_asked_for(sql: Seq<char>, n: int)
    ensures
        ({
            let command = text::trimmed(sql);
            let name = text::trimmed(command.skip(n));
            &&& begins(command, "SHOW "@, n) && name.len() > 0 ==> params::show_command(sql) == Some(
                name,
            )
            &&& begins(command, "SHOW "@, n) && name.len() == 0 ==> params::show_command(sql) is None
            &&& !has_keyword(command, "SHOW "@) ==> params::show_command(sql) is None
        }),
{
    lemma_begins(text::trimmed(sql), "SHOW "@);
}

/// Whether a separator of `len` characters stands at `at`: `=`, or ` TO ` in capitals or small letters.
pub open spec fn is_separator(rest: Seq<char>, at: int, len: int) -> bool {
    &&& 0 <= at
    &&& at + len <= rest.len()
    &&& len == 1 && rest[at] == '=' || len == 4 && rest[at] == ' ' && (rest[at + 1] == 'T' || rest[at
        + 1] == 't') && (rest[at + 2] == 'O' || rest[at + 2] == 'o') && rest[at + 3] == ' '
}

/// Whether no separator stands before `at`.
pub open spec fn none_before(rest: Seq<char>, at: int) -> bool {
    forall|j: int, len: int| 0 <= j < at ==> !(#[trigger] is_separator(rest, j, len))
}

proof fn lemma_to(rest: Seq<char>, at: int)
    ensures
        text::spells(rest, at, " TO "@) <==> is_separator(rest, at, 4),
{
    reveal_strlit(" TO ");
    let word = " TO "@;
    if text::spells(rest, at, word) {
        assert(text::ascii_upper(rest[at + 0]) == word[0]);
        assert(text::ascii_upper(rest[at + 1]) == word[1]);
        assert(text::ascii_upper(rest[at + 2]) == word[2]);
        assert(text::ascii_upper(rest[at + 3]) == word[3]);
        lemma_upper(rest[at + 0], ' ');
        lemma_upper(rest[at + 1], 'T');
        lemma_upper(rest[at + 2], 'O');
        lemma_upper(rest[at + 3], ' ');
    }
    if is_separator(rest, at, 4) {
        assert forall|i: int| 0 <= i < word.len() implies text::ascii_upper(rest[at + i])
            == #[trigger] word[i] by {
            lemma_upper(rest[at + i], word[i]);
        }
    }
}

proof fn lemma_upper(c: char, large: char)
    requires
        large == ' ' || large == 'T' || large == 'O',
    ensures
        text::ascii_upper(c) == large <==> c == large || large != ' ' && (c as u32) == (large as u32)
            + 32,
{
}

proof fn lemma_separator(rest: Seq<char>, from: int)
    requires
        0 <= from,
        none_before(rest, from),
    ensures
        match params::separator(rest, from) {
            Some((at, len)) => is_separator(rest, at, len) && none_before(rest, at),
            None => none_before(rest, rest.len() as int),
        },
    decreases rest.len() - from,
{
    if from < rest.len() {
        lemma_to(rest, from);
        if rest[from] != '=' && !text::spells(rest, from, " TO "@) {
            lemma_separator(rest, from + 1);
        }
    }
}

/// The separator that comes first counts, whichever it is.
pub proof fn law_the_first_separator_counts(rest: Seq<char>, at: int, len: int)
    ensures
        is_separator(rest, at, len) && none_before(rest, at) ==> params::separator(rest, 0) == Some(
            (at, len),
        ),
        none_before(rest, rest.len() as int) ==> params::separator(rest, 0) is None,
{
    lemma_separator(rest, 0);
    if is_separator(rest, at, len) && none_before(rest, at) {
        match params::separator(rest, 0) {
            Some((i, l)) => {
                assert(is_separator(rest, i, l));
                assert(i == at);
            },
            None => {
                assert(is_separator(rest, at, len));
            },
        }
    }
    match params::separator(rest, 0) {
        Some((i, l)) => {
            if none_before(rest, rest.len() as int) {
                assert(is_separator(rest, i, l));
            }
        },
        None => {},
    }
}

/// What stands left of the first separator is the key, and what stands right of it, without the quotes
/// around it, the value, both without the white space around them. Without a key, or without a
/// separator, nothing is assigned.
pub proof fn law_what_is_assigned(rest: Seq<char>, at: int, len: int)
    requires
        !has_keyword(rest, "TIME ZONE "@),
    ensures
        is_separator(rest, at, len) && none_before(rest, at) ==> params::assignment(rest) == (
        if text::trimmed(rest.subrange(0, at)).len() == 0 {
            None
        } else {
            Some(
                (
                    text::trimmed(rest.subrange(0, at)),
                    params::unquoted(
                        text::trimmed(rest.subrange(at + len, rest.len() as int)),
                    ),
                ),
            )
        }),
        none_before(rest, rest.len() as int) ==> params::assignment(rest) is None,
{
    lemma_begins(rest, "TIME ZONE "@);
    law_the_first_separator_counts(rest, at, len);
    if is_separator(rest, at, len) && none_before(rest, at) {
        assert(rest.take(at) =~= rest.subrange(0, at));
        assert(rest.skip(at + len) =~= rest.subrange(at + len, rest.len() as int));
    }
}

/// `TIME ZONE`, in any case, assigns what follows to `timezone`, unless that is blank.
pub proof fn law_time_zones_are_assigned(rest: Seq<char>, n: int)
    requires
        begins(rest, "TIME ZONE "@, n),
    ensures
        params::assignment(rest) == (if text::trimmed(rest.skip(n)).len() == 0 {
            None
        } else {
            Some(("timezone"@, params::unquoted(text::trimmed(rest.skip(n)))))
        }),
{
    lemma_begins(rest, "TIME ZONE "@);
}

/// Whether `u` is `value` without the single quotes around it and then without the double ones.
pub open spec fn is_unquoted(value: Seq<char>, u: Seq<char>) -> bool {
    exists|t: Seq<char>, a: int, b: int, c: int, d: int|
        #[trigger] text_laws::is_cut(value, t, text_laws::this('\''), a, b)
            && #[trigger] text_laws::is_cut(t, u, text_laws::this('"'), c, d)
}

/// A value loses the single quotes around it, all of them, and then the double ones.
pub proof fn law_values_lose_their_quotes(value: Seq<char>)
    ensures
        is_unquoted(value, params::unquoted(value)),
{
    let t = text::stripped(value, '\'');
    text_laws::law_stripping_takes_marks_away(value, '\'');
    text_laws::law_stripping_takes_marks_away(t, '"');
    let (a, b) = choose|a: int, b: int| #[trigger]
        text_laws::is_cut(value, t, text_laws::this('\''), a, b);
    let (c, d) = choose|c: int, d: int| #[trigger]
        text_laws::is_cut(t, params::unquoted(value), text_laws::this('"'), c, d);
    assert(text_laws::is_cut(value, t, text_laws::this('\''), a, b));
    assert(text_laws::is_cut(t, params::unquoted(value), text_laws::this('"'), c, d));
}

proof fn lemma_ascii(c: char)
    ensures
        '\0' <= c <= '\u{7f}' <==> c as u32 <= 127,
{
}

/// A name in small letters: of ASCII text, each capital becomes its small letter and nothing else
/// changes.
pub proof fn law_names_are_kept_in_small_letters(small: Seq<char>, name: Seq<char>)
    requires
        params::is_lowered(small, name),
        forall|i: int| 0 <= i < name.len() ==> (#[trigger] name[i]) as u32 <= 127,
    ensures
        small.len() == name.len(),
        forall|i: int|
            0 <= i < name.len() ==> if 65 <= name[i] as u32 <= 90 {
                #[trigger] small[i] as u32 == name[i] as u32 + 32
            } else {
                small[i] == name[i]
            },
{
    assert(text::ascii(name)) by {
        assert forall|i: int| 0 <= i < name.len() implies '\0' <= #[trigger] name[i] <= '\u{7f}' by {
            lemma_ascii(name[i]);
        }
    }
    text_laws::law_small_letters(name);
    assert forall|i: int| 0 <= i < name.len() implies if 65 <= name[i] as u32 <= 90 {
        #[trigger] small[i] as u32 == name[i] as u32 + 32
    } else {
        small[i] == name[i]
    } by {
        assert(text::ascii_lowered(name)[i] == small[i]);
    }
}

/// Whether two names are the same in capitals and small letters.
pub open spec fn same_word(a: Seq<char>, b: Seq<char>) -> bool {
    text::ascii_lowered(b) == text::ascii_lowered(a)
}

/// The names that `SET` accepts.
pub open spec fn may_be_set(name: Seq<char>) -> bool {
    ||| same_word(name, "application_name"@)
    ||| same_word(name, "client_encoding"@)
    ||| same_word(name, "client_min_messages"@)
    ||| same_word(name, "datestyle"@)
    ||| same_word(name, "default_transaction_isolation"@)
    ||| same_word(name, "default_transaction_read_only"@)
    ||| same_word(name, "extra_float_digits"@)
    ||| same_word(name, "intervalstyle"@)
    ||| same_word(name, "lc_collate"@)
    ||| same_word(name, "lc_ctype"@)
    ||| same_word(name, "lc_messages"@)
    ||| same_word(name, "lc_monetary"@)
    ||| same_word(name, "lc_numeric"@)
    ||| same_word(name, "lc_time"@)
    ||| same_word(name, "search_path"@)
    ||| same_word(name, "standard_conforming_strings"@)
    ||| same_word(name, "statement_timeout"@)
    ||| same_word(name, "timezone"@)
    ||| same_word(name, "time zone"@)
    ||| same_word(name, "transaction_isolation"@)
    ||| same_word(name, "transaction_read_only"@)
    ||| same_word(name, "rounding_mode"@)
    ||| same_word(name, "tenant"@)
    ||| same_word(name, "role"@)
    ||| same_word(name, "session_authorization"@)
    ||| same_word(name, "nodedb.consistency"@)
    ||| same_word(name, "nodedb.read_consistency"@)
    ||| same_word(name, "nodedb.cross_shard_mode"@)
    ||| same_word(name, "nodedb.tenant_id"@)
    ||| same_word(name, "nodedb.auth_session"@)
    ||| same_word(name, "nodedb.force_shuffle_join"@)
    ||| same_word(name, "nodedb.shuffle_num_parts"@)
    ||| same_word(name, "nodedb.force_shuffle_agg"@)
    ||| same_word(name, "nodedb.shuffle_agg_num_parts"@)
    ||| same_word(name, "nodedb.broadcast_threshold_bytes"@)
    ||| same_word(name, "nodedb.shuffle_agg_threshold"@)
    ||| same_word(name, "cross_shard_txn"@)
}

/// The names that `SHOW` knows.
pub open spec fn may_be_shown(name: Seq<char>) -> bool {
    ||| same_word(name, "all"@)
    ||| same_word(name, "application_name"@)
    ||| same_word(name, "client_encoding"@)
    ||| same_word(name, "client_min_messages"@)
    ||| same_word(name, "datestyle"@)
    ||| same_word(name, "default_transaction_isolation"@)
    ||| same_word(name, "default_transaction_read_only"@)
    ||| same_word(name, "extra_float_digits"@)
    ||| same_word(name, "integer_datetimes"@)
    ||| same_word(name, "intervalstyle"@)
    ||| same_word(name, "is_superuser"@)
    ||| same_word(name, "lc_collate"@)
    ||| same_word(name, "lc_ctype"@)
    ||| same_word(name, "lc_messages"@)
    ||| same_word(name, "lc_monetary"@)
    ||| same_word(name, "lc_numeric"@)
    ||| same_word(name, "lc_time"@)
    ||| same_word(name, "server_encoding"@)
    ||| same_word(name, "server_version"@)
    ||| same_word(name, "server_version_num"@)
    ||| same_word(name, "search_path"@)
    ||| same_word(name, "session_authorization"@)
    ||| same_word(name, "standard_conforming_strings"@)
    ||| same_word(name, "statement_timeout"@)
    ||| same_word(name, "timezone"@)
    ||| same_word(name, "time zone"@)
    ||| same_word(name, "transaction_isolation"@)
    ||| same_word(name, "transaction_read_only"@)
    ||| same_word(name, "nodedb.consistency"@)
    ||| same_word(name, "nodedb.tenant_id"@)
    ||| same_word(name, "nodedb.force_shuffle_join"@)
    ||| same_word(name, "nodedb.shuffle_num_parts"@)
    ||| same_word(name, "nodedb.force_shuffle_agg"@)
    ||| same_word(name, "nodedb.shuffle_agg_num_parts"@)
    ||| same_word(name, "nodedb.broadcast_threshold_bytes"@)
    ||| same_word(name, "nodedb.shuffle_agg_threshold"@)
    ||| same_word(name, "rounding_mode"@)
}

/// `SET` accepts these names, in capitals or small letters, and no others.
pub proof fn law_which_names_may_be_set(name: Seq<char>)
    ensures
        params::names_parameter(params::SETTABLE_RUNTIME_PARAMETERS@, name) <==> may_be_set(name),
{
    let names = params::SETTABLE_RUNTIME_PARAMETERS@;
    assert(names.len() == 37);
    assert(names[0]@ == "application_name"@);
    assert(names[1]@ == "client_encoding"@);
    assert(names[2]@ == "client_min_messages"@);
    assert(names[3]@ == "datestyle"@);
    assert(names[4]@ == "default_transaction_isolation"@);
    assert(names[5]@ == "default_transaction_read_only"@);
    assert(names[6]@ == "extra_float_digits"@);
    assert(names[7]@ == "intervalstyle"@);
    assert(names[8]@ == "lc_collate"@);
    assert(names[9]@ == "lc_ctype"@);
    assert(names[10]@ == "lc_messages"@);
    assert(names[11]@ == "lc_monetary"@);
    assert(names[12]@ == "lc_numeric"@);
    assert(names[13]@ == "lc_time"@);
    assert(names[14]@ == "search_path"@);
    assert(names[15]@ == "standard_conforming_strings"@);
    assert(names[16]@ == "statement_timeout"@);
    assert(names[17]@ == "timezone"@);
    assert(names[18]@ == "time zone"@);
    assert(names[19]@ == "transaction_isolation"@);
    assert(names[20]@ == "transaction_read_only"@);
    assert(names[21]@ == "rounding_mode"@);
    assert(names[22]@ == "tenant"@);
    assert(names[23]@ == "role"@);
    assert(names[24]@ == "session_authorization"@);
    assert(names[25]@ == "nodedb.consistency"@);
    assert(names[26]@ == "nodedb.read_consistency"@);
    assert(names[27]@ == "nodedb.cross_shard_mode"@);
    assert(names[28]@ == "nodedb.tenant_id"@);
    assert(names[29]@ == "nodedb.auth_session"@);
    assert(names[30]@ == "nodedb.force_shuffle_join"@);
    assert(names[31]@ == "nodedb.shuffle_num_parts"@);
    assert(names[32]@ == "nodedb.force_shuffle_agg"@);
    assert(names[33]@ == "nodedb.shuffle_agg_num_parts"@);
    assert(names[34]@ == "nodedb.broadcast_threshold_bytes"@);
    assert(names[35]@ == "nodedb.shuffle_agg_threshold"@);
    assert(names[36]@ == "cross_shard_txn"@);
}

/// `SHOW` knows these names, in capitals or small letters, and no others.
pub proof fn law_which_names_may_be_shown(name: Seq<char>)
    ensures
        params::names_parameter(params::KNOWN_PG_RUNTIME_PARAMETERS@, name) <==> may_be_shown(name),
{
    let names = params::KNOWN_PG_RUNTIME_PARAMETERS@;
    assert(names.len() == 37);
    assert(names[0]@ == "all"@);
    assert(names[1]@ == "application_name"@);
    assert(names[2]@ == "client_encoding"@);
    assert(names[3]@ == "client_min_messages"@);
    assert(names[4]@ == "datestyle"@);
    assert(names[5]@ == "default_transaction_isolation"@);
    assert(names[6]@ == "default_transaction_read_only"@);
    assert(names[7]@ == "extra_float_digits"@);
    assert(names[8]@ == "integer_datetimes"@);
    assert(names[9]@ == "intervalstyle"@);
    assert(names[10]@ == "is_superuser"@);
    assert(names[11]@ == "lc_collate"@);
    assert(names[12]@ == "lc_ctype"@);
    assert(names[13]@ == "lc_messages"@);
    assert(names[14]@ == "lc_monetary"@);
    assert(names[15]@ == "lc_numeric"@);
    assert(names[16]@ == "lc_time"@);
    assert(names[17]@ == "server_encoding"@);
    assert(names[18]@ == "server_version"@);
    assert(names[19]@ == "server_version_num"@);
    assert(names[20]@ == "search_path"@);
    assert(names[21]@ == "session_authorization"@);
    assert(names[22]@ == "standard_conforming_strings"@);
    assert(names[23]@ == "statement_timeout"@);
    assert(names[24]@ == "timezone"@);
    assert(names[25]@ == "time zone"@);
    assert(names[26]@ == "transaction_isolation"@);
    assert(names[27]@ == "transaction_read_only"@);
    assert(names[28]@ == "nodedb.consistency"@);
    assert(names[29]@ == "nodedb.tenant_id"@);
    assert(names[30]@ == "nodedb.force_shuffle_join"@);
    assert(names[31]@ == "nodedb.shuffle_num_parts"@);
    assert(names[32]@ == "nodedb.force_shuffle_agg"@);
    assert(names[33]@ == "nodedb.shuffle_agg_num_parts"@);
    assert(names[34]@ == "nodedb.broadcast_threshold_bytes"@);
    assert(names[35]@ == "nodedb.shuffle_agg_threshold"@);
    assert(names[36]@ == "rounding_mode"@);
}

/// A parameter is read where the session is open and has set it, and nowhere else. Setting one without
/// a session changes nothing.
pub proof fn law_where_parameters_are_read(
    sessions: Map<PeerAddr, Parameters>,
    addr: PeerAddr,
    key: Seq<char>,
    value: String,
)
    ensures
        store::parameter(sessions, addr, key) == (if sessions.contains_key(addr)
            && sessions[addr].contains_key(key) {
            Some(sessions[addr][key])
        } else {
            None
        }),
        !sessions.contains_key(addr) ==> store::with_parameter(sessions, addr, key, value)
            == sessions,
        sessions.contains_key(addr) ==> store::with_parameter(sessions, addr, key, value).dom()
            == sessions.dom(),
{
    if sessions.contains_key(addr) {
        assert(store::with_parameter(sessions, addr, key, value).dom() =~= sessions.dom());
    }
}

/// Whether `a` and `b` differ, and `a` ends or has the smaller code point where they do.
pub open spec fn is_before(a: Seq<char>, b: Seq<char>) -> bool {
    a != b && exists|k: int| #[trigger] text_laws::differ_at(a, b, k)
}

/// The list of the parameters of a session holds each of them once, with its value, in the order of
/// their names.
pub proof fn law_all_parameters_are_listed_in_order(
    list: Seq<(String, String)>,
    parameters: Parameters,
    key: Seq<char>,
)
    requires
        store::pairs_rise(list),
        store::pairs_of(list) == parameters,
    ensures
        parameters.contains_key(key) <==> exists|i: int|
            0 <= i < list.len() && (#[trigger] list[i]).0@ == key,
        forall|i: int|
            0 <= i < list.len() ==> parameters.contains_key((#[trigger] list[i]).0@)
                && parameters[list[i].0@] == list[i].1,
        forall|i: int, j: int|
            0 <= i < j < list.len() ==> is_before((#[trigger] list[i]).0@, (#[trigger] list[j]).0@),
{
    lemma_pairs(list);
    if parameters.contains_key(key) {
        let i = choose|i: int| 0 <= i < list.len() && (#[trigger] list[i]).0@ == key;
        assert(list[i].0@ == key);
    }
    assert forall|i: int, j: int| 0 <= i < j < list.len() implies is_before(
        (#[trigger] list[i]).0@,
        (#[trigger] list[j]).0@,
    ) by {
        assert(text::text_before(list[i].0@, list[j].0@));
        text::lemma_order_strict(list[i].0@, list[j].0@);
        text_laws::law_texts_are_ordered_by_code_points(list[i].0@, list[j].0@);
    }
}

proof fn lemma_pairs(list: Seq<(String, String)>)
    requires
        store::pairs_rise(list),
    ensures
        forall|key: Seq<char>| #[trigger]
            store::pairs_of(list).contains_key(key) ==> exists|i: int|
                0 <= i < list.len() && (#[trigger] list[i]).0@ == key,
        forall|i: int|
            0 <= i < list.len() ==> store::pairs_of(list).contains_key((#[trigger] list[i]).0@)
                && store::pairs_of(list)[list[i].0@] == list[i].1,
    decreases list.len(),
{
    if list.len() > 0 {
        let rest = list.drop_last();
        let n = list.len() - 1;
        assert(list[n] == list.last());
        assert(store::pairs_rise(rest)) by {
            assert forall|i: int, j: int| 0 <= i < j < rest.len() implies text::text_before(
                (#[trigger] rest[i]).0@,
                (#[trigger] rest[j]).0@,
            ) by {
                assert(rest[i] == list[i] && rest[j] == list[j]);
            }
        }
        lemma_pairs(rest);
        assert forall|key: Seq<char>| #[trigger]
            store::pairs_of(list).contains_key(key) implies exists|i: int|
            0 <= i < list.len() && (#[trigger] list[i]).0@ == key by {
            if key == list[n].0@ {
            } else {
                assert(store::pairs_of(rest).contains_key(key));
                let i = choose|i: int| 0 <= i < rest.len() && (#[trigger] rest[i]).0@ == key;
                assert(list[i].0@ == key);
            }
        }
        assert forall|i: int| 0 <= i < list.len() implies store::pairs_of(list).contains_key(
            (#[trigger] list[i]).0@,
        ) && store::pairs_of(list)[list[i].0@] == list[i].1 by {
            if i < n {
                assert(rest[i] == list[i]);
                text::lemma_order_strict(list[i].0@, list[n].0@);
                assert(text::text_before(list[i].0@, list[n].0@));
            }
        }
    }
}

} // verus!
