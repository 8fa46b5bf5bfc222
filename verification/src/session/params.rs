//! The commands that read and write session parameters, and the names they may use.

use vstd::prelude::*;

use super::laws;
use crate::text;

verus! {

/// Runtime parameters that `SHOW <name>` resolves as session parameters. Any other `SHOW` is an
/// administrative command, unless the session has set a parameter of that name.
pub const KNOWN_PG_RUNTIME_PARAMETERS: [&'static str; 37] = [
    "all",
    "application_name",
    "client_encoding",
    "client_min_messages",
    "datestyle",
    "default_transaction_isolation",
    "default_transaction_read_only",
    "extra_float_digits",
    "integer_datetimes",
    "intervalstyle",
    "is_superuser",
    "lc_collate",
    "lc_ctype",
    "lc_messages",
    "lc_monetary",
    "lc_numeric",
    "lc_time",
    "server_encoding",
    "server_version",
    "server_version_num",
    "search_path",
    "session_authorization",
    "standard_conforming_strings",
    "statement_timeout",
    "timezone",
    "time zone",
    "transaction_isolation",
    "transaction_read_only",
    "nodedb.consistency",
    "nodedb.tenant_id",
    "nodedb.force_shuffle_join",
    "nodedb.shuffle_num_parts",
    "nodedb.force_shuffle_agg",
    "nodedb.shuffle_agg_num_parts",
    "nodedb.broadcast_threshold_bytes",
    "nodedb.shuffle_agg_threshold",
    "rounding_mode",
];

/// Runtime parameters that `SET <name>` accepts. Leaves out what only the server decides, such as
/// its version, and holds the identity and security keys that have a handling of their own.
pub const SETTABLE_RUNTIME_PARAMETERS: [&'static str; 37] = [
    "application_name",
    "client_encoding",
    "client_min_messages",
    "datestyle",
    "default_transaction_isolation",
    "default_transaction_read_only",
    "extra_float_digits",
    "intervalstyle",
    "lc_collate",
    "lc_ctype",
    "lc_messages",
    "lc_monetary",
    "lc_numeric",
    "lc_time",
    "search_path",
    "standard_conforming_strings",
    "statement_timeout",
    "timezone",
    "time zone",
    "transaction_isolation",
    "transaction_read_only",
    "rounding_mode",
    "tenant",
    "role",
    "session_authorization",
    "nodedb.consistency",
    "nodedb.read_consistency",
    "nodedb.cross_shard_mode",
    "nodedb.tenant_id",
    "nodedb.auth_session",
    "nodedb.force_shuffle_join",
    "nodedb.shuffle_num_parts",
    "nodedb.force_shuffle_agg",
    "nodedb.shuffle_agg_num_parts",
    "nodedb.broadcast_threshold_bytes",
    "nodedb.shuffle_agg_threshold",
    "cross_shard_txn",
];

/// What the right side of an assignment holds once the quotes around it are gone.
pub open spec fn unquoted(value: Seq<char>) -> Seq<char> {
    text::stripped(text::stripped(value, '\''), '"')
}

/// How many characters the keywords at the start of a `SET` command take.
pub open spec fn set_keyword_len(command: Seq<char>) -> Option<int> {
    if text::spelled(command, 0, "SET SESSION "@) is Some {
        text::spelled(command, 0, "SET SESSION "@)
    } else if text::spelled(command, 0, "SET LOCAL "@) is Some {
        text::spelled(command, 0, "SET LOCAL "@)
    } else {
        text::spelled(command, 0, "SET "@)
    }
}

/// The place and the length of the first separator in `rest` from `from` on: `=` or ` TO `.
pub open spec fn separator(rest: Seq<char>, from: int) -> Option<(int, int)>
    decreases rest.len() - from,
{
    if from < 0 || from >= rest.len() {
        None
    } else if rest[from] == '=' {
        Some((from, 1))
    } else if text::spells(rest, from, " TO "@) {
        Some((from, 4))
    } else {
        separator(rest, from + 1)
    }
}

/// The key, as it is written, and the value that `rest` assigns: `TIME ZONE <value>` assigns to
/// `timezone`; otherwise the separator that comes first stands between a key and a value.
pub open spec fn assignment(rest: Seq<char>) -> Option<(Seq<char>, Seq<char>)> {
    match text::spelled(rest, 0, "TIME ZONE "@) {
        Some(n) => {
            let value = text::trimmed(rest.skip(n));
            if value.len() == 0 {
                None
            } else {
                Some(("timezone"@, unquoted(value)))
            }
        },
        None => match separator(rest, 0) {
            None => None,
            Some((at, len)) => {
                let key = text::trimmed(rest.take(at));
                if key.len() == 0 {
                    None
                } else {
                    Some((key, unquoted(text::trimmed(rest.skip(at + len)))))
                }
            },
        },
    }
}

/// The key, as it is written, and the value that the command `sql` sets.
pub open spec fn set_command(sql: Seq<char>) -> Option<(Seq<char>, Seq<char>)> {
    let command = text::trimmed(sql);
    match set_keyword_len(command) {
        None => None,
        Some(n) => assignment(text::trimmed(command.skip(n))),
    }
}

/// The parameter, as it is written, that the command `sql` asks for.
pub open spec fn show_command(sql: Seq<char>) -> Option<Seq<char>> {
    let command = text::trimmed(sql);
    match text::spelled(command, 0, "SHOW "@) {
        None => None,
        Some(n) => {
            let name = text::trimmed(command.skip(n));
            if name.len() == 0 {
                None
            } else {
                Some(name)
            }
        },
    }
}

/// Whether `small` is `written` in small letters.
pub open spec fn is_lowered(small: Seq<char>, written: Seq<char>) -> bool {
    &&& small == text::lower_text(written)
    &&& text::ascii(written) ==> small == text::ascii_lowered(written)
}

fn unquote<'a>(value: &'a str) -> (r: &'a str)
    ensures
        r@ == unquoted(value@),
{
    text::trim_matches(text::trim_matches(value, '\''), '"')
}

/// How many characters the keywords at the start of a `SET` command take.
fn set_keyword(command: &Vec<char>) -> (r: Option<usize>)
    ensures
        match r {
            Some(n) => set_keyword_len(command@) == Some(n as int) && n <= command@.len(),
            None => set_keyword_len(command@) is None,
        },
{
    match text::keyword_at_start(command, "SET SESSION ") {
        Some(n) => Some(n),
        None => match text::keyword_at_start(command, "SET LOCAL ") {
            Some(n) => Some(n),
            None => text::keyword_at_start(command, "SET "),
        },
    }
}

/// The place and the length of the first separator in `rest`.
fn find_separator(rest: &Vec<char>) -> (r: Option<(usize, usize)>)
    ensures
        match r {
            Some((at, len)) => separator(rest@, 0) == Some((at as int, len as int)) && at + len
                <= rest@.len() <= usize::MAX,
            None => separator(rest@, 0) is None,
        },
{
    proof {
        reveal_strlit(" TO ");
    }
    let mut i: usize = 0;
    while i < rest.len()
        invariant
            i <= rest@.len(),
            " TO "@.len() == 4,
            separator(rest@, 0) == separator(rest@, i as int),
        decreases rest@.len() - i,
    {
        if rest[i] == '=' {
            return Some((i, 1));
        }
        if text::spells_at(rest, i, " TO ") {
            return Some((i, 4));
        }
        i += 1;
    }
    None
}

/// The text of `s` from character `from` on.
fn text_from<'a>(s: &'a str, from: usize) -> (r: &'a str)
    requires
        from <= s@.len(),
    ensures
        r@ == s@.skip(from as int),
{
    let len = s.unicode_len();
    let r = s.substring_char(from, len);
    assert(r@ =~= s@.skip(from as int));
    r
}

/// Reads what follows the keywords of a `SET` command: the key, as it is written, and the value.
fn parse_assignment(rest: &str) -> (r: Option<(String, String)>)
    ensures
        match r {
            Some((key, value)) => assignment(rest@) == Some((key@, value@)),
            None => assignment(rest@) is None,
        },
{
    let chars = text::chars_of(rest);
    match text::keyword_at_start(&chars, "TIME ZONE ") {
        Some(n) => {
            let value = text::trim(text_from(rest, n));
            if value.is_empty() {
                return None;
            }
            return Some(("timezone".to_owned(), unquote(value).to_owned()));
        },
        None => {},
    }
    match find_separator(&chars) {
        None => None,
        Some((at, len)) => {
            let left = rest.substring_char(0, at);
            assert(left@ =~= rest@.take(at as int));
            let key = text::trim(left);
            if key.is_empty() {
                return None;
            }
            let value = unquote(text::trim(text_from(rest, at + len)));
            Some((key.to_owned(), value.to_owned()))
        },
    }
}

/// Parses `SET [SESSION|LOCAL] key = value`, `SET [SESSION|LOCAL] key TO value` or
/// `SET [SESSION|LOCAL] TIME ZONE value`, which sets `timezone`.
///
/// Returns the key in small letters and the value without quotes, or nothing where `sql` is no such
/// command.
pub fn parse_set_command(sql: &str) -> (r: Option<(String, String)>)
    ensures
        match set_command(sql@) {
            None => r is None,
            Some(set) => r matches Some(pair) && is_lowered(pair.0@, set.0) && pair.1@ == set.1,
        },
{
    let command = text::trim(sql);
    let n = match set_keyword(&text::chars_of(command)) {
        Some(n) => n,
        None => {
            return None;
        },
    };
    match parse_assignment(text::trim(text_from(command, n))) {
        None => None,
        Some((key, value)) => Some((text::to_lowercase(key.as_str()), value)),
    }
}

/// Whether one of `names` is `name`, in capitals or small letters.
fn is_listed(names: &[&'static str], name: &str) -> (r: bool)
    ensures
        r == exists|i: int|
            0 <= i < names@.len() && text::ascii_lowered((#[trigger] names@[i])@)
                == text::ascii_lowered(name@),
{
    let mut i: usize = 0;
    while i < names.len()
        invariant
            i <= names@.len(),
            forall|j: int|
                0 <= j < i ==> text::ascii_lowered((#[trigger] names@[j])@) != text::ascii_lowered(
                    name@,
                ),
        decreases names@.len() - i,
    {
        if text::eq_ignore_ascii_case(names[i], name) {
            return true;
        }
        i += 1;
    }
    false
}

/// Whether `names` holds `name`, in capitals or small letters.
pub open spec fn names_parameter(names: Seq<&'static str>, name: Seq<char>) -> bool {
    exists|i: int|
        0 <= i < names.len() && text::ascii_lowered((#[trigger] names[i])@) == text::ascii_lowered(
            name,
        )
}

/// Whether `name`, in capitals or small letters, is a runtime parameter that `SET` accepts.
pub fn is_known_settable_runtime_parameter(name: &str) -> (r: bool)
    ensures
        r == names_parameter(SETTABLE_RUNTIME_PARAMETERS@, text::lower_text(name@)),
        text::ascii(name@) ==> r == names_parameter(SETTABLE_RUNTIME_PARAMETERS@, name@),
{
    proof {
        laws::lemma_lower_twice(name@);
    }
    let lower = text::to_lowercase(name);
    is_listed(SETTABLE_RUNTIME_PARAMETERS.as_slice(), lower.as_str())
}

/// Whether `name`, in capitals or small letters, is a known runtime parameter.
pub fn is_known_pg_runtime_parameter(name: &str) -> (r: bool)
    ensures
        r == names_parameter(KNOWN_PG_RUNTIME_PARAMETERS@, text::lower_text(name@)),
        text::ascii(name@) ==> r == names_parameter(KNOWN_PG_RUNTIME_PARAMETERS@, name@),
{
    proof {
        laws::lemma_lower_twice(name@);
    }
    let lower = text::to_lowercase(name);
    is_listed(KNOWN_PG_RUNTIME_PARAMETERS.as_slice(), lower.as_str())
}

/// Parses `SHOW <parameter>`.
///
/// Returns the parameter in small letters, `all` for `SHOW ALL`, or nothing where `sql` is no such
/// command.
pub fn parse_show_command(sql: &str) -> (r: Option<String>)
    ensures
        match show_command(sql@) {
            None => r is None,
            Some(name) => r matches Some(shown) && is_lowered(shown@, name),
        },
{
    let command = text::trim(sql);
    let n = match text::keyword_at_start(&text::chars_of(command), "SHOW ") {
        Some(n) => n,
        None => {
            return None;
        },
    };
    let name = text::trim(text_from(command, n));
    if name.is_empty() {
        return None;
    }
    Some(text::to_lowercase(name))
}

} // verus!
