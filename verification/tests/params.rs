use nodedb_control::session::params::{
    is_known_pg_runtime_parameter, is_known_settable_runtime_parameter, parse_set_command,
    parse_show_command, KNOWN_PG_RUNTIME_PARAMETERS, SETTABLE_RUNTIME_PARAMETERS,
};
use nodedb_control::session::store::{PeerAddr, SessionStore};

#[test]
fn parse_set_equals() {
    let (k, v) = parse_set_command("SET client_encoding = 'UTF8'").unwrap();
    assert_eq!(k, "client_encoding");
    assert_eq!(v, "UTF8");
}

#[test]
fn parse_set_to() {
    let (k, v) = parse_set_command("SET search_path TO public").unwrap();
    assert_eq!(k, "search_path");
    assert_eq!(v, "public");
}

#[test]
fn parse_set_session() {
    let (k, v) = parse_set_command("SET SESSION nodedb.consistency = 'eventual'").unwrap();
    assert_eq!(k, "nodedb.consistency");
    assert_eq!(v, "eventual");
}

#[test]
fn parse_set_nodedb_tenant() {
    let (k, v) = parse_set_command("SET nodedb.tenant_id = 5").unwrap();
    assert_eq!(k, "nodedb.tenant_id");
    assert_eq!(v, "5");
}

#[test]
fn parse_set_time_zone() {
    let (k, v) = parse_set_command("SET TIME ZONE 'UTC'").unwrap();
    assert_eq!(k, "timezone");
    assert_eq!(v, "UTC");

    let (k, v) = parse_set_command("SET SESSION TIME ZONE DEFAULT").unwrap();
    assert_eq!(k, "timezone");
    assert_eq!(v, "DEFAULT");

    let (k, v) = parse_set_command("set time zone 'Asia/Kuala_Lumpur'").unwrap();
    assert_eq!(k, "timezone");
    assert_eq!(v, "Asia/Kuala_Lumpur");

    assert_eq!(parse_set_command("SET TIME ZONE "), None);
}

#[test]
fn parse_show() {
    assert_eq!(
        parse_show_command("SHOW client_encoding"),
        Some("client_encoding".into())
    );
    assert_eq!(parse_show_command("SHOW ALL"), Some("all".into()));
    assert_eq!(parse_show_command("SHOW"), None);
}

fn pair(k: &str, v: &str) -> Option<(String, String)> {
    Some((k.to_string(), v.to_string()))
}

#[test]
fn session_and_local_make_no_difference() {
    for body in ["a = 1", "a TO 1", "TIME ZONE 'UTC'", "no separator", "= 3", " Key =  \"v\" "] {
        let plain = parse_set_command(&format!("SET {body}"));
        assert_eq!(parse_set_command(&format!("SET SESSION {body}")), plain);
        assert_eq!(parse_set_command(&format!("set local {body}")), plain);
    }
}

#[test]
fn time_zone_sets_timezone() {
    for value in ["'UTC'", "'a=b'", "é = 1", "  ", "", "x TO y", "= 2"] {
        assert_eq!(
            parse_set_command(&format!("SET TIME ZONE {value}")),
            parse_set_command(&format!("SET timezone TO {value}"))
        );
    }
    assert_eq!(parse_set_command("SET timezone TO 'a=b'"), pair("timezone", "a=b"));
    assert_eq!(parse_set_command("SET TIME ZONE a=b"), pair("timezone", "a=b"));
}

#[test]
fn the_first_separator_cuts() {
    assert_eq!(parse_set_command("SET a = b TO c"), pair("a", "b TO c"));
    assert_eq!(parse_set_command("SET a to b = c"), pair("a", "b = c"));
    assert_eq!(parse_set_command("SET a TO b TO c"), pair("a", "b TO c"));
    assert_eq!(parse_set_command("SET a=b=c"), pair("a", "b=c"));
}

#[test]
fn show_takes_any_case_and_white_space() {
    for sql in ["SHOW TimeZone", "  show timezone\n", "\u{a0}Show   TIMEZONE\t"] {
        assert_eq!(parse_show_command(sql), Some("timezone".to_string()));
    }
    assert_eq!(parse_set_command("\n SET a = 1 \u{2003}"), pair("a", "1"));
}

#[test]
fn set_edge_cases() {
    assert_eq!(parse_set_command("SET a ="), pair("a", ""));
    assert_eq!(parse_set_command("SET a TO"), None);
    assert_eq!(parse_set_command("SET = 1"), None);
    assert_eq!(parse_set_command("SELECT 1"), None);
    assert_eq!(parse_set_command("SET"), None);
    assert_eq!(parse_set_command("  SET  A_B = \"'x'\"  "), pair("a_b", "'x'"));
    assert_eq!(parse_set_command("SET a = ''x''"), pair("a", "x"));
    assert_eq!(parse_set_command("SET session = 1"), None);
    assert_eq!(parse_set_command("SET LOCAL a to 2"), pair("a", "2"));
}

#[test]
fn capitals_and_small_letters_are_unicode() {
    assert_eq!(parse_set_command("SET ÄPFEL = 1"), pair("äpfel", "1"));
    assert_eq!(parse_show_command("show ÄPFEL"), Some("äpfel".to_string()));
}

#[test]
fn every_text_has_an_answer() {
    // The capitals of these take fewer bytes than they do.
    assert_eq!(parse_set_command("SET \u{131} TO x"), pair("\u{131}", "x"));
    assert_eq!(parse_set_command("SET \u{131}\u{131} TO x"), pair("\u{131}\u{131}", "x"));
    assert_eq!(parse_set_command("SET \u{fb06} TO y"), pair("\u{fb06}", "y"));
    assert_eq!(parse_set_command("SET TIME ZONE \u{131}"), pair("timezone", "\u{131}"));
    assert_eq!(parse_show_command("SHOW \u{131}"), Some("\u{131}".to_string()));
}

#[test]
fn keywords_are_read_in_capitals() {
    assert_eq!(parse_set_command("\u{17f}ET a = 1"), pair("a", "1"));
    assert_eq!(parse_set_command("\u{17f}et local a = 1"), pair("a", "1"));
    assert_eq!(parse_set_command("SET se\u{df}ion a = 1"), pair("a", "1"));
    assert_eq!(parse_set_command("SET sess\u{131}on a = 1"), pair("a", "1"));
    assert_eq!(parse_set_command("SET T\u{131}ME ZONE 'UTC'"), pair("timezone", "UTC"));
    assert_eq!(parse_show_command("\u{17f}how a"), Some("a".to_string()));
    assert_eq!(parse_set_command("\u{df}ET a = 1"), None);
}

#[test]
fn no_other_letter_can_be_in_a_keyword() {
    // The letters outside ASCII whose capitals are ASCII.
    let mut found = String::new();
    for c in '\u{80}'..=char::MAX {
        let capitals: String = c.to_uppercase().collect();
        if capitals.is_ascii() {
            found.push(c);
            for word in ["SET SESSION ", "SET LOCAL ", "SET ", "SHOW ", "TIME ZONE ", " TO "] {
                let read = "\u{df}\u{131}\u{17f}".contains(c);
                assert!(read || !word.contains(&capitals), "{c} in {word}");
            }
        }
    }
    assert_eq!(found, "\u{df}\u{131}\u{17f}\u{fb00}\u{fb01}\u{fb02}\u{fb03}\u{fb04}\u{fb05}\u{fb06}");
}

#[test]
fn parameter_names_are_known_in_any_case() {
    assert!(is_known_pg_runtime_parameter("Application_Name"));
    assert!(is_known_settable_runtime_parameter("TIME ZONE"));
    assert!(is_known_pg_runtime_parameter("server_version"));
    for read_only in [
        "server_version", "server_version_num", "is_superuser", "integer_datetimes",
        "server_encoding", "all",
    ] {
        assert!(is_known_pg_runtime_parameter(read_only));
        assert!(!is_known_settable_runtime_parameter(read_only));
    }
    for write_only in ["tenant", "role", "cross_shard_txn"] {
        assert!(!is_known_pg_runtime_parameter(write_only));
        assert!(is_known_settable_runtime_parameter(write_only));
    }
    assert!(!is_known_pg_runtime_parameter("databases"));
    assert_eq!(KNOWN_PG_RUNTIME_PARAMETERS.len(), 37);
    assert_eq!(SETTABLE_RUNTIME_PARAMETERS.len(), 37);
    for name in SETTABLE_RUNTIME_PARAMETERS {
        assert!(is_known_settable_runtime_parameter(name));
    }
}

#[test]
fn parameters_are_read_back_in_order() {
    let here = PeerAddr::V4 { ip: 0x7f00_0001, port: 5432 };
    let there = PeerAddr::V6 { ip6: 1, port: 5432, flowinfo: 0, scope_id: 0 };
    let mut store = SessionStore::new();
    store.set_parameter(&here, "a".to_string(), "lost".to_string());
    assert_eq!(store.get_parameter(&here, "a"), None);
    assert!(store.all_parameters(&here).is_empty());

    store.open_session(here);
    store.open_session(there);
    for (k, v) in [("b", "2"), ("a", "1"), ("é", "4"), ("ab", "3"), ("B", "0")] {
        store.set_parameter(&here, k.to_string(), v.to_string());
    }
    store.set_parameter(&here, "b".to_string(), "22".to_string());
    store.open_session(here);
    let all: Vec<(String, String)> = store.all_parameters(&here);
    let shown: Vec<(&str, &str)> = all.iter().map(|(k, v)| (k.as_str(), v.as_str())).collect();
    assert_eq!(shown, vec![("B", "0"), ("a", "1"), ("ab", "3"), ("b", "22"), ("é", "4")]);
    assert_eq!(store.get_parameter(&here, "b"), Some("22".to_string()));
    assert_eq!(store.get_parameter(&there, "b"), None);
    assert!(store.all_parameters(&there).is_empty());
}
