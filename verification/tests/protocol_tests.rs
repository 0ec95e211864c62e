//! Tests of the wire-protocol pieces: tokenizing, TTL-token parsing, and
//! response formatting.

use std::sync::Arc;

use ttl_cache::protocol::{
    get_response, missing_key_response, missing_key_value_response, ok_response, parse_command,
    parse_u64, remove_response, tokenize, unknown_response, Command,
};

#[test]
fn tokenize_splits_on_whitespace_runs() {
    let toks = tokenize(b"  GET \t\r\n  x  ");
    assert_eq!(toks, vec![b"GET".to_vec(), b"x".to_vec()]);
}

#[test]
fn tokenize_empty_and_blank() {
    assert!(tokenize(b"").is_empty());
    assert!(tokenize(b" \t \n ").is_empty());
}

#[test]
fn tokenize_single_token() {
    assert_eq!(tokenize(b"hello"), vec![b"hello".to_vec()]);
}

#[test]
fn parse_u64_accepts_what_rust_accepts() {
    assert_eq!(parse_u64(b"0"), Some(0));
    assert_eq!(parse_u64(b"10"), Some(10));
    assert_eq!(parse_u64(b"+10"), Some(10));
    assert_eq!(parse_u64(b"0010"), Some(10));
    assert_eq!(parse_u64(b"18446744073709551615"), Some(u64::MAX));
}

#[test]
fn parse_u64_rejects_what_rust_rejects() {
    assert_eq!(parse_u64(b""), None);
    assert_eq!(parse_u64(b"+"), None);
    assert_eq!(parse_u64(b"-1"), None);
    assert_eq!(parse_u64(b"1e3"), None);
    assert_eq!(parse_u64(b"ten"), None);
    assert_eq!(parse_u64(b" 1"), None);
    // One past u64::MAX overflows.
    assert_eq!(parse_u64(b"18446744073709551616"), None);
}

#[test]
fn parse_command_get() {
    match parse_command(b"GET x").unwrap() {
        Command::Get { key } => assert_eq!(key, "x"),
        _ => panic!("expected a GET"),
    }
}

#[test]
fn parse_command_put_and_alias_set() {
    match parse_command(b"PUT k v 10").unwrap() {
        Command::Put { key, value, ttl } => {
            assert_eq!(key, "k");
            assert_eq!(value, "v");
            assert_eq!(ttl, Some(10));
        },
        _ => panic!("expected a PUT"),
    }
    match parse_command(b"SET k v").unwrap() {
        Command::Put { key, value, ttl } => {
            assert_eq!(key, "k");
            assert_eq!(value, "v");
            assert_eq!(ttl, None);
        },
        _ => panic!("expected a PUT"),
    }
}

#[test]
fn parse_command_bad_ttl_is_ignored() {
    match parse_command(b"SET k v soon").unwrap() {
        Command::Put { ttl, .. } => assert_eq!(ttl, None),
        _ => panic!("expected a PUT"),
    }
}

#[test]
fn parse_command_remove_and_alias_rm() {
    match parse_command(b"DEL x").unwrap() {
        Command::Remove { key } => assert_eq!(key, "x"),
        _ => panic!("expected a DEL"),
    }
    match parse_command(b"RM x").unwrap() {
        Command::Remove { key } => assert_eq!(key, "x"),
        _ => panic!("expected an RM"),
    }
}

#[test]
fn parse_command_missing_arguments() {
    assert!(matches!(parse_command(b"GET").unwrap(), Command::MissingKey));
    assert!(matches!(parse_command(b"DEL").unwrap(), Command::MissingKey));
    assert!(matches!(parse_command(b"RM").unwrap(), Command::MissingKey));
    assert!(matches!(parse_command(b"PUT").unwrap(), Command::MissingKeyValue));
    assert!(matches!(parse_command(b"SET x").unwrap(), Command::MissingKeyValue));
}

#[test]
fn parse_command_is_case_sensitive() {
    match parse_command(b"get x").unwrap() {
        Command::Unknown { name } => assert_eq!(name, "get"),
        _ => panic!("expected an unknown command"),
    }
}

#[test]
fn parse_command_empty_message_is_nothing() {
    assert!(parse_command(b"").is_none());
    assert!(parse_command(b"   ").is_none());
}

#[test]
fn parse_command_invalid_utf8_key_is_replaced() {
    // 0xFF is not valid UTF-8: the key comes out as the replacement
    // character, exactly as a lossy conversion of the raw message would give.
    match parse_command(b"GET \xff").unwrap() {
        Command::Get { key } => assert_eq!(key, "\u{FFFD}"),
        _ => panic!("expected a GET"),
    }
}

#[test]
fn response_lines() {
    assert_eq!(ok_response(), "OK\n");
    assert_eq!(get_response(None), "NULL\n");
    assert_eq!(get_response(Some(Arc::new("hello".to_string()))), "hello\n");
    assert_eq!(remove_response(None), "<NULL>\n");
    assert_eq!(remove_response(Some(Arc::new("hello".to_string()))), "hello\n");
    assert_eq!(missing_key_response(), "Error: Missing key\n");
    assert_eq!(missing_key_value_response(), "Error: Missing key & value\n");
    assert_eq!(unknown_response(&"FOO".to_string()), "Error: FOO is unknown\n");
}
