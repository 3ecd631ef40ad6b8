use mini_redis::executor::{execute, format_keys};
use mini_redis::pattern::KeyPattern;
use mini_redis::request::{parse_request, Command, CommandRequest};
use mini_redis::store::{evaluate, expiry_after, Freshness, Store, StoreEntry};

fn cmd(command: Command, key: Option<&str>, value: Option<&str>) -> CommandRequest {
    CommandRequest {
        command,
        key: key.map(|s| s.to_string()),
        value: value.map(|s| s.to_string()),
        expiration: None,
        pattern: None,
    }
}

fn set_ttl(key: &str, value: &str, ttl: u64) -> CommandRequest {
    let mut c = cmd(Command::SetValue, Some(key), Some(value));
    c.expiration = Some(ttl);
    c
}

fn keys(pattern: &str) -> CommandRequest {
    let mut c = cmd(Command::Keys, None, None);
    c.pattern = Some(pattern.to_string());
    c
}

#[test]
fn set_then_get_returns_value() {
    let mut store = Store::new();
    assert_eq!(execute(&mut store, &cmd(Command::SetValue, Some("k"), Some("v")), 0), "OK");
    assert_eq!(execute(&mut store, &cmd(Command::Get, Some("k"), None), 0), "Value: v");
    assert_eq!(execute(&mut store, &cmd(Command::Get, Some("k"), None), u64::MAX), "Value: v");
}

#[test]
fn overwrite_replaces_value_and_ttl() {
    let mut store = Store::new();
    execute(&mut store, &set_ttl("k", "old", 1), 0);
    execute(&mut store, &cmd(Command::SetValue, Some("k"), Some("new")), 0);
    assert_eq!(execute(&mut store, &cmd(Command::Get, Some("k"), None), 5_000), "Value: new");
}

#[test]
fn ttl_expires_lazily() {
    let mut store = Store::new();
    execute(&mut store, &set_ttl("k", "v", 2), 1_000);
    assert_eq!(execute(&mut store, &cmd(Command::Get, Some("k"), None), 2_999), "Value: v");
    assert!(store.contains(&"k".to_string()));
    assert_eq!(execute(&mut store, &cmd(Command::Get, Some("k"), None), 3_000), "Key not found");
    assert!(!store.contains(&"k".to_string()));
    assert_eq!(execute(&mut store, &cmd(Command::Exists, Some("k"), None), 3_000), "0");
}

#[test]
fn exists_removes_expired_key() {
    let mut store = Store::new();
    execute(&mut store, &set_ttl("k", "v", 1), 0);
    assert_eq!(execute(&mut store, &cmd(Command::Exists, Some("k"), None), 999), "1");
    assert_eq!(execute(&mut store, &cmd(Command::Exists, Some("k"), None), 1_000), "0");
    assert!(store.get(&"k".to_string()).is_none());
}

#[test]
fn zero_ttl_is_expired_at_once() {
    let mut store = Store::new();
    execute(&mut store, &set_ttl("k", "v", 0), 50);
    assert_eq!(execute(&mut store, &cmd(Command::Get, Some("k"), None), 50), "Key not found");
}

#[test]
fn huge_ttl_never_expires() {
    let mut store = Store::new();
    execute(&mut store, &set_ttl("k", "v", u64::MAX), 10);
    assert_eq!(store.get(&"k".to_string()).unwrap().expires_at, None);
    assert_eq!(execute(&mut store, &cmd(Command::Get, Some("k"), None), u64::MAX), "Value: v");
}

#[test]
fn delete_reports_removal() {
    let mut store = Store::new();
    assert_eq!(execute(&mut store, &cmd(Command::Delete, Some("k"), None), 0), "0");
    execute(&mut store, &cmd(Command::SetValue, Some("k"), Some("v")), 0);
    assert_eq!(execute(&mut store, &cmd(Command::Delete, Some("k"), None), 0), "1");
    assert_eq!(execute(&mut store, &cmd(Command::Get, Some("k"), None), 0), "Key not found");
    assert_eq!(execute(&mut store, &cmd(Command::Delete, Some("k"), None), 0), "0");
}

#[test]
fn exists_after_set_and_delete() {
    let mut store = Store::new();
    execute(&mut store, &cmd(Command::SetValue, Some("k"), Some("v")), 0);
    assert_eq!(execute(&mut store, &cmd(Command::Exists, Some("k"), None), 0), "1");
    execute(&mut store, &cmd(Command::Delete, Some("k"), None), 0);
    assert_eq!(execute(&mut store, &cmd(Command::Exists, Some("k"), None), 0), "0");
}

#[test]
fn missing_fields_give_errors() {
    let mut store = Store::new();
    assert_eq!(execute(&mut store, &cmd(Command::SetValue, Some("k"), None), 0), "Error: Missing value");
    assert_eq!(execute(&mut store, &cmd(Command::SetValue, None, None), 0), "Error: Missing value");
    assert_eq!(execute(&mut store, &cmd(Command::SetValue, None, Some("v")), 0), "Error: Missing key");
    assert_eq!(execute(&mut store, &cmd(Command::Delete, None, None), 0), "Error: Missing key");
    assert_eq!(execute(&mut store, &cmd(Command::Exists, None, None), 0), "Error: Missing key");
    assert_eq!(execute(&mut store, &cmd(Command::Keys, None, None), 0), "Error: Missing pattern");
    assert_eq!(execute(&mut store, &cmd(Command::Get, None, None), 0), "Key not found");
}

#[test]
fn keys_lists_matching_live_keys() {
    let mut store = Store::new();
    execute(&mut store, &cmd(Command::SetValue, Some("apple"), Some("1")), 0);
    execute(&mut store, &cmd(Command::SetValue, Some("banana"), Some("2")), 0);
    execute(&mut store, &cmd(Command::SetValue, Some("apricot"), Some("3")), 0);
    execute(&mut store, &set_ttl("avocado", "4", 1), 0);
    assert_eq!(execute(&mut store, &keys("^a"), 0), "Keys: [apple, apricot, avocado]");
    assert_eq!(execute(&mut store, &keys("^a"), 1_000), "Keys: [apple, apricot]");
    assert_eq!(execute(&mut store, &keys("an"), 0), "Keys: [banana]");
    assert_eq!(execute(&mut store, &keys("^z"), 0), "Keys: []");
    assert_eq!(execute(&mut store, &keys(".*"), 1_000), "Keys: [apple, banana, apricot]");
}

#[test]
fn keys_invalid_pattern_is_an_error() {
    let mut store = Store::new();
    execute(&mut store, &cmd(Command::SetValue, Some("a"), Some("1")), 0);
    assert_eq!(execute(&mut store, &keys("(unclosed"), 0), "Error: invalid pattern");
    assert_eq!(execute(&mut store, &keys("[z-a]"), 0), "Error: invalid pattern");
}

#[test]
fn racing_sets_leave_one_value() {
    let mut store = Store::new();
    execute(&mut store, &cmd(Command::SetValue, Some("k"), Some("v1")), 0);
    execute(&mut store, &cmd(Command::SetValue, Some("k"), Some("v2")), 0);
    assert_eq!(execute(&mut store, &cmd(Command::Get, Some("k"), None), 0), "Value: v2");
    assert_eq!(execute(&mut store, &keys("k"), 0), "Keys: [k]");
}

#[test]
fn batch_scenario_set_then_get() {
    let line = r#"{"commands":[{"command":"SET","key":"x","value":"10"},{"command":"GET","key":"x"}]}"#;
    let request = parse_request(line).unwrap();
    let mut store = Store::new();
    let responses: Vec<String> =
        request.commands.iter().map(|c| execute(&mut store, c, 0)).collect();
    assert_eq!(responses, vec!["OK".to_string(), "Value: 10".to_string()]);
}

#[test]
fn pattern_compiles_and_matches() {
    assert!(KeyPattern::new("(").is_none());
    let mut store = Store::new();
    store.set("abbbc".to_string(), "1".to_string(), None, 0);
    store.set("ac".to_string(), "2".to_string(), None, 0);
    let p = KeyPattern::new("^ab+c$").unwrap();
    assert_eq!(store.keys_matching(&p, 0), vec!["abbbc".to_string()]);
    let q = KeyPattern::new("c").unwrap();
    assert_eq!(store.keys_matching(&q, 0), vec!["abbbc".to_string(), "ac".to_string()]);
}

#[test]
fn expiry_in_milliseconds() {
    assert_eq!(expiry_after(500, Some(2)), Some(2_500));
    assert_eq!(expiry_after(500, None), None);
    assert_eq!(expiry_after(u64::MAX - 10, Some(1)), None);
    assert_eq!(expiry_after(0, Some(u64::MAX)), None);
}

#[test]
fn evaluate_entry() {
    let e = StoreEntry { value: "v".to_string(), expires_at: Some(10) };
    assert!(matches!(evaluate(&e, 9), Freshness::Fresh(ref v) if v == "v"));
    assert!(matches!(evaluate(&e, 10), Freshness::Expired));
    let forever = StoreEntry { value: "w".to_string(), expires_at: None };
    assert!(matches!(evaluate(&forever, u64::MAX), Freshness::Fresh(_)));
}

#[test]
fn format_keys_joins() {
    assert_eq!(format_keys(&vec![]), "Keys: []");
    assert_eq!(format_keys(&vec!["a".to_string()]), "Keys: [a]");
    assert_eq!(format_keys(&vec!["a".to_string(), "b".to_string(), "c".to_string()]), "Keys: [a, b, c]");
}

#[test]
fn store_operations() {
    let mut store = Store::new();
    assert!(!store.delete(&"a".to_string()));
    store.set("a".to_string(), "1".to_string(), Some(1), 100);
    let e = store.get(&"a".to_string()).unwrap();
    assert_eq!(e.value, "1");
    assert_eq!(e.expires_at, Some(1_100));
    assert!(store.contains(&"a".to_string()));
    let p = KeyPattern::new("a").unwrap();
    assert_eq!(store.keys_matching(&p, 1_099), vec!["a".to_string()]);
    assert!(store.keys_matching(&p, 1_100).is_empty());
    assert!(store.delete(&"a".to_string()));
    assert!(!store.contains(&"a".to_string()));
}
