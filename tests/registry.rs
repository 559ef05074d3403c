use signalling::protocol::UserId;
use signalling::registry::Registry;
use signalling::relay::Session;

fn session(host: &str) -> Session {
    Session { host: UserId::new(host.to_string()), guest: None }
}

#[test]
fn registry_insert_get_replace_remove() {
    let mut r: Registry<Session> = Registry::new();
    assert_eq!(r.len(), 0);
    r.insert("s1".to_string(), session("a"));
    r.insert("s2".to_string(), session("b"));
    assert_eq!(r.len(), 2);
    assert!(r.contains(&"s1".to_string()));
    assert_eq!(r.get(&"s2".to_string()), Some(&session("b")));
    r.insert("s1".to_string(), session("c"));
    assert_eq!(r.len(), 2);
    assert_eq!(r.get(&"s1".to_string()), Some(&session("c")));
    assert_eq!(r.remove(&"s1".to_string()), Some(session("c")));
    assert_eq!(r.remove(&"s1".to_string()), None);
    assert_eq!(r.get(&"s1".to_string()), None);
    assert_eq!(r.len(), 1);
}

#[test]
fn registry_keys_lists_each_once() {
    let mut r: Registry<Session> = Registry::new();
    for k in ["x", "y", "x", "z"] {
        r.insert(k.to_string(), session(k));
    }
    let mut keys = r.keys();
    keys.sort();
    assert_eq!(keys, vec!["x".to_string(), "y".to_string(), "z".to_string()]);
}
