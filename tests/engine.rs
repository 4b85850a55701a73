use kvengine::command::{Command, Key, Reply, Value};
use kvengine::engine::{increment_text, ConcurrentHashMap, IncrError};

fn set(store: &mut ConcurrentHashMap, k: &str, v: &str) -> Reply {
    store.call(Command::SetValue {
        key: Key(k.to_string()),
        value: Value(v.to_string()),
    })
}

fn get(store: &mut ConcurrentHashMap, k: &str) -> Reply {
    store.call(Command::Get {
        key: Key(k.to_string()),
    })
}

fn incr(store: &mut ConcurrentHashMap, k: &str) -> Reply {
    store.call(Command::Incr {
        key: Key(k.to_string()),
    })
}

#[test]
fn scc_test_set_and_get() {
    let mut redis = ConcurrentHashMap::new();

    let result = redis.call(Command::SetValue {
        key: Key("key".to_string()),
        value: Value("value".to_string()),
    });
    assert_eq!(result, Reply::Ack);

    let result = redis.call(Command::Get {
        key: Key("key".to_string()),
    });
    assert_eq!(result, Reply::BulkString("value".to_string()));
}

#[test]
fn test_get_nonexistent_key() {
    let mut redis = ConcurrentHashMap::new();

    let result = redis.call(Command::Get {
        key: Key("nonexistent".to_string()),
    });
    assert_eq!(result, Reply::Null);
}

#[test]
fn test_client() {
    let mut redis = ConcurrentHashMap::new();

    let result = redis.call(Command::Client);
    assert_eq!(result, Reply::Ack);
}

#[test]
fn test_incr() {
    let mut redis = ConcurrentHashMap::new();

    let result = redis.call(Command::Incr {
        key: Key("counter".to_string()),
    });
    assert_eq!(result, Reply::Integer(1));

    let result = redis.call(Command::Incr {
        key: Key("counter".to_string()),
    });
    assert_eq!(result, Reply::Integer(2));

    let result = redis.call(Command::Get {
        key: Key("counter".to_string()),
    });
    assert_eq!(result, Reply::BulkString("2".to_string()));
}

#[test]
fn get_of_unwritten_keys_is_null() {
    let mut store = ConcurrentHashMap::new();
    set(&mut store, "a", "1");
    assert_eq!(get(&mut store, "b"), Reply::Null);
    assert_eq!(get(&mut store, ""), Reply::Null);
    assert_eq!(store.get("b".to_string()), None);
}

#[test]
fn set_overwrites_and_reads_back() {
    let mut store = ConcurrentHashMap::new();
    assert_eq!(set(&mut store, "k", "first"), Reply::Ack);
    assert_eq!(set(&mut store, "k", "second"), Reply::Ack);
    assert_eq!(get(&mut store, "k"), Reply::BulkString("second".to_string()));
    assert_eq!(store.get("k".to_string()), Some("second".to_string()));
}

#[test]
fn empty_key_and_value_are_stored() {
    let mut store = ConcurrentHashMap::new();
    set(&mut store, "", "");
    assert_eq!(get(&mut store, ""), Reply::BulkString(String::new()));
}

#[test]
fn set_twice_is_set_once() {
    let mut once = ConcurrentHashMap::new();
    let mut twice = ConcurrentHashMap::new();
    assert_eq!(set(&mut once, "k", "v"), Reply::Ack);
    assert_eq!(set(&mut twice, "k", "v"), Reply::Ack);
    assert_eq!(set(&mut twice, "k", "v"), Reply::Ack);
    assert_eq!(get(&mut once, "k"), get(&mut twice, "k"));
    assert_eq!(get(&mut once, "other"), get(&mut twice, "other"));
}

#[test]
fn incr_of_absent_key_stores_one() {
    let mut store = ConcurrentHashMap::new();
    assert_eq!(incr(&mut store, "n"), Reply::Integer(1));
    assert_eq!(get(&mut store, "n"), Reply::BulkString("1".to_string()));
}

#[test]
fn incr_counts_up_in_order() {
    let mut store = ConcurrentHashMap::new();
    for i in 1..=25i64 {
        assert_eq!(incr(&mut store, "c"), Reply::Integer(i));
    }
    assert_eq!(get(&mut store, "c"), Reply::BulkString("25".to_string()));
}

#[test]
fn incr_keys_are_independent() {
    let mut store = ConcurrentHashMap::new();
    incr(&mut store, "a");
    incr(&mut store, "a");
    assert_eq!(incr(&mut store, "b"), Reply::Integer(1));
    assert_eq!(get(&mut store, "a"), Reply::BulkString("2".to_string()));
}

#[test]
fn incr_of_written_numbers() {
    let mut store = ConcurrentHashMap::new();
    set(&mut store, "n", "41");
    assert_eq!(incr(&mut store, "n"), Reply::Integer(42));
    assert_eq!(get(&mut store, "n"), Reply::BulkString("42".to_string()));

    set(&mut store, "neg", "-1");
    assert_eq!(incr(&mut store, "neg"), Reply::Integer(0));
    assert_eq!(get(&mut store, "neg"), Reply::BulkString("0".to_string()));

    set(&mut store, "minus", "-10");
    assert_eq!(incr(&mut store, "minus"), Reply::Integer(-9));
    assert_eq!(get(&mut store, "minus"), Reply::BulkString("-9".to_string()));

    set(&mut store, "plus", "+7");
    assert_eq!(incr(&mut store, "plus"), Reply::Integer(8));
    assert_eq!(get(&mut store, "plus"), Reply::BulkString("8".to_string()));

    set(&mut store, "zeros", "007");
    assert_eq!(incr(&mut store, "zeros"), Reply::Integer(8));
    assert_eq!(get(&mut store, "zeros"), Reply::BulkString("8".to_string()));
}

#[test]
fn incr_of_non_integer_fails_and_keeps_value() {
    let mut store = ConcurrentHashMap::new();
    set(&mut store, "k", "abc");
    assert_eq!(
        incr(&mut store, "k"),
        Reply::Error("invalid digit found in string".to_string())
    );
    assert_eq!(get(&mut store, "k"), Reply::BulkString("abc".to_string()));
}

#[test]
fn incr_of_empty_value_fails() {
    let mut store = ConcurrentHashMap::new();
    set(&mut store, "k", "");
    assert_eq!(
        incr(&mut store, "k"),
        Reply::Error("cannot parse integer from empty string".to_string())
    );
    assert_eq!(get(&mut store, "k"), Reply::BulkString(String::new()));
}

#[test]
fn incr_of_malformed_numbers_fails() {
    let mut store = ConcurrentHashMap::new();
    for text in [" 1", "1 ", "-", "+", "1.5", "+-1", "٣"] {
        set(&mut store, "k", text);
        assert!(matches!(incr(&mut store, "k"), Reply::Error(_)), "{text:?}");
        assert_eq!(get(&mut store, "k"), Reply::BulkString(text.to_string()));
    }
}

#[test]
fn incr_out_of_range_value_fails() {
    let mut store = ConcurrentHashMap::new();
    set(&mut store, "k", "9223372036854775808");
    assert_eq!(
        incr(&mut store, "k"),
        Reply::Error("number too large to fit in target type".to_string())
    );
    assert_eq!(
        get(&mut store, "k"),
        Reply::BulkString("9223372036854775808".to_string())
    );
}

#[test]
fn incr_at_max_overflows() {
    let mut store = ConcurrentHashMap::new();
    set(&mut store, "k", "9223372036854775807");
    assert_eq!(
        incr(&mut store, "k"),
        Reply::Error("increment would overflow".to_string())
    );
    assert_eq!(
        get(&mut store, "k"),
        Reply::BulkString("9223372036854775807".to_string())
    );
}

#[test]
fn incr_from_min_and_below_max() {
    let mut store = ConcurrentHashMap::new();
    set(&mut store, "lo", "-9223372036854775808");
    assert_eq!(incr(&mut store, "lo"), Reply::Integer(i64::MIN + 1));
    set(&mut store, "hi", "9223372036854775806");
    assert_eq!(incr(&mut store, "hi"), Reply::Integer(i64::MAX));
    assert_eq!(
        get(&mut store, "hi"),
        Reply::BulkString("9223372036854775807".to_string())
    );
}

#[test]
fn client_changes_nothing() {
    let mut store = ConcurrentHashMap::new();
    set(&mut store, "k", "v");
    incr(&mut store, "n");
    let before = (get(&mut store, "k"), get(&mut store, "n"), get(&mut store, "x"));
    assert_eq!(store.call(Command::Client), Reply::Ack);
    let after = (get(&mut store, "k"), get(&mut store, "n"), get(&mut store, "x"));
    assert_eq!(before, after);
}

#[test]
fn store_methods_direct() {
    let mut store = ConcurrentHashMap::new();
    assert_eq!(store.incr("c".to_string()), Ok(1));
    store.set("c".to_string(), "x".to_string());
    assert_eq!(
        store.incr("c".to_string()),
        Err(IncrError::NotAnInteger {
            value: "x".to_string(),
            reason: "invalid digit found in string".to_string(),
        })
    );
    assert_eq!(store.get("c".to_string()), Some("x".to_string()));
}

#[test]
fn increment_text_rewrites_in_place() {
    let mut v = "99".to_string();
    assert_eq!(increment_text(&mut v), Ok(100));
    assert_eq!(v, "100");

    let mut w = "9223372036854775807".to_string();
    assert_eq!(
        increment_text(&mut w),
        Err(IncrError::Overflow {
            value: "9223372036854775807".to_string()
        })
    );
    assert_eq!(w, "9223372036854775807");
}

#[test]
fn error_messages() {
    let e = IncrError::Overflow {
        value: "9223372036854775807".to_string(),
    };
    assert_eq!(e.message(), "increment would overflow");
    let e = IncrError::NotAnInteger {
        value: "q".to_string(),
        reason: "invalid digit found in string".to_string(),
    };
    assert_eq!(e.message(), "invalid digit found in string");
}
