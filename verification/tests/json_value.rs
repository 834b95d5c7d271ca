use mpl_inscription::account::Account;
use mpl_inscription::address::{program_id, system_program_id, Address};
use mpl_inscription::error::{MplInscriptionError, ProgramError};
use mpl_inscription::json::instruction::InitializeArgs;
use mpl_inscription::json::processor::append_value::{process_append_value, store_appended_value};
use mpl_inscription::json::processor::initialize::process_initialize;
use mpl_inscription::json::state::DataType;
use mpl_inscription::json::value::{merge_append, JsonValue, Member};
use serde_json::Value;
use solana_program::pubkey::Pubkey;

fn invalid() -> ProgramError {
    ProgramError::Custom(MplInscriptionError::InvalidJson.code())
}

fn to_library(v: &Value) -> JsonValue {
    match v {
        Value::Null => JsonValue::Null,
        Value::Bool(b) => JsonValue::Bool(*b),
        Value::Number(n) => JsonValue::Number(n.to_string()),
        Value::String(s) => JsonValue::String(s.clone()),
        Value::Array(items) => JsonValue::Array(items.iter().map(to_library).collect()),
        Value::Object(members) => JsonValue::Object(
            members.iter().map(|(k, v)| Member { key: k.clone(), value: to_library(v) }).collect(),
        ),
    }
}

fn from_library(v: &JsonValue) -> Value {
    match v {
        JsonValue::Null => Value::Null,
        JsonValue::Bool(b) => Value::Bool(*b),
        JsonValue::Number(n) => serde_json::from_str(n).unwrap(),
        JsonValue::String(s) => Value::String(s.clone()),
        JsonValue::Array(items) => Value::Array(items.iter().map(from_library).collect()),
        JsonValue::Object(members) => Value::Object(
            members.iter().map(|m| (m.key.clone(), from_library(&m.value))).collect(),
        ),
    }
}

fn parse(text: &str) -> Value {
    serde_json::from_str(text).unwrap()
}

/// The merge written directly on the JSON crate's values.
fn reference_merge(a: &mut Value, b: Value) -> Result<(), ()> {
    if let Value::Object(a) = a {
        if let Value::Object(b) = b {
            for (k, v) in b {
                reference_merge(a.entry(k).or_insert(Value::Null), v)?;
            }
            return Ok(());
        }
    }
    match a {
        Value::String(a) => {
            if let Value::String(b) = b {
                a.push_str(&b);
                Ok(())
            } else {
                Err(())
            }
        }
        Value::Array(a) => {
            if let Value::Array(b) = b {
                a.extend(b);
                Ok(())
            } else {
                Err(())
            }
        }
        _ => Err(()),
    }
}

fn merge(a: &str, b: &str) -> Result<String, ProgramError> {
    let merged = merge_append(to_library(&parse(a)), to_library(&parse(b)))?;
    Ok(serde_json::to_string(&from_library(&merged)).unwrap())
}

#[test]
fn text_is_appended_to_text() {
    assert_eq!(merge("\"ab\"", "\"cd\""), Ok("\"abcd\"".to_string()));
    assert_eq!(merge("\"\"", "\"\""), Ok("\"\"".to_string()));
    assert_eq!(merge("\"ab\"", "1"), Err(invalid()));
    assert_eq!(merge("\"ab\"", "[\"cd\"]"), Err(invalid()));
}

#[test]
fn items_are_appended_to_an_array() {
    assert_eq!(merge("[1,2]", "[3,[4]]"), Ok("[1,2,3,[4]]".to_string()));
    assert_eq!(merge("[]", "[]"), Ok("[]".to_string()));
    assert_eq!(merge("[1]", "{}"), Err(invalid()));
    assert_eq!(merge("[1]", "2"), Err(invalid()));
}

#[test]
fn members_are_appended_to_members() {
    assert_eq!(
        merge("{\"a\":\"x\",\"b\":[1],\"c\":7}", "{\"b\":[2,3],\"a\":\"y\"}"),
        Ok("{\"a\":\"xy\",\"b\":[1,2,3],\"c\":7}".to_string())
    );
    assert_eq!(
        merge("{\"a\":{\"b\":{\"c\":\"deep\"}}}", "{\"a\":{\"b\":{\"c\":\"er\"}}}"),
        Ok("{\"a\":{\"b\":{\"c\":\"deeper\"}}}".to_string())
    );
    assert_eq!(merge("{\"a\":1}", "{}"), Ok("{\"a\":1}".to_string()));
    assert_eq!(merge("{}", "{}"), Ok("{}".to_string()));
    // A member that is not there yet cannot be appended to.
    assert_eq!(merge("{\"a\":\"x\"}", "{\"b\":\"y\"}"), Err(invalid()));
    assert_eq!(merge("{}", "{\"b\":[]}"), Err(invalid()));
    // Nor can a number, a truth value or null.
    assert_eq!(merge("{\"a\":1}", "{\"a\":1}"), Err(invalid()));
    assert_eq!(merge("{\"a\":null}", "{\"a\":null}"), Err(invalid()));
    assert_eq!(merge("{\"a\":\"x\"}", "\"y\""), Err(invalid()));
    assert_eq!(merge("{\"a\":\"x\"}", "[1]"), Err(invalid()));
}

#[test]
fn nothing_is_appended_to_the_rest() {
    for a in ["null", "true", "1", "1.5"] {
        for b in ["null", "true", "1", "\"x\"", "[]", "{}"] {
            assert_eq!(merge(a, b), Err(invalid()), "{} {}", a, b);
        }
    }
}

#[test]
fn merge_agrees_on_the_json_crates_values() {
    let samples = [
        "null",
        "true",
        "12",
        "\"text\"",
        "\"\"",
        "[]",
        "[1,\"two\",[3]]",
        "{}",
        "{\"a\":\"x\"}",
        "{\"a\":\"x\",\"b\":[1]}",
        "{\"a\":{\"b\":\"y\",\"c\":[]},\"d\":\"z\"}",
        "{\"a\":{\"b\":\"more\"}}",
        "{\"a\":{\"c\":[1,2]},\"d\":\"!\"}",
        "{\"b\":[2],\"a\":\"y\"}",
        "{\"a\":[1]}",
    ];
    for a in samples {
        for b in samples {
            let mut expected = parse(a);
            let reference = reference_merge(&mut expected, parse(b));
            let ours = merge_append(to_library(&parse(a)), to_library(&parse(b)));
            match (reference, ours) {
                (Ok(()), Ok(v)) => assert_eq!(from_library(&v), expected, "{} {}", a, b),
                (Err(()), Err(e)) => assert_eq!(e, invalid()),
                (r, o) => panic!("{} {}: {:?} {:?}", a, b, r, o.is_ok()),
            }
        }
    }
}

#[test]
fn first_of_two_members_under_one_key() {
    let a = JsonValue::Object(vec![
        Member { key: "k".to_string(), value: JsonValue::String("1".to_string()) },
        Member { key: "k".to_string(), value: JsonValue::String("2".to_string()) },
    ]);
    let b = JsonValue::Object(vec![
        Member { key: "k".to_string(), value: JsonValue::String("a".to_string()) },
        Member { key: "k".to_string(), value: JsonValue::String("b".to_string()) },
    ]);
    match merge_append(a, b).unwrap() {
        JsonValue::Object(members) => {
            assert_eq!(members.len(), 2);
            assert!(matches!(&members[0].value, JsonValue::String(s) if s == "1ab"));
            assert!(matches!(&members[1].value, JsonValue::String(s) if s == "2"));
        }
        _ => panic!("no object"),
    }
}

fn key(n: u8) -> Address {
    Address::new([n; 32])
}

/// inscription, metadata, payer, system program
fn inscribed(data: &[u8]) -> Vec<Account> {
    let id = Pubkey::new_from_array(program_id().bytes);
    let (metadata, _) = Pubkey::find_program_address(&[b"INSCRIPTION", id.as_ref(), &[31; 32]], &id);
    let mut a = vec![
        Account::new(key(31), system_program_id(), true, vec![]),
        Account::new(Address::new(metadata.to_bytes()), system_program_id(), false, vec![]),
        Account::new(key(32), system_program_id(), true, vec![]),
        Account::new(system_program_id(), key(200), false, vec![]),
    ];
    process_initialize(&mut a, InitializeArgs { data_type: DataType::Json }).unwrap();
    a[0].data = data.to_vec();
    a
}

/// The whole instruction, with the JSON crate reading and writing the text.
fn append(accounts: &mut Vec<Account>, value: &str) -> Result<(), ProgramError> {
    let current = serde_json::from_slice::<Value>(&accounts[0].data).ok().map(|v| to_library(&v));
    let addition = serde_json::from_str::<Value>(value).ok().map(|v| to_library(&v));
    let merged = process_append_value(accounts, current, addition)?;
    store_appended_value(accounts, serde_json::to_vec(&from_library(&merged)).ok())
}

#[test]
fn append_value_appends() {
    let mut a = inscribed(b"{\"name\":\"In\",\"tags\":[\"a\"]}");
    assert_eq!(append(&mut a, "{\"name\":\"scription\",\"tags\":[\"b\",\"c\"]}"), Ok(()));
    assert_eq!(a[0].data, b"{\"name\":\"Inscription\",\"tags\":[\"a\",\"b\",\"c\"]}");
    assert_eq!(append(&mut a, " { } "), Ok(()));
    assert_eq!(a[0].data, b"{\"name\":\"Inscription\",\"tags\":[\"a\",\"b\",\"c\"]}");
}

#[test]
fn append_value_failures() {
    let check = |accounts: &mut Vec<Account>, value: &str, expected: ProgramError| {
        let before: Vec<Vec<u8>> = accounts.iter().map(|a| a.data.clone()).collect();
        assert_eq!(append(accounts, value), Err(expected));
        let after: Vec<Vec<u8>> = accounts.iter().map(|a| a.data.clone()).collect();
        assert_eq!(before, after);
    };
    let mut a = inscribed(b"[1]");
    check(&mut a, "[2", invalid());
    check(&mut a, "{}", invalid());
    let mut a = inscribed(b"[1");
    check(&mut a, "[2]", invalid());
    let mut a = inscribed(b"[1]");
    a[2].is_signer = false;
    check(&mut a, "[2]", ProgramError::MissingRequiredSignature);
    // The accounts are looked at before the values.
    check(&mut a, "[2", ProgramError::MissingRequiredSignature);
    let mut a = inscribed(b"[1]");
    a[2].key = key(1);
    check(&mut a, "[2]", ProgramError::Custom(MplInscriptionError::InvalidAuthority.code()));
    let mut a = inscribed(b"");
    check(&mut a, "[2]", ProgramError::Custom(MplInscriptionError::NotInitialized.code()));
    let mut a = inscribed(b"[1]");
    a[1].key = key(2);
    check(&mut a, "[2]", ProgramError::Custom(MplInscriptionError::MetadataDerivedKeyInvalid.code()));
    let mut a = inscribed(b"[1]");
    a.truncate(3);
    check(&mut a, "[2]", ProgramError::NotEnoughAccountKeys);
}

#[test]
fn appended_value_is_stored() {
    let mut a = inscribed(b"[1]");
    assert_eq!(store_appended_value(&mut a, Some(b"[1,2]".to_vec())), Ok(()));
    assert_eq!(a[0].data, b"[1,2]");
    assert_eq!(store_appended_value(&mut a, None), Err(invalid()));
    assert_eq!(a[0].data, b"[1,2]");
    assert_eq!(
        store_appended_value(&mut a, Some(vec![b' '; 20000])),
        Err(ProgramError::InvalidRealloc)
    );
    assert_eq!(a[0].data, b"[1,2]");
    let mut none: Vec<Account> = vec![];
    assert_eq!(
        store_appended_value(&mut none, Some(vec![])),
        Err(ProgramError::NotEnoughAccountKeys)
    );
}
