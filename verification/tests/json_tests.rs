use filethings::json::{copy_or_null, find_key, set_entry};
use filethings::result::{CommandResult, Status};
use filethings::json::{Json, JsonNumber};

fn from_value(v: &serde_json::Value) -> Json {
    match v {
        serde_json::Value::Null => Json::Null,
        serde_json::Value::Bool(b) => Json::Bool(*b),
        serde_json::Value::Number(n) => {
            if let Some(u) = n.as_u64() {
                Json::Number(JsonNumber::Unsigned(u))
            } else if let Some(i) = n.as_i64() {
                Json::Number(JsonNumber::Negative(i))
            } else {
                Json::Number(JsonNumber::Real(n.as_f64().unwrap().to_string()))
            }
        }
        serde_json::Value::String(s) => Json::String(s.clone()),
        serde_json::Value::Array(a) => Json::Array(a.iter().map(from_value).collect()),
        serde_json::Value::Object(o) => {
            Json::Object(o.iter().map(|(k, v)| (k.clone(), from_value(v))).collect())
        }
    }
}

fn to_value(j: &Json) -> serde_json::Value {
    match j {
        Json::Null => serde_json::Value::Null,
        Json::Bool(b) => serde_json::Value::Bool(*b),
        Json::Number(JsonNumber::Unsigned(u)) => serde_json::Value::from(*u),
        Json::Number(JsonNumber::Negative(i)) => serde_json::Value::from(*i),
        Json::Number(JsonNumber::Real(t)) => serde_json::Value::from(t.parse::<f64>().unwrap()),
        Json::String(s) => serde_json::Value::String(s.clone()),
        Json::Array(a) => serde_json::Value::Array(a.iter().map(to_value).collect()),
        Json::Object(o) => {
            let mut m = serde_json::Map::new();
            for (k, v) in o {
                m.insert(k.clone(), to_value(v));
            }
            serde_json::Value::Object(m)
        }
    }
}

fn js(text: &str) -> Json {
    from_value(&serde_json::from_str::<serde_json::Value>(text).unwrap())
}

fn val(text: &str) -> serde_json::Value {
    serde_json::from_str::<serde_json::Value>(text).unwrap()
}

#[test]
fn envelope_has_exactly_the_four_members() {
    let mut r = CommandResult::default();
    r.content = js(r#"{"a":[1,2,{"b":null}]}"#);
    r.add_output_path("/tmp/out.png");
    r.add_output_path("/tmp/out2.png");
    let v = to_value(&r.to_json());
    let o = v.as_object().unwrap();
    assert_eq!(o.len(), 4);
    assert_eq!(o["content"], val(r#"{"a":[1,2,{"b":null}]}"#));
    assert_eq!(o["status"], "ok");
    assert_eq!(o["message"], "");
    assert_eq!(o["output_paths"], val(r#"["/tmp/out.png","/tmp/out2.png"]"#));
}

#[test]
fn envelope_status_is_one_of_three() {
    for (status, text) in [(Status::Success, "ok"), (Status::Ignored, "ignored"), (Status::Failed, "error")] {
        let mut r = CommandResult::default();
        r.status = status;
        let v = to_value(&r.to_json());
        assert_eq!(v["status"], text);
        assert_eq!(status.as_str(), text);
        assert!(v["output_paths"].as_array().unwrap().is_empty());
        assert!(v["content"].is_null());
    }
}

#[test]
fn default_result_is_a_plain_success() {
    let r = CommandResult::default();
    assert!(r.content.is_null());
    assert_eq!(r.status, Status::Success);
    assert_eq!(r.message, "");
    assert!(r.output_paths.is_empty());
    let w = CommandResult::with_content(Json::Bool(true));
    assert_eq!(to_value(&w.content), val("true"));
    assert_eq!(w.status, Status::Success);
}

#[test]
fn members_are_found_by_key() {
    let j = js(r#"{"a":1,"b":"x","c":[true],"d":{"e":-2},"f":1.5}"#);
    assert_eq!(j.get("a").unwrap().as_u64(), Some(1));
    assert_eq!(j.get("a").unwrap().as_i64(), Some(1));
    assert_eq!(j.get("b").unwrap().as_str(), Some("x"));
    assert_eq!(j.get_str("b"), Some("x"));
    assert_eq!(j.get_str("a"), None);
    assert_eq!(j.get_str("zz"), None);
    assert_eq!(j.get("c").unwrap().as_array().unwrap().len(), 1);
    assert_eq!(j.get("c").unwrap().as_array().unwrap()[0].as_bool(), Some(true));
    assert_eq!(j.get("d").unwrap().get("e").unwrap().as_i64(), Some(-2));
    assert_eq!(j.get("d").unwrap().get("e").unwrap().as_u64(), None);
    assert_eq!(j.get("f").unwrap().as_u64(), None);
    assert_eq!(j.get("f").unwrap().as_i64(), None);
    assert!(j.get("zz").is_none());
    assert!(Json::Null.get("a").is_none());
    assert!(js("[1]").get("a").is_none());
    assert!(Json::Null.is_null());
    assert!(!j.is_null());
    assert!(js("18446744073709551615").as_i64().is_none());
    assert_eq!(js("18446744073709551615").as_u64(), Some(u64::MAX));
}

#[test]
fn a_copy_is_the_same_value() {
    let j = js(r#"{"a":[1,{"b":[null,"x",-3,2.5]}],"c":{}}"#);
    assert_eq!(to_value(&j.duplicate()), to_value(&j));
    assert_eq!(to_value(&j.clone()), to_value(&j));
    assert_eq!(to_value(&copy_or_null(j.get("a"))), val(r#"[1,{"b":[null,"x",-3,2.5]}]"#));
    assert_eq!(to_value(&copy_or_null(j.get("zz"))), val("null"));
}

#[test]
fn an_entry_is_replaced_in_place_or_added_at_the_end() {
    let mut entries = match js(r#"{"a":1,"b":2}"#) {
        Json::Object(e) => e,
        _ => unreachable!(),
    };
    assert_eq!(find_key(&entries, "b"), Some(1));
    assert_eq!(find_key(&entries, "c"), None);
    set_entry(&mut entries, "b", Json::unsigned(3));
    set_entry(&mut entries, "c", Json::unsigned(4));
    let keys: Vec<&str> = entries.iter().map(|e| e.0.as_str()).collect();
    assert_eq!(keys, vec!["a", "b", "c"]);
    assert_eq!(to_value(&Json::Object(entries)), val(r#"{"a":1,"b":3,"c":4}"#));
}

#[test]
fn texts_make_an_array_of_strings() {
    let j = Json::texts(&vec!["a".to_string(), "".to_string(), "b".to_string()]);
    assert_eq!(to_value(&j), val(r#"["a","","b"]"#));
    assert_eq!(to_value(&Json::text("x")), val(r#""x""#));
    assert_eq!(to_value(&Json::empty_object()), val("{}"));
}
