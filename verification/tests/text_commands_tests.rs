use filethings::errors::ErrorKind;
use filethings::text_commands::{
    compare, datetime_split, extract_groups, get_item, get_value, match_any, regex_extract,
    regex_find_all, regex_match, replace_text, replace_words, split_text,
};
use filethings::json::{Json, JsonNumber};

fn from_value(v: &serde_json::Value) -> Json {
    match v {
        serde_json::Value::Null => Json::Null,
        serde_json::Value::Bool(b) => Json::Bool(*b),
        serde_json::Value::Number(n) => {
            if let Some(u) = n.as_u64() {
                Json::Number(JsonNumber::Unsigned(u))
            } else if let Some(i) = n.as_i64() {
                Json::Number(JsonNumber::Negative(i))
            } else {
                Json::Number(JsonNumber::Real(n.as_f64().unwrap().to_string()))
            }
        }
        serde_json::Value::String(s) => Json::String(s.clone()),
        serde_json::Value::Array(a) => Json::Array(a.iter().map(from_value).collect()),
        serde_json::Value::Object(o) => {
            Json::Object(o.iter().map(|(k, v)| (k.clone(), from_value(v))).collect())
        }
    }
}

fn to_value(j: &Json) -> serde_json::Value {
    match j {
        Json::Null => serde_json::Value::Null,
        Json::Bool(b) => serde_json::Value::Bool(*b),
        Json::Number(JsonNumber::Unsigned(u)) => serde_json::Value::from(*u),
        Json::Number(JsonNumber::Negative(i)) => serde_json::Value::from(*i),
        Json::Number(JsonNumber::Real(t)) => serde_json::Value::from(t.parse::<f64>().unwrap()),
        Json::String(s) => serde_json::Value::String(s.clone()),
        Json::Array(a) => serde_json::Value::Array(a.iter().map(to_value).collect()),
        Json::Object(o) => {
            let mut m = serde_json::Map::new();
            for (k, v) in o {
                m.insert(k.clone(), to_value(v));
            }
            serde_json::Value::Object(m)
        }
    }
}

fn js(text: &str) -> Json {
    from_value(&serde_json::from_str::<serde_json::Value>(text).unwrap())
}

fn val(text: &str) -> serde_json::Value {
    serde_json::from_str::<serde_json::Value>(text).unwrap()
}

fn content(r: Result<filethings::result::CommandResult, filethings::errors::CommandError>) -> serde_json::Value {
    to_value(&r.unwrap().content)
}

fn message(r: Result<filethings::result::CommandResult, filethings::errors::CommandError>) -> String {
    r.unwrap_err().message
}

fn dt(text: &str) -> serde_json::Value {
    content(datetime_split(&js(&format!(r#"{{"datetime":"{}"}}"#, text))))
}

fn parts(y: &str, mo: &str, d: &str, h: &str, mi: &str, s: &str, tz: &str) -> serde_json::Value {
    let mut m = serde_json::Map::new();
    for (k, v) in [("year", y), ("month", mo), ("day", d), ("hour", h), ("minute", mi), ("second", s), ("timezone", tz)] {
        m.insert(k.to_string(), serde_json::Value::String(v.to_string()));
    }
    serde_json::Value::Object(m)
}

#[test]
fn a_date_and_time_is_taken_apart() {
    assert_eq!(dt("2021-08-01 12:34:56"), parts("2021", "08", "01", "12", "34", "56", ""));
    assert_eq!(dt("2021-08-01T12:34:56"), parts("2021", "08", "01", "12", "34", "56", ""));
    assert_eq!(dt("2021-08-01T12:34:56Z"), parts("2021", "08", "01", "12", "34", "56", ""));
    assert_eq!(dt("2021-08-01 12:34"), parts("2021", "08", "01", "12", "34", "00", ""));
    assert_eq!(dt("2021-08-01T12:34"), parts("2021", "08", "01", "12", "34", "00", ""));
    assert_eq!(dt("2021-08-01 12:34:56 +08:00"), parts("2021", "08", "01", "12", "34", "56", "+08:00"));
    assert_eq!(dt("2021-08-01T12:34:56+08:00"), parts("2021", "08", "01", "12", "34", "56", "+08:00"));
    assert_eq!(dt("2021-08-01T12:34:56.123456Z"), parts("2021", "08", "01", "12", "34", "56", ""));
    assert_eq!(dt("2021-08-01T12:34:56.123456-08:00"), parts("2021", "08", "01", "12", "34", "56", "-08:00"));
    assert_eq!(dt("  2021-08-01   12:34:56  "), parts("2021", "08", "01", "12", "34", "56", ""));
    assert_eq!(dt("2021-08-01 12:34:56 -05:30"), parts("2021", "08", "01", "12", "34", "56", "-05:30"));
    assert_eq!(dt("2021-08-01T12:34:56-08:00"), parts("2021", "08", "01", "12", "34", "56", "-08:00"));
    assert_eq!(dt("2021-08-01T12:34-08:00"), parts("2021", "08", "01", "12", "34", "00", "-08:00"));
    assert_eq!(dt("2021-08-01 12:34:56.5 Z"), parts("2021", "08", "01", "12", "34", "56", ""));
    assert_eq!(dt("1-2-3T4:5"), parts("1", "2", "3", "4", "5", "00", ""));
}

#[test]
fn a_text_that_is_no_date_and_time_is_refused() {
    let split = |text: &str| datetime_split(&js(&format!(r#"{{"datetime":"{}"}}"#, text))).unwrap_err();
    let e = split("2021-08-01");
    assert_eq!(e.kind, ErrorKind::Format);
    assert_eq!(e.message, "Invalid datetime format");
    assert_eq!(split("2021-08-01T").message, "Invalid time format");
    assert_eq!(split("2021-08-01x12:34").message, "Invalid datetime format");
    assert_eq!(split("").message, "Invalid date format");
    assert_eq!(split("-2021-08-01 12:34").message, "Invalid date format");
    assert_eq!(split("2021-08-01 12:34:56 UTC").message, "Invalid timezone format");
    assert_eq!(split("2021-08-01 12:34:56+0800").message, "Invalid timezone format");
    assert_eq!(split("2021-08-01 12:34:56Zulu").message, "Invalid timezone format");
    assert_eq!(split("2021-08-01 12:34:").message, "Invalid timezone format");
    assert_eq!(split("2021/08/01 12:34").message, "Invalid date format");
    assert_eq!(split("2021-08 12:34").message, "Invalid date format");
    assert_eq!(split("2021-08-01 1234").message, "Invalid time format");
    assert_eq!(message(datetime_split(&js(r#"{}"#))), "Missing `datetime` parameter");
    assert_eq!(message(datetime_split(&js(r#"{"datetime":5}"#))), "Missing `datetime` parameter");
}

#[test]
fn keys_are_replaced_by_their_values_in_turn() {
    assert_eq!(content(replace_text(&js(r#"{"text":"a-b-a","map":{"a":"x","b":"a"}}"#))), "x-a-x");
    assert_eq!(content(replace_text(&js(r#"{"text":"{name}.{ext}","map":{"{ext}":"png","{name}":"f"}}"#))), "f.png");
    assert_eq!(content(replace_text(&js(r#"{"text":"abc","map":{}}"#))), "abc");
    assert_eq!(message(replace_text(&js(r#"{"text":5,"map":{}}"#))), "text must be a string");
    assert_eq!(message(replace_text(&js(r#"{"text":"a"}"#))), "map must be a object");
    assert_eq!(message(replace_text(&js(r#"{"text":"a","map":[]}"#))), "map must be a object");
    assert_eq!(message(replace_text(&js(r#"{"text":"a","map":{"a":"b","c":1,"d":"e"}}"#))), "map value must be a string");
    assert_eq!(content(replace_words(&js(r#"{"text":"x \\bcat\\b y cat","map":{"cat":"dog"}}"#))), "x dog y cat");
    assert_eq!(message(replace_words(&js(r#"{"text":"a","map":{"a":null}}"#))), "map value must be a string");
}

#[test]
fn a_text_is_split_at_a_separator() {
    assert_eq!(content(split_text(&js(r#"{"text":"a,b,,c","separator":","}"#))), val(r#"["a","b","","c"]"#));
    assert_eq!(content(split_text(&js(r#"{"text":"abc","separator":"--"}"#))), val(r#"["abc"]"#));
    assert_eq!(content(split_text(&js(r#"{"text":"ab","separator":""}"#))), val(r#"["","a","b",""]"#));
    assert_eq!(message(split_text(&js(r#"{"separator":","}"#))), "text must be a string");
    assert_eq!(message(split_text(&js(r#"{"text":"a"}"#))), "separator must be a string");
}

#[test]
fn groups_are_extracted_from_a_match() {
    let p = r#"{"text":"IMG_2024-03-20_ 17h .jpg","pattern":"(\\d{4})-(\\d{2})-(\\d{2})_( \\d+h )?(x)?","captures":[1,3,4,0]}"#;
    assert_eq!(content(regex_extract(&js(p))), val(r#"["2024","20","17h","2024-03-20_ 17h"]"#));
    assert_eq!(content(regex_extract(&js(r#"{"text":"ab","pattern":"a","captures":[]}"#))), val("[]"));
    assert_eq!(message(regex_extract(&js(r#"{"pattern":"a","captures":[]}"#))), "`text` is required");
    assert_eq!(message(regex_extract(&js(r#"{"text":1,"pattern":"a","captures":[]}"#))), "`text` must be a string");
    assert_eq!(message(regex_extract(&js(r#"{"text":"a","captures":[]}"#))), "`pattern` is required");
    assert_eq!(message(regex_extract(&js(r#"{"text":"a","pattern":[],"captures":[]}"#))), "`pattern` must be a string");
    assert_eq!(message(regex_extract(&js(r#"{"text":"a","pattern":"a"}"#))), "`captures` is required");
    assert_eq!(message(regex_extract(&js(r#"{"text":"a","pattern":"a","captures":1}"#))), "`captures` must be a array");
    let e = regex_extract(&js(r#"{"text":"a","pattern":"b","captures":[0]}"#)).unwrap_err();
    assert_eq!(e.kind, ErrorKind::NotFound);
    assert_eq!(e.message, "pattern not match");
    assert_eq!(message(regex_extract(&js(r#"{"text":"a","pattern":"(a)","captures":[2]}"#))), "capture index out of range");
    assert_eq!(message(regex_extract(&js(r#"{"text":"a","pattern":"(a)(b)?","captures":[2]}"#))), "capture index out of range");
    assert_eq!(message(regex_extract(&js(r#"{"text":"a","pattern":"(a)","captures":["1"]}"#))), "capture index must be a number");
    assert_eq!(message(regex_extract(&js(r#"{"text":"a","pattern":"(a)","captures":[-1]}"#))), "capture index must be a number");
    let bad = message(regex_extract(&js(r#"{"text":"a","pattern":"(a","captures":[0]}"#)));
    assert!(bad.starts_with("pattern error: "), "{}", bad);
    assert!(bad.len() > "pattern error: ".len());
    let groups = vec![Some("whole".to_string()), None, Some(" x ".to_string())];
    let wanted = match js("[2,0]") {
        Json::Array(a) => a,
        _ => unreachable!(),
    };
    assert_eq!(extract_groups(&groups, &wanted).unwrap(), vec!["x", "whole"]);
}

#[test]
fn all_matches_are_found() {
    assert_eq!(content(regex_find_all(&js(r#"{"text":"a1b22c333","pattern":"\\d+"}"#))), val(r#"["1","22","333"]"#));
    assert_eq!(content(regex_find_all(&js(r#"{"text":"abc","pattern":"\\d+"}"#))), val("[]"));
    assert_eq!(message(regex_find_all(&js(r#"{"text":"abc"}"#))), "`pattern` is required");
    assert!(message(regex_find_all(&js(r#"{"text":"abc","pattern":"["}"#))).starts_with("pattern error: "));
}

#[test]
fn one_of_the_patterns_has_to_match() {
    assert_eq!(content(regex_match(&js(r#"{"text":"photo.JPG","patterns":["\\.png$","(?i)\\.jpg$"]}"#))), true);
    assert_eq!(content(regex_match(&js(r#"{"text":"photo.JPG","patterns":["\\.png$","\\.jpg$"]}"#))), false);
    assert_eq!(content(regex_match(&js(r#"{"text":"photo.JPG","pattern":"^photo"}"#))), true);
    assert_eq!(content(regex_match(&js(r#"{"text":"photo.JPG","patterns":[],"pattern":"^x"}"#))), false);
    // `patterns` goes before `pattern`
    assert_eq!(content(regex_match(&js(r#"{"text":"a","patterns":["b"],"pattern":"a"}"#))), false);
    // a pattern that matches ends the trial before a bad one is met
    assert_eq!(content(regex_match(&js(r#"{"text":"a","patterns":["a","("]}"#))), true);
    assert!(message(regex_match(&js(r#"{"text":"a","patterns":["(","a"]}"#))).starts_with("pattern error: "));
    assert_eq!(message(regex_match(&js(r#"{"text":"a"}"#))), "Missing `patterns` or `pattern` parameter");
    assert_eq!(message(regex_match(&js(r#"{"text":"a","patterns":[],"pattern":""}"#))), "Missing `patterns` or `pattern` parameter");
    assert_eq!(message(regex_match(&js(r#"{"patterns":["a"]}"#))), "Missing `text` parameter");
    assert_eq!(match_any(&vec![], "x").unwrap(), false);
    assert_eq!(match_any(&vec!["y".to_string(), "x".to_string()], "x").unwrap(), true);
}

#[test]
fn an_item_is_picked_from_the_front_or_the_back() {
    let get = |index: &str| get_item(&js(&format!(r#"{{"array":["a","b","c"],"index":{}}}"#, index)));
    assert_eq!(content(get("0")), "a");
    assert_eq!(content(get("2")), "c");
    assert_eq!(content(get("-1")), "c");
    assert_eq!(content(get("-3")), "a");
    assert_eq!(message(get("3")), "Index out of range");
    assert_eq!(message(get("-4")), "Index out of range");
    assert_eq!(message(get("-9223372036854775808")), "Index out of range");
    assert_eq!(message(get("9223372036854775807")), "Index out of range");
    assert_eq!(message(get("1.5")), "`index` must be an integer");
    assert_eq!(message(get("18446744073709551615")), "`index` must be an integer");
    assert_eq!(message(get(r#""1""#)), "`index` must be an integer");
    assert_eq!(message(get_item(&js(r#"{"index":0}"#))), "`array` is required");
    assert_eq!(message(get_item(&js(r#"{"array":{},"index":0}"#))), "`array` must be an array");
    assert_eq!(message(get_item(&js(r#"{"array":[]}"#))), "`index` is required");
    assert_eq!(message(get_item(&js(r#"{"array":[],"index":0}"#))), "Index out of range");
    assert_eq!(message(get_item(&js(r#"{"array":[],"index":-1}"#))), "Index out of range");
    assert_eq!(content(get_item(&js(r#"{"array":[{"x":[1]}],"index":0}"#))), val(r#"{"x":[1]}"#));
}

#[test]
fn a_member_is_found_along_a_path_of_keys() {
    let get = |path: &str| get_value(&js(&format!(r#"{{"dict":{{"a":{{"b":{{"c":[1,2]}},"n":null}},"x":1}},"key_path":"{}"}}"#, path)));
    assert_eq!(content(get("x")), 1);
    assert_eq!(content(get("a.b.c")), val("[1,2]"));
    assert_eq!(content(get("a.n")), val("null"));
    assert_eq!(content(get("a.b")), val(r#"{"c":[1,2]}"#));
    let e = get("a.z.c").unwrap_err();
    assert_eq!(e.kind, ErrorKind::NotFound);
    assert_eq!(e.message, "Key not found: z");
    assert_eq!(message(get("x.y")), "Key not found: y");
    assert_eq!(message(get("a.b.c.0")), "Key not found: 0");
    assert_eq!(message(get("")), "Key not found: ");
    assert_eq!(message(get("a..b")), "Key not found: ");
    assert_eq!(message(get_value(&js(r#"{"key_path":"a"}"#))), "`dict` is required");
    assert_eq!(message(get_value(&js(r#"{"dict":[],"key_path":"a"}"#))), "`dict` must be an object");
    assert_eq!(message(get_value(&js(r#"{"dict":{}}"#))), "`key_path` is required");
    assert_eq!(message(get_value(&js(r#"{"dict":{},"key_path":1}"#))), "`key_path` must be a string");
}

#[test]
fn versions_are_compared_on_request() {
    let cmp = |a: &str, op: &str, b: &str| compare(&js(&format!(r#"{{"version1":"{}","operator":"{}","version2":"{}"}}"#, a, op, b)));
    assert_eq!(content(cmp("1.2.3", ">=", "1.2")), true);
    assert_eq!(content(cmp("1.2.3", "lt", "1.2")), false);
    assert_eq!(content(cmp("1.2", "=", "1.2.0")), true);
    assert_eq!(message(cmp("1.2", "~", "1.2.0")), "Invalid operator");
    assert_eq!(message(cmp("x", "=", "1.2.0")), "Invalid version format");
    assert_eq!(message(compare(&js(r#"{"version2":"1.0","operator":"="}"#))), "`version1` is required");
    assert_eq!(message(compare(&js(r#"{"version1":1,"version2":"1.0","operator":"="}"#))), "`version1` must be a string");
    assert_eq!(message(compare(&js(r#"{"version1":"1.0","operator":"="}"#))), "`version2` is required");
    assert_eq!(message(compare(&js(r#"{"version1":"1.0","version2":"1.0"}"#))), "`operator` is required");
    assert_eq!(message(compare(&js(r#"{"version1":"1.0","version2":"1.0","operator":null}"#))), "`operator` must be a string");
}
