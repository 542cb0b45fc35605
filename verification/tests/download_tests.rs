use filethings::archive::{entry_escapes, plan_entry, unzip_done, unzip_file};
use filethings::download::{
    decide_response, download_done, download_file, download_outcome, plan_download,
    response_failure, ResponseDecision,
};
use filethings::errors::ErrorKind;
use filethings::result::Status;
use filethings::json::{Json, JsonNumber};

fn from_value(v: &serde_json::Value) -> Json {
    match v {
        serde_json::Value::Null => Json::Null,
        serde_json::Value::Bool(b) => Json::Bool(*b),
        serde_json::Value::Number(n) => {
            if let Some(u) = n.as_u64() {
                Json::Number(JsonNumber::Unsigned(u))
            } else if let Some(i) = n.as_i64() {
                Json::Number(JsonNumber::Negative(i))
            } else {
                Json::Number(JsonNumber::Real(n.as_f64().unwrap().to_string()))
            }
        }
        serde_json::Value::String(s) => Json::String(s.clone()),
        serde_json::Value::Array(a) => Json::Array(a.iter().map(from_value).collect()),
        serde_json::Value::Object(o) => {
            Json::Object(o.iter().map(|(k, v)| (k.clone(), from_value(v))).collect())
        }
    }
}

fn to_value(j: &Json) -> serde_json::Value {
    match j {
        Json::Null => serde_json::Value::Null,
        Json::Bool(b) => serde_json::Value::Bool(*b),
        Json::Number(JsonNumber::Unsigned(u)) => serde_json::Value::from(*u),
        Json::Number(JsonNumber::Negative(i)) => serde_json::Value::from(*i),
        Json::Number(JsonNumber::Real(t)) => serde_json::Value::from(t.parse::<f64>().unwrap()),
        Json::String(s) => serde_json::Value::String(s.clone()),
        Json::Array(a) => serde_json::Value::Array(a.iter().map(to_value).collect()),
        Json::Object(o) => {
            let mut m = serde_json::Map::new();
            for (k, v) in o {
                m.insert(k.clone(), to_value(v));
            }
            serde_json::Value::Object(m)
        }
    }
}

fn js(text: &str) -> Json {
    from_value(&serde_json::from_str::<serde_json::Value>(text).unwrap())
}

fn val(text: &str) -> serde_json::Value {
    serde_json::from_str::<serde_json::Value>(text).unwrap()
}

#[test]
fn range_not_satisfiable_while_resuming_is_a_success() {
    assert_eq!(decide_response(416, true), ResponseDecision::AlreadyComplete);
    let request = download_file(&js(r#"{"url":"https://x/a.bin","output_file":"/d/a.bin","resume":true}"#)).unwrap();
    let done = download_outcome(&request, 416, "416 Range Not Satisfiable").unwrap();
    assert_eq!(done.status, Status::Success);
    assert_eq!(to_value(&done.to_json()), val(r#"{"status":"ok","content":"/d/a.bin","message":"File downloaded successfully","output_paths":["/d/a.bin"]}"#));
    // the file that is there is neither removed nor cut: writing would go on at its end
    let plan = plan_download(true, 1234, true);
    assert!(!plan.remove_existing);
    assert!(plan.append);
    assert_eq!(plan.start, 1234);
    assert_eq!(plan.range.as_deref(), Some("bytes=1234-"));
}

#[test]
fn other_answers_of_the_server() {
    assert_eq!(decide_response(200, false), ResponseDecision::Stream);
    assert_eq!(decide_response(206, true), ResponseDecision::Stream);
    assert_eq!(decide_response(299, true), ResponseDecision::Stream);
    assert_eq!(decide_response(199, true), ResponseDecision::Fail);
    assert_eq!(decide_response(300, false), ResponseDecision::Fail);
    assert_eq!(decide_response(404, true), ResponseDecision::Fail);
    assert_eq!(decide_response(416, false), ResponseDecision::Fail);
    assert_eq!(decide_response(500, false), ResponseDecision::Fail);
    let e = response_failure("404 Not Found", "https://x/a");
    assert_eq!(e.kind, ErrorKind::Io);
    assert_eq!(e.message, "404 Not Found. URL: https://x/a");
    let request = download_file(&js(r#"{"url":"https://x/a.bin","output_file":"/d/a.bin"}"#)).unwrap();
    assert_eq!(download_outcome(&request, 416, "416 Range Not Satisfiable").unwrap_err().message, "416 Range Not Satisfiable. URL: https://x/a.bin");
    assert_eq!(download_outcome(&request, 200, "200 OK").unwrap().message, "File downloaded successfully");
    assert_eq!(to_value(&download_done("/d/x").content), val(r#""/d/x""#));
}

#[test]
fn the_file_is_prepared_for_the_download() {
    let fresh = plan_download(false, 0, false);
    assert!(!fresh.remove_existing && fresh.create_parent && !fresh.append);
    assert_eq!(fresh.start, 0);
    assert_eq!(fresh.range, None);
    let replace = plan_download(true, 77, false);
    assert!(replace.remove_existing && !replace.create_parent && !replace.append);
    assert_eq!(replace.start, 0);
    assert_eq!(replace.range, None);
    let resume_new = plan_download(false, 0, true);
    assert!(!resume_new.remove_existing && resume_new.create_parent && resume_new.append);
    assert_eq!(resume_new.range.as_deref(), Some("bytes=0-"));
    let resume_big = plan_download(true, u64::MAX, true);
    assert_eq!(resume_big.range.as_deref(), Some("bytes=18446744073709551615-"));
}

#[test]
fn a_download_request_is_read() {
    let r = download_file(&js(r#"{"url":"https://x/a","output_path":"/d/a","resume":true,"headers":{"Accept":"*/*","X-N":5}}"#)).unwrap();
    assert_eq!(r.url, "https://x/a");
    assert_eq!(r.output_file, "/d/a");
    assert!(r.resume);
    assert_eq!(r.headers, Some(vec![("Accept".to_string(), "*/*".to_string()), ("X-N".to_string(), "".to_string())]));
    let r = download_file(&js(r#"{"url":"https://x/a","output_file":"/d/a","resume":"yes","headers":[]}"#)).unwrap();
    assert!(!r.resume);
    assert_eq!(r.headers, None);
    assert_eq!(download_file(&js(r#"{"output_file":"/d/a"}"#)).unwrap_err().message, "`url` is required");
    assert_eq!(download_file(&js(r#"{"url":5,"output_file":"/d/a"}"#)).unwrap_err().message, "`url` is required");
    assert_eq!(download_file(&js(r#"{"url":"u"}"#)).unwrap_err().message, "Missing parameter: output_file");
    assert_eq!(download_file(&js(r#"{"url":"u","output_file":""}"#)).unwrap_err().message, "Missing value for parameter: output_file");
}

#[test]
fn entries_that_lead_out_of_the_target_are_refused() {
    for name in ["a.txt", "dir/a.txt", "dir/", "a..b/c", "...", "dir\\a.txt", ".hidden/..x"] {
        assert!(!entry_escapes(name), "{}", name);
    }
    for name in ["", "/etc/passwd", "\\windows", "..", "../a", "a/../../b", "a/..", "a\\..\\b", "C:/x", "c:\\x", "a/b/../c"] {
        assert!(entry_escapes(name), "{}", name);
    }
    let plan = plan_entry("/out", "dir/a.txt", false).unwrap();
    assert_eq!(plan.path, "/out/dir/a.txt");
    assert!(!plan.is_dir);
    assert_eq!(plan.parent.as_deref(), Some("/out/dir"));
    let plan = plan_entry("/out", "dir/sub", true).unwrap();
    assert_eq!(plan.path, "/out/dir/sub");
    assert!(plan.is_dir);
    assert_eq!(plan.parent, None);
    let e = plan_entry("/out", "../evil", false).unwrap_err();
    assert_eq!(e.kind, ErrorKind::Io);
    assert_eq!(e.message, "Archive entry leads out of the target directory: ../evil");
    assert!(plan_entry("/out", "/abs", true).is_err());
}

#[test]
fn an_unzip_request_is_read() {
    let r = unzip_file(&js(r#"{"input_file":"/d/a.zip","output_dir":"/d/out"}"#)).unwrap();
    assert_eq!(r.input_file, "/d/a.zip");
    assert_eq!(r.output_dir, "/d/out");
    assert_eq!(unzip_file(&js(r#"{"output_dir":"/d/out"}"#)).unwrap_err().message, "Missing parameter: input_file");
    assert_eq!(unzip_file(&js(r#"{"input_path":"/d/a.zip"}"#)).unwrap_err().message, "Missing parameter: output_dir");
    assert_eq!(to_value(&unzip_done("/d/out").to_json()), val(r#"{"status":"ok","content":"/d/out","message":"File unzipped successfully","output_paths":["/d/out"]}"#));
}
