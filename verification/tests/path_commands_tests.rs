use filethings::errors::ErrorKind;
use filethings::params::{get_optional_bool, get_optional_string, get_required_string, get_string_val_from_params, parse_file_conversion_params, FileConversionParams};
use filethings::path_commands::{
    absolute_with_home_dir, delete_done, delete_path, delete_targets, exists_done, is_exists,
    join_path, make_unused_file_path, new_temp_file_path, open_url_command,
    relative_with_home_dir, reveal_path, split_path, temp_file_path, temp_file_request, Deletion,
};
use filethings::paths::PathNode;
use filethings::resource::Environment;
use filethings::json::{Json, JsonNumber};

fn from_value(v: &serde_json::Value) -> Json {
    match v {
        serde_json::Value::Null => Json::Null,
        serde_json::Value::Bool(b) => Json::Bool(*b),
        serde_json::Value::Number(n) => {
            if let Some(u) = n.as_u64() {
                Json::Number(JsonNumber::Unsigned(u))
            } else if let Some(i) = n.as_i64() {
                Json::Number(JsonNumber::Negative(i))
            } else {
                Json::Number(JsonNumber::Real(n.as_f64().unwrap().to_string()))
            }
        }
        serde_json::Value::String(s) => Json::String(s.clone()),
        serde_json::Value::Array(a) => Json::Array(a.iter().map(from_value).collect()),
        serde_json::Value::Object(o) => {
            Json::Object(o.iter().map(|(k, v)| (k.clone(), from_value(v))).collect())
        }
    }
}

fn to_value(j: &Json) -> serde_json::Value {
    match j {
        Json::Null => serde_json::Value::Null,
        Json::Bool(b) => serde_json::Value::Bool(*b),
        Json::Number(JsonNumber::Unsigned(u)) => serde_json::Value::from(*u),
        Json::Number(JsonNumber::Negative(i)) => serde_json::Value::from(*i),
        Json::Number(JsonNumber::Real(t)) => serde_json::Value::from(t.parse::<f64>().unwrap()),
        Json::String(s) => serde_json::Value::String(s.clone()),
        Json::Array(a) => serde_json::Value::Array(a.iter().map(to_value).collect()),
        Json::Object(o) => {
            let mut m = serde_json::Map::new();
            for (k, v) in o {
                m.insert(k.clone(), to_value(v));
            }
            serde_json::Value::Object(m)
        }
    }
}

fn js(text: &str) -> Json {
    from_value(&serde_json::from_str::<serde_json::Value>(text).unwrap())
}

fn val(text: &str) -> serde_json::Value {
    serde_json::from_str::<serde_json::Value>(text).unwrap()
}

fn content(r: Result<filethings::result::CommandResult, filethings::errors::CommandError>) -> serde_json::Value {
    to_value(&r.unwrap().content)
}

fn message<T: std::fmt::Debug>(r: Result<T, filethings::errors::CommandError>) -> String {
    r.unwrap_err().message
}

fn env() -> Environment {
    Environment {
        platform: "linux".to_string(),
        app_version: "1.4.2".to_string(),
        data_dir: Some("/data".to_string()),
        home_dir: Some("/home/u".to_string()),
        exe_dir: Some("/opt/app".to_string()),
        separator: '/',
        debug: false,
    }
}

#[test]
fn own_paths_are_removed_for_good_and_others_go_to_the_trash() {
    let app = "/data/FileThings";
    let targets = vec![
        PathNode::file("/data/FileThings/.temp/a.png", 3),
        PathNode::dir("/data/FileThings/.temp/work", vec![]),
        PathNode::missing("/data/FileThings/.temp/gone"),
        PathNode::file("/home/u/a.png", 3),
        PathNode::dir("/home/u/dir", vec![]),
        PathNode::missing("/nowhere"),
        PathNode::file("/data/FileThingsX/a", 1),
        PathNode::dir("/data/FileThings", vec![]),
        PathNode::file("/x/data/FileThings/a", 1),
    ];
    let plan = delete_path(&targets, app, '/');
    assert_eq!(plan, vec![
        Deletion::RemoveFile("/data/FileThings/.temp/a.png".to_string()),
        Deletion::RemoveDir("/data/FileThings/.temp/work".to_string()),
        Deletion::Nothing("/data/FileThings/.temp/gone".to_string()),
        Deletion::Trash("/home/u/a.png".to_string()),
        Deletion::Trash("/home/u/dir".to_string()),
        Deletion::Trash("/nowhere".to_string()),
        Deletion::Trash("/data/FileThingsX/a".to_string()),
        Deletion::Trash("/data/FileThings".to_string()),
        Deletion::Trash("/x/data/FileThings/a".to_string()),
    ]);
    // without a data directory everything goes to the trash
    let plan = delete_path(&vec![PathNode::file("/a", 1)], "", '/');
    assert_eq!(plan, vec![Deletion::Trash("/a".to_string())]);
    assert!(delete_path(&vec![], app, '/').is_empty());
    assert_eq!(to_value(&delete_done(3).to_json()), val(r#"{"status":"ok","content":3,"message":"","output_paths":[]}"#));
}

#[test]
fn the_paths_to_delete_are_read() {
    assert_eq!(delete_targets(&js(r#"{"input_paths":["/a","",5,"/b"]}"#)).unwrap(), vec!["/a", "/b"]);
    assert_eq!(delete_targets(&js(r#"{"paths":["/c"]}"#)).unwrap(), vec!["/c"]);
    assert_eq!(delete_targets(&js(r#"{"input_paths":[],"paths":["/c"]}"#)).unwrap(), Vec::<String>::new());
    assert_eq!(message(delete_targets(&js(r#"{"input_paths":"/a"}"#))), "input_paths must be an array");
    assert_eq!(message(delete_targets(&js(r#"{"paths":"/a"}"#))), "paths must be an array");
    assert_eq!(message(delete_targets(&js(r#"{}"#))), "parameter `input_paths` or `paths` is required");
}

#[test]
fn paths_are_shown_by_the_platform() {
    let c = reveal_path("macos", "/a b").unwrap();
    assert_eq!((c.program.as_str(), c.arguments), ("open", vec!["-R".to_string(), "/a b".to_string()]));
    let c = reveal_path("windows", "C:\\a").unwrap();
    assert_eq!((c.program.as_str(), c.arguments), ("explorer", vec!["/select,".to_string(), "C:\\a".to_string()]));
    let c = reveal_path("linux", "/a").unwrap();
    assert_eq!((c.program.as_str(), c.arguments), ("xdg-open", vec!["/a".to_string()]));
    assert_eq!(reveal_path("freebsd", "/a"), None);
    let c = open_url_command("windows", "https://x").unwrap();
    assert_eq!((c.program.as_str(), c.arguments), ("powershell", vec!["start".to_string(), "https://x".to_string()]));
    assert_eq!(open_url_command("macos", "https://x").unwrap().program, "open");
    assert_eq!(open_url_command("linux", "https://x").unwrap().arguments, vec!["https://x"]);
    assert_eq!(open_url_command("", "https://x"), None);
}

#[test]
fn simple_requests_about_paths() {
    assert_eq!(is_exists(&js(r#"{"input_path":"/a"}"#)).unwrap(), "/a");
    assert_eq!(is_exists(&js(r#"{"path":"/b"}"#)).unwrap(), "/b");
    assert_eq!(message(is_exists(&js(r#"{}"#))), "Missing parameter: input_path");
    assert_eq!(to_value(&exists_done(true).content), val("true"));
    assert_eq!(content(split_path(&js(r#"{"file_path":"/tmp/Photo.JPG"}"#))), val(r#"{"dir":"/tmp","stem":"Photo","ext":"jpg"}"#));
    assert_eq!(content(split_path(&js(r#"{"path":"/tmp/noext"}"#))), val(r#"{"dir":"/tmp","stem":"noext","ext":""}"#));
    assert_eq!(message(split_path(&js(r#"{"path":7}"#))), "Invalid parameter: path");
    assert_eq!(content(join_path(&js(r#"{"parts":["/a","b",5,"c.txt"]}"#))), "/a/b/c.txt");
    assert_eq!(content(join_path(&js(r#"{"parts":["a"]}"#))), "a");
    assert_eq!(content(join_path(&js(r#"{"parts":["a","/abs"]}"#))), "/abs");
    assert_eq!(message(join_path(&js(r#"{}"#))), "`parts` is required");
    assert_eq!(message(join_path(&js(r#"{"parts":"a"}"#))), "`parts` must be an array");
    assert_eq!(message(join_path(&js(r#"{"parts":[]}"#))), "`parts` must not be empty");
    assert_eq!(content(relative_with_home_dir(&js(r#"{"input_paths":["/home/u/a","/tmp/b"]}"#), Some("/home/u"))), val(r#"["~/a","/tmp/b"]"#));
    assert_eq!(content(absolute_with_home_dir(&js(r#"{"input_paths":["~/a","/tmp/b"]}"#), Some("/home/u"), '/')), val(r#"["/home/u/a","/tmp/b"]"#));
    assert_eq!(message(relative_with_home_dir(&js(r#"{}"#), None)), "input_paths is required");
    assert_eq!(message(relative_with_home_dir(&js(r#"{"input_paths":1}"#), None)), "input_paths must be an array");
    assert_eq!(message(absolute_with_home_dir(&js(r#"{"input_paths":["a",1]}"#), None, '/')), "path must be a string");
}

#[test]
fn unused_and_temporary_paths() {
    let taken = vec!["/tmp/a.svg".to_string()];
    assert_eq!(content(make_unused_file_path(&js(r#"{"input_file":"/tmp/a.png","ext":"svg"}"#), &taken)), "/tmp/a-1.svg");
    assert_eq!(content(make_unused_file_path(&js(r#"{"input_file":"/tmp/a.png","to_format":"svg"}"#), &vec![])), "/tmp/a.svg");
    assert_eq!(content(make_unused_file_path(&js(r#"{"input_file":"/tmp/a.png"}"#), &taken)), "/tmp/a.png");
    assert_eq!(message(make_unused_file_path(&js(r#"{}"#), &taken)), "Missing parameter: input_file");
    assert_eq!(temp_file_path("/t", "id", "png"), "/t/id.png");
    let a = new_temp_file_path("/t", "png");
    let b = new_temp_file_path("/t", "png");
    assert!(a.starts_with("/t/") && a.ends_with(".png"));
    assert_eq!(a.len(), "/t/".len() + 36 + ".png".len());
    assert_ne!(a, b);
    let e = env();
    assert_eq!(temp_file_request(&js(r#"{}"#), &e).unwrap(), ("/data/FileThings/.temp".to_string(), "tmp".to_string()));
    assert_eq!(temp_file_request(&js(r#"{"ext":"png","dir":"/w"}"#), &e).unwrap(), ("/w".to_string(), "png".to_string()));
    assert_eq!(temp_file_request(&js(r#"{"extension":"jpg","parent_dir":"/p","dir":"/w"}"#), &e).unwrap(), ("/p".to_string(), "jpg".to_string()));
    assert_eq!(message(temp_file_request(&js(r#"{"ext":1}"#), &e)), "ext must be a string");
    assert_eq!(message(temp_file_request(&js(r#"{"extension":1}"#), &e)), "extension must be a string");
    assert_eq!(message(temp_file_request(&js(r#"{"parent_dir":1}"#), &e)), "parent_dir must be a string");
    assert_eq!(message(temp_file_request(&js(r#"{"dir":[]}"#), &e)), "dir must be a string");
    let mut n = env();
    n.data_dir = None;
    assert_eq!(message(temp_file_request(&js(r#"{}"#), &n)), "Can't get dir for temp file: Cannot get user's data directory");
}

#[test]
fn text_parameters_are_read_under_any_of_their_keys() {
    let p = js(r#"{"input_path":"/b","empty":"","n":5,"flag":true,"null":null}"#);
    assert_eq!(get_string_val_from_params(vec!["input_file", "input_path"], &p).unwrap(), "/b");
    assert_eq!(get_string_val_from_params(vec!["null", "input_path"], &p).unwrap(), "/b");
    let e = get_string_val_from_params(vec!["a", "b"], &p).unwrap_err();
    assert_eq!(e.kind, ErrorKind::Param);
    assert_eq!(e.message, "Missing parameter: a");
    assert_eq!(message(get_string_val_from_params(vec!["x", "n", "input_path"], &p)), "Invalid parameter: n");
    assert_eq!(message(get_string_val_from_params(vec!["empty", "input_path"], &p)), "Missing value for parameter: empty");
    assert_eq!(message(get_string_val_from_params(vec!["a"], &js("[1]"))), "Missing parameter: a");
    assert_eq!(message(get_string_val_from_params(vec![], &p)), "Missing parameter: ");
    assert_eq!(get_optional_string(&p, "zz", "m").unwrap(), None);
    assert_eq!(get_optional_string(&p, "empty", "m").unwrap(), Some("".to_string()));
    assert_eq!(message(get_optional_string(&p, "n", "n must be a string")), "n must be a string");
    assert_eq!(get_required_string(&p, "input_path", "a", "b").unwrap(), "/b");
    assert_eq!(message(get_required_string(&p, "zz", "zz is required", "b")), "zz is required");
    assert_eq!(message(get_required_string(&p, "n", "a", "n must be a string")), "n must be a string");
    assert_eq!(get_optional_bool(&p, "flag", "m").unwrap(), true);
    assert_eq!(get_optional_bool(&p, "zz", "m").unwrap(), false);
    assert_eq!(message(get_optional_bool(&p, "n", "n must be a boolean")), "n must be a boolean");
}

#[test]
fn conversion_parameters_are_read() {
    let n = FileConversionParams::new();
    assert!(n.input_file.is_empty() && n.output_file.is_empty() && n.output_dir.is_empty());
    assert!(n.src_ext.is_empty() && n.target_ext.is_empty() && n.actual_output_file.is_empty() && !n.is_bulk);
    let p = parse_file_conversion_params(&js(r#"{"input_file":"/a/Photo.JPG","output_path":"/b/photo.Svg"}"#)).unwrap();
    assert_eq!(p.input_file, "/a/Photo.JPG");
    assert_eq!(p.output_file, "/b/photo.Svg");
    assert_eq!(p.actual_output_file, "/b/photo.Svg");
    assert_eq!(p.src_ext, "jpg");
    assert_eq!(p.target_ext, "svg");
    assert!(!p.is_bulk);
    assert_eq!(message(parse_file_conversion_params(&js(r#"{"output_file":"/b"}"#))), "Missing parameter: input_file");
    assert_eq!(message(parse_file_conversion_params(&js(r#"{"input_file":"/a"}"#))), "Missing parameter: output_file");
    assert_eq!(message(parse_file_conversion_params(&js(r#"{"input_file":"/a","output_file":""}"#))), "Missing value for parameter: output_file");
}
