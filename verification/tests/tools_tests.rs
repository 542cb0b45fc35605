use filethings::errors::ErrorKind;
use filethings::registry::{load_tools, FunctionSource, ToolRegistry};
use filethings::resource::Environment;
use filethings::result::Status;
use filethings::tools::{
    check_tool_available, copy_texts, get_tool_bin_path, get_tools, mark_available,
    model_tool_mock_command_execution, names_of_type, record_probe, ToolCheck,
};
use filethings::json::{Json, JsonNumber};

fn from_value(v: &serde_json::Value) -> Json {
    match v {
        serde_json::Value::Null => Json::Null,
        serde_json::Value::Bool(b) => Json::Bool(*b),
        serde_json::Value::Number(n) => {
            if let Some(u) = n.as_u64() {
                Json::Number(JsonNumber::Unsigned(u))
            } else if let Some(i) = n.as_i64() {
                Json::Number(JsonNumber::Negative(i))
            } else {
                Json::Number(JsonNumber::Real(n.as_f64().unwrap().to_string()))
            }
        }
        serde_json::Value::String(s) => Json::String(s.clone()),
        serde_json::Value::Array(a) => Json::Array(a.iter().map(from_value).collect()),
        serde_json::Value::Object(o) => {
            Json::Object(o.iter().map(|(k, v)| (k.clone(), from_value(v))).collect())
        }
    }
}

fn to_value(j: &Json) -> serde_json::Value {
    match j {
        Json::Null => serde_json::Value::Null,
        Json::Bool(b) => serde_json::Value::Bool(*b),
        Json::Number(JsonNumber::Unsigned(u)) => serde_json::Value::from(*u),
        Json::Number(JsonNumber::Negative(i)) => serde_json::Value::from(*i),
        Json::Number(JsonNumber::Real(t)) => serde_json::Value::from(t.parse::<f64>().unwrap()),
        Json::String(s) => serde_json::Value::String(s.clone()),
        Json::Array(a) => serde_json::Value::Array(a.iter().map(to_value).collect()),
        Json::Object(o) => {
            let mut m = serde_json::Map::new();
            for (k, v) in o {
                m.insert(k.clone(), to_value(v));
            }
            serde_json::Value::Object(m)
        }
    }
}

fn js(text: &str) -> Json {
    from_value(&serde_json::from_str::<serde_json::Value>(text).unwrap())
}

fn val(text: &str) -> serde_json::Value {
    serde_json::from_str::<serde_json::Value>(text).unwrap()
}

fn env(platform: &str, version: &str) -> Environment {
    Environment {
        platform: platform.to_string(),
        app_version: version.to_string(),
        data_dir: Some("/data".to_string()),
        home_dir: Some("/home/u".to_string()),
        exe_dir: Some("/opt/app".to_string()),
        separator: '/',
        debug: false,
    }
}

fn exe_config() -> Json {
    js(r#"{
        "type": "tool.exe",
        "profile": {"title": {"en": "ExifTool"}, "summary": "reads metadata", "version": "12.0", "website": "https://exiftool.org", "authors": ["P"]},
        "matches": {"platforms": ["Linux", "macos"], "extensions": ["*"], "app": {"min": "1.0.0", "max": "2.9"}},
        "bin": {"path": {"linux": "tools/exiftool/exiftool", "*": "exiftool"}, "version_arguments": ["-ver"], "required_version": {"min": "12.0", "max": ""}, "installation": {"url": "x"}}
    }"#)
}

fn model_config() -> Json {
    js(r#"{
        "type": "tool.model",
        "profile": {"title": "RMBG", "summary": "", "version": "1", "website": "", "authors": null},
        "matches": {"platforms": ["*"], "extensions": [], "app": {"min": "", "max": ""}},
        "bin": {"path": {"*": "models/rmbg/model.onnx"}}
    }"#)
}

fn file_config(extensions: &str) -> Json {
    js(&format!(r#"{{
        "type": "file",
        "profile": {{"title": "T", "summary": "S", "version": "1.0", "website": "", "authors": []}},
        "matches": {{"platforms": ["*"], "extensions": {}, "app": {{"min": "1.0", "max": ""}}}},
        "variables": {{"quality": 80}}
    }}"#, extensions))
}

fn source(dirname: &str, config: Option<Json>, worker_exists: bool) -> FunctionSource {
    FunctionSource { dirname: dirname.to_string(), config, worker_exists }
}

fn tool_registry() -> ToolRegistry {
    let mut registry = ToolRegistry::new();
    let e = env("linux", "1.5.0");
    load_tools(
        &mut registry,
        &vec![source("exiftool", Some(exe_config()), true)],
        "/f/executables",
        &vec![source("briaai_rmbg", Some(model_config()), true)],
        "/f/models",
        "/f",
        &e,
    );
    registry
}

#[test]
fn a_tool_that_is_not_known_to_work_has_to_be_probed() {
    let registry = tool_registry();
    match check_tool_available(&registry, "tool.exe.exiftool").unwrap() {
        ToolCheck::Executable(c) => {
            assert_eq!(c.program, "/data/FileThings/tools/exiftool/exiftool");
            assert_eq!(c.arguments, vec!["-ver"]);
        }
        other => panic!("{:?}", other),
    }
    match check_tool_available(&registry, "tool.model.briaai_rmbg").unwrap() {
        ToolCheck::ModelFile(p) => assert_eq!(p, "/data/FileThings/models/rmbg/model.onnx"),
        other => panic!("{:?}", other),
    }
    assert_eq!(check_tool_available(&registry, "tool.exe.ffmpeg").unwrap(), ToolCheck::Absent);
}

#[test]
fn a_tool_that_worked_once_stays_available() {
    let mut registry = tool_registry();
    assert!(!record_probe(&mut registry, "tool.exe.exiftool", false));
    assert!(matches!(check_tool_available(&registry, "tool.exe.exiftool").unwrap(), ToolCheck::Executable(_)));
    assert!(record_probe(&mut registry, "tool.exe.exiftool", true));
    assert_eq!(check_tool_available(&registry, "tool.exe.exiftool").unwrap(), ToolCheck::Available);
    // whatever is recorded afterwards, of this tool or another
    assert!(!record_probe(&mut registry, "tool.exe.exiftool", false));
    assert!(record_probe(&mut registry, "tool.model.briaai_rmbg", true));
    assert!(!record_probe(&mut registry, "tool.exe.ffmpeg", false));
    assert!(record_probe(&mut registry, "tool.exe.ffmpeg", true));
    for _ in 0..3 {
        assert_eq!(check_tool_available(&registry, "tool.exe.exiftool").unwrap(), ToolCheck::Available);
        assert_eq!(check_tool_available(&registry, "tool.model.briaai_rmbg").unwrap(), ToolCheck::Available);
    }
    assert_eq!(check_tool_available(&registry, "tool.exe.ffmpeg").unwrap(), ToolCheck::Absent);
    assert_eq!(registry.tools.len(), 2);
    mark_available(&mut registry, "tool.exe.none");
    assert!(registry.tools.iter().all(|t| t.available));
}

#[test]
fn a_tool_of_an_unknown_type_cannot_be_probed() {
    let mut registry = tool_registry();
    registry.tools[0].func_type = "tool.script".to_string();
    let e = check_tool_available(&registry, "tool.exe.exiftool").unwrap_err();
    assert_eq!(e.kind, ErrorKind::Unsupported);
    assert_eq!(e.message, "Unknown tool type: tool.script");
}

#[test]
fn the_catalog_is_listed_by_type() {
    let mut registry = tool_registry();
    let e = env("linux", "1.5.0");
    filethings::registry::load_tool_functions(&mut registry, "tool.exe", &vec![source("aaa", Some(exe_config()), true)], "/f/executables", "/f", &e);
    assert_eq!(names_of_type(&registry, "tool.exe"), vec!["tool.exe.aaa", "tool.exe.exiftool"]);
    assert_eq!(names_of_type(&registry, "tool.model"), vec!["tool.model.briaai_rmbg"]);
    assert!(names_of_type(&registry, "file").is_empty());
    let r = get_tools(&registry).unwrap();
    assert_eq!(r.status, Status::Success);
    let v = to_value(&r.content);
    assert_eq!(v["exe_names"], val(r#"["tool.exe.aaa","tool.exe.exiftool"]"#));
    assert_eq!(v["model_names"], val(r#"["tool.model.briaai_rmbg"]"#));
    assert_eq!(v["items"].as_object().unwrap().len(), 3);
    assert_eq!(v["items"]["tool.exe.exiftool"]["bin_path"], "/data/FileThings/tools/exiftool/exiftool");
    assert_eq!(v["items"]["tool.model.briaai_rmbg"]["func_type"], "tool.model");
    assert_eq!(copy_texts(&vec!["a".to_string(), "b".to_string()]), vec!["a", "b"]);
}

#[test]
fn the_path_of_a_tool_is_told() {
    let registry = tool_registry();
    let r = get_tool_bin_path(&registry, &js(r#"{"tool_name":"tool.exe.exiftool"}"#)).unwrap();
    assert_eq!(to_value(&r.content), val(r#""/data/FileThings/tools/exiftool/exiftool""#));
    let r = get_tool_bin_path(&registry, &js(r#"{"name":"tool.model.briaai_rmbg"}"#)).unwrap();
    assert_eq!(to_value(&r.content), val(r#""/data/FileThings/models/rmbg/model.onnx""#));
    let r = get_tool_bin_path(&registry, &js(r#"{"name":"tool.exe.ffmpeg"}"#)).unwrap();
    assert_eq!(r.status, Status::Failed);
    assert_eq!(r.message, "Tool `tool.exe.ffmpeg` not found.");
    assert!(r.content.is_null());
    let e = get_tool_bin_path(&registry, &js(r#"{}"#)).unwrap_err();
    assert_eq!(e.message, "Missing parameter: tool_name");
}

#[test]
fn a_model_answers_in_place_of_a_run() {
    let r = model_tool_mock_command_execution("/m", &js(r#"{"arguments":["-v"]}"#)).unwrap();
    assert_eq!(to_value(&r.to_json()), val(r#"{"status":"ok","content":"is_exists","message":"","output_paths":[]}"#));
    let r = model_tool_mock_command_execution("/m", &js(r#"{"arguments":["--version","x"]}"#)).unwrap();
    assert_eq!(to_value(&r.content), val(r#""is_exists""#));
    let r = model_tool_mock_command_execution("/any/model.onnx", &js(r#"{"arguments":["run","x.png"]}"#)).unwrap();
    assert_eq!(to_value(&r.to_json()), val(r#"{"status":"error","content":null,"message":"Unsupported argument: run","output_paths":[]}"#));
    let r = model_tool_mock_command_execution("/m", &js(r#"{"arguments":[5]}"#)).unwrap();
    assert_eq!(r.status, Status::Failed);
    assert_eq!(r.message, "Unsupported argument: ");
    assert!(r.content.is_null());
    for p in [r#"{"arguments":[]}"#, r#"{}"#, r#"{"arguments":"-v"}"#] {
        let r = model_tool_mock_command_execution("/m", &js(p)).unwrap();
        assert_eq!(r.status, Status::Failed);
        assert_eq!(r.message, "No arguments provided.");
    }
}
