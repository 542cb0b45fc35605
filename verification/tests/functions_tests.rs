use filethings::errors::ErrorKind;
use filethings::functions::{
    check_admitted, lowered_tokens, push_unique, texts_in, FileFunction, FunctionMatches,
    FunctionProfile, ToolFunction,
};
use filethings::registry::{
    descriptor_paths, load_functions, load_tool_functions, load_tools, FileRegistry,
    FunctionSource, ToolRegistry,
};
use filethings::resource::Environment;
use filethings::json::{Json, JsonNumber};

fn from_value(v: &serde_json::Value) -> Json {
    match v {
        serde_json::Value::Null => Json::Null,
        serde_json::Value::Bool(b) => Json::Bool(*b),
        serde_json::Value::Number(n) => {
            if let Some(u) = n.as_u64() {
                Json::Number(JsonNumber::Unsigned(u))
            } else if let Some(i) = n.as_i64() {
                Json::Number(JsonNumber::Negative(i))
            } else {
                Json::Number(JsonNumber::Real(n.as_f64().unwrap().to_string()))
            }
        }
        serde_json::Value::String(s) => Json::String(s.clone()),
        serde_json::Value::Array(a) => Json::Array(a.iter().map(from_value).collect()),
        serde_json::Value::Object(o) => {
            Json::Object(o.iter().map(|(k, v)| (k.clone(), from_value(v))).collect())
        }
    }
}

fn to_value(j: &Json) -> serde_json::Value {
    match j {
        Json::Null => serde_json::Value::Null,
        Json::Bool(b) => serde_json::Value::Bool(*b),
        Json::Number(JsonNumber::Unsigned(u)) => serde_json::Value::from(*u),
        Json::Number(JsonNumber::Negative(i)) => serde_json::Value::from(*i),
        Json::Number(JsonNumber::Real(t)) => serde_json::Value::from(t.parse::<f64>().unwrap()),
        Json::String(s) => serde_json::Value::String(s.clone()),
        Json::Array(a) => serde_json::Value::Array(a.iter().map(to_value).collect()),
        Json::Object(o) => {
            let mut m = serde_json::Map::new();
            for (k, v) in o {
                m.insert(k.clone(), to_value(v));
            }
            serde_json::Value::Object(m)
        }
    }
}

fn js(text: &str) -> Json {
    from_value(&serde_json::from_str::<serde_json::Value>(text).unwrap())
}

fn val(text: &str) -> serde_json::Value {
    serde_json::from_str::<serde_json::Value>(text).unwrap()
}

fn env(platform: &str, version: &str) -> Environment {
    Environment {
        platform: platform.to_string(),
        app_version: version.to_string(),
        data_dir: Some("/data".to_string()),
        home_dir: Some("/home/u".to_string()),
        exe_dir: Some("/opt/app".to_string()),
        separator: '/',
        debug: false,
    }
}

fn exe_config() -> Json {
    js(r#"{
        "type": "tool.exe",
        "profile": {"title": {"en": "ExifTool"}, "summary": "reads metadata", "version": "12.0", "website": "https://exiftool.org", "authors": ["P"]},
        "matches": {"platforms": ["Linux", "macos"], "extensions": ["*"], "app": {"min": "1.0.0", "max": "2.9"}},
        "bin": {"path": {"linux": "tools/exiftool/exiftool", "*": "exiftool"}, "version_arguments": ["-ver"], "required_version": {"min": "12.0", "max": ""}, "installation": {"url": "x"}}
    }"#)
}

fn model_config() -> Json {
    js(r#"{
        "type": "tool.model",
        "profile": {"title": "RMBG", "summary": "", "version": "1", "website": "", "authors": null},
        "matches": {"platforms": ["*"], "extensions": [], "app": {"min": "", "max": ""}},
        "bin": {"path": {"*": "models/rmbg/model.onnx"}}
    }"#)
}

fn file_config(extensions: &str) -> Json {
    js(&format!(r#"{{
        "type": "file",
        "profile": {{"title": "T", "summary": "S", "version": "1.0", "website": "", "authors": []}},
        "matches": {{"platforms": ["*"], "extensions": {}, "app": {{"min": "1.0", "max": ""}}}},
        "variables": {{"quality": 80}}
    }}"#, extensions))
}

fn source(dirname: &str, config: Option<Json>, worker_exists: bool) -> FunctionSource {
    FunctionSource { dirname: dirname.to_string(), config, worker_exists }
}

fn tool_registry() -> ToolRegistry {
    let mut registry = ToolRegistry::new();
    let e = env("linux", "1.5.0");
    load_tools(
        &mut registry,
        &vec![source("exiftool", Some(exe_config()), true)],
        "/f/executables",
        &vec![source("briaai_rmbg", Some(model_config()), true)],
        "/f/models",
        "/f",
        &e,
    );
    registry
}

#[test]
fn profile_is_read_and_written() {
    let p = FunctionProfile::from_json(&js(r#"{"title":{"en":"A"},"summary":"s","version":"1.2","website":7,"authors":["x"]}"#));
    assert_eq!(p.version, "1.2");
    assert_eq!(p.website, "");
    assert_eq!(to_value(&p.title), val(r#"{"en":"A"}"#));
    assert_eq!(to_value(&p.to_json()), val(r#"{"title":{"en":"A"},"summary":"s","version":"1.2","website":"","authors":["x"]}"#));
    let e = FunctionProfile::from_json(&Json::Null);
    assert_eq!(to_value(&e.to_json()), val(r#"{"title":null,"summary":null,"version":"","website":"","authors":null}"#));
}

#[test]
fn matches_are_lower_case_sets() {
    let m = FunctionMatches::from_json(&js(r#"{"platforms":["Linux","linux","MACOS"],"extensions":["PNG","png","Jpg",5],"app":{"min":"1.0","max":"2.0"}}"#)).unwrap();
    assert_eq!(m.platforms, vec!["linux", "macos"]);
    assert_eq!(m.extensions, vec!["png", "jpg", ""]);
    assert_eq!(m.app_version_min, "1.0");
    assert_eq!(m.app_version_max, "2.0");
    assert!(m.has_platform("linux"));
    assert!(!m.has_platform("windows"));
    assert!(m.has_extension("jpg"));
    assert!(!m.has_extension("JPG"));
    assert_eq!(to_value(&m.to_json()), val(r#"{"extensions":["png","jpg",""],"platforms":["linux","macos"],"app":{"min":"1.0","max":"2.0"}}"#));
    let e = FunctionMatches::from_json(&js("{}")).unwrap();
    assert!(e.platforms.is_empty() && e.extensions.is_empty());
    assert_eq!(e.app_version_min, "");
    assert_eq!(lowered_tokens(None), Vec::<String>::new());
    assert_eq!(lowered_tokens(Some(&js(r#""x""#))), Vec::<String>::new());
    assert_eq!(texts_in(Some(&js(r#"["a",1,"b"]"#))), vec!["a", "", "b"]);
    let mut v = vec!["a".to_string()];
    push_unique(&mut v, "a".to_string());
    push_unique(&mut v, "b".to_string());
    assert_eq!(v, vec!["a", "b"]);
}

fn matches(platforms: &str, min: &str, max: &str) -> FunctionMatches {
    FunctionMatches::from_json(&js(&format!(r#"{{"platforms":{},"app":{{"min":"{}","max":"{}"}}}}"#, platforms, min, max))).unwrap()
}

#[test]
fn a_descriptor_is_admitted_by_platform_and_version() {
    assert!(check_admitted(&matches(r#"["linux"]"#, "", ""), "linux", "1.2.3").is_ok());
    assert!(check_admitted(&matches(r#"["*"]"#, "", ""), "windows", "1.2.3").is_ok());
    assert!(check_admitted(&matches(r#"["*"]"#, "1.2.3", "1.2.3"), "linux", "1.2.3").is_ok());
    assert!(check_admitted(&matches(r#"["*"]"#, "1.0", ""), "linux", "1.2.3").is_ok());
    assert!(check_admitted(&matches(r#"["*"]"#, "", "2.0"), "linux", "1.2.3").is_ok());
    let e = check_admitted(&matches(r#"[]"#, "", ""), "linux", "1.2.3").unwrap_err();
    assert_eq!(e.message, "Ignore the function, not found platforms in matches");
    let e = check_admitted(&matches(r#"["macos","windows"]"#, "", ""), "linux", "1.2.3").unwrap_err();
    assert_eq!(e.kind, ErrorKind::Unsupported);
    assert_eq!(e.message, "Ignore the function, not match current platform: linux");
    let e = check_admitted(&matches(r#"["*"]"#, "1.3", ""), "linux", "1.2.3").unwrap_err();
    assert_eq!(e.message, "Ignore the function, current app version is lower than min version: 1.2.3 < 1.3");
    let e = check_admitted(&matches(r#"["*"]"#, "", "1.2.2"), "linux", "1.2.3").unwrap_err();
    assert_eq!(e.message, "Ignore the function, current app version is higher than max version: 1.2.3 > 1.2.2");
    let e = check_admitted(&matches(r#"["*"]"#, "x", ""), "linux", "1.2.3").unwrap_err();
    assert_eq!(e.message, "Invalid version format");
    let e = check_admitted(&matches(r#"["*"]"#, "1.0", ""), "linux", "unknown").unwrap_err();
    assert_eq!(e.message, "Invalid version format");
}

#[test]
fn a_file_function_is_built_from_its_configuration() {
    let f = FileFunction::new("file.to_png", &file_config(r#"["JPG","/files","!/dir"]"#), &"/w/worker.js".to_string(), &"/u/file.js".to_string(), "linux", "1.5.0").unwrap();
    assert_eq!(f.name, "file.to_png");
    assert_eq!(f.func_type, "file");
    assert_eq!(f.matches.extensions, vec!["jpg", "/files", "!/dir"]);
    assert_eq!(f.worker_file, "/w/worker.js");
    assert_eq!(f.worker_utils_file, "/u/file.js");
    assert_eq!(to_value(&f.variables), val(r#"{"quality":80}"#));
    let v = to_value(&f.to_json());
    assert_eq!(v["name"], "file.to_png");
    assert_eq!(v["func_type"], "file");
    assert_eq!(v["matches"]["app"]["min"], "1.0");
    assert_eq!(v["profile"]["title"], "T");
    assert_eq!(v.as_object().unwrap().len(), 7);
}

#[test]
fn a_file_function_is_refused_for_what_it_lacks() {
    let w = "/w".to_string();
    let new = |config: &str, platform: &str, version: &str| FileFunction::new("file.x", &js(config), &w, &w, platform, version);
    assert_eq!(new(r#"{"type":"tool.exe"}"#, "linux", "1.0.0").unwrap_err().message, "Ignore the function, type is not file: tool.exe");
    assert_eq!(new(r#"{}"#, "linux", "1.0.0").unwrap_err().message, "Ignore the function, type is not file: ");
    assert_eq!(new(r#"{"type":"file"}"#, "linux", "1.0.0").unwrap_err().message, "Not found `profile` key in config data");
    assert_eq!(new(r#"{"type":"file","profile":null,"matches":{}}"#, "linux", "1.0.0").unwrap_err().message, "Not found `profile` key in config data");
    assert_eq!(new(r#"{"type":"file","profile":{}}"#, "linux", "1.0.0").unwrap_err().message, "Not found `matches` key in config data");
    assert_eq!(new(r#"{"type":"file","profile":{},"matches":{}}"#, "linux", "1.0.0").unwrap_err().message, "Ignore the function, not found platforms in matches");
    assert_eq!(new(r#"{"type":"file","profile":{},"matches":{"platforms":["macos"]}}"#, "linux", "1.0.0").unwrap_err().message, "Ignore the function, not match current platform: linux");
    assert!(new(r#"{"type":"file","profile":{},"matches":{"platforms":["macos"]}}"#, "macos", "1.0.0").is_ok());
    assert!(new(r#"{"type":"file","profile":{},"matches":{"platforms":["*"],"app":{"min":"2.0"}}}"#, "macos", "1.9.9").is_err());
}

#[test]
fn a_tool_is_built_from_its_configuration() {
    let e = env("linux", "1.5.0");
    let t = ToolFunction::new(&"tool.exe.exiftool".to_string(), &exe_config(), &"/w/worker.js".to_string(), &"/u/tool.js".to_string(), &e).unwrap();
    assert_eq!(t.name, "tool.exe.exiftool");
    assert_eq!(t.func_type, "tool.exe");
    assert_eq!(t.bin_path, "/data/FileThings/tools/exiftool/exiftool");
    assert_eq!(t.bin_version_args, vec!["-ver"]);
    assert_eq!(t.required_bin_version_min, "12.0");
    assert_eq!(t.required_bin_version_max, "");
    assert!(!t.available);
    assert_eq!(t.version, "");
    assert_eq!(t.matches.platforms, vec!["linux", "macos"]);
    let m = env("macos", "1.5.0");
    let t = ToolFunction::new(&"tool.exe.exiftool".to_string(), &exe_config(), &"/w".to_string(), &"/u".to_string(), &m).unwrap();
    assert_eq!(t.bin_path, "exiftool");
    let v = to_value(&t.to_json());
    assert_eq!(v.as_object().unwrap().len(), 12);
    assert_eq!(v["bin_path"], "exiftool");
    assert_eq!(v["available"], false);
    assert_eq!(v["required_bin_version"], val(r#"{"min":"12.0","max":""}"#));
    assert_eq!(v["installation"], val(r#"{"url":"x"}"#));
    let model = ToolFunction::new(&"tool.model.rmbg".to_string(), &model_config(), &"/w".to_string(), &"/u".to_string(), &e).unwrap();
    assert_eq!(model.func_type, "tool.model");
    assert_eq!(model.bin_path, "/data/FileThings/models/rmbg/model.onnx");
    assert!(model.bin_version_args.is_empty());
}

#[test]
fn a_tool_is_refused_for_what_it_lacks() {
    let e = env("linux", "1.5.0");
    let w = "/w".to_string();
    let name = "tool.exe.x".to_string();
    let new = |config: &str, e: &Environment| ToolFunction::new(&name, &js(config), &w, &w, e);
    let head = r#""profile":{},"matches":{"platforms":["*"]}"#;
    assert_eq!(new(r#"{"type":"file"}"#, &e).unwrap_err().message, "Ignore the function, unknown type: file");
    assert_eq!(new(r#"{"type":"tool.exe"}"#, &e).unwrap_err().message, "Not found `profile` key in config data");
    assert_eq!(new(&format!(r#"{{"type":"tool.exe",{}}}"#, head), &e).unwrap_err().message, "Not found `bin.path` key in config data");
    assert_eq!(new(&format!(r#"{{"type":"tool.exe",{},"bin":{{"path":null}}}}"#, head), &e).unwrap_err().message, "Not found `bin.path` key in config data");
    assert_eq!(new(&format!(r#"{{"type":"tool.exe",{},"bin":{{"path":{{"macos":"x"}}}}}}"#, head), &e).unwrap_err().message, "Not found bin path for current platform");
    assert_eq!(new(&format!(r#"{{"type":"tool.exe",{},"bin":{{"path":{{"linux":null,"*":"x"}}}}}}"#, head), &e).unwrap_err().message, "Not found bin path for current platform");
    assert_eq!(new(&format!(r#"{{"type":"tool.exe",{},"bin":{{"path":{{"*":"x"}}}}}}"#, head), &e).unwrap_err().message, "Missing `version_arguments` in config data for tool.exe");
    assert_eq!(new(&format!(r#"{{"type":"tool.exe",{},"bin":{{"path":{{"*":"x"}},"version_arguments":[]}}}}"#, head), &e).unwrap_err().message, "Missing `version_arguments` in config data for tool.exe");
    assert!(new(&format!(r#"{{"type":"tool.model",{},"bin":{{"path":{{"*":"x"}}}}}}"#, head), &e).is_ok());
    let mut no_data = env("linux", "1.5.0");
    no_data.data_dir = None;
    assert_eq!(new(&format!(r#"{{"type":"tool.model",{},"bin":{{"path":{{"*":"a/b"}}}}}}"#, head), &no_data).unwrap_err().message, "Cannot get user's data directory");
    assert!(new(&format!(r#"{{"type":"tool.model",{},"bin":{{"path":{{"*":"ab"}}}}}}"#, head), &no_data).is_ok());
}

#[test]
fn the_files_of_a_function_lie_in_its_directory() {
    let (config, worker, utils) = descriptor_paths("/f/files", "/f", "to_png", "file.js");
    assert_eq!(config, "/f/files/to_png/config.json");
    assert_eq!(worker, "/f/files/to_png/worker.js");
    assert_eq!(utils, "/f/_utils/file.js");
}

#[test]
fn only_admitted_descriptors_enter_the_registry() {
    let mut registry = FileRegistry::new();
    let sources = vec![
        source("to_png", Some(file_config(r#"["jpg"]"#)), true),
        source("no_worker", Some(file_config(r#"["jpg"]"#)), false),
        source("no_config", None, true),
        source("wrong_type", Some(exe_config()), true),
        source("too_new", Some(js(r#"{"type":"file","profile":{},"matches":{"platforms":["*"],"app":{"min":"9.0"}}}"#)), true),
        source("other_os", Some(js(r#"{"type":"file","profile":{},"matches":{"platforms":["windows"]}}"#)), true),
        source("to_svg", Some(file_config(r#"["png"]"#)), true),
    ];
    let loaded = load_functions(&mut registry, &sources, "/f/files", "/f", "linux", "1.5.0");
    assert_eq!(loaded, 2);
    let names: Vec<&str> = registry.functions.iter().map(|f| f.name.as_str()).collect();
    assert_eq!(names, vec!["file.to_png", "file.to_svg"]);
    assert_eq!(registry.get("file.to_png").unwrap().worker_file, "/f/files/to_png/worker.js");
    assert_eq!(registry.get("file.to_png").unwrap().worker_utils_file, "/f/_utils/file.js");
    assert!(registry.get("file.no_worker").is_none());
    assert_eq!(registry.find("file.to_svg"), Some(1));
    // every descriptor in the registry names the platform or `*`, and its range holds the version
    for f in &registry.functions {
        assert!(f.matches.has_platform("linux") || f.matches.has_platform("*"));
        assert!(check_admitted(&f.matches, "linux", "1.5.0").is_ok());
    }
    // loading anew replaces what was there
    let loaded = load_functions(&mut registry, &vec![source("only", Some(file_config("[]")), true)], "/f/files", "/f", "linux", "1.5.0");
    assert_eq!(loaded, 1);
    assert_eq!(registry.functions.len(), 1);
    assert_eq!(registry.functions[0].name, "file.only");
}

#[test]
fn tools_are_loaded_by_category() {
    let registry = tool_registry();
    let names: Vec<&str> = registry.tools.iter().map(|t| t.name.as_str()).collect();
    assert_eq!(names, vec!["tool.exe.exiftool", "tool.model.briaai_rmbg"]);
    assert_eq!(registry.get("tool.exe.exiftool").unwrap().worker_utils_file, "/f/_utils/tool.js");
    assert_eq!(registry.get("tool.exe.exiftool").unwrap().worker_file, "/f/executables/exiftool/worker.js");
    assert_eq!(registry.get_bin_path("tool.model.briaai_rmbg").unwrap(), "/data/FileThings/models/rmbg/model.onnx");
    let e = registry.get_bin_path("tool.exe.ffmpeg").unwrap_err();
    assert_eq!(e.kind, ErrorKind::NotFound);
    assert_eq!(e.message, "Not found tool bin path for: tool.exe.ffmpeg");
    let env_now = env("linux", "1.5.0");
    for t in &registry.tools {
        assert!(!t.available);
        assert!(t.matches.has_platform("linux") || t.matches.has_platform("*"));
        assert!(check_admitted(&t.matches, &env_now.platform, &env_now.app_version).is_ok());
    }
}

#[test]
fn loading_a_category_keeps_the_others_and_replaces_by_name() {
    let mut registry = tool_registry();
    let e = env("linux", "1.5.0");
    let mut changed = exe_config();
    if let Json::Object(entries) = &mut changed {
        for entry in entries.iter_mut() {
            if entry.0 == "bin" {
                entry.1 = js(r#"{"path":{"*":"other"},"version_arguments":["-v"]}"#);
            }
        }
    }
    let loaded = load_tool_functions(&mut registry, "tool.exe", &vec![
        source("exiftool", Some(changed), true),
        source("ffmpeg", Some(exe_config()), true),
        source("wrong_os", Some(js(r#"{"type":"tool.exe","profile":{},"matches":{"platforms":["windows"]},"bin":{"path":{"*":"x"},"version_arguments":["-v"]}}"#)), true),
    ], "/f/executables", "/f", &e);
    assert_eq!(loaded, 2);
    let names: Vec<&str> = registry.tools.iter().map(|t| t.name.as_str()).collect();
    assert_eq!(names, vec!["tool.exe.exiftool", "tool.model.briaai_rmbg", "tool.exe.ffmpeg"]);
    assert_eq!(registry.get_bin_path("tool.exe.exiftool").unwrap(), "other");
}
