use filethings::errors::ErrorKind;
use filethings::leaf_commands::{
    converted, count_files, count_in_paths, dir_list, dir_list_request, family_name,
    file_image_to_svg, flag_done, font_wanted, full_name, get_app_data_dir, get_file_metadata,
    get_home_dir, get_metadata, get_platform, get_platform_version, get_tags,
    get_template_content, is_debug, list_system_fonts, list_templates, load_languages,
    load_translation, local_name, locate_path, merge_json_value, metadata_arguments, path_type,
    platform_version_command, raw_svg_to_png, svg_drawn, templates_listed, text_done,
    translation_loaded, FontName, Template, EXIFTOOL_TOOL_NAME, RMBG_TOOL_NAME,
};
use filethings::paths::PathNode;
use filethings::resource::Environment;
use filethings::result::Status;
use filethings::json::{Json, JsonNumber};

fn from_value(v: &serde_json::Value) -> Json {
    match v {
        serde_json::Value::Null => Json::Null,
        serde_json::Value::Bool(b) => Json::Bool(*b),
        serde_json::Value::Number(n) => {
            if let Some(u) = n.as_u64() {
                Json::Number(JsonNumber::Unsigned(u))
            } else if let Some(i) = n.as_i64() {
                Json::Number(JsonNumber::Negative(i))
            } else {
                Json::Number(JsonNumber::Real(n.as_f64().unwrap().to_string()))
            }
        }
        serde_json::Value::String(s) => Json::String(s.clone()),
        serde_json::Value::Array(a) => Json::Array(a.iter().map(from_value).collect()),
        serde_json::Value::Object(o) => {
            Json::Object(o.iter().map(|(k, v)| (k.clone(), from_value(v))).collect())
        }
    }
}

fn to_value(j: &Json) -> serde_json::Value {
    match j {
        Json::Null => serde_json::Value::Null,
        Json::Bool(b) => serde_json::Value::Bool(*b),
        Json::Number(JsonNumber::Unsigned(u)) => serde_json::Value::from(*u),
        Json::Number(JsonNumber::Negative(i)) => serde_json::Value::from(*i),
        Json::Number(JsonNumber::Real(t)) => serde_json::Value::from(t.parse::<f64>().unwrap()),
        Json::String(s) => serde_json::Value::String(s.clone()),
        Json::Array(a) => serde_json::Value::Array(a.iter().map(to_value).collect()),
        Json::Object(o) => {
            let mut m = serde_json::Map::new();
            for (k, v) in o {
                m.insert(k.clone(), to_value(v));
            }
            serde_json::Value::Object(m)
        }
    }
}

fn js(text: &str) -> Json {
    from_value(&serde_json::from_str::<serde_json::Value>(text).unwrap())
}

fn val(text: &str) -> serde_json::Value {
    serde_json::from_str::<serde_json::Value>(text).unwrap()
}

fn message<T: std::fmt::Debug>(r: Result<T, filethings::errors::CommandError>) -> String {
    r.unwrap_err().message
}

fn env() -> Environment {
    Environment {
        platform: "linux".to_string(),
        app_version: "1.4.2".to_string(),
        data_dir: Some("/data".to_string()),
        home_dir: Some("/home/u".to_string()),
        exe_dir: Some("/opt/app".to_string()),
        separator: '/',
        debug: true,
    }
}

fn merge(target: &str, source: &str) -> serde_json::Value {
    let mut t = js(target);
    merge_json_value(&mut t, &js(source));
    to_value(&t)
}

#[test]
fn values_are_merged_level_by_level() {
    assert_eq!(merge(r#"{"a":1,"b":{"x":1,"y":2}}"#, r#"{"b":{"y":3,"z":4},"c":5}"#), val(r#"{"a":1,"b":{"x":1,"y":3,"z":4},"c":5}"#));
    assert_eq!(merge(r#"{"a":{"b":{"c":1}}}"#, r#"{"a":{"b":{"d":2}}}"#), val(r#"{"a":{"b":{"c":1,"d":2}}}"#));
    assert_eq!(merge(r#"{"a":[1,2]}"#, r#"{"a":[3]}"#), val(r#"{"a":[3]}"#));
    assert_eq!(merge(r#"{"a":{"b":1}}"#, r#"{"a":7}"#), val(r#"{"a":7}"#));
    assert_eq!(merge(r#"{"a":7}"#, r#"{"a":{"b":1}}"#), val(r#"{"a":{"b":1}}"#));
    assert_eq!(merge(r#"{}"#, r#"{"a":{"b":1}}"#), val(r#"{"a":{"b":1}}"#));
    assert_eq!(merge(r#"{"a":1}"#, r#"{}"#), val(r#"{"a":1}"#));
    assert_eq!(merge(r#"[1]"#, r#"{"a":1}"#), val(r#"{"a":1}"#));
    assert_eq!(merge(r#"{"a":1}"#, r#"null"#), val(r#"null"#));
    assert_eq!(merge(r#"null"#, r#""x""#), val(r#""x""#));
}

#[test]
fn metadata_is_put_together() {
    assert_eq!(EXIFTOOL_TOOL_NAME, "tool.exe.exiftool");
    assert_eq!(RMBG_TOOL_NAME, "tool.model.briaai_rmbg");
    assert_eq!(metadata_arguments("/a b.jpg"), vec!["-j", "-g", "/a b.jpg"]);
    assert_eq!(to_value(&get_file_metadata(None)), val("{}"));
    assert_eq!(to_value(&get_file_metadata(Some(&js(r#"[{"EXIF":{"Make":"X"}},{"y":1}]"#)))), val(r#"{"EXIF":{"Make":"X"}}"#));
    assert_eq!(to_value(&get_file_metadata(Some(&js(r#"[]"#)))), val("null"));
    assert_eq!(to_value(&get_file_metadata(Some(&js(r#"{"a":1}"#)))), val("null"));
    let attrs = vec![("com.apple.quarantine".to_string(), "0081".to_string())];
    assert_eq!(to_value(&get_metadata(&attrs, &js(r#"{"EXIF":{"Make":"X"}}"#))), val(r#"{"Extended file attributes":{"com.apple.quarantine":"0081"},"EXIF":{"Make":"X"}}"#));
    assert_eq!(to_value(&get_metadata(&vec![], &js(r#"{"EXIF":{"Make":"X"}}"#))), val(r#"{"EXIF":{"Make":"X"}}"#));
    assert_eq!(to_value(&get_metadata(&vec![], &js(r#"{}"#))), val(r#"{}"#));
    assert_eq!(path_type(true, true, false), "SYMLINK");
    assert_eq!(path_type(false, true, false), "FILE");
    assert_eq!(path_type(false, false, true), "DIR");
    assert_eq!(path_type(false, false, false), "UNKNOWN");
}

#[test]
fn the_environment_is_told() {
    let e = env();
    assert_eq!(to_value(&get_platform(&e).unwrap().content), "linux");
    assert_eq!(to_value(&is_debug(&e).unwrap().content), true);
    assert_eq!(to_value(&get_app_data_dir(&e).unwrap().content), "/data/FileThings");
    assert_eq!(to_value(&get_home_dir(&e).unwrap().content), "/home/u");
    let mut n = env();
    n.home_dir = None;
    n.data_dir = None;
    assert_eq!(message(get_home_dir(&n)), "Cannot get user's home directory");
    assert_eq!(message(get_app_data_dir(&n)), "Cannot get user's data directory");
    assert_eq!(to_value(&text_done("x").to_json()), val(r#"{"status":"ok","content":"x","message":"","output_paths":[]}"#));
    assert_eq!(to_value(&flag_done(false).content), false);
    let c = platform_version_command("macos").unwrap();
    assert_eq!((c.program.as_str(), c.arguments), ("sw_vers", vec!["-productVersion".to_string()]));
    let c = platform_version_command("linux").unwrap();
    assert_eq!((c.program.as_str(), c.arguments), ("lsb_release", vec!["-a".to_string()]));
    let c = platform_version_command("windows").unwrap();
    assert_eq!((c.program.as_str(), c.arguments.len()), ("ver", 0));
    assert_eq!(platform_version_command("plan9"), None);
    assert_eq!(get_platform_version("linux", Some("Ubuntu 22.04\n".to_string())), "Ubuntu 22.04\n");
    assert_eq!(get_platform_version("linux", None), "unknown");
    assert_eq!(get_platform_version("plan9", Some("4".to_string())), "unknown");
}

#[test]
fn a_directory_is_listed() {
    let dir = PathNode::dir("/d", vec![
        PathNode::file("/d/a.png", 1),
        PathNode::dir("/d/sub.png", vec![]),
        PathNode::file("/d/b.txt", 1),
    ]);
    let r = dir_list_request(&js(r#"{"input_dir":"/d"}"#)).unwrap();
    assert_eq!(r.pattern, ".*");
    assert!(!r.is_full_path && !r.ignore_file && !r.ignore_dir);
    assert_eq!(dir_list(&dir, &r).unwrap(), vec!["a.png", "sub.png", "b.txt"]);
    let r = dir_list_request(&js(r#"{"dir":"/d","pattern":"\\.png$","is_full_path":true,"ignore_dir":true}"#)).unwrap();
    assert_eq!(dir_list(&dir, &r).unwrap(), vec!["/d/a.png"]);
    let r = dir_list_request(&js(r#"{"dir":"/d","pattern":"png","ignore_file":true}"#)).unwrap();
    assert_eq!(dir_list(&dir, &r).unwrap(), vec!["sub.png"]);
    assert!(dir_list(&PathNode::file("/d/a.png", 1), &r).unwrap().is_empty());
    assert!(dir_list(&PathNode::missing("/d"), &r).unwrap().is_empty());
    let bad = dir_list_request(&js(r#"{"dir":"/d","pattern":"("}"#)).unwrap();
    assert_eq!(dir_list(&dir, &bad).unwrap_err().kind, ErrorKind::Param);
    assert!(dir_list(&PathNode::missing("/d"), &bad).is_ok());
    assert_eq!(message(dir_list_request(&js(r#"{}"#))), "Missing parameter: input_dir");
    assert_eq!(message(dir_list_request(&js(r#"{"dir":"/d","pattern":1}"#))), "regex `pattern` must be a string");
    assert_eq!(message(dir_list_request(&js(r#"{"dir":"/d","is_full_path":1}"#))), "is_full_path must be a boolean");
    assert_eq!(message(dir_list_request(&js(r#"{"dir":"/d","ignore_file":"no"}"#))), "ignore_file must be a boolean");
    assert_eq!(message(dir_list_request(&js(r#"{"dir":"/d","ignore_dir":null}"#))), "ignore_dir must be a boolean");
}

#[test]
fn files_are_counted_by_path() {
    assert_eq!(count_files(&js(r#"{"input_paths":["/home/u/d","",1,"/x"]}"#)).unwrap(), vec!["/home/u/d", "/x"]);
    assert_eq!(message(count_files(&js(r#"{}"#))), "`input_paths` is required");
    assert_eq!(message(count_files(&js(r#"{"input_paths":"/a"}"#))), "`input_paths` must be an array");
    let nodes = vec![
        PathNode::dir("/home/u/d", vec![PathNode::file("/home/u/d/a.png", 10), PathNode::file("/home/u/d/b.png", 5)]),
        PathNode::file("/x/c.txt", 7),
    ];
    let v = to_value(&count_in_paths(&nodes, Some("/home/u")));
    assert_eq!(v["~/d"], val(r#"{"dir_quantity":1,"file_quantity":2,"file_quantity_of_types":{"png":2},"file_size_sum":15,"file_size_of_types":{"png":15},"file_type_quantity":1}"#));
    assert_eq!(v["/x/c.txt"]["file_quantity"], 1);
    assert_eq!(v["total"], val(r#"{"dir_quantity":1,"file_quantity":3,"file_quantity_of_types":{"png":2,"txt":1},"file_size_sum":22,"file_size_of_types":{"png":15,"txt":7},"file_type_quantity":2}"#));
    assert_eq!(to_value(&count_in_paths(&vec![], None)).as_object().unwrap().len(), 1);
}

#[test]
fn paths_to_show_are_read() {
    assert_eq!(locate_path(&js(r#"{"input_paths":["~/a","",5,"/b"]}"#), Some("/home/u"), '/').unwrap(), vec!["/home/u/a", "/b"]);
    assert_eq!(message(locate_path(&js(r#"{}"#), None, '/')), "Missing input_paths");
    assert_eq!(message(locate_path(&js(r#"{"input_paths":"/a"}"#), None, '/')), "Missing input_paths");
}

#[test]
fn requests_for_pictures_are_read() {
    assert_eq!(raw_svg_to_png(&js(r#"{"svg":"<svg/>","width":64}"#)).unwrap(), ("<svg/>".to_string(), 64, 0));
    assert_eq!(raw_svg_to_png(&js(r#"{"svg":"<svg/>","width":"64","height":4294967297}"#)).unwrap(), ("<svg/>".to_string(), 0, 1));
    assert_eq!(message(raw_svg_to_png(&js(r#"{"width":64}"#))), "Missing 'svg' parameter");
    assert_eq!(to_value(&svg_drawn(2, 1, &vec![1, 2]).content), val(r#"{"width":2,"height":1,"data":[1,2]}"#));
    let (p, ignored, colorful) = file_image_to_svg(&js(r#"{"input_file":"/a.png","output_file":"/b.svg","color_colorful":true}"#)).unwrap();
    assert_eq!(p.target_ext, "svg");
    assert!(ignored.is_none());
    assert!(colorful);
    let (_, ignored, colorful) = file_image_to_svg(&js(r#"{"input_file":"/a.SVG","output_file":"/b.svg","color_colorful":1}"#)).unwrap();
    let ignored = ignored.unwrap();
    assert_eq!(ignored.status, Status::Ignored);
    assert_eq!(ignored.message, "Source and target format are the same");
    assert!(!colorful);
    assert_eq!(message(file_image_to_svg(&js(r#"{"input_file":"/a.png"}"#))), "Missing parameter: output_file");
    assert_eq!(to_value(&converted("/b.svg").to_json()), val(r#"{"status":"ok","content":"/b.svg","message":"","output_paths":["/b.svg"]}"#));
    let (file, tags) = get_tags(&js(r#"{"file":"/a.jpg","tags":["DateTimeOriginal"]}"#)).unwrap();
    assert_eq!((file.as_str(), tags), ("/a.jpg", vec!["DateTimeOriginal".to_string()]));
    assert_eq!(message(get_tags(&js(r#"{"file":"/a.jpg"}"#))), "Missing tags parameter");
    assert_eq!(message(get_tags(&js(r#"{"file":"/a.jpg","tags":[1]}"#))), "Invalid tag name");
    let e = get_tags(&js(r#"{"file":"/a.jpg","tags":["Make"]}"#)).unwrap_err();
    assert_eq!(e.kind, ErrorKind::Unsupported);
    assert_eq!(e.message, "Tag Make not supported");
    assert_eq!(message(get_tags(&js(r#"{"tags":[]}"#))), "Missing parameter: input_file");
}

#[test]
fn translations_and_templates_are_found() {
    assert_eq!(load_languages("/i18n"), "/i18n/languages.json");
    let files = load_translation(&js(r#"{"lang_code":"zh-CN"}"#), "/i18n").unwrap();
    assert_eq!(files, vec![
        ("app".to_string(), "/i18n/zh-CN/app.json".to_string()),
        ("file-info".to_string(), "/i18n/zh-CN/file-info.json".to_string()),
        ("raw".to_string(), "/i18n/zh-CN/raw.json".to_string()),
    ]);
    assert_eq!(message(load_translation(&js(r#"{}"#), "/i18n")), "`lang_code` is required");
    assert_eq!(message(load_translation(&js(r#"{"lang_code":1}"#), "/i18n")), "`lang_code` must be a string");
    let loaded = vec![
        ("app".to_string(), Some(Some(js(r#"{"ok":"OK"}"#)))),
        ("file-info".to_string(), None),
        ("raw".to_string(), Some(None)),
    ];
    assert_eq!(to_value(&translation_loaded(&loaded).content), val(r#"{"app":{"ok":"OK"},"raw":{}}"#));
    assert_eq!(list_templates(&js(r#"{"scope":"html-to-image","category":"text-to-svg"}"#), "/t").unwrap(), "/t/html-to-image/text-to-svg");
    assert_eq!(message(list_templates(&js(r#"{"category":"c"}"#), "/t")), "`scope` is required");
    assert_eq!(message(list_templates(&js(r#"{"scope":1,"category":"c"}"#), "/t")), "`scope` must be a string");
    assert_eq!(message(list_templates(&js(r#"{"scope":"s"}"#), "/t")), "`category` is required");
    assert_eq!(get_template_content(&js(r#"{"scope":"s","category":"c","template":"basic","content_file":"content.html"}"#), "/t").unwrap(), "/t/s/c/basic/content.html");
    assert_eq!(message(get_template_content(&js(r#"{"scope":"s","category":"c","content_file":"x"}"#), "/t")), "`template` is required");
    assert_eq!(message(get_template_content(&js(r#"{"scope":"s","category":"c","template":"t"}"#), "/t")), "`content_file` is required");
    let templates = vec![
        Template { name: "zeta".to_string(), meta: js(r#"{"t":1}"#), preview: vec![1] },
        Template { name: "alpha".to_string(), meta: js(r#"{"t":2}"#), preview: vec![] },
    ];
    assert_eq!(to_value(&templates_listed(&templates).content), val(r#"[{"name":"alpha","meta":{"t":2},"preview":[]},{"name":"zeta","meta":{"t":1},"preview":[1]}]"#));
}

#[test]
fn fonts_are_named() {
    assert_eq!(list_system_fonts(&js(r#"{}"#)).unwrap(), Vec::<String>::new());
    assert_eq!(list_system_fonts(&js(r#"{"exts":["ttf",1,"otf"]}"#)).unwrap(), vec!["ttf", "", "otf"]);
    assert_eq!(message(list_system_fonts(&js(r#"{"exts":"ttf"}"#))), "exts must be an array");
    assert!(font_wanted(&vec![], "woff"));
    assert!(font_wanted(&vec!["ttf".to_string()], "ttf"));
    assert!(!font_wanted(&vec!["ttf".to_string()], "otf"));
    let n = |name: &str, language_id: u16, name_id: u16| FontName { name: name.to_string(), language_id, encoding_id: 1, name_id };
    let names = vec![n("Noto Sans", 1033, 1), n("Noto Sans Regular", 1033, 4), n("思源", 2052, 1), n("Noto Sans Bold", 1033, 4), n("x", 0, 1)];
    assert_eq!(family_name(&names), "Noto Sans");
    assert_eq!(full_name(&names), "Noto Sans Bold");
    assert_eq!(local_name(&names), "思源");
    assert_eq!(full_name(&vec![]), "");
    assert_eq!(local_name(&names[..2].to_vec()), "");
}
