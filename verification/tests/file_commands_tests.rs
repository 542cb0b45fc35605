use filethings::digest::{calc_md5, calc_sha1, calc_sha256, calc_sha512};
use filethings::errors::ErrorKind;
use filethings::file_commands::{
    clear_done, clear_files, decode_content, encode_content, files_to_clear, get_file_extension,
    get_file_name, hash_file, load_image, numbers_json, read_format, read_hash_type,
    save_image_with_png, copy_file, rename_file, written, ContentFormat, Encoding, FilesCounter, HashType,
};
use filethings::paths::PathNode;
use filethings::json::{Json, JsonNumber};

fn from_value(v: &serde_json::Value) -> Json {
    match v {
        serde_json::Value::Null => Json::Null,
        serde_json::Value::Bool(b) => Json::Bool(*b),
        serde_json::Value::Number(n) => {
            if let Some(u) = n.as_u64() {
                Json::Number(JsonNumber::Unsigned(u))
            } else if let Some(i) = n.as_i64() {
                Json::Number(JsonNumber::Negative(i))
            } else {
                Json::Number(JsonNumber::Real(n.as_f64().unwrap().to_string()))
            }
        }
        serde_json::Value::String(s) => Json::String(s.clone()),
        serde_json::Value::Array(a) => Json::Array(a.iter().map(from_value).collect()),
        serde_json::Value::Object(o) => {
            Json::Object(o.iter().map(|(k, v)| (k.clone(), from_value(v))).collect())
        }
    }
}

fn to_value(j: &Json) -> serde_json::Value {
    match j {
        Json::Null => serde_json::Value::Null,
        Json::Bool(b) => serde_json::Value::Bool(*b),
        Json::Number(JsonNumber::Unsigned(u)) => serde_json::Value::from(*u),
        Json::Number(JsonNumber::Negative(i)) => serde_json::Value::from(*i),
        Json::Number(JsonNumber::Real(t)) => serde_json::Value::from(t.parse::<f64>().unwrap()),
        Json::String(s) => serde_json::Value::String(s.clone()),
        Json::Array(a) => serde_json::Value::Array(a.iter().map(to_value).collect()),
        Json::Object(o) => {
            let mut m = serde_json::Map::new();
            for (k, v) in o {
                m.insert(k.clone(), to_value(v));
            }
            serde_json::Value::Object(m)
        }
    }
}

fn js(text: &str) -> Json {
    from_value(&serde_json::from_str::<serde_json::Value>(text).unwrap())
}

fn val(text: &str) -> serde_json::Value {
    serde_json::from_str::<serde_json::Value>(text).unwrap()
}

fn message<T: std::fmt::Debug>(r: Result<T, filethings::errors::CommandError>) -> String {
    r.unwrap_err().message
}

fn tree() -> Vec<PathNode> {
    vec![
        PathNode::dir("/w", vec![
            PathNode::file("/w/.DS_Store", 1),
            PathNode::file("/w/a.txt", 2),
            PathNode::dir("/w/cache", vec![PathNode::file("/w/cache/x.tmp", 3), PathNode::file("/w/cache/.DS_Store", 4)]),
            PathNode::dir("/w/.git", vec![PathNode::file("/w/.git/config", 5)]),
        ]),
        PathNode::file("/v/Thumbs.db", 6),
        PathNode::missing("/gone/.DS_Store"),
    ]
}

#[test]
fn files_are_cleared_by_name_and_by_path() {
    let request = clear_files(&js(r#"{"input_paths":["/w","/v/Thumbs.db","/gone/.DS_Store"],"includes":{"name_patterns":["^\\.DS_Store$","^Thumbs\\.db$"],"path_patterns":["/cache/.*\\.tmp$"]}}"#)).unwrap();
    assert_eq!(request.input_paths, vec!["/w", "/v/Thumbs.db", "/gone/.DS_Store"]);
    assert_eq!(request.name_patterns.len(), 2);
    assert_eq!(request.path_patterns.len(), 1);
    // the patterns hold below directories too
    assert_eq!(files_to_clear(&request, &tree()).unwrap(), vec!["/w/.DS_Store", "/w/cache/x.tmp", "/w/cache/.DS_Store", "/v/Thumbs.db"]);
    let by_path = clear_files(&js(r#"{"input_dir":"/w","includes":{"path_patterns":["^/w/\\.git/"]}}"#)).unwrap();
    assert_eq!(by_path.input_paths, vec!["/w"]);
    assert_eq!(files_to_clear(&by_path, &tree()).unwrap(), vec!["/w/.git/config"]);
}

#[test]
fn without_patterns_nothing_is_cleared() {
    let request = clear_files(&js(r#"{"paths":["/w"]}"#)).unwrap();
    assert!(request.name_patterns.is_empty() && request.path_patterns.is_empty());
    assert!(files_to_clear(&request, &tree()).unwrap().is_empty());
    let request = clear_files(&js(r#"{"input_file":"/w/a.txt","includes":{"name_patterns":[],"path_patterns":[]}}"#)).unwrap();
    assert!(files_to_clear(&request, &tree()).unwrap().is_empty());
    let request = clear_files(&js(r#"{"input_file":"/w/a.txt","include":{"name_patterns":[".*"]}}"#)).unwrap();
    assert!(files_to_clear(&request, &tree()).unwrap().is_empty());
}

#[test]
fn a_clearing_request_is_read() {
    assert_eq!(clear_files(&js(r#"{"input_paths":[],"paths":["/a","",7],"input_dir":"/d"}"#)).unwrap().input_paths, vec!["/a"]);
    assert_eq!(clear_files(&js(r#"{"input_paths":[],"paths":[],"input_dir":"/d","input_file":"/f"}"#)).unwrap().input_paths, vec!["/d"]);
    assert_eq!(clear_files(&js(r#"{"input_file":"/f"}"#)).unwrap().input_paths, vec!["/f"]);
    assert_eq!(clear_files(&js(r#"{"input_file":5}"#)).unwrap().input_paths, Vec::<String>::new());
    assert_eq!(message(clear_files(&js(r#"{}"#))), "Missing parameter `input_paths`");
    assert_eq!(message(clear_files(&js(r#"{"input_paths":[]}"#))), "Missing parameter `input_paths`");
    assert_eq!(message(clear_files(&js(r#"{"input_paths":"/a"}"#))), "input_paths must be an array");
    assert_eq!(message(clear_files(&js(r#"{"paths":"/a"}"#))), "paths must be an array");
    assert_eq!(message(clear_files(&js(r#"{"input_paths":["/a"],"includes":{"name_patterns":["a",""]}}"#))), "Invalid include name patterns");
    assert_eq!(message(clear_files(&js(r#"{"input_paths":["/a"],"includes":{"name_patterns":[5]}}"#))), "Invalid include name patterns");
    assert_eq!(message(clear_files(&js(r#"{"input_paths":["/a"],"includes":{"path_patterns":[null]}}"#))), "Invalid include path patterns");
    let bad = clear_files(&js(r#"{"input_paths":["/w"],"includes":{"name_patterns":["("]}}"#)).unwrap();
    let e = files_to_clear(&bad, &tree()).unwrap_err();
    assert_eq!(e.kind, ErrorKind::Param);
    assert!(e.message.starts_with("Invalid include name patterns, error: "), "{}", e.message);
    let bad = clear_files(&js(r#"{"input_paths":["/w"],"includes":{"name_patterns":["a"],"path_patterns":["a","["]}}"#)).unwrap();
    assert!(message(files_to_clear(&bad, &tree())).starts_with("Invalid include path patterns, error: "));
    assert_eq!(to_value(&clear_done(4).to_json()), val(r#"{"status":"ok","content":4,"message":"4","output_paths":[]}"#));
}

#[test]
fn digests_of_known_inputs() {
    assert_eq!(calc_md5(b"hello"), "5d41402abc4b2a76b9719d911017c592");
    assert_eq!(calc_md5(b""), "d41d8cd98f00b204e9800998ecf8427e");
    assert_eq!(calc_sha1(b"hello"), "aaf4c61ddcc5e8a2dabede0f3b482cd9aea9434d");
    assert_eq!(calc_sha256(b"hello"), "2cf24dba5fb0a30e26e83b2ac5b9e29e1b161e5c1fa7425e73043362938b9824");
    assert_eq!(calc_sha512(b"hello"), "9b71d224bd62f3785d96d46ad3ea3d73319bfbc2890caadae2dff72519673ca72323c3d99ba5c11d7c7acc6e14b8c5da0c4663475c2e5c3adef46f73bcdec043");
    let data = b"hello".to_vec();
    assert_eq!(to_value(&hash_file(HashType::Md5, &data).content), "5d41402abc4b2a76b9719d911017c592");
    assert_eq!(to_value(&hash_file(HashType::Sha1, &data).content), "aaf4c61ddcc5e8a2dabede0f3b482cd9aea9434d");
    assert_eq!(to_value(&hash_file(HashType::Sha256, &data).content), "2cf24dba5fb0a30e26e83b2ac5b9e29e1b161e5c1fa7425e73043362938b9824");
    assert!(to_value(&hash_file(HashType::Sha512, &data).content).as_str().unwrap().starts_with("9b71d224"));
    assert_eq!(read_hash_type(&js(r#"{}"#)).unwrap(), HashType::Md5);
    assert_eq!(read_hash_type(&js(r#"{"hash_type":"sha1"}"#)).unwrap(), HashType::Sha1);
    assert_eq!(read_hash_type(&js(r#"{"hash_type":"sha256"}"#)).unwrap(), HashType::Sha256);
    assert_eq!(read_hash_type(&js(r#"{"hash_type":"sha512"}"#)).unwrap(), HashType::Sha512);
    assert_eq!(read_hash_type(&js(r#"{"hash_type":"md5"}"#)).unwrap(), HashType::Md5);
    assert_eq!(message(read_hash_type(&js(r#"{"hash_type":"crc32"}"#))), "Invalid hash type: 'crc32'");
    assert_eq!(message(read_hash_type(&js(r#"{"hash_type":1}"#))), "hash_type must be a string");
}

#[test]
fn content_is_handed_over_and_taken_in_three_formats() {
    assert_eq!(read_format(&js(r#"{}"#)).unwrap(), ContentFormat::Text);
    assert_eq!(read_format(&js(r#"{"format":"text"}"#)).unwrap(), ContentFormat::Text);
    assert_eq!(read_format(&js(r#"{"format":"base64"}"#)).unwrap(), ContentFormat::Encoded(Encoding::Base64));
    assert_eq!(read_format(&js(r#"{"format":"bytes"}"#)).unwrap(), ContentFormat::Encoded(Encoding::Bytes));
    let e = read_format(&js(r#"{"format":"hex"}"#)).unwrap_err();
    assert_eq!(e.kind, ErrorKind::Unsupported);
    assert_eq!(e.message, "Invalid format: 'hex'. Must be 'text', 'base64' or 'bytes'");
    assert_eq!(message(read_format(&js(r#"{"format":1}"#))), "format must be a string");
    let data = vec![0u8, 1, 2, 253, 254, 255, 104, 105];
    assert_eq!(to_value(&encode_content(Encoding::Base64, &data)), "AAEC/f7/aGk=");
    assert_eq!(to_value(&encode_content(Encoding::Base64, &vec![])), "");
    assert_eq!(to_value(&encode_content(Encoding::Bytes, &data)), val("[0,1,2,253,254,255,104,105]"));
    assert_eq!(decode_content(Encoding::Base64, &js(r#""AAEC/f7/aGk=""#)).unwrap(), data);
    assert_eq!(decode_content(Encoding::Base64, &js(r#""aGVsbG8=""#)).unwrap(), b"hello".to_vec());
    let e = decode_content(Encoding::Base64, &js(r#""not base64!""#)).unwrap_err();
    assert_eq!(e.kind, ErrorKind::Format);
    assert!(!e.message.is_empty());
    assert_eq!(message(decode_content(Encoding::Base64, &js("[1]"))), "content must be a string");
    assert_eq!(decode_content(Encoding::Bytes, &js(r#"[0,255,256,257,"x",-1,1.5,65]"#)).unwrap(), vec![0, 255, 0, 1, 0, 0, 0, 65]);
    assert_eq!(message(decode_content(Encoding::Bytes, &js(r#""AA==""#))), "content must be an array");
}

#[test]
fn small_requests_about_files() {
    assert_eq!(to_value(&get_file_name(&js(r#"{"input_file":"/a/b/c.tar.gz"}"#)).unwrap().content), "c.tar.gz");
    assert_eq!(message(get_file_name(&js(r#"{"input_file":"/"}"#))), "Invalid file name");
    assert_eq!(message(get_file_name(&js(r#"{"input_file":"/a/.."}"#))), "Invalid file name");
    assert_eq!(to_value(&get_file_extension(&js(r#"{"input_path":"/a/b/c.tar.GZ"}"#)).unwrap().content), "GZ");
    assert_eq!(to_value(&get_file_extension(&js(r#"{"input_path":"/a/b/c"}"#)).unwrap().content), "");
    assert_eq!(rename_file(&js(r#"{"input_file":"/a","output_path":"/b"}"#)).unwrap(), ("/a".to_string(), "/b".to_string()));
    assert_eq!(message(rename_file(&js(r#"{"input_file":"/a"}"#))), "Missing parameter: output_file");
    assert_eq!(copy_file(&js(r#"{"input_path":"/a","output_file":"/b"}"#)).unwrap(), ("/a".to_string(), "/b".to_string()));
    assert_eq!(message(copy_file(&js(r#"{"output_file":"/b"}"#))), "Missing parameter: input_file");
    assert_eq!(to_value(&written("/b").to_json()), val(r#"{"status":"ok","content":true,"message":"","output_paths":["/b"]}"#));
}

#[test]
fn an_image_has_to_be_a_file_of_a_known_format() {
    assert!(load_image(&PathNode::file("/a/b.PNG", 1)).is_ok());
    assert!(load_image(&PathNode::file("/a/b.webp", 1)).is_ok());
    assert!(load_image(&PathNode::file("/a/b.jpeg", 1)).is_ok());
    let e = load_image(&PathNode::file("/a/b.jpg", 1)).unwrap_err();
    assert_eq!(e.kind, ErrorKind::Unsupported);
    assert_eq!(e.message, "Unsupported image format: jpg");
    assert_eq!(message(load_image(&PathNode::file("/a/b", 1))), "Unsupported image format: ");
    assert_eq!(message(load_image(&PathNode::missing("/a/b.png"))), "File does not exist: /a/b.png");
    assert_eq!(message(load_image(&PathNode::dir("/a/b.png", vec![]))), "Path is not a file: /a/b.png");
    assert_eq!(save_image_with_png("/a/b.jpg"), "/a/b.png");
    assert_eq!(save_image_with_png("/a/b"), "/a/b.png");
    assert_eq!(save_image_with_png("/a/b.tar.gz"), "/a/b.tar.png");
}

#[test]
fn files_and_bytes_are_counted() {
    let n = FilesCounter::new();
    assert_eq!((n.dir_quantity, n.file_quantity, n.file_size_sum, n.file_type_quantity), (0, 0, 0, 0));
    assert!(n.file_quantity_of_types.is_empty() && n.file_size_of_types.is_empty());
    let mut c = FilesCounter::new();
    c.count(&tree()[0]);
    assert_eq!(c.dir_quantity, 3);
    assert_eq!(c.file_quantity, 5);
    assert_eq!(c.file_size_sum, 15);
    assert_eq!(c.file_type_quantity, 3);
    assert_eq!(to_value(&c.to_json()), val(r#"{"dir_quantity":3,"file_quantity":5,"file_quantity_of_types":{"":3,"txt":1,"tmp":1},"file_size_sum":15,"file_size_of_types":{"":10,"txt":2,"tmp":3},"file_type_quantity":3}"#));
    let mut one = FilesCounter::new();
    one.count(&PathNode::file("/v/Thumbs.db", 6));
    assert_eq!((one.dir_quantity, one.file_quantity, one.file_size_sum, one.file_type_quantity), (0, 1, 6, 1));
    let mut total = FilesCounter::new();
    total.add(&c);
    total.add(&one);
    assert_eq!((total.dir_quantity, total.file_quantity, total.file_size_sum, total.file_type_quantity), (3, 6, 21, 4));
    let mut big = FilesCounter::new();
    big.count(&PathNode::file("/a.bin", u64::MAX));
    big.count(&PathNode::file("/b.bin", 5));
    assert_eq!(big.file_size_sum, u64::MAX);
    assert_eq!(big.file_quantity, 2);
    assert_eq!(to_value(&numbers_json(&vec![("a".to_string(), 1), ("b".to_string(), 2)])), val(r#"{"a":1,"b":2}"#));
}
