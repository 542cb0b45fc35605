use filethings::binary::{
    join_in_bytes, join_files_in_bytes, join_part_path, join_sources, part_count,
    part_path, split_in_bytes, split_file_in_bytes, trim_end_matches, split_done, join_done,
};
use filethings::errors::ErrorKind;
use filethings::json::{Json, JsonNumber};

fn from_value(v: &serde_json::Value) -> Json {
    match v {
        serde_json::Value::Null => Json::Null,
        serde_json::Value::Bool(b) => Json::Bool(*b),
        serde_json::Value::Number(n) => {
            if let Some(u) = n.as_u64() {
                Json::Number(JsonNumber::Unsigned(u))
            } else if let Some(i) = n.as_i64() {
                Json::Number(JsonNumber::Negative(i))
            } else {
                Json::Number(JsonNumber::Real(n.as_f64().unwrap().to_string()))
            }
        }
        serde_json::Value::String(s) => Json::String(s.clone()),
        serde_json::Value::Array(a) => Json::Array(a.iter().map(from_value).collect()),
        serde_json::Value::Object(o) => {
            Json::Object(o.iter().map(|(k, v)| (k.clone(), from_value(v))).collect())
        }
    }
}

fn to_value(j: &Json) -> serde_json::Value {
    match j {
        Json::Null => serde_json::Value::Null,
        Json::Bool(b) => serde_json::Value::Bool(*b),
        Json::Number(JsonNumber::Unsigned(u)) => serde_json::Value::from(*u),
        Json::Number(JsonNumber::Negative(i)) => serde_json::Value::from(*i),
        Json::Number(JsonNumber::Real(t)) => serde_json::Value::from(t.parse::<f64>().unwrap()),
        Json::String(s) => serde_json::Value::String(s.clone()),
        Json::Array(a) => serde_json::Value::Array(a.iter().map(to_value).collect()),
        Json::Object(o) => {
            let mut m = serde_json::Map::new();
            for (k, v) in o {
                m.insert(k.clone(), to_value(v));
            }
            serde_json::Value::Object(m)
        }
    }
}

fn js(text: &str) -> Json {
    from_value(&serde_json::from_str::<serde_json::Value>(text).unwrap())
}

fn val(text: &str) -> serde_json::Value {
    serde_json::from_str::<serde_json::Value>(text).unwrap()
}

fn pseudo_random(n: usize) -> Vec<u8> {
    let mut state: u32 = 0x2545_F491;
    let mut out = Vec::with_capacity(n);
    for _ in 0..n {
        state ^= state << 13;
        state ^= state >> 17;
        state ^= state << 5;
        out.push((state >> 8) as u8);
    }
    out
}

#[test]
fn split_then_join_gives_the_file_back() {
    let data = pseudo_random(2_621_441);
    let parts = split_in_bytes(&data, 1_048_576);
    let sizes: Vec<usize> = parts.iter().map(|p| p.len()).collect();
    assert_eq!(sizes, vec![1_048_576, 1_048_576, 524_289]);
    assert_eq!(part_count(2_621_441, 1_048_576), 3);
    assert_eq!(part_path("/in/movie.mp4", "/out", 1), "/out/movie.mp4.001");
    assert_eq!(part_path("/in/movie.mp4", "/out", 2), "/out/movie.mp4.002");
    assert_eq!(part_path("/in/movie.mp4", "/out", 3), "/out/movie.mp4.003");
    let joined = join_in_bytes(&parts);
    assert_eq!(joined.len(), data.len());
    assert!(joined == data);
}

#[test]
fn split_and_join_on_small_inputs() {
    for n in 0usize..40 {
        let data = pseudo_random(n);
        for size in 1u64..12 {
            let parts = split_in_bytes(&data, size);
            let expected: Vec<Vec<u8>> = data.chunks(size as usize).map(|c| c.to_vec()).collect();
            assert_eq!(parts, expected);
            assert_eq!(parts.len() as u64, part_count(n as u64, size));
            assert_eq!(join_in_bytes(&parts), data);
        }
    }
    assert!(split_in_bytes(&vec![1, 2, 3], 0).is_empty());
    assert!(split_in_bytes(&vec![], 5).is_empty());
    assert_eq!(part_count(10, 0), 0);
    assert_eq!(part_count(0, 7), 0);
    assert_eq!(part_count(u64::MAX, 1), u64::MAX);
    assert_eq!(part_count(u64::MAX, 2), u64::MAX / 2 + 1);
    assert_eq!(join_in_bytes(&vec![]), Vec::<u8>::new());
}

#[test]
fn part_names_have_at_least_three_digits() {
    assert_eq!(part_path("a.bin", "out", 7), "out/a.bin.007");
    assert_eq!(part_path("a.bin", "out", 42), "out/a.bin.042");
    assert_eq!(part_path("a.bin", "out", 999), "out/a.bin.999");
    assert_eq!(part_path("a.bin", "out", 1000), "out/a.bin.1000");
    assert_eq!(part_path("/x/noext", "out", 1), "out/noext..001");
}

#[test]
fn split_request_is_read() {
    let r = split_file_in_bytes(&js(r#"{"input_file":"/a/b.bin","output_dir":"/out"}"#)).unwrap();
    assert_eq!(r.input_file, "/a/b.bin");
    assert_eq!(r.output_dir, "/out");
    assert_eq!(r.chunk_size, 1024 * 1024);
    let r = split_file_in_bytes(&js(r#"{"input_path":"/a/b.bin","output_dir":"/out","chunk_size":10}"#)).unwrap();
    assert_eq!(r.chunk_size, 10);
    let e = split_file_in_bytes(&js(r#"{"input_file":"/a","output_dir":"/out","chunk_size":"10"}"#)).unwrap_err();
    assert_eq!(e.message, "chunk_size must be an integer");
    let e = split_file_in_bytes(&js(r#"{"input_file":"/a","output_dir":"/out","chunk_size":-1}"#)).unwrap_err();
    assert_eq!(e.message, "chunk_size must be an integer");
    let e = split_file_in_bytes(&js(r#"{"output_dir":"/out"}"#)).unwrap_err();
    assert_eq!(e.kind, ErrorKind::Param);
    assert_eq!(e.message, "Missing parameter: input_file");
    let e = split_file_in_bytes(&js(r#"{"input_file":"/a"}"#)).unwrap_err();
    assert_eq!(e.message, "Missing parameter: output_dir");
}

#[test]
fn join_request_is_read() {
    let r = join_files_in_bytes(&js(r#"{"input_file":"/a/movie.mp4.001"}"#)).unwrap();
    assert_eq!(r.input_dir, "/a");
    assert_eq!(r.base_name, "movie.mp4");
    assert_eq!(r.output_file, "/a/movie.mp4");
    assert_eq!(join_part_path(&r, 1), "/a/movie.mp4.001");
    assert_eq!(join_part_path(&r, 12), "/a/movie.mp4.012");
    let r = join_files_in_bytes(&js(r#"{"input_file":"/a/movie.mp4.001","output_file":"/b/out.mp4"}"#)).unwrap();
    assert_eq!(r.output_file, "/b/out.mp4");
    let r = join_files_in_bytes(&js(r#"{"input_file":"/a/movie.mp4.001","output_file":""}"#)).unwrap();
    assert_eq!(r.output_file, "/a/movie.mp4");
    let e = join_files_in_bytes(&js(r#"{"input_file":"/a/movie.mp4.002"}"#)).unwrap_err();
    assert_eq!(e.message, "Not found .001 file");
    let e = join_files_in_bytes(&js(r#"{"input_file":"/a/movie.mp4.001","output_file":5}"#)).unwrap_err();
    assert_eq!(e.message, "Invalid parameter `output_file`");
    let e = join_files_in_bytes(&js(r#"{}"#)).unwrap_err();
    assert_eq!(e.message, "Missing parameter: input_file");
}

#[test]
fn join_gathers_the_parts_while_they_exist() {
    let r = join_files_in_bytes(&js(r#"{"input_file":"/a/m.bin.001"}"#)).unwrap();
    let existing: Vec<String> = ["/a/m.bin.001", "/a/m.bin.002", "/a/m.bin.003", "/a/m.bin.005", "/a/other"]
        .iter().map(|s| s.to_string()).collect();
    assert_eq!(join_sources(&r, &existing), vec!["/a/m.bin.001", "/a/m.bin.002", "/a/m.bin.003"]);
    assert!(join_sources(&r, &vec![]).is_empty());
    assert!(join_sources(&r, &vec!["/a/m.bin.002".to_string()]).is_empty());
}

#[test]
fn the_ending_is_taken_away_as_often_as_it_stands() {
    for (s, suffix) in [("a.001", ".001"), ("a.001.001", ".001"), ("a.0011", ".001"), ("", ".001"), (".001", ".001"), ("abc", ""), ("aaa", "a")] {
        assert_eq!(trim_end_matches(s, suffix), s.trim_end_matches(suffix), "{:?}", (s, suffix));
    }
}

#[test]
fn outcomes_name_the_files_written() {
    let d = split_done(vec!["/o/a.001".to_string(), "/o/a.002".to_string()]);
    assert_eq!(to_value(&d.to_json()), val(r#"{"content":null,"message":"","output_paths":["/o/a.001","/o/a.002"],"status":"ok"}"#));
    let j = join_done("/o/a");
    assert_eq!(to_value(&j.to_json()), val(r#"{"content":null,"message":"","output_paths":["/o/a"],"status":"ok"}"#));
}
