use rspack_cache::chunk::{
    chunk, keep_successes, Chunk, ChunkAssetArgs, Compilation, JsChunk, JsChunkAssetArgs,
};
use rspack_cache::text::sorted;
use std::collections::{HashMap, HashSet};

fn texts(items: &[&str]) -> Vec<String> {
    items.iter().map(|item| item.to_string()).collect()
}

fn sample() -> Chunk {
    Chunk {
        ukey: 7,
        groups: HashSet::from([3, 1, 2]),
        name: Some("main".to_string()),
        filename_template: Some("[name].js".to_string()),
        css_filename_template: None,
        id: Some("main".to_string()),
        ids: texts(&["main", "179"]),
        id_name_hints: texts(&["vendors", "main"]),
        files: texts(&["main.js", "main.css", "a.js"]),
        auxiliary_files: texts(&["main.js.map", "logo.png"]),
        runtime: texts(&["web", "node"]),
        hash: Some("0123abcd".to_string()),
        rendered_hash: Some("0123".to_string()),
        content_hash: vec![
            ("javascript".to_string(), "aa11".to_string()),
            ("css".to_string(), "bb22".to_string()),
        ],
        chunk_reasons: texts(&["split chunk (cache group: default)"]),
    }
}

#[test]
fn js_chunk_describes_the_chunk() {
    let js = JsChunk::from(&sample());
    let expected = JsChunk {
        inner_ukey: 7,
        inner_groups: vec![1, 2, 3],
        name: Some("main".to_string()),
        id: Some("main".to_string()),
        ids: texts(&["main", "179"]),
        id_name_hints: texts(&["main", "vendors"]),
        filename_template: Some("[name].js".to_string()),
        css_filename_template: None,
        files: texts(&["a.js", "main.css", "main.js"]),
        runtime: texts(&["node", "web"]),
        hash: Some("0123abcd".to_string()),
        content_hash: vec![
            ("css".to_string(), "bb22".to_string()),
            ("javascript".to_string(), "aa11".to_string()),
        ],
        rendered_hash: Some("0123".to_string()),
        chunk_reasons: texts(&["split chunk (cache group: default)"]),
        auxiliary_files: texts(&["logo.png", "main.js.map"]),
    };
    assert_eq!(js, expected);
}

#[test]
fn js_chunk_leaves_the_chunk_as_it_was() {
    let chunk = sample();
    let _ = JsChunk::from(&chunk);
    assert_eq!(chunk, sample());
}

#[test]
fn js_chunk_of_an_empty_chunk() {
    let chunk = Chunk {
        ukey: 0,
        groups: HashSet::new(),
        name: None,
        filename_template: None,
        css_filename_template: None,
        id: None,
        ids: vec![],
        id_name_hints: vec![],
        files: vec![],
        auxiliary_files: vec![],
        runtime: vec![],
        hash: None,
        rendered_hash: None,
        content_hash: vec![],
        chunk_reasons: vec![],
    };
    let js = JsChunk::from(&chunk);
    assert_eq!(js.inner_ukey, 0);
    assert!(js.inner_groups.is_empty());
    assert_eq!(js.name, None);
    assert!(js.files.is_empty());
    assert!(js.auxiliary_files.is_empty());
    assert!(js.runtime.is_empty());
    assert!(js.content_hash.is_empty());
}

#[test]
fn js_chunk_cuts_keys_to_32_bits() {
    let mut chunk = sample();
    chunk.ukey = usize::MAX;
    chunk.groups = HashSet::from([usize::MAX, 0, usize::MAX - 1]);
    let js = JsChunk::from(&chunk);
    assert_eq!(js.inner_ukey, u32::MAX);
    assert_eq!(js.inner_groups, vec![0, u32::MAX - 1, u32::MAX]);
}

#[test]
fn js_chunk_is_the_same_however_the_sets_are_listed() {
    let first = sample();
    let mut second = sample();
    second.groups = HashSet::from([2, 3, 1]);
    second.id_name_hints = texts(&["main", "vendors"]);
    second.files = texts(&["a.js", "main.js", "main.css"]);
    second.auxiliary_files = texts(&["logo.png", "main.js.map"]);
    second.runtime = texts(&["node", "web"]);
    second.content_hash = vec![
        ("css".to_string(), "bb22".to_string()),
        ("javascript".to_string(), "aa11".to_string()),
    ];
    assert_ne!(first, second);
    assert_eq!(JsChunk::from(&first), JsChunk::from(&second));
}

#[test]
fn js_chunk_puts_groups_in_ascending_order() {
    let mut chunk = sample();
    chunk.groups = HashSet::from([40, 7, 0, 1000, 3]);
    assert_eq!(JsChunk::from(&chunk).inner_groups, vec![0, 3, 7, 40, 1000]);
    chunk.groups = (0..200).rev().collect();
    assert_eq!(JsChunk::from(&chunk).inner_groups, (0..200).collect::<Vec<u32>>());
    chunk.groups = HashSet::new();
    assert!(JsChunk::from(&chunk).inner_groups.is_empty());
}

#[test]
fn js_chunk_puts_digests_in_order_of_source_type() {
    let mut chunk = sample();
    chunk.content_hash = vec![
        ("wasm".to_string(), "cc".to_string()),
        ("javascript".to_string(), "aa".to_string()),
        ("asset".to_string(), "dd".to_string()),
        ("css".to_string(), "bb".to_string()),
    ];
    assert_eq!(
        JsChunk::from(&chunk).content_hash,
        vec![
            ("asset".to_string(), "dd".to_string()),
            ("css".to_string(), "bb".to_string()),
            ("javascript".to_string(), "aa".to_string()),
            ("wasm".to_string(), "cc".to_string()),
        ]
    );
}

#[test]
fn js_chunk_keeps_a_file_named_twice() {
    let mut chunk = sample();
    chunk.files = texts(&["b.js", "a.js", "b.js"]);
    let js = JsChunk::from(&chunk);
    assert_eq!(js.files, texts(&["a.js", "b.js", "b.js"]));
}

#[test]
fn sorted_orders_by_code_point() {
    let given = texts(&["z", "\u{e9}", "a", "Z", "", "ab", "a", "\u{1f600}", "\u{ffff}"]);
    let out = sorted(&given);
    assert_eq!(out, texts(&["", "Z", "a", "a", "ab", "z", "\u{e9}", "\u{ffff}", "\u{1f600}"]));
    assert_eq!(given.len(), 9);
    assert_eq!(given[0], "z");
}

#[test]
fn sorted_puts_a_prefix_first() {
    assert_eq!(sorted(&texts(&["main.js.map", "main.js", "main"])), texts(&["main", "main.js", "main.js.map"]));
}

#[test]
fn sorted_of_nothing_is_nothing() {
    assert!(sorted(&Vec::new()).is_empty());
}

#[test]
fn chunk_is_found_by_its_key() {
    let mut chunk_by_ukey = HashMap::new();
    let mut other = sample();
    other.ukey = 9;
    other.name = Some("other".to_string());
    chunk_by_ukey.insert(7usize, sample());
    chunk_by_ukey.insert(9usize, other);
    let compilation = Compilation { chunk_by_ukey };
    assert_eq!(chunk(7, &compilation).name, Some("main".to_string()));
    assert_eq!(chunk(9, &compilation).name, Some("other".to_string()));
    assert_eq!(*chunk(7, &compilation), sample());
}

#[test]
fn js_chunk_asset_args_describe_chunk_and_name() {
    let chunk = sample();
    let args = ChunkAssetArgs { chunk: &chunk, filename: "main.js" };
    let js = JsChunkAssetArgs::from(&args);
    assert_eq!(js.filename, "main.js");
    assert_eq!(js.chunk, JsChunk::from(&chunk));
    assert_eq!(js.chunk.files, texts(&["a.js", "main.css", "main.js"]));
}

#[test]
fn keep_successes_keeps_what_succeeded_in_order() {
    let results: Vec<Result<u32, String>> =
        vec![Ok(3), Err("no source".to_string()), Ok(1), Ok(2), Err("raw".to_string())];
    assert_eq!(keep_successes(results), vec![3, 1, 2]);
}

#[test]
fn keep_successes_of_failures_is_empty() {
    let results: Vec<Result<u32, String>> = vec![Err("a".to_string()), Err("b".to_string())];
    assert!(keep_successes(results).is_empty());
    let none: Vec<Result<u32, String>> = Vec::new();
    assert!(keep_successes(none).is_empty());
}

#[test]
fn keep_successes_of_successes_is_all_of_them() {
    let results: Vec<Result<String, u8>> = vec![Ok("b".to_string()), Ok("a".to_string())];
    assert_eq!(keep_successes(results), vec!["b".to_string(), "a".to_string()]);
}
