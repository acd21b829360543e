use std::collections::HashMap;

use wasmer_cache::{EntryWrite, FileSystemCache, IoSerializeError, PathStatus, Setup, SetupError, WasmHash};

const EMPTY_DIGEST: &str = "af1349b9f5f9a1a6a0404dea36dcc9499bcb25c9adc112b7cc9a93cae41f3262";

fn cache_over(path: &str, status: PathStatus) -> Setup {
    FileSystemCache::new(path.to_string(), status).expect("the path is usable")
}

fn key_of(first: u8) -> WasmHash {
    let mut bytes = [0u8; 32];
    bytes[0] = first;
    WasmHash::new(bytes)
}

/// Carries a write out on an in-memory directory.
fn apply(files: &mut HashMap<String, Vec<u8>>, w: EntryWrite) {
    files.insert(w.path, w.contents);
}

fn load<'a>(files: &'a HashMap<String, Vec<u8>>, cache: &FileSystemCache, key: &WasmHash) -> Option<&'a Vec<u8>> {
    files.get(&cache.entry_path(key))
}

#[test]
fn key_of_empty_source_is_blake3_of_nothing() {
    let key = WasmHash::generate(&[]);
    assert_eq!(key.to_string(), EMPTY_DIGEST);
}

#[test]
fn key_depends_on_source() {
    let a = WasmHash::generate(b"(module)");
    let b = WasmHash::generate(b"(module) ");
    assert_ne!(a.to_string(), b.to_string());
    assert_eq!(a, WasmHash::generate(b"(module)"));
}

#[test]
fn key_text_is_lower_case_hex_high_nibble_first() {
    let mut bytes = [0u8; 32];
    bytes[0] = 0x0f;
    bytes[1] = 0xa0;
    bytes[31] = 0xff;
    let text = WasmHash::new(bytes).to_string();
    assert_eq!(text.len(), 64);
    assert_eq!(&text[0..4], "0fa0");
    assert_eq!(&text[60..64], "00ff");
    assert!(text.chars().all(|c| c.is_ascii_hexdigit() && !c.is_ascii_uppercase()));
    assert_eq!(WasmHash::new(bytes).into_array(), bytes);
}

#[test]
fn entry_path_adds_one_separator() {
    let key = WasmHash::generate(&[]);
    let plain = cache_over("some/dir", PathStatus::Missing).cache;
    assert_eq!(plain.entry_path(&key), format!("some/dir/{}", EMPTY_DIGEST));
    let slashed = cache_over("some/dir/", PathStatus::Missing).cache;
    assert_eq!(slashed.entry_path(&key), format!("some/dir/{}", EMPTY_DIGEST));
    let bare = cache_over("", PathStatus::Missing).cache;
    assert_eq!(bare.entry_path(&key), EMPTY_DIGEST);
}

#[test]
fn construction_over_missing_path_creates_it() {
    let setup = cache_over("a/b/c", PathStatus::Missing);
    assert!(setup.create_dirs);
    assert_eq!(setup.cache.path(), "a/b/c");
}

#[test]
fn construction_over_writable_directory_keeps_it() {
    let setup = cache_over("a", PathStatus::Directory { readonly: false });
    assert!(!setup.create_dirs);
    assert_eq!(setup.cache.path(), "a");
}

#[test]
fn construction_over_readonly_directory_is_refused() {
    let r = FileSystemCache::new("a".to_string(), PathStatus::Directory { readonly: true });
    assert_eq!(r.err(), Some(SetupError::ReadOnlyDirectory));
}

#[test]
fn construction_over_a_file_is_refused() {
    let r = FileSystemCache::new("a".to_string(), PathStatus::NotDirectory);
    assert_eq!(r.err(), Some(SetupError::NotADirectory));
}

#[test]
fn store_bytes_targets_the_key_file() {
    let cache = cache_over("root", PathStatus::Missing).cache;
    let key = key_of(1);
    let w = cache.store_bytes(key, b"ABC".to_vec());
    assert_eq!(w.path, cache.entry_path(&key));
    assert_eq!(w.contents, b"ABC".to_vec());
}

#[test]
fn store_serializes_a_compiled_module() {
    let wasm = wasmer::wat2wasm(b"(module)").expect("valid text");
    let store = wasmer::Store::default();
    let module = wasmer::Module::new(&store, wasm).expect("valid module");
    let cache = cache_over("root", PathStatus::Missing).cache;
    let key = WasmHash::generate(b"(module)");
    let r: Result<EntryWrite, IoSerializeError> = cache.store(key, &module);
    let w = r.expect("an empty module serializes");
    assert_eq!(w.path, cache.entry_path(&key));
    assert!(!w.contents.is_empty());
}

#[test]
fn round_trip() {
    let cache = cache_over("root", PathStatus::Missing).cache;
    let mut files = HashMap::new();
    let key = key_of(7);
    apply(&mut files, cache.store_bytes(key, vec![1, 2, 3]));
    assert_eq!(load(&files, &cache, &key), Some(&vec![1, 2, 3]));
}

#[test]
fn miss_is_not_found() {
    let cache = cache_over("root", PathStatus::Missing).cache;
    let mut files = HashMap::new();
    apply(&mut files, cache.store_bytes(key_of(1), vec![9]));
    apply(&mut files, cache.store_bytes(key_of(2), vec![8]));
    assert_eq!(load(&files, &cache, &key_of(3)), None);
}

#[test]
fn other_keys_are_untouched() {
    let cache = cache_over("root", PathStatus::Missing).cache;
    let mut files = HashMap::new();
    apply(&mut files, cache.store_bytes(key_of(1), vec![1]));
    apply(&mut files, cache.store_bytes(key_of(2), vec![2]));
    assert_eq!(load(&files, &cache, &key_of(1)), Some(&vec![1]));
    assert_eq!(load(&files, &cache, &key_of(2)), Some(&vec![2]));
}

#[test]
fn overwrite_keeps_the_second() {
    let cache = cache_over("root", PathStatus::Missing).cache;
    let mut files = HashMap::new();
    let key = key_of(5);
    apply(&mut files, cache.store_bytes(key, vec![1, 1, 1, 1]));
    apply(&mut files, cache.store_bytes(key, vec![2, 2]));
    assert_eq!(load(&files, &cache, &key), Some(&vec![2, 2]));
}

#[test]
fn store_then_delete_then_load() {
    let setup = cache_over("tmp/fresh", PathStatus::Missing);
    assert!(setup.create_dirs);
    let cache = setup.cache;
    let mut files = HashMap::new();
    let key = WasmHash::generate(&[]);
    let w = cache.store_bytes(key, b"ABC".to_vec());
    let path = w.path.clone();
    apply(&mut files, w);
    assert_eq!(load(&files, &cache, &key), Some(&b"ABC".to_vec()));
    files.remove(&path);
    assert_eq!(load(&files, &cache, &key), None);
}
