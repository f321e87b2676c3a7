use mcagent::cache::{blob_object_bytes, cache_dir, cache_path, digest_hex, git_blob_hash};
use mcagent::compiler::{
    bin_name_of, cached_wasm_path, cargo_build_args, compiled_wasm_path, ensure_compiled,
    is_bin_name_readable, target_and_toolchain, workspace_for_tool, CompileDecision,
};
use mcagent::types::WasiTarget;

#[test]
fn test_git_blob_hash() {
    // "hello\n" should produce the well-known git blob hash.
    let hash = git_blob_hash(b"hello\n");
    assert_eq!(hash, "ce013625030ba8dba906f756967f9e9ca394464a");
}

#[test]
fn test_cache_dir() {
    let dir = cache_dir("/project");
    assert_eq!(dir, "/project/.mcagent/cache/wasi");
}

#[test]
fn empty_blob_hash() {
    assert_eq!(git_blob_hash(b""), "e69de29bb2d1d6434b8b29ae775ad8c2e48c5391");
}

#[test]
fn blob_object_layout() {
    assert_eq!(blob_object_bytes(b"hello\n"), b"blob 6\0hello\n".to_vec());
    let big = vec![b'a'; 1234];
    assert!(blob_object_bytes(&big).starts_with(b"blob 1234\0a"));
}

#[test]
fn digest_hex_is_lowercase_pairs() {
    assert_eq!(digest_hex(&[0x00, 0x0f, 0xa0, 0xff]), "000fa0ff");
    assert_eq!(digest_hex(&[]), "");
}

#[test]
fn cache_path_names_the_hash() {
    assert_eq!(cache_path("/p", "abc"), "/p/.mcagent/cache/wasi/abc.wasm");
    assert_eq!(
        cached_wasm_path("/p", b"hello\n"),
        "/p/.mcagent/cache/wasi/ce013625030ba8dba906f756967f9e9ca394464a.wasm"
    );
}

#[test]
fn ensure_compiled_uses_cache_only_when_present() {
    match ensure_compiled("/p", b"hello\n", true) {
        CompileDecision::Cached(p) => assert!(p.ends_with("ce013625030ba8dba906f756967f9e9ca394464a.wasm")),
        other => panic!("unexpected {:?}", other),
    }
    match ensure_compiled("/p", b"hello\n", false) {
        CompileDecision::Compile(p) => assert!(p.ends_with("ce013625030ba8dba906f756967f9e9ca394464a.wasm")),
        other => panic!("unexpected {:?}", other),
    }
}

#[test]
fn path_join_absolute_replaces() {
    assert_eq!(compiled_wasm_path("/a/b", "/c", "t"), "/c/release/t.wasm");
    assert_eq!(cache_path("/a/b", "c/d"), "/a/b/.mcagent/cache/wasi/c/d.wasm");
}

#[test]
fn workspace_members_are_rewritten() {
    let ws = "[workspace]\nmembers = [\"crates/*\"]\nresolver = \"2\"\n  members = 1";
    assert_eq!(
        workspace_for_tool(ws),
        "[workspace]\nmembers = [\"tool\"]\nresolver = \"2\"\n  members = 1"
    );
    assert_eq!(workspace_for_tool(""), "");
}

#[test]
fn bin_name_from_manifest() {
    let m = "[package]\n  name = \"my_tool\"\nversion = \"1\"\nname = \"other\"";
    assert!(is_bin_name_readable(m));
    assert_eq!(bin_name_of(m), "my_tool");
    assert_eq!(bin_name_of("[package]\nversion = \"1\""), "tool");
    assert_eq!(bin_name_of("name = bare"), "tool");
    assert_eq!(bin_name_of("name = \"a\" # \"c\""), "a\" # \"c");
    assert!(!is_bin_name_readable("name = \"open"));
}

#[test]
fn targets_and_build_layout() {
    assert_eq!(target_and_toolchain(WasiTarget::Preview1), ("wasm32-wasip1", "+nightly"));
    assert_eq!(target_and_toolchain(WasiTarget::Preview2), ("wasm32-wasip2", "+nightly-2024-12-15"));
    assert_eq!(
        cargo_build_args("+nightly", "wasm32-wasip1", "t"),
        vec!["+nightly", "build", "--release", "--target", "wasm32-wasip1", "-p", "t"]
    );
    assert_eq!(
        compiled_wasm_path("/tmp/b", "wasm32-wasip1", "t"),
        "/tmp/b/target/wasm32-wasip1/release/t.wasm"
    );
}

#[test]
fn blob_hashes_are_forty_lowercase_hex_digits() {
    for content in [&b""[..], b"a", b"hello\n", &[0u8, 255, 10][..]] {
        let h = git_blob_hash(content);
        assert_eq!(h.len(), 40);
        assert!(h.chars().all(|c| c.is_ascii_digit() || ('a'..='f').contains(&c)));
    }
}

#[test]
fn distinct_hashes_get_distinct_cache_files() {
    assert_ne!(cache_path("/p", "ab"), cache_path("/p", "abc"));
    assert_eq!(cache_path("p", "x"), "p/.mcagent/cache/wasi/x.wasm");
    assert_eq!(cache_path("/p", ""), "/p/.mcagent/cache/wasi/.wasm");
}
