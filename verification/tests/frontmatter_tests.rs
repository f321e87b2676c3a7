use mcagent::frontmatter::{frontmatter_from_tree, parse};
use mcagent::metadata::{extract_from_frontmatter, extract_target_from_source, metadata_from_section};
use mcagent::toml_tree::TomlValue;
use mcagent::types::{McAgentError, WasiTarget};

#[test]
fn test_parse_basic_frontmatter() {
    let source = r#"#!/usr/bin/env -S cargo +nightly -Zscript
---cargo
[package]
name = "test_tool"
edition = "2021"

[package.metadata.wasi-tool]
name = "test_tool"
wasi_target = "preview1"

[package.metadata.wasi-tool.capabilities]
read = true
write = false
net = false

[dependencies]
serde_json = "1"
---

fn main() {
    println!("hello");
}
"#;

    let fm = parse(source).unwrap();
    assert!(fm.manifest.contains("test_tool"));
    assert!(fm.code.contains("fn main()"));
    assert_eq!(fm.wasi_target, WasiTarget::Preview1);
}

#[test]
fn test_net_requires_preview2() {
    let source = r#"---cargo
[package]
name = "bad_tool"
edition = "2021"

[package.metadata.wasi-tool]
wasi_target = "preview1"

[package.metadata.wasi-tool.capabilities]
net = true
---
fn main() {}
"#;

    let result = parse(source);
    assert!(result.is_err());
}

#[test]
fn test_extract_from_frontmatter() {
    let source = r#"#!/usr/bin/env -S cargo +nightly -Zscript
---cargo
[package]
name = "test_tool"
edition = "2021"

[package.metadata.wasi-tool]
name = "test_tool"
version = "1.0.0"
description = "A test tool"

[package.metadata.wasi-tool.capabilities]
read = true
write = false
net = false

[[package.metadata.wasi-tool.args]]
name = "input"
type = "string"
description = "Input file"
required = true

[[package.metadata.wasi-tool.errors]]
code = 100
message = "Custom error"

[dependencies]
serde_json = "1"
---

fn main() {}
"#;

    let metadata = extract_from_frontmatter(source).unwrap();
    assert_eq!(metadata.name, "test_tool");
    assert_eq!(metadata.version, "1.0.0");
    assert_eq!(metadata.description, "A test tool");
    assert!(metadata.capabilities.read);
    assert!(!metadata.capabilities.write);
    assert!(!metadata.capabilities.net);
    assert_eq!(metadata.wasi_target, WasiTarget::Preview1);
    assert_eq!(metadata.args.len(), 1);
    assert_eq!(metadata.args[0].name, "input");
    assert!(metadata.args[0].required);
    assert_eq!(metadata.errors.len(), 1);
    assert_eq!(metadata.errors[0].code, 100);
}

fn invalid_config(r: Result<impl std::fmt::Debug, McAgentError>) -> String {
    match r {
        Err(McAgentError::InvalidConfig(m)) => m,
        other => panic!("expected an invalid config error, got {:?}", other),
    }
}

#[test]
fn parse_splits_manifest_and_code_exactly() {
    let source = "#!shebang\r\n  ---cargo  \r\n[package]\r\nname = \"x\"\r\n---\r\nfn main() {}\r\n// end\r\n";
    let fm = parse(source).unwrap();
    assert_eq!(fm.manifest, "[package]\nname = \"x\"");
    assert_eq!(fm.code, "fn main() {}\n// end");
    assert_eq!(fm.wasi_target, WasiTarget::Preview1);
    let package = fm.parsed_manifest.get("package").unwrap();
    assert_eq!(package.get("name").unwrap().as_str().unwrap(), "x");
}

#[test]
fn parse_closing_marker_last_line_gives_empty_code() {
    let fm = parse("---cargo\n[package]\n---").unwrap();
    assert_eq!(fm.manifest, "[package]");
    assert_eq!(fm.code, "");
}

#[test]
fn parse_reports_missing_markers() {
    assert_eq!(invalid_config(parse("fn main() {}\n")), "No ---cargo frontmatter found");
    assert_eq!(invalid_config(parse("---cargo\n[package]\n")), "No closing --- for frontmatter");
}

#[test]
fn parse_reports_bad_toml() {
    let m = invalid_config(parse("---cargo\n[package\n---\n"));
    assert!(m.starts_with("Failed to parse manifest TOML: "));
    assert!(m.len() > "Failed to parse manifest TOML: ".len());
}

#[test]
fn parse_net_with_preview2_is_accepted() {
    let source = "---cargo\n[package.metadata.wasi-tool]\nwasi_target = \"preview2\"\n[package.metadata.wasi-tool.capabilities]\nnet = true\n---\n";
    let fm = parse(source).unwrap();
    assert_eq!(fm.wasi_target, WasiTarget::Preview2);
    let m = invalid_config(parse(
        "---cargo\n[package.metadata.wasi-tool.capabilities]\nnet = true\n---\n",
    ));
    assert_eq!(m, "net capability requires wasi_target = \"preview2\"");
}

#[test]
fn unknown_target_falls_back_to_preview1() {
    let fm = parse("---cargo\n[package.metadata.wasi-tool]\nwasi_target = \"preview9\"\n---\n").unwrap();
    assert_eq!(fm.wasi_target, WasiTarget::Preview1);
    assert_eq!(
        extract_target_from_source("---cargo\n[package.metadata.wasi-tool]\nwasi_target = \"preview2\"\n---\n").unwrap(),
        WasiTarget::Preview2
    );
}

#[test]
fn extract_defaults_and_skipped_entries() {
    let source = r#"---cargo
[package.metadata.wasi-tool]
name = "t"

[[package.metadata.wasi-tool.args]]
name = "a"
type = "int"
default = "3"

[[package.metadata.wasi-tool.args]]
name = "no_type"

[[package.metadata.wasi-tool.errors]]
code = 4294967397
message = "wraps"

[[package.metadata.wasi-tool.errors]]
message = "no code"
---
"#;
    let m = extract_from_frontmatter(source).unwrap();
    assert_eq!(m.version, "0.0.0");
    assert_eq!(m.description, "");
    assert_eq!(m.args.len(), 1);
    assert_eq!(m.args[0].arg_type, "int");
    assert_eq!(m.args[0].description, "");
    assert!(!m.args[0].required);
    assert_eq!(m.args[0].default.as_deref(), Some("3"));
    assert_eq!(m.errors.len(), 1);
    assert_eq!(m.errors[0].code, 101);
    assert!(!m.capabilities.read && !m.capabilities.write && !m.capabilities.net);
}

#[test]
fn extract_reports_missing_section_and_name() {
    assert_eq!(
        invalid_config(extract_from_frontmatter("---cargo\n[package]\nname = \"x\"\n---\n")),
        "No [package.metadata.wasi-tool] section found"
    );
    assert_eq!(
        invalid_config(extract_from_frontmatter("---cargo\n[package.metadata.wasi-tool]\nversion = \"1\"\n---\n")),
        "Missing 'name' in wasi-tool metadata"
    );
}

#[test]
fn toml_lookup_distinguishes_kinds() {
    let fm = parse("---cargo\na = 1\nb = true\nc = [1, 2]\nd = 1.5\n---\n").unwrap();
    let t = &fm.parsed_manifest;
    assert_eq!(t.get("a").unwrap().as_integer(), Some(1));
    assert_eq!(t.get("b").unwrap().as_bool(), Some(true));
    assert_eq!(t.get("c").unwrap().as_array().unwrap().len(), 2);
    assert!(matches!(t.get("d"), Some(TomlValue::Float)));
    assert!(t.get("a").unwrap().as_str().is_none());
    assert!(t.get("missing").is_none());
}

fn table(entries: Vec<(&str, TomlValue)>) -> TomlValue {
    TomlValue::Table(entries.into_iter().map(|(k, v)| (k.to_string(), v)).collect())
}

fn manifest_tree(tool: TomlValue) -> TomlValue {
    table(vec![("package", table(vec![("metadata", table(vec![("wasi-tool", tool)]))]))])
}

#[test]
fn net_check_on_a_parsed_manifest() {
    let net_only = table(vec![
        ("name", TomlValue::Str("t".into())),
        ("capabilities", table(vec![("net", TomlValue::Bool(true))])),
    ]);
    let r = frontmatter_from_tree("m".into(), "c".into(), manifest_tree(net_only));
    assert_eq!(invalid_config(r), "net capability requires wasi_target = \"preview2\"");

    let net_p2 = table(vec![
        ("wasi_target", TomlValue::Str("preview2".into())),
        ("capabilities", table(vec![("net", TomlValue::Bool(true))])),
    ]);
    let fm = frontmatter_from_tree("m".into(), "c".into(), manifest_tree(net_p2)).unwrap();
    assert_eq!(fm.wasi_target, WasiTarget::Preview2);
    assert_eq!(fm.manifest, "m");
    assert_eq!(fm.code, "c");

    let plain = frontmatter_from_tree("m".into(), "c".into(), table(vec![])).unwrap();
    assert_eq!(plain.wasi_target, WasiTarget::Preview1);
}

#[test]
fn metadata_of_a_parsed_section() {
    let section = table(vec![
        ("name", TomlValue::Str("grep".into())),
        ("capabilities", table(vec![("read", TomlValue::Bool(true)), ("write", TomlValue::Int(1))])),
    ]);
    let m = metadata_from_section(&section, WasiTarget::Preview2).unwrap();
    assert_eq!(m.name, "grep");
    assert_eq!(m.version, "0.0.0");
    assert_eq!(m.description, "");
    assert!(m.capabilities.read && !m.capabilities.write && !m.capabilities.net);
    assert_eq!(m.wasi_target, WasiTarget::Preview2);
    let nameless = table(vec![("version", TomlValue::Str("1".into()))]);
    assert_eq!(
        invalid_config(metadata_from_section(&nameless, WasiTarget::Preview1)),
        "Missing 'name' in wasi-tool metadata"
    );
}
