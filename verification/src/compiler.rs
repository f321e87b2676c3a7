//! Compiling a tool source to WASM: whether the cache already holds it, the
//! workspace the build runs in, the binary's name, the target and toolchain,
//! and where the build leaves the module.

use vstd::prelude::*;
use vstd::string::StringExecFns;
use crate::cache::{blob_object, cache_path, cache_path_spec, git_blob_hash, hex_spec, sha1_digest};
use crate::executor::views;
use crate::paths::{path_join, path_joined};
use crate::text::{
    chars_of, find_char_in, find_from, is_prefix, join_nl, line_spans, lines, push_all, push_span,
    rfind_before, rfind_char_in, span_starts_with, span_texts, spans_within, string_from_chars,
    trim, trim_span,
};
use crate::types::WasiTarget;

verus! {

broadcast use vstd::string::group_string_axioms;

/// Whether a tool must be compiled, and the cached module's path either way.
#[derive(Debug)]
pub enum CompileDecision {
    /// The cache already holds the compiled module.
    Cached(String),
    /// The module must be compiled to this path.
    Compile(String),
}

/// The mathematical content of a [`CompileDecision`].
pub enum CompileDecisionView {
    Cached(Seq<char>),
    Compile(Seq<char>),
}

impl View for CompileDecision {
    type V = CompileDecisionView;

    open spec fn view(&self) -> CompileDecisionView {
        match self {
            CompileDecision::Cached(p) => CompileDecisionView::Cached(p@),
            CompileDecision::Compile(p) => CompileDecisionView::Compile(p@),
        }
    }
}

/// Where the cache keeps the module compiled from a source's content.
pub open spec fn cached_wasm_path_spec(project_root: Seq<char>, content: Seq<u8>) -> Seq<char> {
    cache_path_spec(project_root, hex_spec(sha1_digest(blob_object(content))))
}

/// The cached module when the cache holds it, else a compilation to that path.
pub open spec fn ensure_compiled_spec(
    project_root: Seq<char>,
    content: Seq<u8>,
    cached_exists: bool,
) -> CompileDecisionView {
    let p = cached_wasm_path_spec(project_root, content);
    if cached_exists {
        CompileDecisionView::Cached(p)
    } else {
        CompileDecisionView::Compile(p)
    }
}

/// Where the cache keeps the module compiled from a source's content.
pub fn cached_wasm_path(project_root: &str, content: &[u8]) -> (r: String)
    ensures
        r@ == cached_wasm_path_spec(project_root@, content@),
{
    let hash = git_blob_hash(content);
    cache_path(project_root, hash.as_str())
}

/// Ensure a tool is compiled: the cached module (found by the git blob hash
/// of its source) if the cache holds it, else compile it to that path.
pub fn ensure_compiled(project_root: &str, source_content: &[u8], cached_exists: bool) -> (r:
    CompileDecision)
    ensures
        r@ == ensure_compiled_spec(project_root@, source_content@, cached_exists),
{
    let p = cached_wasm_path(project_root, source_content);
    if cached_exists {
        CompileDecision::Cached(p)
    } else {
        CompileDecision::Compile(p)
    }
}

/// The line that replaces a workspace's `members` line.
pub open spec fn tool_members_line() -> Seq<char> {
    "members = [\"tool\"]"@
}

/// A workspace manifest's lines with each line that starts with `members`
/// replaced by `members = ["tool"]`, joined with `'\n'`.
pub open spec fn workspace_for_tool_spec(workspace_toml: Seq<char>) -> Seq<char> {
    join_nl(
        lines(workspace_toml).map_values(
            |l: Seq<char>|
                if is_prefix("members"@, l) {
                    tool_members_line()
                } else {
                    l
                },
        ),
    )
}

/// The workspace manifest a tool is built in: the project's, with its
/// members pointed at the one tool crate.
pub fn workspace_for_tool(workspace_toml: &str) -> (r: String)
    ensures
        r@ == workspace_for_tool_spec(workspace_toml@),
{
    let s = chars_of(workspace_toml);
    let spans = line_spans(&s);
    let members = chars_of("members");
    let replacement = chars_of("members = [\"tool\"]");
    let ghost mapped = span_texts(s@, spans@).map_values(
        |l: Seq<char>|
            if is_prefix("members"@, l) {
                tool_members_line()
            } else {
                l
            },
    );
    let mut out: Vec<char> = Vec::new();
    let mut k: usize = 0;
    assert(mapped.subrange(0, 0) =~= Seq::<Seq<char>>::empty());
    while k < spans.len()
        invariant
            k <= spans@.len(),
            spans_within(s@.len(), spans@),
            span_texts(s@, spans@) == lines(workspace_toml@),
            s@ == workspace_toml@,
            members@ == "members"@,
            replacement@ == tool_members_line(),
            mapped == span_texts(s@, spans@).map_values(
                |l: Seq<char>|
                    if is_prefix("members"@, l) {
                        tool_members_line()
                    } else {
                        l
                    },
            ),
            out@ == join_nl(mapped.subrange(0, k as int)),
        decreases spans@.len() - k,
    {
        let (a, b) = spans[k];
        assert(spans@[k as int].0 <= spans@[k as int].1 <= s@.len());
        assert(span_texts(s@, spans@)[k as int] == s@.subrange(a as int, b as int));
        if k > 0 {
            out.push('\n');
            proof {
                crate::text::lemma_join_nl_step(mapped, 0, k as int);
            }
        } else {
            assert(mapped.subrange(0, 1) =~= seq![mapped[0]]);
        }
        if span_starts_with(&s, a, b, &members) {
            push_all(&mut out, &replacement);
        } else {
            push_span(&mut out, &s, a, b);
        }
        assert(out@ == join_nl(mapped.subrange(0, k + 1)));
        k = k + 1;
    }
    assert(mapped.subrange(0, spans@.len() as int) =~= mapped);
    string_from_chars(&out)
}

/// The first line at or after `i` whose trimmed text starts with `prefix`.
pub open spec fn find_line_starting(ls: Seq<Seq<char>>, i: int, prefix: Seq<char>) -> Option<int>
    decreases ls.len() - i,
{
    if i < 0 || i >= ls.len() {
        None
    } else if is_prefix(prefix, trim(ls[i])) {
        Some(i)
    } else {
        find_line_starting(ls, i + 1, prefix)
    }
}

/// The manifest line that names the binary: the first whose trimmed text
/// starts with `name = `.
pub open spec fn name_line(manifest: Seq<char>) -> Option<Seq<char>> {
    match find_line_starting(lines(manifest), 0, "name = "@) {
        Some(k) => Some(lines(manifest)[k]),
        None => None,
    }
}

/// The binary name can be read without slicing out of order: the name line,
/// if any, does not hold exactly one `'"'`.
pub open spec fn bin_name_readable(manifest: Seq<char>) -> bool {
    match name_line(manifest) {
        Some(l) => match (find_from(l, '"', 0), rfind_before(l, '"', l.len() as int)) {
            (Some(a), Some(b)) => a + 1 <= b,
            _ => true,
        },
        None => true,
    }
}

/// The binary name a manifest declares: the text between the first and the
/// last `'"'` of the name line, or `tool` when there is no name line or it
/// holds no quote.
pub open spec fn bin_name_spec(manifest: Seq<char>) -> Seq<char> {
    match name_line(manifest) {
        Some(l) => match (find_from(l, '"', 0), rfind_before(l, '"', l.len() as int)) {
            (Some(a), Some(b)) => l.subrange(a + 1, b),
            _ => "tool"@,
        },
        None => "tool"@,
    }
}

/// The span of the name line among `spans`.
fn name_line_span(s: &Vec<char>, spans: &Vec<(usize, usize)>) -> (r: Option<(usize, usize)>)
    requires
        spans_within(s@.len(), spans@),
    ensures
        match r {
            Some((a, b)) => a <= b <= s@.len() && (find_line_starting(
                span_texts(s@, spans@),
                0,
                "name = "@,
            ) matches Some(k) && span_texts(s@, spans@)[k] == s@.subrange(a as int, b as int)),
            None => find_line_starting(span_texts(s@, spans@), 0, "name = "@) is None,
        },
{
    let ghost ls = span_texts(s@, spans@);
    let prefix = chars_of("name = ");
    let mut k: usize = 0;
    while k < spans.len()
        invariant
            k <= spans@.len(),
            spans_within(s@.len(), spans@),
            ls == span_texts(s@, spans@),
            prefix@ == "name = "@,
            find_line_starting(ls, 0, "name = "@) == find_line_starting(ls, k as int, "name = "@),
        decreases spans@.len() - k,
    {
        let (lo, hi) = spans[k];
        assert(spans@[k as int].0 <= spans@[k as int].1 <= s@.len());
        assert(ls[k as int] == s@.subrange(lo as int, hi as int));
        let (a, b) = trim_span(s, lo, hi);
        if span_starts_with(s, a, b, &prefix) {
            return Some((lo, hi));
        }
        k = k + 1;
    }
    None
}

/// Whether the binary name can be read (see [`bin_name_readable`]).
pub fn is_bin_name_readable(manifest: &str) -> (b: bool)
    ensures
        b == bin_name_readable(manifest@),
{
    let s = chars_of(manifest);
    let spans = line_spans(&s);
    match name_line_span(&s, &spans) {
        Some((lo, hi)) => match (find_char_in(&s, lo, hi, '"'), rfind_char_in(&s, lo, hi, '"')) {
            (Some(a), Some(b)) => a + 1 <= b,
            _ => true,
        },
        None => true,
    }
}

/// The binary name a manifest declares (see [`bin_name_spec`]).
pub fn bin_name_of(manifest: &str) -> (r: String)
    requires
        bin_name_readable(manifest@),
    ensures
        r@ == bin_name_spec(manifest@),
{
    let s = chars_of(manifest);
    let spans = line_spans(&s);
    match name_line_span(&s, &spans) {
        Some((lo, hi)) => match (find_char_in(&s, lo, hi, '"'), rfind_char_in(&s, lo, hi, '"')) {
            (Some(a), Some(b)) => {
                assert(s@.subrange(lo as int, hi as int).subrange(a - lo + 1, b - lo)
                    =~= s@.subrange(a + 1, b as int));
                let mut out: Vec<char> = Vec::new();
                push_span(&mut out, &s, a + 1, b);
                string_from_chars(&out)
            },
            _ => "tool".to_string(),
        },
        None => "tool".to_string(),
    }
}

/// The Rust target triple and toolchain used to build for a WASI target.
pub open spec fn target_and_toolchain_spec(t: WasiTarget) -> (Seq<char>, Seq<char>) {
    match t {
        WasiTarget::Preview1 => ("wasm32-wasip1"@, "+nightly"@),
        WasiTarget::Preview2 => ("wasm32-wasip2"@, "+nightly-2024-12-15"@),
    }
}

/// The Rust target triple and toolchain used to build for a WASI target.
pub fn target_and_toolchain(t: WasiTarget) -> (r: (&'static str, &'static str))
    ensures
        (r.0@, r.1@) == target_and_toolchain_spec(t),
{
    match t {
        WasiTarget::Preview1 => ("wasm32-wasip1", "+nightly"),
        WasiTarget::Preview2 => ("wasm32-wasip2", "+nightly-2024-12-15"),
    }
}

/// The arguments of the `cargo` build of a tool.
pub fn cargo_build_args(toolchain: &str, target: &str, bin_name: &str) -> (r: Vec<String>)
    ensures
        views(r@) == seq![
            toolchain@,
            "build"@,
            "--release"@,
            "--target"@,
            target@,
            "-p"@,
            bin_name@,
        ],
{
    let mut v: Vec<String> = Vec::new();
    v.push(toolchain.to_string());
    v.push("build".to_string());
    v.push("--release".to_string());
    v.push("--target".to_string());
    v.push(target.to_string());
    v.push("-p".to_string());
    v.push(bin_name.to_string());
    assert(views(v@) =~= seq![
        toolchain@,
        "build"@,
        "--release"@,
        "--target"@,
        target@,
        "-p"@,
        bin_name@,
    ]);
    v
}

/// Where a build leaves the module: `<build_dir>/target/<target>/release/<bin>.wasm`.
pub open spec fn compiled_wasm_path_spec(
    build_dir: Seq<char>,
    target: Seq<char>,
    bin_name: Seq<char>,
) -> Seq<char> {
    path_joined(
        path_joined(path_joined(path_joined(build_dir, "target"@), target), "release"@),
        bin_name + ".wasm"@,
    )
}

/// Where a build leaves the module.
pub fn compiled_wasm_path(build_dir: &str, target: &str, bin_name: &str) -> (r: String)
    ensures
        r@ == compiled_wasm_path_spec(build_dir@, target@, bin_name@),
{
    let a = path_join(build_dir, "target");
    let b = path_join(a.as_str(), target);
    let c = path_join(b.as_str(), "release");
    let mut file = bin_name.to_string();
    file.append(".wasm");
    path_join(c.as_str(), file.as_str())
}

} // verus!
