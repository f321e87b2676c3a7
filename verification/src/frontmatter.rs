//! Cargo-script frontmatter of a tool source file: the TOML manifest between
//! `---cargo` and `---`, the Rust code after it, and the declared target.

use vstd::prelude::*;
use vstd::string::StringExecFns;
use crate::text::{
    chars_of, join_nl, join_spans, line_spans, lines, span_eq, span_texts,
    spans_within, string_from_chars, trim, trim_span,
};
use crate::toml_tree::{parse_toml, toml_document, TomlValue};
use crate::types::{ErrorView, McAgentError, WasiTarget};

verus! {

broadcast use vstd::string::group_string_axioms;

/// Parsed cargo frontmatter from a tool source file.
#[derive(Debug)]
pub struct Frontmatter {
    /// Raw TOML manifest (between `---cargo` and `---`).
    pub manifest: String,
    /// Rust source code (after the closing `---`).
    pub code: String,
    /// Compilation target extracted from `[package.metadata.wasi-tool]`.
    pub wasi_target: WasiTarget,
    /// Parsed TOML value for further inspection.
    pub parsed_manifest: TomlValue,
}

/// The mathematical content of a [`Frontmatter`].
pub struct FrontmatterView {
    pub manifest: Seq<char>,
    pub code: Seq<char>,
    pub wasi_target: WasiTarget,
    pub parsed_manifest: TomlValue,
}

impl View for Frontmatter {
    type V = FrontmatterView;

    open spec fn view(&self) -> FrontmatterView {
        FrontmatterView {
            manifest: self.manifest@,
            code: self.code@,
            wasi_target: self.wasi_target,
            parsed_manifest: self.parsed_manifest,
        }
    }
}

/// The first line at or after `i` whose trimmed text is `marker`.
pub open spec fn find_line(ls: Seq<Seq<char>>, i: int, marker: Seq<char>) -> Option<int>
    decreases ls.len() - i,
{
    if i < 0 || i >= ls.len() {
        None
    } else if trim(ls[i]) == marker {
        Some(i)
    } else {
        find_line(ls, i + 1, marker)
    }
}

/// The value under `key` in an optional table.
pub open spec fn opt_lookup(v: Option<TomlValue>, key: Seq<char>) -> Option<TomlValue> {
    match v {
        Some(t) => t.lookup(key),
        None => None,
    }
}

/// The `[package.metadata.wasi-tool]` table of a manifest.
pub open spec fn tool_section(tree: TomlValue) -> Option<TomlValue> {
    opt_lookup(opt_lookup(tree.lookup("package"@), "metadata"@), "wasi-tool"@)
}

/// An optional boolean value, `false` when absent or not a boolean.
pub open spec fn flag_or_false(v: Option<TomlValue>) -> bool {
    match v {
        Some(x) => match x.bool_of() {
            Some(b) => b,
            None => false,
        },
        None => false,
    }
}

/// The target a manifest declares: `preview2` when `wasi_target` is the
/// string `"preview2"`, else `preview1`.
pub open spec fn declared_target(tree: TomlValue) -> WasiTarget {
    match opt_lookup(tool_section(tree), "wasi_target"@) {
        Some(v) => match v.str_of() {
            Some(s) => if s == "preview2"@ {
                WasiTarget::Preview2
            } else {
                WasiTarget::Preview1
            },
            None => WasiTarget::Preview1,
        },
        None => WasiTarget::Preview1,
    }
}

/// Whether a manifest declares the `net` capability.
pub open spec fn declares_net(tree: TomlValue) -> bool {
    flag_or_false(opt_lookup(opt_lookup(tool_section(tree), "capabilities"@), "net"@))
}

/// The manifest text of a source whose frontmatter spans lines `start..=end`.
pub open spec fn manifest_of(src: Seq<char>, start: int, end: int) -> Seq<char> {
    join_nl(lines(src).subrange(start + 1, end))
}

/// The code text after the closing line `end`.
pub open spec fn code_of(src: Seq<char>, end: int) -> Seq<char> {
    join_nl(lines(src).subrange(end + 1, lines(src).len() as int))
}

/// The frontmatter of a manifest text, the code after it and the tree the
/// manifest parses to: refused when the manifest declares the `net`
/// capability without `wasi_target = "preview2"`.
pub open spec fn from_tree_spec(manifest: Seq<char>, code: Seq<char>, tree: TomlValue) -> Result<
    FrontmatterView,
    ErrorView,
> {
    if declares_net(tree) && declared_target(tree) != WasiTarget::Preview2 {
        Err(ErrorView::InvalidConfig("net capability requires wasi_target = \"preview2\""@))
    } else {
        Ok(
            FrontmatterView {
                manifest,
                code,
                wasi_target: declared_target(tree),
                parsed_manifest: tree,
            },
        )
    }
}

/// What [`parse`] gives for a source text.
pub open spec fn parse_spec(src: Seq<char>) -> Result<FrontmatterView, ErrorView> {
    let ls = lines(src);
    match find_line(ls, 0, "---cargo"@) {
        None => Err(ErrorView::InvalidConfig("No ---cargo frontmatter found"@)),
        Some(start) => match find_line(ls, start + 1, "---"@) {
            None => Err(ErrorView::InvalidConfig("No closing --- for frontmatter"@)),
            Some(end) => {
                let manifest = manifest_of(src, start, end);
                match toml_document(manifest) {
                    Err(m) => Err(ErrorView::InvalidConfig("Failed to parse manifest TOML: "@ + m)),
                    Ok(tree) => from_tree_spec(manifest, code_of(src, end), tree),
                }
            },
        },
    }
}

/// A parsed frontmatter never declares the network without the preview2
/// target: networking needs wasi-http, which only preview2 offers.
pub proof fn law_net_requires_preview2(src: Seq<char>)
    ensures
        parse_spec(src) matches Ok(f) ==> !declares_net(f.parsed_manifest) || f.wasi_target
            == WasiTarget::Preview2,
        parse_spec(src) matches Ok(f) ==> f.wasi_target == declared_target(f.parsed_manifest),
{
}

/// The view of a parse outcome.
pub open spec fn parse_result_view(r: Result<Frontmatter, McAgentError>) -> Result<
    FrontmatterView,
    ErrorView,
> {
    match r {
        Ok(f) => Ok(f@),
        Err(e) => Err(e@),
    }
}

/// The first line among `spans[from..]` whose trimmed text is `marker`.
fn find_marker_line(s: &Vec<char>, spans: &Vec<(usize, usize)>, from: usize, marker: &Vec<char>) -> (r:
    Option<usize>)
    requires
        spans_within(s@.len(), spans@),
        from <= spans@.len(),
    ensures
        r matches Some(k) ==> from <= k < spans@.len(),
        match r {
            Some(k) => find_line(span_texts(s@, spans@), from as int, marker@) == Some(k as int),
            None => find_line(span_texts(s@, spans@), from as int, marker@) is None,
        },
{
    let ghost ls = span_texts(s@, spans@);
    let mut k = from;
    while k < spans.len()
        invariant
            from <= k <= spans@.len(),
            spans_within(s@.len(), spans@),
            ls == span_texts(s@, spans@),
            find_line(ls, from as int, marker@) == find_line(ls, k as int, marker@),
        decreases spans@.len() - k,
    {
        let (lo, hi) = spans[k];
        assert(spans@[k as int].0 <= spans@[k as int].1 <= s@.len());
        let (a, b) = trim_span(s, lo, hi);
        assert(ls[k as int] == s@.subrange(lo as int, hi as int));
        if span_eq(s, a, b, marker) {
            return Some(k);
        }
        k = k + 1;
    }
    None
}

/// The `[package.metadata.wasi-tool]` table of a manifest.
pub fn tool_section_of(tree: &TomlValue) -> (r: Option<&TomlValue>)
    ensures
        match r {
            Some(v) => tool_section(*tree) == Some(*v),
            None => tool_section(*tree) is None,
        },
{
    let package = match tree.get("package") {
        Some(p) => p,
        None => return None,
    };
    let metadata = match package.get("metadata") {
        Some(m) => m,
        None => return None,
    };
    metadata.get("wasi-tool")
}

/// The value under `key` in an optional table.
pub fn opt_get<'a>(v: Option<&'a TomlValue>, key: &str) -> (r: Option<&'a TomlValue>)
    ensures
        match r {
            Some(x) => opt_lookup(
                match v {
                    Some(t) => Some(*t),
                    None => None,
                },
                key@,
            ) == Some(*x),
            None => opt_lookup(
                match v {
                    Some(t) => Some(*t),
                    None => None,
                },
                key@,
            ) is None,
        },
{
    match v {
        Some(t) => t.get(key),
        None => None,
    }
}

/// An optional boolean value, `false` when absent or not a boolean.
pub fn flag_or_false_of(v: Option<&TomlValue>) -> (b: bool)
    ensures
        b == flag_or_false(
            match v {
                Some(t) => Some(*t),
                None => None,
            },
        ),
{
    match v {
        Some(x) => match x.as_bool() {
            Some(b) => b,
            None => false,
        },
        None => false,
    }
}

/// The target a manifest declares.
pub fn declared_target_of(tree: &TomlValue) -> (t: WasiTarget)
    ensures
        t == declared_target(*tree),
{
    let v = opt_get(tool_section_of(tree), "wasi_target");
    match v {
        Some(x) => match x.as_str() {
            Some(s) => {
                let sc = chars_of(s.as_str());
                let p2 = chars_of("preview2");
                if span_eq(&sc, 0, sc.len(), &p2) {
                    assert(sc@.subrange(0, sc@.len() as int) =~= sc@);
                    WasiTarget::Preview2
                } else {
                    assert(sc@.subrange(0, sc@.len() as int) =~= sc@);
                    WasiTarget::Preview1
                }
            },
            None => WasiTarget::Preview1,
        },
        None => WasiTarget::Preview1,
    }
}

/// Whether a manifest declares the `net` capability.
pub fn declares_net_of(tree: &TomlValue) -> (b: bool)
    ensures
        b == declares_net(*tree),
{
    flag_or_false_of(opt_get(opt_get(tool_section_of(tree), "capabilities"), "net"))
}

/// Parse cargo frontmatter from a tool source string.
///
/// Expected format: an optional shebang line, a line `---cargo`, the TOML
/// manifest, a line `---`, then the Rust code. A manifest that declares the
/// `net` capability must also declare `wasi_target = "preview2"`.
pub fn parse(source: &str) -> (r: Result<Frontmatter, McAgentError>)
    ensures
        parse_result_view(r) == parse_spec(source@),
{
    let s = chars_of(source);
    let spans = line_spans(&s);
    let n = spans.len();
    let open_marker = chars_of("---cargo");
    let close_marker = chars_of("---");
    let start = match find_marker_line(&s, &spans, 0, &open_marker) {
        Some(k) => k,
        None => {
            return Err(McAgentError::InvalidConfig("No ---cargo frontmatter found".to_string()));
        },
    };
    assert(start < n);
    let end = match find_marker_line(&s, &spans, start + 1, &close_marker) {
        Some(k) => k,
        None => {
            return Err(McAgentError::InvalidConfig("No closing --- for frontmatter".to_string()));
        },
    };
    assert(start < end < n);
    let manifest = string_from_chars(&join_spans(&s, &spans, start + 1, end));
    let code = string_from_chars(&join_spans(&s, &spans, end + 1, n));
    let parsed_manifest = match parse_toml(manifest.as_str()) {
        Ok(v) => v,
        Err(m) => {
            let mut msg = "Failed to parse manifest TOML: ".to_string();
            msg.append(m.as_str());
            return Err(McAgentError::InvalidConfig(msg));
        },
    };
    frontmatter_from_tree(manifest, code, parsed_manifest)
}

/// The frontmatter of a manifest text, the code after it, and the tree the
/// manifest parses to: the target the manifest declares, after checking
/// that a manifest declaring the `net` capability also declares
/// `wasi_target = "preview2"`.
pub fn frontmatter_from_tree(manifest: String, code: String, tree: TomlValue) -> (r: Result<
    Frontmatter,
    McAgentError,
>)
    ensures
        parse_result_view(r) == from_tree_spec(manifest@, code@, tree),
{
    let wasi_target = declared_target_of(&tree);
    let net = declares_net_of(&tree);
    if net && wasi_target != WasiTarget::Preview2 {
        return Err(
            McAgentError::InvalidConfig(
                "net capability requires wasi_target = \"preview2\"".to_string(),
            ),
        );
    }
    Ok(Frontmatter { manifest, code, wasi_target, parsed_manifest: tree })
}

/// Once the manifest has parsed, the only refusal is the network one: the
/// frontmatter is accepted exactly when the manifest does not declare `net`
/// or declares the preview2 target, and then it holds the manifest text and
/// the code as given, the tree, and the declared target. Other capabilities
/// (`read`, `write`) never refuse a manifest, whatever its target.
pub proof fn law_only_net_without_preview2_is_refused(
    manifest: Seq<char>,
    code: Seq<char>,
    tree: TomlValue,
)
    ensures
        (from_tree_spec(manifest, code, tree) is Ok) <==> (!declares_net(tree) || declared_target(
            tree,
        ) == WasiTarget::Preview2),
        from_tree_spec(manifest, code, tree) matches Ok(f) ==> f.manifest == manifest && f.code
            == code && f.parsed_manifest == tree && f.wasi_target == declared_target(tree),
        from_tree_spec(manifest, code, tree) is Err ==> from_tree_spec(manifest, code, tree)
            == Err::<FrontmatterView, ErrorView>(
            ErrorView::InvalidConfig("net capability requires wasi_target = \"preview2\""@),
        ),
{
}

/// A source whose markers are found and whose manifest parses as TOML
/// without declaring `net` is always accepted: its manifest is the text
/// between the markers, its code the text after the closing one, and its
/// target the one the manifest declares.
pub proof fn law_manifest_without_net_is_accepted(
    src: Seq<char>,
    start: int,
    end: int,
    tree: TomlValue,
)
    requires
        find_line(lines(src), 0, "---cargo"@) == Some(start),
        find_line(lines(src), start + 1, "---"@) == Some(end),
        toml_document(manifest_of(src, start, end)) == Ok::<TomlValue, Seq<char>>(tree),
        !declares_net(tree),
    ensures
        parse_spec(src) matches Ok(f) && f.manifest == manifest_of(src, start, end) && f.code
            == code_of(src, end) && f.wasi_target == declared_target(tree) && f.parsed_manifest
            == tree,
{
}

} // verus!
