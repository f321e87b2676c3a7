//! Tool metadata as declared in a source file's frontmatter, the check of a
//! tool's `--describe` run, and the selection of tool source files.

use vstd::prelude::*;
use crate::frontmatter::{
    flag_or_false, flag_or_false_of, opt_get, opt_lookup, parse, parse_spec, tool_section,
    tool_section_of,
};
use crate::toml_tree::TomlValue;
use crate::executor::{views, ExecutionResult, SandboxPermissions};
use crate::text::{chars_of, push_all, signed_decimal, signed_decimal_chars, string_from_chars};
use crate::types::{
    ArgSpec, ArgSpecView, ErrorSpec, ErrorSpecView, ErrorView, McAgentError, ToolCapabilities,
    ToolMetadata, ToolMetadataView, WasiTarget,
};

verus! {

broadcast use vstd::string::group_string_axioms;

/// The string held by an optional value.
pub open spec fn opt_str(v: Option<TomlValue>) -> Option<Seq<char>> {
    match v {
        Some(x) => x.str_of(),
        None => None,
    }
}

/// The string held by an optional value, or `default`.
pub open spec fn str_or(v: Option<TomlValue>, default: Seq<char>) -> Seq<char> {
    match opt_str(v) {
        Some(s) => s,
        None => default,
    }
}

/// The integer held by an optional value.
pub open spec fn opt_int(v: Option<TomlValue>) -> Option<i64> {
    match v {
        Some(x) => x.int_of(),
        None => None,
    }
}

/// The items held by an optional array value.
pub open spec fn opt_array(v: Option<TomlValue>) -> Option<Seq<TomlValue>> {
    match v {
        Some(x) => x.array_of(),
        None => None,
    }
}

/// An argument entry: it needs a string `name` and a string `type`.
pub open spec fn arg_of(arg: TomlValue) -> Option<ArgSpecView> {
    match (opt_str(arg.lookup("name"@)), opt_str(arg.lookup("type"@))) {
        (Some(name), Some(arg_type)) => Some(
            ArgSpecView {
                name,
                arg_type,
                description: str_or(arg.lookup("description"@), ""@),
                required: flag_or_false(arg.lookup("required"@)),
                default: opt_str(arg.lookup("default"@)),
            },
        ),
        _ => None,
    }
}

/// The argument entries of a list, skipping those without a name or type.
pub open spec fn args_of(items: Seq<TomlValue>) -> Seq<ArgSpecView>
    decreases items.len(),
{
    if items.len() == 0 {
        Seq::empty()
    } else {
        args_of(items.drop_last()) + match arg_of(items.last()) {
            Some(a) => seq![a],
            None => Seq::empty(),
        }
    }
}

/// An error entry: it needs an integer `code` (kept as its low 32 bits) and a
/// string `message`.
pub open spec fn error_of(err: TomlValue) -> Option<ErrorSpecView> {
    match (opt_int(err.lookup("code"@)), opt_str(err.lookup("message"@))) {
        (Some(code), Some(message)) => Some(ErrorSpecView { code: code as i32, message }),
        _ => None,
    }
}

/// The error entries of a list, skipping those without a code or message.
pub open spec fn errors_of(items: Seq<TomlValue>) -> Seq<ErrorSpecView>
    decreases items.len(),
{
    if items.len() == 0 {
        Seq::empty()
    } else {
        errors_of(items.drop_last()) + match error_of(items.last()) {
            Some(e) => seq![e],
            None => Seq::empty(),
        }
    }
}

/// The metadata a `[package.metadata.wasi-tool]` table declares.
pub open spec fn metadata_of_section(meta: TomlValue, target: WasiTarget) -> Result<
    ToolMetadataView,
    ErrorView,
> {
    match opt_str(meta.lookup("name"@)) {
        None => Err(ErrorView::InvalidConfig("Missing 'name' in wasi-tool metadata"@)),
        Some(name) => {
            let caps = meta.lookup("capabilities"@);
            Ok(
                ToolMetadataView {
                    name,
                    version: str_or(meta.lookup("version"@), "0.0.0"@),
                    description: str_or(meta.lookup("description"@), ""@),
                    args: match opt_array(meta.lookup("args"@)) {
                        Some(items) => args_of(items),
                        None => Seq::empty(),
                    },
                    errors: match opt_array(meta.lookup("errors"@)) {
                        Some(items) => errors_of(items),
                        None => Seq::empty(),
                    },
                    capabilities: ToolCapabilities {
                        read: flag_or_false(opt_lookup(caps, "read"@)),
                        write: flag_or_false(opt_lookup(caps, "write"@)),
                        net: flag_or_false(opt_lookup(caps, "net"@)),
                    },
                    wasi_target: target,
                },
            )
        },
    }
}

/// What [`extract_from_frontmatter`] gives for a source text.
pub open spec fn metadata_spec(src: Seq<char>) -> Result<ToolMetadataView, ErrorView> {
    match parse_spec(src) {
        Err(e) => Err(e),
        Ok(fm) => match tool_section(fm.parsed_manifest) {
            None => Err(ErrorView::InvalidConfig("No [package.metadata.wasi-tool] section found"@)),
            Some(meta) => metadata_of_section(meta, fm.wasi_target),
        },
    }
}

/// The view of an extraction outcome.
pub open spec fn metadata_result_view(r: Result<ToolMetadata, McAgentError>) -> Result<
    ToolMetadataView,
    ErrorView,
> {
    match r {
        Ok(m) => Ok(m@),
        Err(e) => Err(e@),
    }
}

/// The view of an optional table entry.
pub open spec fn deref_opt(v: Option<&TomlValue>) -> Option<TomlValue> {
    match v {
        Some(t) => Some(*t),
        None => None,
    }
}

/// The string held by an optional value, copied.
fn opt_string_of(v: Option<&TomlValue>) -> (r: Option<String>)
    ensures
        match r {
            Some(s) => opt_str(deref_opt(v)) == Some(s@),
            None => opt_str(deref_opt(v)) is None,
        },
{
    match v {
        Some(x) => match x.as_str() {
            Some(s) => Some(s.clone()),
            None => None,
        },
        None => None,
    }
}

/// The string held by an optional value, or `default`, copied.
fn string_or(v: Option<&TomlValue>, default: &str) -> (r: String)
    ensures
        r@ == str_or(deref_opt(v), default@),
{
    match opt_string_of(v) {
        Some(s) => s,
        None => default.to_string(),
    }
}

/// One argument entry.
fn arg_entry(arg: &TomlValue) -> (r: Option<ArgSpec>)
    ensures
        match r {
            Some(a) => arg_of(*arg) == Some(a@),
            None => arg_of(*arg) is None,
        },
{
    let name = match opt_string_of(arg.get("name")) {
        Some(n) => n,
        None => return None,
    };
    let arg_type = match opt_string_of(arg.get("type")) {
        Some(t) => t,
        None => return None,
    };
    let description = string_or(arg.get("description"), "");
    let required = flag_or_false_of(arg.get("required"));
    let default = opt_string_of(arg.get("default"));
    Some(ArgSpec { name, arg_type, description, required, default })
}

/// One error entry.
fn error_entry(err: &TomlValue) -> (r: Option<ErrorSpec>)
    ensures
        match r {
            Some(e) => error_of(*err) == Some(e@),
            None => error_of(*err) is None,
        },
{
    let code = match err.get("code") {
        Some(c) => match c.as_integer() {
            Some(i) => i,
            None => return None,
        },
        None => return None,
    };
    let message = match opt_string_of(err.get("message")) {
        Some(m) => m,
        None => return None,
    };
    Some(ErrorSpec { code: code as i32, message })
}

/// The argument entries of a list.
fn arg_entries(items: &Vec<TomlValue>) -> (r: Vec<ArgSpec>)
    ensures
        r@.map_values(|a: ArgSpec| a@) == args_of(items@),
{
    let mut out: Vec<ArgSpec> = Vec::new();
    let mut k: usize = 0;
    while k < items.len()
        invariant
            k <= items@.len(),
            out@.map_values(|a: ArgSpec| a@) == args_of(items@.take(k as int)),
        decreases items@.len() - k,
    {
        let ghost before = out@;
        assert(items@.take(k + 1).drop_last() =~= items@.take(k as int));
        assert(items@.take(k + 1).last() == items@[k as int]);
        match arg_entry(&items[k]) {
            Some(a) => {
                out.push(a);
                assert(out@.map_values(|a: ArgSpec| a@) =~= before.map_values(|a: ArgSpec| a@)
                    + seq![out@.last()@]);
            },
            None => {},
        }
        assert(out@.map_values(|a: ArgSpec| a@) =~= args_of(items@.take(k + 1)));
        k = k + 1;
    }
    assert(items@.take(items@.len() as int) =~= items@);
    out
}

/// The error entries of a list.
fn error_entries(items: &Vec<TomlValue>) -> (r: Vec<ErrorSpec>)
    ensures
        r@.map_values(|e: ErrorSpec| e@) == errors_of(items@),
{
    let mut out: Vec<ErrorSpec> = Vec::new();
    let mut k: usize = 0;
    while k < items.len()
        invariant
            k <= items@.len(),
            out@.map_values(|e: ErrorSpec| e@) == errors_of(items@.take(k as int)),
        decreases items@.len() - k,
    {
        let ghost before = out@;
        assert(items@.take(k + 1).drop_last() =~= items@.take(k as int));
        assert(items@.take(k + 1).last() == items@[k as int]);
        match error_entry(&items[k]) {
            Some(e) => {
                out.push(e);
                assert(out@.map_values(|e: ErrorSpec| e@) =~= before.map_values(
                    |e: ErrorSpec| e@,
                ) + seq![out@.last()@]);
            },
            None => {},
        }
        assert(out@.map_values(|e: ErrorSpec| e@) =~= errors_of(items@.take(k + 1)));
        k = k + 1;
    }
    assert(items@.take(items@.len() as int) =~= items@);
    out
}

/// The metadata a `[package.metadata.wasi-tool]` table declares.
pub fn metadata_from_section(meta: &TomlValue, target: WasiTarget) -> (r: Result<
    ToolMetadata,
    McAgentError,
>)
    ensures
        metadata_result_view(r) == metadata_of_section(*meta, target),
{
    let name = match opt_string_of(meta.get("name")) {
        Some(n) => n,
        None => {
            return Err(
                McAgentError::InvalidConfig("Missing 'name' in wasi-tool metadata".to_string()),
            );
        },
    };
    let version = string_or(meta.get("version"), "0.0.0");
    let description = string_or(meta.get("description"), "");
    let caps = meta.get("capabilities");
    let capabilities = ToolCapabilities {
        read: flag_or_false_of(opt_get(caps, "read")),
        write: flag_or_false_of(opt_get(caps, "write")),
        net: flag_or_false_of(opt_get(caps, "net")),
    };
    let args = match meta.get("args") {
        Some(a) => match a.as_array() {
            Some(items) => arg_entries(items),
            None => Vec::new(),
        },
        None => Vec::new(),
    };
    let errors = match meta.get("errors") {
        Some(e) => match e.as_array() {
            Some(items) => error_entries(items),
            None => Vec::new(),
        },
        None => Vec::new(),
    };
    let r = ToolMetadata { name, version, description, args, errors, capabilities, wasi_target: target };
    assert(r@.args =~= match opt_array(meta.lookup("args"@)) {
        Some(items) => args_of(items),
        None => Seq::empty(),
    });
    assert(r@.errors =~= match opt_array(meta.lookup("errors"@)) {
        Some(items) => errors_of(items),
        None => Seq::empty(),
    });
    Ok(r)
}

/// Parse metadata from cargo frontmatter content.
pub fn extract_from_frontmatter(source: &str) -> (r: Result<ToolMetadata, McAgentError>)
    ensures
        metadata_result_view(r) == metadata_spec(source@),
{
    let fm = match parse(source) {
        Ok(f) => f,
        Err(e) => return Err(e),
    };
    match tool_section_of(&fm.parsed_manifest) {
        Some(meta) => metadata_from_section(meta, fm.wasi_target),
        None => Err(
            McAgentError::InvalidConfig(
                "No [package.metadata.wasi-tool] section found".to_string(),
            ),
        ),
    }
}

/// The error for a `--describe` run that failed: its exit code and its
/// standard error.
pub open spec fn describe_failed(exit_code: i32, stderr: Seq<char>) -> ErrorView {
    ErrorView::WasiRuntime(
        "Tool --describe failed with code "@ + signed_decimal(exit_code as int) + ": "@ + stderr,
    )
}

/// The arguments a tool is run with to describe itself.
pub fn describe_args() -> (r: Vec<String>)
    ensures
        views(r@) == seq!["--describe"@],
{
    let mut v: Vec<String> = Vec::new();
    v.push("--describe".to_string());
    assert(views(v@) =~= seq!["--describe"@]);
    v
}

/// The sandbox a tool describes itself in: no directories, no network.
pub fn describe_permissions() -> (r: SandboxPermissions)
    ensures
        r.read_dirs@.len() == 0,
        r.write_dirs@.len() == 0,
        !r.allow_net,
{
    SandboxPermissions { read_dirs: Vec::new(), write_dirs: Vec::new(), allow_net: false }
}

/// The check of a `--describe` run: a nonzero exit code is an error that
/// quotes the code and the run's standard error.
pub fn check_describe(result: &ExecutionResult) -> (r: Result<(), McAgentError>)
    ensures
        result.exit_code == 0 ==> r is Ok,
        result.exit_code != 0 ==> (r matches Err(e) && e@ == describe_failed(
            result.exit_code,
            result.stderr@,
        )),
{
    if result.exit_code == 0 {
        return Ok(());
    }
    let mut msg: Vec<char> = chars_of("Tool --describe failed with code ");
    let code = signed_decimal_chars(result.exit_code);
    push_all(&mut msg, &code);
    let sep = chars_of(": ");
    push_all(&mut msg, &sep);
    let err = chars_of(result.stderr.as_str());
    push_all(&mut msg, &err);
    Err(McAgentError::WasiRuntime(string_from_chars(&msg)))
}

/// Extract just the target from a source file's frontmatter.
pub fn extract_target_from_source(content: &str) -> (r: Result<WasiTarget, McAgentError>)
    ensures
        match r {
            Ok(t) => parse_spec(content@) matches Ok(f) && f.wasi_target == t,
            Err(e) => parse_spec(content@) matches Err(v) && v == e@,
        },
{
    match parse(content) {
        Ok(f) => Ok(f.wasi_target),
        Err(e) => Err(e),
    }
}

/// Argument entries are read one by one and kept in order: the arguments of
/// two lists put together are those of the first, then those of the second.
pub proof fn law_args_concat(a: Seq<TomlValue>, b: Seq<TomlValue>)
    ensures
        args_of(a + b) == args_of(a) + args_of(b),
    decreases b.len(),
{
    if b.len() == 0 {
        assert(a + b =~= a);
        assert(args_of(a) + args_of(b) =~= args_of(a));
    } else {
        law_args_concat(a, b.drop_last());
        assert((a + b).drop_last() =~= a + b.drop_last());
        assert((a + b).last() == b.last());
        let tail = match arg_of(b.last()) {
            Some(x) => seq![x],
            None => Seq::<ArgSpecView>::empty(),
        };
        assert(args_of(a) + args_of(b.drop_last()) + tail =~= args_of(a) + (args_of(
            b.drop_last(),
        ) + tail));
    }
}

/// A single argument entry gives its argument when it has a string name and
/// type, and nothing otherwise.
pub proof fn law_args_single(x: TomlValue)
    ensures
        (opt_str(x.lookup("name"@)) is Some && opt_str(x.lookup("type"@)) is Some) ==> args_of(
            seq![x],
        ).len() == 1 && args_of(seq![x])[0].name == opt_str(x.lookup("name"@))->0 && args_of(
            seq![x],
        )[0].arg_type == opt_str(x.lookup("type"@))->0,
        !(opt_str(x.lookup("name"@)) is Some && opt_str(x.lookup("type"@)) is Some) ==> args_of(
            seq![x],
        ).len() == 0,
{
    assert(seq![x].drop_last() =~= Seq::<TomlValue>::empty());
    assert(seq![x].last() == x);
    assert(args_of(seq![x].drop_last()) == Seq::<ArgSpecView>::empty());
    let tail = match arg_of(x) {
        Some(a) => seq![a],
        None => Seq::<ArgSpecView>::empty(),
    };
    assert(args_of(seq![x]) =~= Seq::<ArgSpecView>::empty() + tail);
    assert(args_of(seq![x]) =~= tail);
}

/// Every argument entry with a string name and type is kept: the number of
/// arguments is the number of such entries.
pub proof fn law_args_count(items: Seq<TomlValue>)
    ensures
        args_of(items).len() == items.filter(
            |x: TomlValue| opt_str(x.lookup("name"@)) is Some && opt_str(x.lookup("type"@)) is Some,
        ).len(),
    decreases items.len(),
{
    reveal(Seq::filter);
    if items.len() > 0 {
        law_args_count(items.drop_last());
    }
}

/// Error entries are read one by one and kept in order: the errors of two
/// lists put together are those of the first, then those of the second.
pub proof fn law_errors_concat(a: Seq<TomlValue>, b: Seq<TomlValue>)
    ensures
        errors_of(a + b) == errors_of(a) + errors_of(b),
    decreases b.len(),
{
    if b.len() == 0 {
        assert(a + b =~= a);
        assert(errors_of(a) + errors_of(b) =~= errors_of(a));
    } else {
        law_errors_concat(a, b.drop_last());
        assert((a + b).drop_last() =~= a + b.drop_last());
        assert((a + b).last() == b.last());
        let tail = match error_of(b.last()) {
            Some(x) => seq![x],
            None => Seq::<ErrorSpecView>::empty(),
        };
        assert(errors_of(a) + errors_of(b.drop_last()) + tail =~= errors_of(a) + (errors_of(
            b.drop_last(),
        ) + tail));
    }
}

/// Every error entry with an integer code and a string message is kept: the
/// number of errors is the number of such entries.
pub proof fn law_errors_count(items: Seq<TomlValue>)
    ensures
        errors_of(items).len() == items.filter(
            |x: TomlValue| opt_int(x.lookup("code"@)) is Some && opt_str(x.lookup("message"@)) is Some,
        ).len(),
    decreases items.len(),
{
    reveal(Seq::filter);
    if items.len() > 0 {
        law_errors_count(items.drop_last());
    }
}

} // verus!
