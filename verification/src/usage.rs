//! The usage text of the command-line program.

use vstd::prelude::*;
use std::path::Path;
use crate::text::trim_end;
use crate::param::{
    text_views, cli_params_of, short_preset_keeps_key_and_value, long_preset_keeps_key_and_value,
};

verus! {

/// The lines of the usage text, with `exe` as the program's name.
pub open spec fn usage_text(exe: Seq<char>) -> Seq<Seq<char>> {
    seq![
        "Usage: "@,
        "       "@,
        "       $ "@ + exe + " [SOURCE] [OPTIONS]"@,
        "       $ "@ + exe + " apply [SOURCE] [OPTIONS]"@,
        ""@,
        "OPTIONS:"@,
        ""@,
        "       -L,--list          List available sources."@,
        "       --dry-run          Test only, don't touch disk."@,
        "       -Pkey=value        Preset parameters (short form)."@,
        "       --param key=value  Preset parameters (long form)."@,
        "       -b,--branch        Select branch to use. Default: master"@,
        "       "@,
        "       --out              Custom output dir name (default: project name in kebab case)."@,
        "       --quiet            Don't ask anything, just do it."@,
        "       --yaml <path>      Load parameters from YAML file."@,
        ""@,
        "ENVIRONMENT:"@,
        ""@,
        "       REFRAME_PARAM_<key>=<value>   Set parameters via env vars."@,
        ""@,
        "SUBCOMMANDS:"@,
        ""@,
        "       apply             Apply template to current directory (template must have mode = \"apply\")."@,
        ""@,
        "Examples:"@,
        ""@,
        "       $ "@ + exe + " anvie/basic-rust"@,
        "       $ "@ + exe + " anvie/basic-rust --dry-run"@,
        "       $ "@ + exe + " apply anvie/git-init"@,
        ""@,
    ]
}

/// `before`, the program's name, then `after`, as one line.
fn with_name(before: &str, exe_name: &str, after: &str) -> (r: String)
    ensures
        r@ == before@ + exe_name@ + after@,
{
    let mut r = String::from_str(before);
    r.append(exe_name);
    r.append(after);
    r
}

/// The lines of the usage text for a program called `exe_name`: how to call
/// it, its options, the environment variables and subcommands it reads, and
/// examples.
pub fn usage_lines(exe_name: &str) -> (r: Vec<String>)
    ensures
        text_views(r@) == usage_text(exe_name@),
{
    let ghost exe = exe_name@;
    let mut lines: Vec<String> = Vec::new();
    lines.push(String::from_str("Usage: "));
    lines.push(String::from_str("       "));
    lines.push(with_name("       $ ", exe_name, " [SOURCE] [OPTIONS]"));
    lines.push(with_name("       $ ", exe_name, " apply [SOURCE] [OPTIONS]"));
    lines.push(String::from_str(""));
    lines.push(String::from_str("OPTIONS:"));
    lines.push(String::from_str(""));
    lines.push(String::from_str("       -L,--list          List available sources."));
    lines.push(String::from_str("       --dry-run          Test only, don't touch disk."));
    lines.push(String::from_str("       -Pkey=value        Preset parameters (short form)."));
    lines.push(String::from_str("       --param key=value  Preset parameters (long form)."));
    lines.push(String::from_str("       -b,--branch        Select branch to use. Default: master"));
    lines.push(String::from_str("       "));
    lines.push(String::from_str("       --out              Custom output dir name (default: project name in kebab case)."));
    lines.push(String::from_str("       --quiet            Don't ask anything, just do it."));
    lines.push(String::from_str("       --yaml <path>      Load parameters from YAML file."));
    lines.push(String::from_str(""));
    lines.push(String::from_str("ENVIRONMENT:"));
    lines.push(String::from_str(""));
    lines.push(String::from_str("       REFRAME_PARAM_<key>=<value>   Set parameters via env vars."));
    lines.push(String::from_str(""));
    lines.push(String::from_str("SUBCOMMANDS:"));
    lines.push(String::from_str(""));
    lines.push(String::from_str("       apply             Apply template to current directory (template must have mode = \"apply\")."));
    lines.push(String::from_str(""));
    lines.push(String::from_str("Examples:"));
    lines.push(String::from_str(""));
    lines.push(with_name("       $ ", exe_name, " anvie/basic-rust"));
    lines.push(with_name("       $ ", exe_name, " anvie/basic-rust --dry-run"));
    lines.push(with_name("       $ ", exe_name, " apply anvie/git-init"));
    lines.push(String::from_str(""));
    assert(text_views(lines@) =~= usage_text(exe));
    lines
}


/// A character that may follow a path's final component: a separator (`/`,
/// or a backslash on Windows) or the `.` of a trailing `.` component.
pub open spec fn trailing_char(c: char) -> bool {
    c == '/' || c == '\\' || c == '.'
}

/// Whether `name` can be the final component of `path` on some platform: a
/// non-empty piece of `path` followed only by separators and dots.
pub open spec fn final_component_shape(name: Seq<char>, path: Seq<char>) -> bool {
    &&& name.len() > 0
    &&& exists|i: int|
        0 <= i && i + name.len() <= path.len() && #[trigger] path.subrange(i, i + name.len()) == name
            && forall|k: int| i + name.len() <= k < path.len() ==> trailing_char(path[k])
}

/// A character of a plain name: an ASCII letter or digit, `-`, `_` or `.`.
pub open spec fn plain_char(c: char) -> bool {
    ('a' <= c && c <= 'z') || ('A' <= c && c <= 'Z') || ('0' <= c && c <= '9') || c == '-' || c
        == '_' || c == '.'
}

/// A plain name: a non-empty path of plain characters other than `.` and `..`,
/// which every platform reads as one normal component.
pub open spec fn plain_name(path: Seq<char>) -> bool {
    &&& path.len() > 0
    &&& path != "."@
    &&& path != ".."@
    &&& forall|i: int| 0 <= i < path.len() ==> plain_char(#[trigger] path[i])
}

/// Whether `path` ends in a `..` component on every platform: it is `..`, or
/// ends in `/..` and holds no backslash (so it is not a Windows verbatim path, where
/// `/` is no separator).
pub open spec fn ends_in_parent(path: Seq<char>) -> bool {
    path == ".."@ || ("/.."@.is_suffix_of(path) && !path.contains('\\'))
}

/// `Path::file_name` of `path`, as a string: the final component of the path
/// where it is a normal one. Which components a path has depends on the
/// platform's separators, so the contract states only what holds on every
/// platform: a name is a non-empty piece of the path followed only by
/// separators and dots; a plain name is its own file name; an empty path, or
/// one that ends in a `..` component, has none. Which piece of a longer path
/// the name is, is not stated.
#[verifier::external_body]
fn file_name(path: &str) -> (r: Option<String>)
    ensures
        r matches Some(n) ==> final_component_shape(n@, path@),
        plain_name(path@) ==> r is Some && r.unwrap()@ == path@,
        path@.len() == 0 ==> r is None,
        ends_in_parent(path@) ==> r is None,
{
    Path::new(path).file_name().and_then(|n| n.to_str()).map(String::from)
}

/// The usage text for the program as it was called (`program` is the path it
/// was started by), naming it by the final component of that path; none where
/// the path has no such component. A plain name names the program as it is.
pub fn usage_for_program(program: &str) -> (r: Option<Vec<String>>)
    ensures
        r matches Some(lines) ==> exists|name: Seq<char>|
            final_component_shape(name, program@) && text_views(lines@) == #[trigger] usage_text(name),
        plain_name(program@) ==> (r matches Some(lines) && text_views(lines@) == usage_text(program@)),
        program@.len() == 0 ==> r is None,
        ends_in_parent(program@) ==> r is None,
{
    match file_name(program) {
        Some(name) => Some(usage_lines(name.as_str())),
        None => None,
    }
}


/// The usage text documents the preset forms that the argument parser reads:
/// its short-form line shows `-Pkey=value` and its long-form line
/// `--param key=value`, and the parser reads each as the parameter `key` with
/// the value `value`, whatever the program is called.
pub proof fn usage_documents_preset_forms(exe: Seq<char>)
    ensures
        usage_text(exe)[9] == "       -Pkey=value        Preset parameters (short form)."@,
        usage_text(exe)[10] == "       --param key=value  Preset parameters (long form)."@,
        cli_params_of(seq![usage_text(exe)[9].subrange(7, 18)]) == seq![("key"@, "value"@)],
        cli_params_of(seq![usage_text(exe)[10].subrange(7, 14), usage_text(exe)[10].subrange(15, 24)])
            == seq![("key"@, "value"@)],
{
    reveal_strlit("       -Pkey=value        Preset parameters (short form).");
    reveal_strlit("       --param key=value  Preset parameters (long form).");
    reveal_strlit("-P");
    reveal_strlit("--param");
    reveal_strlit("key");
    reveal_strlit("value");
    reveal_strlit("=");
    let short_line = usage_text(exe)[9];
    let long_line = usage_text(exe)[10];
    let k = "key"@;
    let v = "value"@;
    let empty: Seq<Seq<char>> = seq![];
    assert(!k.contains('='));
    assert(trim_end(v) == v);
    short_preset_keeps_key_and_value(k, v, empty);
    long_preset_keeps_key_and_value(k, v, empty);
    assert(short_line.subrange(7, 18) =~= "-P"@ + k + "="@ + v);
    assert(seq![short_line.subrange(7, 18)] =~= seq!["-P"@ + k + "="@ + v] + empty);
    assert(long_line.subrange(7, 14) =~= "--param"@);
    assert(long_line.subrange(15, 24) =~= k + "="@ + v);
    assert(seq![long_line.subrange(7, 14), long_line.subrange(15, 24)] =~= seq!["--param"@, k + "="@ + v]
        + empty);
    assert(seq![(k, v)] + cli_params_of(empty) =~= seq![(k, v)]);
}

} // verus!
