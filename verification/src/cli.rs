//! The decisions of the command-line program: what an invocation asks for,
//! and where a template source is fetched from.

use vstd::prelude::*;
use crate::param::text_views;
use crate::args::{
    contains_arg, get_param_value, yaml_paths, option_value_of, yaml_paths_of, opt_text_view,
};
use crate::text::{
    find_char, first_index_of, lemma_first_index_in_range, same_text, lemma_first_index_after,
};

verus! {

/// A run of the generator: the template source, how to apply it, and the
/// options that go with it.
#[derive(Debug)]
pub struct RunPlan {
    /// The template: a local path, or `<user>/<repo>` on GitHub.
    pub source: String,
    /// Overlay the template onto the current directory (`apply`) rather than
    /// generate a new project directory.
    pub apply_mode: bool,
    /// The branch to fetch a remote template from.
    pub branch: String,
    /// Test only, touch nothing on disk.
    pub dry_run: bool,
    /// A custom name for the output directory.
    pub out_name: Option<String>,
    /// The YAML files to load parameters from, in order.
    pub yaml_paths: Vec<String>,
}

/// What an invocation asks for.
#[derive(Debug)]
pub enum Action {
    /// Print the version and stop.
    ShowVersion,
    /// Print the usage and stop.
    ShowUsage,
    /// List the available template sources and stop.
    ListSources,
    /// `apply` without a source: print how to call it and fail.
    MissingApplySource,
    /// Run the generator.
    Run(RunPlan),
}

/// An invocation: whether to ask nothing of the user, and the action.
#[derive(Debug)]
pub struct Invocation {
    /// Ask nothing, print no banner: `--quiet`, or input that is not a terminal.
    pub quiet: bool,
    pub action: Action,
}

pub open spec fn asks_version(args: Seq<Seq<char>>) -> bool {
    args.contains("--version"@)
}

pub open spec fn asks_usage(args: Seq<Seq<char>>) -> bool {
    args.len() < 2 || args[1] == "--help"@
}

pub open spec fn asks_list(args: Seq<Seq<char>>) -> bool {
    args.contains("-L"@) || args.contains("--list"@)
}

pub open spec fn asks_apply(args: Seq<Seq<char>>) -> bool {
    args.len() >= 2 && args[1] == "apply"@
}

/// The branch to fetch from: the value of `--branch`/`-b`, `master` without one.
pub open spec fn branch_of(args: Seq<Seq<char>>) -> Seq<char> {
    match option_value_of(args, "--branch"@, "-b"@) {
        Some(b) => b,
        None => "master"@,
    }
}

/// The action that the arguments (the program's name first) ask for, with
/// `non_interactive` telling whether input comes from something other than
/// a terminal.
pub fn plan_invocation(args: &Vec<String>, non_interactive: bool) -> (r: Invocation)
    ensures
        text_views(args@).contains("--version"@) ==> r.action is ShowVersion,
        ({
            let a = text_views(args@);
            &&& r.quiet == (a.contains("--quiet"@) || non_interactive)
            &&& (r.action is ShowVersion) == asks_version(a)
            &&& (r.action is ShowUsage) == (!asks_version(a) && asks_usage(a))
            &&& (r.action is ListSources) == (!asks_version(a) && !asks_usage(a) && asks_list(a))
            &&& (r.action is MissingApplySource) == (!asks_version(a) && !asks_usage(a) && !asks_list(a)
                && asks_apply(a) && a.len() < 3)
            &&& r.action matches Action::Run(p) ==> {
                &&& p.apply_mode == asks_apply(a)
                &&& p.source@ == (if asks_apply(a) { a[2] } else { a[1] })
                &&& p.branch@ == branch_of(a)
                &&& p.dry_run == a.contains("--dry-run"@)
                &&& opt_text_view(p.out_name) == option_value_of(a, "--out"@, ""@)
                &&& text_views(p.yaml_paths@) == yaml_paths_of(a)
            }
        }),
{
    let ghost a = text_views(args@);
    let quiet = contains_arg(args, "--quiet") || non_interactive;
    if contains_arg(args, "--version") {
        return Invocation { quiet, action: Action::ShowVersion };
    }
    if args.len() < 2 || same_text(args[1].as_str(), "--help") {
        return Invocation { quiet, action: Action::ShowUsage };
    }
    assert(a[1] == args@[1]@);
    if contains_arg(args, "-L") || contains_arg(args, "--list") {
        return Invocation { quiet, action: Action::ListSources };
    }
    let apply_mode = same_text(args[1].as_str(), "apply");
    if apply_mode && args.len() < 3 {
        return Invocation { quiet, action: Action::MissingApplySource };
    }
    let source = if apply_mode {
        assert(a[2] == args@[2]@);
        args[2].clone()
    } else {
        args[1].clone()
    };
    let branch = match get_param_value(args, "--branch", "-b") {
        Some(b) => b,
        None => String::from_str("master"),
    };
    let dry_run = contains_arg(args, "--dry-run");
    let out_name = get_param_value(args, "--out", "");
    let paths = yaml_paths(args);
    Invocation {
        quiet,
        action: Action::Run(RunPlan { source, apply_mode, branch, dry_run, out_name, yaml_paths: paths }),
    }
}

/// The address of a GitHub template's archive: the repository `<source>.rf`
/// at `branch`, with `nocache` appended against caching.
pub fn archive_url(source: &str, branch: &str, nocache: &str) -> (r: String)
    ensures
        r@ == "https://github.com/"@ + source@ + ".rf/archive/"@ + branch@ + ".zip?nocache="@ + nocache@,
{
    let mut r = String::from_str("https://github.com/");
    r.append(source);
    r.append(".rf/archive/");
    r.append(branch);
    r.append(".zip?nocache=");
    r.append(nocache);
    r
}

/// The file name that a downloaded archive is saved under: `<branch>.zip`.
pub fn archive_file_name(branch: &str) -> (r: String)
    ensures
        r@ == branch@ + ".zip"@,
{
    let mut r = String::from_str(branch);
    r.append(".zip");
    r
}

/// `s` without any `/`.
pub open spec fn without_slashes(s: Seq<char>) -> Seq<char>
    decreases s.len(),
{
    if s.len() == 0 {
        seq![]
    } else if s.last() == '/' {
        without_slashes(s.drop_last())
    } else {
        without_slashes(s.drop_last()).push(s.last())
    }
}

/// The repository part of a `<user>/<repo>` source: everything after the first
/// `/`, with any further `/` left out; nothing where the source holds no `/`.
pub open spec fn repo_name(source: Seq<char>) -> Seq<char> {
    match first_index_of(source, '/') {
        Some(i) => without_slashes(source.skip(i + 1)),
        None => seq![],
    }
}

/// The directory that a downloaded archive unpacks to:
/// `<repo>.rf-<branch_dir>`.
pub fn archive_root(source: &str, branch_dir: &str) -> (r: String)
    ensures
        r@ == repo_name(source@) + ".rf-"@ + branch_dir@,
{
    let mut r = String::new();
    let n: usize = source.unicode_len();
    assert(source@.skip(0) =~= source@);
    match find_char(source, '/', 0) {
        Some(slash) => {
            proof {
                lemma_first_index_in_range(source@, '/');
            }
            let ghost rest = source@.skip(slash + 1);
            let mut j: usize = slash + 1;
            while j < n
                invariant
                    n == source@.len(),
                    slash + 1 <= j <= n,
                    rest == source@.skip(slash + 1),
                    r@ == without_slashes(rest.take(j - slash - 1)),
                decreases n - j,
            {
                assert(rest.take(j - slash).drop_last() =~= rest.take(j - slash - 1));
                assert(rest.take(j - slash).last() == source@[j as int]);
                if source.get_char(j) != '/' {
                    let piece = source.substring_char(j, j + 1);
                    assert(piece@ =~= seq![source@[j as int]]);
                    r.append(piece);
                    assert(r@ =~= without_slashes(rest.take(j - slash - 1)).push(source@[j as int]));
                }
                j = j + 1;
            }
            assert(rest.take(j - slash - 1) =~= rest);
        },
        None => {},
    }
    r.append(".rf-");
    r.append(branch_dir);
    r
}


/// `--version` anywhere among the arguments, the first position after the
/// program's name included, asks for the version.
pub proof fn version_anywhere_asks_version(args: Seq<Seq<char>>, i: int)
    requires
        0 <= i < args.len(),
        args[i] == "--version"@,
    ensures
        asks_version(args),
{
    assert(args.contains(args[i]));
}

/// Leaving out every `/` keeps each other character, unchanged and in order.
pub proof fn without_slashes_filters(s: Seq<char>)
    ensures
        without_slashes(s) == s.filter(|c: char| c != '/'),
    decreases s.len(),
{
    reveal_with_fuel(Seq::<char>::filter, 1);
    if s.len() > 0 {
        without_slashes_filters(s.drop_last());
    }
}

/// A text without `/` is kept whole.
pub proof fn without_slashes_keeps_plain(s: Seq<char>)
    requires
        !s.contains('/'),
    ensures
        without_slashes(s) == s,
    decreases s.len(),
{
    if s.len() > 0 {
        assert(s.last() == s[s.len() - 1]);
        assert(!s.drop_last().contains('/')) by {
            if s.drop_last().contains('/') {
                let j = choose|j: int| 0 <= j < s.drop_last().len() && s.drop_last()[j] == '/';
                assert(s[j] == '/');
            }
        }
        without_slashes_keeps_plain(s.drop_last());
        assert(s.drop_last().push(s.last()) =~= s);
    }
}

/// The repository of `<user>/<repo>`, with neither part holding a `/`, is
/// `<repo>` exactly, every character kept as written.
pub proof fn repo_name_of_user_and_repo(u: Seq<char>, r: Seq<char>)
    requires
        !u.contains('/'),
        !r.contains('/'),
    ensures
        repo_name(u + "/"@ + r) == r,
{
    reveal_strlit("/");
    assert("/"@ =~= seq!['/']);
    lemma_first_index_after(u, '/', r);
    assert((u + "/"@ + r).skip(u.len() as int + 1) =~= r);
    without_slashes_keeps_plain(r);
}

} // verus!
