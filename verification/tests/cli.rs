use reframe::args::{contains_arg, get_param_value, yaml_paths};
use reframe::cli::{archive_root, archive_url, plan_invocation, Action};
use reframe::usage::usage_lines;

fn args(v: &[&str]) -> Vec<String> {
    v.iter().map(|s| s.to_string()).collect()
}

#[test]
fn option_value_after_eq() {
    let a = args(&["reframe", "src", "--branch=dev"]);
    assert_eq!(get_param_value(&a, "--branch", "-b"), Some("dev".to_string()));
    let a = args(&["reframe", "src", "-b=feature"]);
    assert_eq!(get_param_value(&a, "--branch", "-b"), Some("feature".to_string()));
    let a = args(&["reframe", "src", "  --out=my-dir  "]);
    assert_eq!(get_param_value(&a, "--out", ""), Some("my-dir".to_string()));
}

#[test]
fn option_last_naming_argument_decides() {
    let a = args(&["--branch=a", "x", "--branch=b", "y"]);
    assert_eq!(get_param_value(&a, "--branch", "-b"), Some("b".to_string()));
    let a = args(&["--branch=a", "--branch"]);
    assert_eq!(get_param_value(&a, "--branch", "-b"), None);
}

#[test]
fn option_value_needs_exactly_one_eq() {
    assert_eq!(get_param_value(&args(&["--out=a=b"]), "--out", ""), None);
    assert_eq!(get_param_value(&args(&["--out"]), "--out", ""), None);
    assert_eq!(get_param_value(&args(&["--out="]), "--out", ""), Some(String::new()));
}

#[test]
fn empty_short_name_matches_nothing() {
    assert_eq!(get_param_value(&args(&["-b=x", "other=y"]), "--out", ""), None);
    assert_eq!(get_param_value(&args(&["--outdir=z"]), "--out", ""), Some("z".to_string()));
}

#[test]
fn exact_flags_only() {
    let a = args(&["reframe", " --quiet", "--dry-run"]);
    assert!(!contains_arg(&a, "--quiet"));
    assert!(contains_arg(&a, "--dry-run"));
}

#[test]
fn yaml_paths_both_forms() {
    let a = args(&["--yaml", "a.yml", "--yaml=b.yml", "  --yaml=c.yml ", "x", "--yaml"]);
    assert_eq!(yaml_paths(&a), args(&["a.yml", "b.yml", "c.yml"]));
    assert_eq!(yaml_paths(&args(&["--yaml", "p"])), yaml_paths(&args(&["--yaml=p"])));
}

#[test]
fn plan_version_usage_and_list() {
    assert!(matches!(plan_invocation(&args(&["reframe", "src", "--version"]), false).action, Action::ShowVersion));
    assert!(matches!(plan_invocation(&args(&["reframe"]), false).action, Action::ShowUsage));
    assert!(matches!(plan_invocation(&args(&["reframe", "--help"]), false).action, Action::ShowUsage));
    assert!(matches!(plan_invocation(&args(&["reframe", "-L"]), false).action, Action::ListSources));
    assert!(matches!(plan_invocation(&args(&["reframe", "x", "--list"]), false).action, Action::ListSources));
    assert!(matches!(plan_invocation(&args(&["reframe", "apply"]), false).action, Action::MissingApplySource));
}

#[test]
fn plan_quiet_flag_or_non_interactive() {
    assert!(plan_invocation(&args(&["reframe", "src", "--quiet"]), false).quiet);
    assert!(plan_invocation(&args(&["reframe", "src"]), true).quiet);
    assert!(!plan_invocation(&args(&["reframe", "src"]), false).quiet);
}

#[test]
fn plan_generate_defaults() {
    let inv = plan_invocation(&args(&["reframe", "anvie/basic-rust"]), false);
    match inv.action {
        Action::Run(p) => {
            assert_eq!(p.source, "anvie/basic-rust");
            assert!(!p.apply_mode);
            assert_eq!(p.branch, "master");
            assert!(!p.dry_run);
            assert_eq!(p.out_name, None);
            assert!(p.yaml_paths.is_empty());
        }
        _ => panic!("expected a run"),
    }
}

#[test]
fn plan_apply_with_options() {
    let a = args(&[
        "reframe", "apply", "anvie/git-init", "--dry-run", "-b=dev", "--out=here", "--yaml", "p.yml",
    ]);
    match plan_invocation(&a, false).action {
        Action::Run(p) => {
            assert_eq!(p.source, "anvie/git-init");
            assert!(p.apply_mode);
            assert_eq!(p.branch, "dev");
            assert!(p.dry_run);
            assert_eq!(p.out_name, Some("here".to_string()));
            assert_eq!(p.yaml_paths, args(&["p.yml"]));
        }
        _ => panic!("expected a run"),
    }
}

#[test]
fn archive_url_and_root() {
    assert_eq!(
        archive_url("anvie/basic-rust", "master", "42"),
        "https://github.com/anvie/basic-rust.rf/archive/master.zip?nocache=42"
    );
    assert_eq!(archive_root("anvie/basic-rust", "master"), "basic-rust.rf-master");
    assert_eq!(archive_root("a/b/c", "main"), "bc.rf-main");
    assert_eq!(archive_root("local", "master"), ".rf-master");
    assert_eq!(archive_root("a/", "main"), ".rf-main");
}

#[test]
fn usage_mentions_program_name() {
    let lines = usage_lines("reframe");
    assert_eq!(lines.len(), 31);
    assert_eq!(lines[0], "Usage: ");
    assert_eq!(lines[2], "       $ reframe [SOURCE] [OPTIONS]");
    assert_eq!(lines[3], "       $ reframe apply [SOURCE] [OPTIONS]");
    assert_eq!(lines[11], "       -b,--branch        Select branch to use. Default: master");
    assert_eq!(lines[29], "       $ reframe apply anvie/git-init");
    assert_eq!(lines[30], "");
}

#[test]
fn usage_names_the_program_by_its_file_name() {
    let lines = reframe::usage::usage_for_program("/usr/local/bin/reframe").expect("a file name");
    assert_eq!(lines[2], "       $ reframe [SOURCE] [OPTIONS]");
    let lines = reframe::usage::usage_for_program("rf").expect("a file name");
    assert_eq!(lines[3], "       $ rf apply [SOURCE] [OPTIONS]");
    assert!(reframe::usage::usage_for_program("").is_none());
    assert!(reframe::usage::usage_for_program("bin/..").is_none());
}

#[test]
fn trim_removes_unicode_white_space() {
    assert_eq!(reframe::text::trim(" \t\u{3000}-Pk=v\u{a0}\n"), "-Pk=v");
    assert_eq!(reframe::text::trim("   "), "");
    assert_eq!(reframe::text::trim(""), "");
    assert_eq!(reframe::text::trim("a b"), "a b");
}

#[test]
fn usage_for_plain_and_trailing_paths() {
    let lines = reframe::usage::usage_for_program("my-tool_2.bin").expect("a plain name");
    assert_eq!(lines[28], "       $ my-tool_2.bin anvie/basic-rust --dry-run");
    let lines = reframe::usage::usage_for_program("/opt/bin/reframe/.//").expect("a file name");
    assert_eq!(lines[27], "       $ reframe anvie/basic-rust");
    assert!(reframe::usage::usage_for_program("..").is_none());
}
