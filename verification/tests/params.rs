use reframe::param::{cli_params, env_params, extract_params, Param};
use reframe::yaml::yaml_params;

fn args(v: &[&str]) -> Vec<String> {
    v.iter().map(|s| s.to_string()).collect()
}

fn pairs(ps: &[Param]) -> Vec<(String, String)> {
    ps.iter().map(|p| (p.key.clone(), p.value.clone())).collect()
}

fn expect(v: &[(&str, &str)]) -> Vec<(String, String)> {
    v.iter().map(|(k, x)| (k.to_string(), x.to_string())).collect()
}

#[test]
fn env_and_cli_params_in_order() {
    let vars = vec![
        ("REFRAME_PARAM_AUTHOR_NAME".to_string(), "Robin".to_string()),
        ("PATH".to_string(), "/bin".to_string()),
        ("REFRAME_PARAM_with_serde".to_string(), "true".to_string()),
    ];
    let a = args(&["reframe", "anvie/basic-rust", "-Pname=demo", "--param", "year=2024", "-Pbad"]);
    let ps = extract_params(&a, &vars);
    assert_eq!(
        pairs(&ps),
        expect(&[
            ("author_name", "Robin"),
            ("with_serde", "true"),
            ("name", "demo"),
            ("year", "2024"),
        ])
    );
}

#[test]
fn env_keys_are_lowercased_and_others_ignored() {
    let vars = vec![
        ("REFRAME_PARAM_".to_string(), "empty".to_string()),
        ("XREFRAME_PARAM_A".to_string(), "no".to_string()),
        ("REFRAME_PARAM_ÀB".to_string(), "x".to_string()),
    ];
    assert_eq!(pairs(&env_params(&vars)), expect(&[("", "empty"), ("àb", "x")]));
}

#[test]
fn short_form_is_trimmed_and_splits_at_first_eq() {
    let a = args(&["  -Pk=v  ", "-Pk=a=b", "-P=v", "-Pnone"]);
    assert_eq!(pairs(&cli_params(&a)), expect(&[("k", "v"), ("k", "a=b"), ("", "v")]));
}

#[test]
fn long_form_takes_next_argument_untrimmed() {
    let a = args(&[" --param ", " k=v ", "--param", "-Pa=b", "--param", "noeq", "-Px=y"]);
    assert_eq!(pairs(&cli_params(&a)), expect(&[(" k", "v "), ("-Pa", "b"), ("x", "y")]));
}

#[test]
fn long_form_at_the_end_gives_nothing() {
    assert!(cli_params(&args(&["--param"])).is_empty());
    assert!(cli_params(&args(&[])).is_empty());
}

#[test]
fn short_and_long_forms_agree_on_examples() {
    let short = cli_params(&args(&["-Pname=demo", "-Pa=b", "--param", "c=d"]));
    let long = cli_params(&args(&["--param", "name=demo", "-Pa=b", "--param", "c=d"]));
    assert_eq!(pairs(&short), pairs(&long));
}

#[test]
fn yaml_flat_mapping_gives_scalar_entries() {
    let text = "name: demo\ncount: 3\nratio: 1.5\nflag: true\noff: false\nlist: [1, 2]\nmap: {a: 1}\nnothing: ~\n1: one\ntagged: !t x\n";
    let ps = yaml_params(text).expect("valid yaml");
    assert_eq!(
        pairs(&ps),
        expect(&[("name", "demo"), ("count", "3"), ("ratio", "1.5"), ("flag", "true"), ("off", "false")])
    );
}

#[test]
fn yaml_tagged_string_key_is_read_through_its_tag() {
    let ps = yaml_params("!k key: value\n").expect("valid yaml");
    assert_eq!(pairs(&ps), expect(&[("key", "value")]));
}

#[test]
fn yaml_without_mapping_gives_no_params() {
    assert!(yaml_params("- a\n- b\n").expect("valid yaml").is_empty());
    assert!(yaml_params("just text").expect("valid yaml").is_empty());
    assert!(yaml_params("").expect("valid yaml").is_empty());
}

#[test]
fn yaml_syntax_error_is_reported() {
    assert!(yaml_params("a: [1, 2").is_err());
    assert!(yaml_params("a: b\n  c: d\n: :").is_err());
}

#[test]
fn presets_put_environment_and_arguments_before_files() {
    let vars = vec![("REFRAME_PARAM_A".to_string(), "env".to_string())];
    let a = args(&["reframe", "src", "-Pb=cli"]);
    let f1 = yaml_params("a: file1\nc: 1\n").expect("valid yaml");
    let f2 = yaml_params("b: file2\n").expect("valid yaml");
    let ps = reframe::param::preset_params(&a, &vars, vec![f1, f2]);
    assert_eq!(
        pairs(&ps),
        expect(&[("a", "env"), ("b", "cli"), ("a", "file1"), ("c", "1"), ("b", "file2")])
    );
}

#[test]
fn yaml_keys_are_distinct_and_duplicates_refused() {
    assert!(yaml_params("a: 1\na: 2\n").is_err());
    let ps = yaml_params("a: 1\n!t a: 2\n").expect("valid yaml");
    assert_eq!(pairs(&ps), expect(&[("a", "1"), ("a", "2")]));
    let ps = yaml_params("a: 1\nb: 2\nc: x\n").expect("valid yaml");
    assert_eq!(pairs(&ps), expect(&[("a", "1"), ("b", "2"), ("c", "x")]));
}
