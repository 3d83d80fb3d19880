//! What the command line asks for: options with values, flags, the YAML
//! files to read, and the action to take.

use vstd::prelude::*;
use crate::param::text_views;
use crate::text::{
    trim, trimmed, trim_end, starts_with, same_text, sole_eq_value, value_after_sole_eq,
    lemma_trimmed_after, lemma_trimmed_unchanged, lemma_sole_eq_split, is_white_space,
};

verus! {

/// Whether a trimmed argument names an option: it starts with its long name,
/// or with its short name where it has one.
pub open spec fn names_option(a: Seq<char>, name: Seq<char>, short_name: Seq<char>) -> bool {
    name.is_prefix_of(a) || (short_name.len() > 0 && short_name.is_prefix_of(a))
}

/// The value that the arguments give an option: the last argument that names
/// it decides, and gives the text after its `=` where it holds exactly one
/// `=`, and no value otherwise. No argument naming it gives no value.
pub open spec fn option_value_of(args: Seq<Seq<char>>, name: Seq<char>, short_name: Seq<char>) -> Option<Seq<char>>
    decreases args.len(),
{
    if args.len() == 0 {
        None
    } else if names_option(trimmed(args.last()), name, short_name) {
        sole_eq_value(trimmed(args.last()))
    } else {
        option_value_of(args.drop_last(), name, short_name)
    }
}

pub open spec fn opt_text_view(o: Option<String>) -> Option<Seq<char>> {
    match o {
        Some(s) => Some(s@),
        None => None,
    }
}

/// The value of an option written `name=value` (or `short_name=value`, where
/// `short_name` is not empty).
pub fn get_param_value(args: &Vec<String>, name: &str, short_name: &str) -> (r: Option<String>)
    ensures
        opt_text_view(r) == option_value_of(text_views(args@), name@, short_name@),
{
    let ghost all = text_views(args@);
    let has_short: bool = short_name.unicode_len() != 0;
    let mut r: Option<String> = None;
    let mut i: usize = 0;
    while i < args.len()
        invariant
            i <= args.len(),
            all == text_views(args@),
            has_short == (short_name@.len() > 0),
            opt_text_view(r) == option_value_of(all.take(i as int), name@, short_name@),
        decreases args.len() - i,
    {
        assert(all.take(i + 1).drop_last() =~= all.take(i as int));
        assert(all.take(i + 1).last() == args@[i as int]@);
        let a = trim(args[i].as_str());
        if starts_with(a, name) || (has_short && starts_with(a, short_name)) {
            r = value_after_sole_eq(a);
        }
        i = i + 1;
    }
    assert(all.take(args.len() as int) =~= all);
    r
}

/// An argument that does not name an option leaves its value as it was; the
/// last one that names it decides the value alone.
pub proof fn last_naming_argument_decides(
    args: Seq<Seq<char>>,
    name: Seq<char>,
    short_name: Seq<char>,
    a: Seq<char>,
)
    ensures
        names_option(trimmed(a), name, short_name) ==> option_value_of(args.push(a), name, short_name)
            == sole_eq_value(trimmed(a)),
        !names_option(trimmed(a), name, short_name) ==> option_value_of(args.push(a), name, short_name)
            == option_value_of(args, name, short_name),
{
    assert(args.push(a).drop_last() =~= args);
}

/// Whether one of the arguments is exactly `flag`.
pub fn contains_arg(args: &Vec<String>, flag: &str) -> (r: bool)
    ensures
        r == text_views(args@).contains(flag@),
{
    let mut i: usize = 0;
    while i < args.len()
        invariant
            i <= args.len(),
            forall|j: int| 0 <= j < i ==> args@[j]@ != flag@,
        decreases args.len() - i,
    {
        if same_text(args[i].as_str(), flag) {
            assert(text_views(args@)[i as int] == flag@);
            return true;
        }
        i = i + 1;
    }
    assert forall|j: int| 0 <= j < text_views(args@).len() implies text_views(args@)[j] != flag@ by {
        assert(text_views(args@)[j] == args@[j]@);
    }
    false
}

/// The YAML files that the arguments name, in order: `--yaml` names the
/// argument after it, which it consumes, and `--yaml=<path>` names `<path>`.
pub open spec fn yaml_paths_of(args: Seq<Seq<char>>) -> Seq<Seq<char>>
    decreases args.len(),
{
    if args.len() == 0 {
        seq![]
    } else {
        let a = trimmed(args[0]);
        if a == "--yaml"@ {
            if args.len() > 1 {
                seq![args[1]] + yaml_paths_of(args.skip(2))
            } else {
                seq![]
            }
        } else if "--yaml="@.is_prefix_of(a) {
            seq![a.skip(7)] + yaml_paths_of(args.drop_first())
        } else {
            yaml_paths_of(args.drop_first())
        }
    }
}

/// The YAML files to load parameters from.
pub fn yaml_paths(args: &Vec<String>) -> (r: Vec<String>)
    ensures
        text_views(r@) == yaml_paths_of(text_views(args@)),
{
    proof {
        reveal_strlit("--yaml=");
    }
    let ghost all = text_views(args@);
    let mut paths: Vec<String> = Vec::new();
    let mut i: usize = 0;
    assert(all.skip(0) =~= all);
    assert(text_views(paths@) =~= seq![]);
    while i < args.len()
        invariant
            i <= args.len(),
            all == text_views(args@),
            "--yaml="@.len() == 7,
            text_views(paths@) + yaml_paths_of(all.skip(i as int)) == yaml_paths_of(all),
        decreases args.len() - i,
    {
        let ghost before = text_views(paths@);
        let ghost rest = all.skip(i as int);
        assert(rest[0] == args@[i as int]@);
        assert(rest.drop_first() =~= all.skip(i + 1));
        let a = trim(args[i].as_str());
        if same_text(a, "--yaml") {
            if i + 1 < args.len() {
                assert(rest[1] == args@[i + 1]@);
                assert(rest.skip(2) =~= all.skip(i + 2));
                paths.push(args[i + 1].clone());
                assert(text_views(paths@) =~= before + seq![rest[1]]);
                assert(text_views(paths@) + yaml_paths_of(all.skip(i + 2)) =~= before + (seq![rest[1]] + yaml_paths_of(all.skip(i + 2))));
                i = i + 1;
            } else {
                assert(before + seq![] =~= before);
            }
        } else if starts_with(a, "--yaml=") {
            let p = String::from_str(a.substring_char(7, a.unicode_len()));
            assert(p@ =~= a@.skip(7));
            paths.push(p);
            assert(text_views(paths@) =~= before + seq![a@.skip(7)]);
            assert(text_views(paths@) + yaml_paths_of(all.skip(i + 1)) =~= before + (seq![a@.skip(7)] + yaml_paths_of(all.skip(i + 1))));
        }
        i = i + 1;
    }
    assert(all.skip(i as int) =~= seq![]);
    assert(text_views(paths@) + seq![] =~= text_views(paths@));
    paths
}

/// `--yaml <path>` and `--yaml=<path>` name the same file, whatever follows,
/// where the path does not end in white space.
pub proof fn yaml_option_forms_agree(path: Seq<char>, rest: Seq<Seq<char>>)
    requires
        trim_end(path) == path,
    ensures
        yaml_paths_of(seq!["--yaml="@ + path] + rest) == yaml_paths_of(seq!["--yaml"@, path] + rest),
{
    reveal_strlit("--yaml=");
    reveal_strlit("--yaml");
    let joined = seq!["--yaml="@ + path] + rest;
    let split = seq!["--yaml"@, path] + rest;
    let x = "--yaml="@ + path;
    lemma_trimmed_after("--yaml="@, path);
    assert(joined[0] == x);
    assert(x != "--yaml"@) by {
        assert(x.len() != "--yaml"@.len());
    }
    assert("--yaml="@.is_prefix_of(x));
    assert(x.skip(7) =~= path);
    assert(joined.drop_first() =~= rest);
    lemma_trimmed_unchanged("--yaml"@);
    assert(split[0] == "--yaml"@);
    assert(split[1] == path);
    assert(split.skip(2) =~= rest);
}


/// An argument `name=value` given last gives the option the whole text after
/// its `=`, whatever characters it holds, where neither the name nor the value
/// holds a `=`, the name starts with a character that is not white space, and
/// the value does not end in one.
pub proof fn option_value_is_text_after_eq(
    args: Seq<Seq<char>>,
    name: Seq<char>,
    short_name: Seq<char>,
    v: Seq<char>,
)
    requires
        name.len() > 0,
        !is_white_space(name[0]),
        !name.contains('='),
        !v.contains('='),
        trim_end(v) == v,
    ensures
        option_value_of(args.push(name + "="@ + v), name, short_name) == Some(v),
{
    reveal_strlit("=");
    let p = name + "="@;
    let x = name + "="@ + v;
    assert(x =~= p + v);
    assert(p[0] == name[0]);
    assert(p.last() == '=');
    lemma_trimmed_after(p, v);
    assert(x.subrange(0, name.len() as int) =~= name);
    assert(name.is_prefix_of(x));
    assert(args.push(x).last() == x);
    lemma_sole_eq_split(name, v);
}

} // verus!
