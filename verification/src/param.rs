//! Preset template parameters.

use vstd::prelude::*;
use crate::text::{
    trim, trimmed, trim_end, starts_with, same_text, key_value,
    split_key_value, lemma_trimmed_after, lemma_trimmed_unchanged, lemma_key_value_split,
};

verus! {

/// A preset value for one template parameter, `key=value`.
#[derive(Debug)]
pub struct Param {
    pub key: String,
    pub value: String,
}

impl View for Param {
    type V = (Seq<char>, Seq<char>);

    open spec fn view(&self) -> (Seq<char>, Seq<char>) {
        (self.key@, self.value@)
    }
}

/// The `(key, value)` pairs of a list of parameters, in order.
pub open spec fn param_views(ps: Seq<Param>) -> Seq<(Seq<char>, Seq<char>)> {
    ps.map_values(|p: Param| p@)
}

impl Param {
    pub fn new(key: String, value: String) -> (p: Param)
        ensures
            p@ == (key@, value@),
    {
        Param { key, value }
    }
}


/// The characters of each string of a list.
pub open spec fn text_views(v: Seq<String>) -> Seq<Seq<char>> {
    v.map_values(|s: String| s@)
}

/// The characters of each `(name, value)` pair of a list.
pub open spec fn pair_views(v: Seq<(String, String)>) -> Seq<(Seq<char>, Seq<char>)> {
    v.map_values(|p: (String, String)| (p.0@, p.1@))
}

/// The parameter that `key=value` gives, if the text holds a `=`.
pub open spec fn kv_param(s: Seq<char>) -> Seq<(Seq<char>, Seq<char>)> {
    match key_value(s) {
        Some(p) => seq![p],
        None => seq![],
    }
}

/// The parameters that command-line arguments preset, in order: each
/// argument that starts with `-P` once trimmed gives the key and value that
/// follow `-P` (`-Pkey=value`), and `--param` gives those of the argument after
/// it (`--param key=value`), which it consumes; an argument without `=` there
/// gives none.
pub open spec fn cli_params_of(args: Seq<Seq<char>>) -> Seq<(Seq<char>, Seq<char>)>
    decreases args.len(),
{
    if args.len() == 0 {
        seq![]
    } else {
        let a = trimmed(args[0]);
        if "-P"@.is_prefix_of(a) {
            kv_param(a.skip(2)) + cli_params_of(args.drop_first())
        } else if a == "--param"@ {
            if args.len() > 1 {
                kv_param(args[1]) + cli_params_of(args.skip(2))
            } else {
                seq![]
            }
        } else {
            cli_params_of(args.drop_first())
        }
    }
}

/// The prefix that marks an environment variable as a preset parameter.
pub open spec fn env_prefix() -> Seq<char> {
    "REFRAME_PARAM_"@
}

/// The text that `str::to_lowercase` gives for `s`.
pub uninterp spec fn lowercase_of(s: Seq<char>) -> Seq<char>;

/// `str::to_lowercase`: the lowercase equivalent of `s` under Unicode's
/// `Lowercase` property. The contract only names the result as a function of
/// `s`; the case mapping itself is not stated.
#[verifier::external_body]
fn to_lowercase(s: &str) -> (r: String)
    ensures
        r@ == lowercase_of(s@),
{
    s.to_lowercase()
}

/// The parameters that environment variables preset, in the order given:
/// each variable named `REFRAME_PARAM_<key>` gives `<key>` in lowercase with
/// its value; other variables give none.
pub open spec fn env_params_of(vars: Seq<(Seq<char>, Seq<char>)>) -> Seq<(Seq<char>, Seq<char>)>
    decreases vars.len(),
{
    if vars.len() == 0 {
        seq![]
    } else {
        let rest = env_params_of(vars.drop_last());
        let (k, v) = vars.last();
        if env_prefix().is_prefix_of(k) {
            rest.push((lowercase_of(k.skip(env_prefix().len() as int)), v))
        } else {
            rest
        }
    }
}

/// The parameters preset by environment variables, given as `(name, value)`
/// pairs.
pub fn env_params(vars: &Vec<(String, String)>) -> (r: Vec<Param>)
    ensures
        param_views(r@) == env_params_of(pair_views(vars@)),
{
    proof {
        reveal_strlit("REFRAME_PARAM_");
    }
    let mut params: Vec<Param> = Vec::new();
    let mut i: usize = 0;
    while i < vars.len()
        invariant
            i <= vars.len(),
            env_prefix().len() == 14,
            param_views(params@) == env_params_of(pair_views(vars@.take(i as int))),
        decreases vars.len() - i,
    {
        let name = vars[i].0.as_str();
        assert(pair_views(vars@.take(i + 1)).drop_last() =~= pair_views(vars@.take(i as int)));
        assert(pair_views(vars@.take(i + 1)).last() == (vars@[i as int].0@, vars@[i as int].1@));
        if starts_with(name, "REFRAME_PARAM_") {
            let rest = name.substring_char(14, name.unicode_len());
            assert(rest@ =~= name@.skip(14));
            let key = to_lowercase(rest);
            params.push(Param::new(key, vars[i].1.clone()));
            assert(param_views(params@) =~= param_views(params@.drop_last()).push(params@.last()@));
        }
        i = i + 1;
    }
    assert(vars@.take(vars.len() as int) =~= vars@);
    params
}

/// The parameters preset by command-line arguments.
pub fn cli_params(args: &Vec<String>) -> (r: Vec<Param>)
    ensures
        param_views(r@) == cli_params_of(text_views(args@)),
{
    proof {
        reveal_strlit("-P");
        reveal_strlit("--param");
    }
    let ghost all = text_views(args@);
    let mut params: Vec<Param> = Vec::new();
    let mut i: usize = 0;
    assert(all.skip(0) =~= all);
    assert(param_views(params@) =~= seq![]);
    while i < args.len()
        invariant
            i <= args.len(),
            all == text_views(args@),
            "-P"@.len() == 2,
            param_views(params@) + cli_params_of(all.skip(i as int)) == cli_params_of(all),
        decreases args.len() - i,
    {
        let ghost before = param_views(params@);
        let ghost rest = all.skip(i as int);
        assert(rest[0] == args@[i as int]@);
        assert(rest.drop_first() =~= all.skip(i + 1));
        let a = trim(args[i].as_str());
        if starts_with(a, "-P") {
            let piece = split_key_value(a, 2);
            match piece {
                Some((k, v)) => {
                    params.push(Param::new(k, v));
                },
                None => {},
            }
            assert(param_views(params@) =~= before + kv_param(a@.skip(2)));
            assert(param_views(params@) + cli_params_of(all.skip(i + 1)) =~= before + (kv_param(a@.skip(2)) + cli_params_of(all.skip(i + 1))));
        } else if same_text(a, "--param") {
            if i + 1 < args.len() {
                assert(rest[1] == args@[i + 1]@);
                assert(rest.skip(2) =~= all.skip(i + 2));
                let piece = split_key_value(args[i + 1].as_str(), 0);
                assert(args@[i + 1]@.skip(0) =~= args@[i + 1]@);
                match piece {
                    Some((k, v)) => {
                        params.push(Param::new(k, v));
                    },
                    None => {},
                }
                assert(param_views(params@) =~= before + kv_param(rest[1]));
                assert(param_views(params@) + cli_params_of(all.skip(i + 2)) =~= before + (kv_param(rest[1]) + cli_params_of(all.skip(i + 2))));
                i = i + 1;
            } else {
                assert(all.skip(i + 1) =~= seq![]);
                assert(before + seq![] =~= before);
            }
        }
        i = i + 1;
    }
    assert(all.skip(i as int) =~= seq![]);
    assert(param_views(params@) + seq![] =~= param_views(params@));
    params
}

/// The parameters preset from outside the template: first those of the
/// environment variables (given as `(name, value)` pairs, in order), then
/// those of the command-line arguments.
pub fn extract_params(args: &Vec<String>, vars: &Vec<(String, String)>) -> (r: Vec<Param>)
    ensures
        param_views(r@) == env_params_of(pair_views(vars@)) + cli_params_of(text_views(args@)),
{
    let mut params = env_params(vars);
    let mut rest = cli_params(args);
    let ghost a = params@;
    let ghost b = rest@;
    params.append(&mut rest);
    assert(param_views(params@) =~= param_views(a) + param_views(b));
    params
}


/// The `(key, value)` pairs of several lists of parameters, one list after
/// the other.
pub open spec fn flat_param_views(lists: Seq<Vec<Param>>) -> Seq<(Seq<char>, Seq<char>)>
    decreases lists.len(),
{
    if lists.len() == 0 {
        seq![]
    } else {
        flat_param_views(lists.drop_last()) + param_views(lists.last()@)
    }
}

/// All preset parameters of a run, highest priority first: those of the
/// environment variables and the command-line arguments, then those read
/// from each YAML file, in the order the files were named.
pub fn preset_params(args: &Vec<String>, vars: &Vec<(String, String)>, from_files: Vec<Vec<Param>>) -> (r: Vec<Param>)
    ensures
        param_views(r@) == env_params_of(pair_views(vars@)) + cli_params_of(text_views(args@))
            + flat_param_views(from_files@),
{
    let mut params = extract_params(args, vars);
    let ghost first = param_views(params@);
    let ghost lists = from_files@;
    assert(lists.skip(0) =~= lists);
    let total: usize = from_files.len();
    let mut files = from_files;
    let mut taken: usize = 0;
    while files.len() > 0
        invariant
            taken + files@.len() == lists.len(),
            lists.len() == total,
            files@ == lists.skip(taken as int),
            param_views(params@) == first + flat_param_views(lists.take(taken as int)),
        decreases files.len(),
    {
        let mut next = files.remove(0);
        assert(next == lists[taken as int]);
        let ghost before = params@;
        let ghost added = next@;
        params.append(&mut next);
        assert(lists.take(taken + 1).drop_last() =~= lists.take(taken as int));
        assert(param_views(params@) =~= param_views(before) + param_views(added));
        taken = taken + 1;
        assert(files@ =~= lists.skip(taken as int));
    }
    assert(lists.take(taken as int) =~= lists);
    params
}

/// The short and the long form preset the same parameters: `-P` followed by
/// `key=value` reads as `--param` followed by `key=value`, whatever follows,
/// where `key=value` does not end in white space.
pub proof fn short_and_long_param_forms_agree(kv: Seq<char>, rest: Seq<Seq<char>>)
    requires
        trim_end(kv) == kv,
    ensures
        cli_params_of(seq!["-P"@ + kv] + rest) == cli_params_of(seq!["--param"@, kv] + rest),
{
    reveal_strlit("-P");
    reveal_strlit("--param");
    let short = seq!["-P"@ + kv] + rest;
    let long = seq!["--param"@, kv] + rest;
    let x = "-P"@ + kv;
    lemma_trimmed_after("-P"@, kv);
    assert(short[0] == x);
    assert("-P"@.is_prefix_of(x));
    assert(x.skip(2) =~= kv);
    assert(short.drop_first() =~= rest);
    lemma_trimmed_unchanged("--param"@);
    assert(long[0] == "--param"@);
    assert(!"-P"@.is_prefix_of("--param"@)) by {
        assert("--param"@[1] != "-P"@[1]);
    }
    assert(long[1] == kv);
    assert(long.skip(2) =~= rest);
}


/// `--param key=value` presets `key` with `value` exactly as written (the
/// text after the first `=`, case and all), then reads the rest.
pub proof fn long_preset_keeps_key_and_value(k: Seq<char>, v: Seq<char>, rest: Seq<Seq<char>>)
    requires
        !k.contains('='),
    ensures
        cli_params_of(seq!["--param"@, k + "="@ + v] + rest) == seq![(k, v)] + cli_params_of(rest),
{
    reveal_strlit("-P");
    reveal_strlit("--param");
    let args = seq!["--param"@, k + "="@ + v] + rest;
    lemma_trimmed_unchanged("--param"@);
    assert(args[0] == "--param"@);
    assert(!"-P"@.is_prefix_of("--param"@)) by {
        assert("--param"@[1] != "-P"@[1]);
    }
    assert(args[1] == k + "="@ + v);
    assert(args.skip(2) =~= rest);
    lemma_key_value_split(k, v);
}

/// `-Pkey=value` presets `key` with `value` exactly as written (the text after
/// the first `=`, case and all), then reads the rest, where the value does
/// not end in white space.
pub proof fn short_preset_keeps_key_and_value(k: Seq<char>, v: Seq<char>, rest: Seq<Seq<char>>)
    requires
        !k.contains('='),
        trim_end(v) == v,
    ensures
        cli_params_of(seq!["-P"@ + k + "="@ + v] + rest) == seq![(k, v)] + cli_params_of(rest),
{
    reveal_strlit("-P");
    reveal_strlit("=");
    let x = "-P"@ + k + "="@ + v;
    let p = "-P"@ + k + "="@;
    assert(x =~= p + v);
    assert(p[0] == '-');
    assert(p.last() == '=');
    lemma_trimmed_after(p, v);
    let args = seq![x] + rest;
    assert(args[0] == x);
    assert(x.subrange(0, 2) =~= "-P"@);
    assert("-P"@.is_prefix_of(x));
    assert(x.skip(2) =~= k + "="@ + v);
    assert(args.drop_first() =~= rest);
    lemma_key_value_split(k, v);
}

} // verus!
