//! Character-level views of command-line text, shared by the argument parsers.

use vstd::prelude::*;

verus! {

/// A character with the Unicode `White_Space` property, the set that `str::trim`
/// removes from both ends of a string.
pub open spec fn is_white_space(c: char) -> bool {
    let u: u32 = c as u32;
    ||| 0x09 <= u <= 0x0d
    ||| u == 0x20
    ||| u == 0x85
    ||| u == 0xa0
    ||| u == 0x1680
    ||| 0x2000 <= u <= 0x200a
    ||| u == 0x2028
    ||| u == 0x2029
    ||| u == 0x202f
    ||| u == 0x205f
    ||| u == 0x3000
}

/// `s` without its leading white space.
pub open spec fn trim_start(s: Seq<char>) -> Seq<char>
    decreases s.len(),
{
    if s.len() > 0 && is_white_space(s[0]) {
        trim_start(s.drop_first())
    } else {
        s
    }
}

/// `s` without its trailing white space.
pub open spec fn trim_end(s: Seq<char>) -> Seq<char>
    decreases s.len(),
{
    if s.len() > 0 && is_white_space(s.last()) {
        trim_end(s.drop_last())
    } else {
        s
    }
}

/// `s` without leading and trailing white space.
pub open spec fn trimmed(s: Seq<char>) -> Seq<char> {
    trim_end(trim_start(s))
}

/// Whether `c` has the Unicode `White_Space` property.
pub fn is_white_space_char(c: char) -> (r: bool)
    ensures
        r == is_white_space(c),
{
    let u: u32 = c as u32;
    (0x09 <= u && u <= 0x0d) || u == 0x20 || u == 0x85 || u == 0xa0 || u == 0x1680 || (0x2000 <= u
        && u <= 0x200a) || u == 0x2028 || u == 0x2029 || u == 0x202f || u == 0x205f || u == 0x3000
}

/// Where the first `i` characters are white space and the next is not (or
/// there is none), dropping leading white space leaves `s` from `i` on.
pub proof fn lemma_trim_start_at(s: Seq<char>, i: int)
    requires
        0 <= i <= s.len(),
        forall|k: int| 0 <= k < i ==> is_white_space(s[k]),
        i < s.len() ==> !is_white_space(s[i]),
    ensures
        trim_start(s) == s.skip(i),
    decreases i,
{
    if i == 0 {
        assert(s.skip(0) =~= s);
    } else {
        assert forall|k: int| 0 <= k < i - 1 implies is_white_space(s.drop_first()[k]) by {
            assert(s.drop_first()[k] == s[k + 1]);
        }
        if i - 1 < s.len() - 1 {
            assert(s.drop_first()[i - 1] == s[i]);
        }
        lemma_trim_start_at(s.drop_first(), i - 1);
        assert(s.drop_first().skip(i - 1) =~= s.skip(i));
    }
}

/// Where the characters from `j` on are white space and the one before is
/// not (or there is none), dropping trailing white space leaves the first `j`.
pub proof fn lemma_trim_end_at(s: Seq<char>, j: int)
    requires
        0 <= j <= s.len(),
        forall|k: int| j <= k < s.len() ==> is_white_space(s[k]),
        j > 0 ==> !is_white_space(s[j - 1]),
    ensures
        trim_end(s) == s.take(j),
    decreases s.len() - j,
{
    if j == s.len() {
        assert(s.take(j) =~= s);
        if s.len() == 0 {
            assert(trim_end(s) == s);
        }
    } else {
        assert forall|k: int| j <= k < s.drop_last().len() implies is_white_space(s.drop_last()[k]) by {
            assert(s.drop_last()[k] == s[k]);
        }
        if j > 0 {
            assert(s.drop_last()[j - 1] == s[j - 1]);
        }
        lemma_trim_end_at(s.drop_last(), j);
        assert(s.drop_last().take(j) =~= s.take(j));
    }
}

/// `s` without leading and trailing characters that have the Unicode
/// `White_Space` property.
pub fn trim(s: &str) -> (r: &str)
    ensures
        r@ == trimmed(s@),
{
    let n: usize = s.unicode_len();
    let mut i: usize = 0;
    while i < n && is_white_space_char(s.get_char(i))
        invariant
            n == s@.len(),
            i <= n,
            forall|k: int| 0 <= k < i ==> is_white_space(s@[k]),
        decreases n - i,
    {
        i = i + 1;
    }
    let mut j: usize = n;
    while j > i && is_white_space_char(s.get_char(j - 1))
        invariant
            n == s@.len(),
            i <= j <= n,
            forall|k: int| j <= k < n ==> is_white_space(s@[k]),
        decreases j - i,
    {
        j = j - 1;
    }
    proof {
        lemma_trim_start_at(s@, i as int);
        let t = s@.skip(i as int);
        assert forall|k: int| j - i <= k < t.len() implies is_white_space(t[k]) by {
            assert(t[k] == s@[k + i]);
        }
        if j > i {
            assert(t[j - i - 1] == s@[j - 1]);
        }
        lemma_trim_end_at(t, j - i);
        assert(t.take(j - i) =~= s@.subrange(i as int, j as int));
    }
    s.substring_char(i, j)
}

/// Whether `prefix` is a prefix of `s`.
pub fn starts_with(s: &str, prefix: &str) -> (r: bool)
    ensures
        r == prefix@.is_prefix_of(s@),
{
    let n: usize = prefix.unicode_len();
    let m: usize = s.unicode_len();
    if n > m {
        return false;
    }
    let mut i: usize = 0;
    while i < n
        invariant
            n == prefix@.len(),
            m == s@.len(),
            n <= m,
            i <= n,
            forall|j: int| 0 <= j < i ==> prefix@[j] == s@[j],
        decreases n - i,
    {
        if prefix.get_char(i) != s.get_char(i) {
            return false;
        }
        i = i + 1;
    }
    true
}


/// Whether `a` and `b` hold the same characters.
pub fn same_text(a: &str, b: &str) -> (r: bool)
    ensures
        r == (a@ == b@),
{
    if a.unicode_len() != b.unicode_len() {
        return false;
    }
    let r = starts_with(a, b);
    proof {
        if r {
            assert(a@ =~= b@);
        }
    }
    r
}

/// The position of the first `c` in `s`, if `s` holds one.
pub open spec fn first_index_of(s: Seq<char>, c: char) -> Option<int>
    decreases s.len(),
{
    if s.len() == 0 {
        None
    } else if s[0] == c {
        Some(0)
    } else {
        match first_index_of(s.drop_first(), c) {
            Some(k) => Some(k + 1),
            None => None,
        }
    }
}

/// Where no `c` stands before position `i`, the first `c` is at `i` if one is
/// there, and there is none at all if `i` is the end.
pub proof fn lemma_first_index_of(s: Seq<char>, c: char, i: int)
    requires
        0 <= i <= s.len(),
        forall|j: int| 0 <= j < i ==> s[j] != c,
    ensures
        i < s.len() && s[i] == c ==> first_index_of(s, c) == Some(i),
        i == s.len() ==> first_index_of(s, c) is None,
    decreases i,
{
    if i > 0 {
        assert forall|j: int| 0 <= j < i - 1 implies s.drop_first()[j] != c by {
            assert(s.drop_first()[j] == s[j + 1]);
        }
        lemma_first_index_of(s.drop_first(), c, i - 1);
    }
}

/// The position of the first `c` in `s` at or after position `from`.
pub fn find_char(s: &str, c: char, from: usize) -> (r: Option<usize>)
    requires
        from <= s@.len(),
    ensures
        match r {
            Some(i) => from <= i && first_index_of(s@.skip(from as int), c) == Some(i - from),
            None => first_index_of(s@.skip(from as int), c) is None,
        },
{
    let n: usize = s.unicode_len();
    let ghost t = s@.skip(from as int);
    let mut i: usize = from;
    while i < n
        invariant
            n == s@.len(),
            from <= i <= n,
            t == s@.skip(from as int),
            forall|j: int| 0 <= j < i - from ==> t[j] != c,
        decreases n - i,
    {
        if s.get_char(i) == c {
            proof {
                lemma_first_index_of(t, c, i - from);
            }
            return Some(i);
        }
        i = i + 1;
    }
    proof {
        lemma_first_index_of(t, c, i - from);
    }
    None
}

/// The text between `from` and `to`, as a new string.
pub fn substring(s: &str, from: usize, to: usize) -> (r: String)
    requires
        from <= to <= s@.len(),
    ensures
        r@ == s@.subrange(from as int, to as int),
{
    String::from_str(s.substring_char(from, to))
}

/// The key and value of `key=value`: the text before the first `=` and the
/// text after it.
pub open spec fn key_value(s: Seq<char>) -> Option<(Seq<char>, Seq<char>)> {
    match first_index_of(s, '=') {
        Some(e) => Some((s.take(e), s.skip(e + 1))),
        None => None,
    }
}

/// The text after the only `=` of `s`: what splitting `s` at `=` gives as its
/// second piece where it gives exactly two.
pub open spec fn sole_eq_value(s: Seq<char>) -> Option<Seq<char>> {
    match first_index_of(s, '=') {
        Some(e) => if first_index_of(s.skip(e + 1), '=') is None {
            Some(s.skip(e + 1))
        } else {
            None
        },
        None => None,
    }
}

pub proof fn lemma_first_index_in_range(s: Seq<char>, c: char)
    ensures
        first_index_of(s, c) matches Some(i) ==> 0 <= i < s.len() && s[i] == c,
    decreases s.len(),
{
    if s.len() > 0 && s[0] != c {
        lemma_first_index_in_range(s.drop_first(), c);
    }
}

/// `key_value` of the text of `s` from position `from` on, as strings.
pub fn split_key_value(s: &str, from: usize) -> (r: Option<(String, String)>)
    requires
        from <= s@.len(),
    ensures
        match r {
            Some((k, v)) => key_value(s@.skip(from as int)) == Some((k@, v@)),
            None => key_value(s@.skip(from as int)) is None,
        },
{
    let n: usize = s.unicode_len();
    match find_char(s, '=', from) {
        Some(e) => {
            proof {
                lemma_first_index_in_range(s@.skip(from as int), '=');
            }
            let k = substring(s, from, e);
            let v = substring(s, e + 1, n);
            assert(s@.skip(from as int).take(e - from) =~= k@);
            assert(s@.skip(from as int).skip(e - from + 1) =~= v@);
            Some((k, v))
        },
        None => None,
    }
}

/// `sole_eq_value` of `s`, as a string.
pub fn value_after_sole_eq(s: &str) -> (r: Option<String>)
    ensures
        match r {
            Some(v) => sole_eq_value(s@) == Some(v@),
            None => sole_eq_value(s@) is None,
        },
{
    let n: usize = s.unicode_len();
    assert(s@.skip(0) =~= s@);
    match find_char(s, '=', 0) {
        Some(e) => {
            proof {
                lemma_first_index_in_range(s@, '=');
            }
            match find_char(s, '=', e + 1) {
                Some(_) => None,
                None => {
                    let v = substring(s, e + 1, n);
                    assert(s@.skip(e + 1) =~= v@);
                    Some(v)
                },
            }
        },
        None => None,
    }
}


/// Trimming the end of `p + s` keeps `p` whole where `p` ends in a character
/// that is not white space.
pub proof fn lemma_trim_end_after(p: Seq<char>, s: Seq<char>)
    requires
        p.len() > 0,
        !is_white_space(p.last()),
    ensures
        trim_end(p + s) == p + trim_end(s),
    decreases s.len(),
{
    if s.len() == 0 {
        assert(p + s =~= p);
        assert(p + trim_end(s) =~= p);
    } else if is_white_space(s.last()) {
        assert((p + s).drop_last() =~= p + s.drop_last());
        lemma_trim_end_after(p, s.drop_last());
    }
}

/// A text that starts and ends with characters that are not white space is
/// its own trimmed form.
pub proof fn lemma_trimmed_unchanged(s: Seq<char>)
    requires
        s.len() > 0,
        !is_white_space(s[0]),
        !is_white_space(s.last()),
    ensures
        trimmed(s) == s,
{
}

/// `p + s`, with `p` beginning and ending in characters that are not white
/// space, trims to `p` followed by `s` without its trailing white space.
pub proof fn lemma_trimmed_after(p: Seq<char>, s: Seq<char>)
    requires
        p.len() > 0,
        !is_white_space(p[0]),
        !is_white_space(p.last()),
    ensures
        trimmed(p + s) == p + trim_end(s),
{
    assert((p + s)[0] == p[0]);
    assert(trim_start(p + s) == p + s);
    lemma_trim_end_after(p, s);
}


/// A text without `c` holds no first `c`.
pub proof fn lemma_no_char_no_index(s: Seq<char>, c: char)
    requires
        !s.contains(c),
    ensures
        first_index_of(s, c) is None,
{
    assert forall|j: int| 0 <= j < s.len() implies s[j] != c by {
        if s[j] == c {
            assert(s.contains(c));
        }
    }
    lemma_first_index_of(s, c, s.len() as int);
}

/// In `k + c + v`, with no `c` in `k`, the first `c` is the one after `k`.
pub proof fn lemma_first_index_after(k: Seq<char>, c: char, v: Seq<char>)
    requires
        !k.contains(c),
    ensures
        first_index_of(k + seq![c] + v, c) == Some(k.len() as int),
{
    let s = k + seq![c] + v;
    assert forall|j: int| 0 <= j < k.len() implies s[j] != c by {
        assert(s[j] == k[j]);
        if k[j] == c {
            assert(k.contains(c));
        }
    }
    assert(s[k.len() as int] == c);
    lemma_first_index_of(s, c, k.len() as int);
}

/// `key=value` splits at its first `=` into the key and the whole value.
pub proof fn lemma_key_value_split(k: Seq<char>, v: Seq<char>)
    requires
        !k.contains('='),
    ensures
        key_value(k + "="@ + v) == Some((k, v)),
{
    reveal_strlit("=");
    assert("="@ =~= seq!['=']);
    lemma_first_index_after(k, '=', v);
    let s = k + "="@ + v;
    assert(s.take(k.len() as int) =~= k);
    assert(s.skip(k.len() as int + 1) =~= v);
}

/// With one `=`, the value after it is the whole rest of the text.
pub proof fn lemma_sole_eq_split(k: Seq<char>, v: Seq<char>)
    requires
        !k.contains('='),
        !v.contains('='),
    ensures
        sole_eq_value(k + "="@ + v) == Some(v),
{
    reveal_strlit("=");
    assert("="@ =~= seq!['=']);
    lemma_first_index_after(k, '=', v);
    let s = k + "="@ + v;
    assert(s.skip(k.len() as int + 1) =~= v);
    lemma_no_char_no_index(v, '=');
}

} // verus!
