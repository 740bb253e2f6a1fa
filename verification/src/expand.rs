//! Expansion of environment-variable references in configuration values:
//! `${NAME}`, `$NAME` and `%NAME%`.
use vstd::prelude::*;
use crate::env::{env_lookup, Environment};
use crate::text::{chars_of, push_char, string_from_range};

verus! {

/// ASCII letters, ASCII digits and `_` may form a variable name.
pub open spec fn env_var_char(c: char) -> bool {
    ('a' <= c && c <= 'z') || ('A' <= c && c <= 'Z') || ('0' <= c && c <= '9') || c == '_'
}

/// Is `c` a character that may appear in a variable name?
pub fn is_env_var_char(c: char) -> (res: bool)
    ensures
        res == env_var_char(c),
{
    ('a' <= c && c <= 'z') || ('A' <= c && c <= 'Z') || ('0' <= c && c <= '9') || c == '_'
}

/// Index of the first `c` in `s` at or after `from`; `-1` when there is none.
pub open spec fn first_index_from(s: Seq<char>, from: int, c: char) -> int
    decreases s.len() - from,
{
    if from < 0 || from >= s.len() {
        -1
    } else if s[from] == c {
        from
    } else {
        first_index_from(s, from + 1, c)
    }
}

/// End of the run of name characters that starts at `from`.
pub open spec fn name_run_end(s: Seq<char>, from: int) -> int
    decreases s.len() - from,
{
    if from < 0 || from >= s.len() || !env_var_char(s[from]) {
        from
    } else {
        name_run_end(s, from + 1)
    }
}

/// Why an expansion fails.
pub enum ExpandFailure {
    /// A `${` without a closing `}`.
    Unclosed,
    /// A referenced variable that is not set.
    Unset(Seq<char>),
}

/// `p` in front of a successful result; a failure unchanged.
pub open spec fn prepend(p: Seq<char>, r: Result<Seq<char>, ExpandFailure>) -> Result<
    Seq<char>,
    ExpandFailure,
> {
    match r {
        Ok(t) => Ok(p + t),
        Err(e) => Err(e),
    }
}

/// The value of `name` followed by the expansion of the rest, or the failure for an unset name.
pub open spec fn substitute(
    name: Seq<char>,
    env: Seq<(Seq<char>, Seq<char>)>,
    rest: Result<Seq<char>, ExpandFailure>,
) -> Result<Seq<char>, ExpandFailure> {
    match env_lookup(env, name) {
        None => Err(ExpandFailure::Unset(name)),
        Some(v) => prepend(v, rest),
    }
}

pub proof fn lemma_first_index_bounds(s: Seq<char>, from: int, c: char)
    ensures
        first_index_from(s, from, c) == -1 || (from <= first_index_from(s, from, c) < s.len()
            && s[first_index_from(s, from, c)] == c),
    decreases s.len() - from,
{
    if 0 <= from < s.len() && s[from] != c {
        lemma_first_index_bounds(s, from + 1, c);
    }
}

pub proof fn lemma_name_run_bounds(s: Seq<char>, from: int)
    requires
        0 <= from <= s.len(),
    ensures
        from <= name_run_end(s, from) <= s.len(),
        forall|k: int| from <= k < name_run_end(s, from) ==> env_var_char(#[trigger] s[k]),
    decreases s.len() - from,
{
    if from < s.len() && env_var_char(s[from]) {
        lemma_name_run_bounds(s, from + 1);
    }
}

/// Expansion of `s` from position `i` on.
pub open spec fn expand_from(s: Seq<char>, i: int, env: Seq<(Seq<char>, Seq<char>)>) -> Result<
    Seq<char>,
    ExpandFailure,
>
    decreases s.len() - i,
{
    if i < 0 || i >= s.len() {
        Ok(Seq::empty())
    } else if s[i] == '$' && i + 1 < s.len() && s[i + 1] == '{' {
        let close = first_index_from(s, i + 2, '}');
        proof {
            lemma_first_index_bounds(s, i + 2, '}');
        }
        if close < 0 {
            Err(ExpandFailure::Unclosed)
        } else {
            substitute(s.subrange(i + 2, close), env, expand_from(s, close + 1, env))
        }
    } else if s[i] == '$' {
        let end = name_run_end(s, i + 1);
        proof {
            lemma_name_run_bounds(s, i + 1);
        }
        if end == i + 1 {
            prepend(seq!['$'], expand_from(s, i + 1, env))
        } else {
            substitute(s.subrange(i + 1, end), env, expand_from(s, end, env))
        }
    } else if s[i] == '%' {
        let close = first_index_from(s, i + 1, '%');
        proof {
            lemma_first_index_bounds(s, i + 1, '%');
        }
        if close < 0 {
            prepend(seq!['%'], expand_from(s, i + 1, env))
        } else {
            let name = s.subrange(i + 1, close);
            if name.len() == 0 || !(forall|k: int| 0 <= k < name.len() ==> env_var_char(name[k])) {
                prepend(seq!['%'], expand_from(s, i + 1, env))
            } else {
                substitute(name, env, expand_from(s, close + 1, env))
            }
        }
    } else {
        prepend(seq![s[i]], expand_from(s, i + 1, env))
    }
}

/// The message that reports failure `e` while expanding `value`.
pub open spec fn failure_message(value: Seq<char>, e: ExpandFailure) -> Seq<char> {
    match e {
        ExpandFailure::Unclosed => "Unclosed environment variable in '"@ + value + "'"@,
        ExpandFailure::Unset(name) => "Environment variable '"@ + name + "' is not set"@,
    }
}

/// Expansion of the whole of `value`: the expanded text, or the message of the first failure.
pub open spec fn expansion(value: Seq<char>, env: Seq<(Seq<char>, Seq<char>)>) -> Result<
    Seq<char>,
    Seq<char>,
> {
    match expand_from(value, 0, env) {
        Ok(t) => Ok(t),
        Err(e) => Err(failure_message(value, e)),
    }
}

/// A `Result` of strings, seen as character sequences.
pub open spec fn result_view(r: Result<String, String>) -> Result<Seq<char>, Seq<char>> {
    match r {
        Ok(s) => Ok(s@),
        Err(e) => Err(e@),
    }
}

proof fn lemma_prepend_prepend(a: Seq<char>, b: Seq<char>, r: Result<Seq<char>, ExpandFailure>)
    ensures
        prepend(a, prepend(b, r)) == prepend(a + b, r),
{
    if let Ok(t) = r {
        assert(a + (b + t) =~= (a + b) + t);
    }
}

/// Position of the first `c` at or after `from`.
fn find_char_from(chars: &Vec<char>, from: usize, c: char) -> (res: Option<usize>)
    requires
        from <= chars.len(),
    ensures
        match res {
            Some(j) => j == first_index_from(chars@, from as int, c),
            None => first_index_from(chars@, from as int, c) == -1,
        },
{
    let mut k = from;
    while k < chars.len()
        invariant
            from <= k <= chars.len(),
            first_index_from(chars@, from as int, c) == first_index_from(chars@, k as int, c),
        decreases chars.len() - k,
    {
        if chars[k] == c {
            return Some(k);
        }
        k = k + 1;
    }
    None
}

/// End of the run of name characters that starts at `from`.
fn name_end_from(chars: &Vec<char>, from: usize) -> (res: usize)
    requires
        from <= chars.len(),
    ensures
        res == name_run_end(chars@, from as int),
{
    let mut k = from;
    while k < chars.len() && is_env_var_char(chars[k])
        invariant
            from <= k <= chars.len(),
            name_run_end(chars@, from as int) == name_run_end(chars@, k as int),
        decreases chars.len() - k,
    {
        k = k + 1;
    }
    k
}

/// Are all of `chars[start..end]` name characters?
fn all_name_chars(chars: &Vec<char>, start: usize, end: usize) -> (res: bool)
    requires
        start <= end <= chars.len(),
    ensures
        res == (forall|k: int|
            0 <= k < end - start ==> env_var_char(chars@.subrange(start as int, end as int)[k])),
{
    let mut k = start;
    while k < end
        invariant
            start <= k <= end <= chars.len(),
            forall|j: int| start <= j < k ==> env_var_char(chars@[j]),
        decreases end - k,
    {
        if !is_env_var_char(chars[k]) {
            assert(chars@.subrange(start as int, end as int)[k - start] == chars@[k as int]);
            return false;
        }
        k = k + 1;
    }
    true
}

/// Expands references to environment variables in `value`.
///
/// `${NAME}` and `$NAME` (a name of ASCII letters, digits and `_`) and
/// `%NAME%` are replaced by the value of `NAME` in `env`. A `$` that starts
/// no name, and a `%` without a matching `%` around a valid name, stay as
/// they are. An unset variable, or a `${` without `}`, is an error.
pub fn expand_env_vars(value: &str, env: &Environment) -> (res: Result<String, String>)
    ensures
        result_view(res) == expansion(value@, env@),
{
    let chars = chars_of(value);
    let ghost s = chars@;
    let ghost e = env@;
    let mut output = String::new();
    let mut i: usize = 0;
    while i < chars.len()
        invariant
            s == chars@,
            s == value@,
            e == env@,
            i <= chars.len(),
            expand_from(s, 0, e) == prepend(output@, expand_from(s, i as int, e)),
        decreases chars.len() - i,
    {
        let ghost out0 = output@;
        let c = chars[i];
        if c == '$' && i + 1 < chars.len() && chars[i + 1] == '{' {
            let start = i + 2;
            match find_char_from(&chars, start, '}') {
                None => {
                    let mut msg = "Unclosed environment variable in '".to_string();
                    msg.append(value);
                    msg.append("'");
                    return Err(msg);
                },
                Some(end) => {
                    proof {
                        lemma_first_index_bounds(s, start as int, '}');
                    }
                    let name = string_from_range(&chars, start, end);
                    match env.get(&name) {
                        None => {
                            return Err(unset_message(&name));
                        },
                        Some(v) => {
                            output.append(v.as_str());
                            proof {
                                lemma_prepend_prepend(out0, v@, expand_from(s, end + 1, e));
                            }
                            i = end + 1;
                        },
                    }
                },
            }
        } else if c == '$' {
            let start = i + 1;
            let end = name_end_from(&chars, start);
            proof {
                lemma_name_run_bounds(s, start as int);
            }
            if end == start {
                push_char(&mut output, '$');
                proof {
                    lemma_prepend_prepend(out0, seq!['$'], expand_from(s, start as int, e));
                    assert(out0.push('$') == out0 + seq!['$']);
                }
                i = i + 1;
            } else {
                let name = string_from_range(&chars, start, end);
                match env.get(&name) {
                    None => {
                        return Err(unset_message(&name));
                    },
                    Some(v) => {
                        output.append(v.as_str());
                        proof {
                            lemma_prepend_prepend(out0, v@, expand_from(s, end as int, e));
                        }
                        i = end;
                    },
                }
            }
        } else if c == '%' {
            let start = i + 1;
            match find_char_from(&chars, start, '%') {
                None => {
                    push_char(&mut output, '%');
                    proof {
                        lemma_prepend_prepend(out0, seq!['%'], expand_from(s, start as int, e));
                        assert(out0.push('%') == out0 + seq!['%']);
                    }
                    i = i + 1;
                },
                Some(end) => {
                    proof {
                        lemma_first_index_bounds(s, start as int, '%');
                    }
                    if end == start || !all_name_chars(&chars, start, end) {
                        push_char(&mut output, '%');
                        proof {
                            lemma_prepend_prepend(out0, seq!['%'], expand_from(s, start as int, e));
                            assert(out0.push('%') == out0 + seq!['%']);
                        }
                        i = i + 1;
                    } else {
                        let name = string_from_range(&chars, start, end);
                        match env.get(&name) {
                            None => {
                                return Err(unset_message(&name));
                            },
                            Some(v) => {
                                output.append(v.as_str());
                                proof {
                                    lemma_prepend_prepend(out0, v@, expand_from(s, end + 1, e));
                                }
                                i = end + 1;
                            },
                        }
                    }
                },
            }
        } else {
            push_char(&mut output, c);
            proof {
                lemma_prepend_prepend(out0, seq![c], expand_from(s, i + 1, e));
                assert(out0.push(c) == out0 + seq![c]);
            }
            i = i + 1;
        }
    }
    assert(output@ + Seq::<char>::empty() =~= output@);
    Ok(output)
}

/// "Environment variable '<name>' is not set".
fn unset_message(name: &String) -> (res: String)
    ensures
        res@ == failure_message(Seq::empty(), ExpandFailure::Unset(name@)),
{
    let mut msg = "Environment variable '".to_string();
    msg.append(name.as_str());
    msg.append("' is not set");
    msg
}


/// Text without `$` or `%` from position `i` on expands to itself.
proof fn lemma_plain_from(s: Seq<char>, i: int, env: Seq<(Seq<char>, Seq<char>)>)
    requires
        0 <= i <= s.len(),
        forall|k: int| 0 <= k < s.len() ==> s[k] != '$' && s[k] != '%',
    ensures
        expand_from(s, i, env) == Ok::<Seq<char>, ExpandFailure>(s.subrange(i, s.len() as int)),
    decreases s.len() - i,
{
    if i < s.len() {
        lemma_plain_from(s, i + 1, env);
        assert(seq![s[i]] + s.subrange(i + 1, s.len() as int) =~= s.subrange(i, s.len() as int));
    } else {
        assert(s.subrange(i, s.len() as int) =~= Seq::<char>::empty());
    }
}

/// A value that holds neither `$` nor `%` expands to itself, whatever the environment.
pub proof fn law_plain_text_unchanged(value: Seq<char>, env: Seq<(Seq<char>, Seq<char>)>)
    requires
        forall|k: int| 0 <= k < value.len() ==> value[k] != '$' && value[k] != '%',
    ensures
        expansion(value, env) == Ok::<Seq<char>, Seq<char>>(value),
{
    lemma_plain_from(value, 0, env);
    assert(value.subrange(0, value.len() as int) =~= value);
}

/// A reference `${NAME}` to a set variable, between plain text, is replaced by
/// the variable's value.
pub proof fn law_braced_reference_replaced(
    prefix: Seq<char>,
    name: Seq<char>,
    suffix: Seq<char>,
    env: Seq<(Seq<char>, Seq<char>)>,
)
    requires
        forall|k: int| 0 <= k < prefix.len() ==> prefix[k] != '$' && prefix[k] != '%',
        forall|k: int| 0 <= k < suffix.len() ==> suffix[k] != '$' && suffix[k] != '%',
        forall|k: int| 0 <= k < name.len() ==> name[k] != '}',
        env_lookup(env, name) is Some,
    ensures
        expansion(prefix + "${"@ + name + "}"@ + suffix, env) == Ok::<Seq<char>, Seq<char>>(
            prefix + env_lookup(env, name).unwrap() + suffix,
        ),
{
    reveal_strlit("${");
    reveal_strlit("}");
    let s = prefix + "${"@ + name + "}"@ + suffix;
    let p = prefix.len() as int;
    let close = p + 2 + name.len();
    assert(s[close] == '}');
    assert forall|k: int| p + 2 <= k < close implies s[k] != '}' by {
        assert(s[k] == name[k - p - 2]);
    }
    lemma_first_index_scan(s, p + 2, close, '}');
    assert(s.subrange(p + 2, close) =~= name);
    assert forall|k: int| 0 <= k < s.len() && close + 1 <= k implies s[k] != '$' && s[k] != '%' by {
        assert(s[k] == suffix[k - close - 1]);
    }
    lemma_plain_tail(s, close + 1, env);
    assert(s.subrange(close + 1, s.len() as int) =~= suffix);
    assert forall|k: int| 0 <= k < p implies s[k] != '$' && s[k] != '%' by {
        assert(s[k] == prefix[k]);
    }
    lemma_plain_prefix(s, p, env);
    assert(s[p] == '$' && s[p + 1] == '{');
    let v = env_lookup(env, name).unwrap();
    assert(s.subrange(0, p) =~= prefix);
    assert(p + 1 < s.len());
    assert(expand_from(s, close + 1, env) == Ok::<Seq<char>, ExpandFailure>(suffix));
    assert(expand_from(s, p, env) == Ok::<Seq<char>, ExpandFailure>(v + suffix));
    assert(prefix + (v + suffix) =~= prefix + v + suffix);
}

/// A bare reference `$NAME` to a set variable, between plain text, is
/// replaced by the variable's value. The name is the whole run of ASCII
/// letters (either case), digits and `_` after the `$`: the text after it
/// starts with no such character.
pub proof fn law_bare_reference_replaced(
    prefix: Seq<char>,
    name: Seq<char>,
    suffix: Seq<char>,
    env: Seq<(Seq<char>, Seq<char>)>,
)
    requires
        forall|k: int| 0 <= k < prefix.len() ==> prefix[k] != '$' && prefix[k] != '%',
        forall|k: int| 0 <= k < suffix.len() ==> suffix[k] != '$' && suffix[k] != '%',
        name.len() > 0,
        forall|k: int|
            0 <= k < name.len() ==> ('a' <= #[trigger] name[k] && name[k] <= 'z') || ('A' <= name[k]
                && name[k] <= 'Z') || ('0' <= name[k] && name[k] <= '9') || name[k] == '_',
        suffix.len() > 0 ==> !(('a' <= suffix[0] && suffix[0] <= 'z') || ('A' <= suffix[0]
            && suffix[0] <= 'Z') || ('0' <= suffix[0] && suffix[0] <= '9') || suffix[0] == '_'),
        env_lookup(env, name) is Some,
    ensures
        expansion(prefix + "$"@ + name + suffix, env) == Ok::<Seq<char>, Seq<char>>(
            prefix + env_lookup(env, name).unwrap() + suffix,
        ),
{
    reveal_strlit("$");
    let s = prefix + "$"@ + name + suffix;
    let p = prefix.len() as int;
    let end = p + 1 + name.len();
    assert(s[p] == '$');
    assert(s[p + 1] == name[0]);
    assert forall|k: int| p + 1 <= k < end implies env_var_char(s[k]) by {
        assert(s[k] == name[k - p - 1]);
    }
    if end < s.len() {
        assert(s[end] == suffix[0]);
    }
    lemma_name_run_scan(s, p + 1, end);
    assert(s.subrange(p + 1, end) =~= name);
    assert forall|k: int| 0 <= k < s.len() && end <= k implies s[k] != '$' && s[k] != '%' by {
        assert(s[k] == suffix[k - end]);
    }
    lemma_plain_tail(s, end, env);
    assert(s.subrange(end, s.len() as int) =~= suffix);
    assert forall|k: int| 0 <= k < p implies s[k] != '$' && s[k] != '%' by {
        assert(s[k] == prefix[k]);
    }
    lemma_plain_prefix(s, p, env);
    let v = env_lookup(env, name).unwrap();
    assert(s.subrange(0, p) =~= prefix);
    assert(expand_from(s, end, env) == Ok::<Seq<char>, ExpandFailure>(suffix));
    assert(expand_from(s, p, env) == Ok::<Seq<char>, ExpandFailure>(v + suffix));
    assert(prefix + (v + suffix) =~= prefix + v + suffix);
}

/// The run of name characters from `from` ends at `at` when all before `at`
/// are name characters and the one at `at` (if any) is not.
proof fn lemma_name_run_scan(s: Seq<char>, from: int, at: int)
    requires
        0 <= from <= at <= s.len(),
        forall|k: int| from <= k < at ==> env_var_char(s[k]),
        at < s.len() ==> !env_var_char(s[at]),
    ensures
        name_run_end(s, from) == at,
    decreases at - from,
{
    if from < at {
        lemma_name_run_scan(s, from + 1, at);
    }
}

/// A scan for `c` from `from` stops at `at` when `c` first occurs there.
proof fn lemma_first_index_scan(s: Seq<char>, from: int, at: int, c: char)
    requires
        0 <= from <= at < s.len(),
        s[at] == c,
        forall|k: int| from <= k < at ==> s[k] != c,
    ensures
        first_index_from(s, from, c) == at,
    decreases at - from,
{
    if from < at {
        lemma_first_index_scan(s, from + 1, at, c);
    }
}

/// Plain text from `i` on expands to itself.
proof fn lemma_plain_tail(s: Seq<char>, i: int, env: Seq<(Seq<char>, Seq<char>)>)
    requires
        0 <= i <= s.len(),
        forall|k: int| 0 <= k < s.len() && i <= k ==> s[k] != '$' && s[k] != '%',
    ensures
        expand_from(s, i, env) == Ok::<Seq<char>, ExpandFailure>(s.subrange(i, s.len() as int)),
    decreases s.len() - i,
{
    if i < s.len() {
        lemma_plain_tail(s, i + 1, env);
        assert(seq![s[i]] + s.subrange(i + 1, s.len() as int) =~= s.subrange(i, s.len() as int));
    } else {
        assert(s.subrange(i, s.len() as int) =~= Seq::<char>::empty());
    }
}

/// Plain text before `end` is copied in front of the expansion from `end`.
proof fn lemma_plain_prefix(s: Seq<char>, end: int, env: Seq<(Seq<char>, Seq<char>)>)
    requires
        0 <= end <= s.len(),
        forall|k: int| 0 <= k < end ==> s[k] != '$' && s[k] != '%',
    ensures
        expand_from(s, 0, env) == prepend(s.subrange(0, end), expand_from(s, end, env)),
    decreases end,
{
    if end == 0 {
        if let Ok(t) = expand_from(s, 0, env) {
            assert(s.subrange(0, 0) + t =~= t);
        }
    } else {
        lemma_plain_prefix(s, end - 1, env);
        lemma_prepend_prepend(s.subrange(0, end - 1), seq![s[end - 1]], expand_from(s, end, env));
        assert(s.subrange(0, end - 1) + seq![s[end - 1]] =~= s.subrange(0, end));
    }
}

} // verus!
