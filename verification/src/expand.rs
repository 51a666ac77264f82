//! Expanding a path of the settings: a leading tilde becomes the home
//! directory, and `$NAME` and `${NAME}` become the values of the variables of
//! the environment.

use vstd::prelude::*;
use vstd::string::*;
use crate::text::{chars_of, same_text};

verus! {

/// What `char::is_alphanumeric` tells of a character.
pub uninterp spec fn is_alphanumeric_char(c: char) -> bool;

/// Calls `char::is_alphanumeric`. The contract names the result.
#[verifier::external_body]
fn alphanumeric(c: char) -> (yes: bool)
    ensures
        yes == is_alphanumeric_char(c),
{
    c.is_alphanumeric()
}

/// The variables of an environment as values: names and values, in order.
pub open spec fn env_view(env: Seq<(String, String)>) -> Seq<(Seq<char>, Seq<char>)> {
    env.map_values(|v: (String, String)| (v.0@, v.1@))
}

/// The value of the first variable of that name.
pub open spec fn lookup(env: Seq<(Seq<char>, Seq<char>)>, name: Seq<char>) -> Option<Seq<char>>
    decreases env.len(),
{
    if env.len() == 0 {
        None
    } else if env[0].0 == name {
        Some(env[0].1)
    } else {
        lookup(env.drop_first(), name)
    }
}

/// The character can stand in a name that is written without braces.
pub open spec fn is_name_char(c: char) -> bool {
    is_alphanumeric_char(c) || c == '_'
}

/// How many characters stand from `from` on before the next closing brace.
pub open spec fn brace_span(s: Seq<char>, from: int) -> nat
    decreases s.len() - from,
{
    if from < 0 || from >= s.len() || s[from] == '}' {
        0
    } else {
        1 + brace_span(s, from + 1)
    }
}

/// How many characters of a name stand from `from` on.
pub open spec fn name_span(s: Seq<char>, from: int) -> nat
    decreases s.len() - from,
{
    if from < 0 || from >= s.len() || !is_name_char(s[from]) {
        0
    } else {
        1 + name_span(s, from + 1)
    }
}

/// What stands for a variable: its value, or, where it has none, the
/// variable as it would be written, with closed braces or without any.
pub open spec fn var_text(env: Seq<(Seq<char>, Seq<char>)>, name: Seq<char>, braced: bool) -> Seq<
    char,
> {
    match lookup(env, name) {
        Some(value) => value,
        None => if braced {
            "${"@ + name + "}"@
        } else {
            "$"@ + name
        },
    }
}

/// The text from `i` on with its variables expanded. After `${` the name
/// runs to the next closing brace or to the end of the text; after `$` it
/// is made of letters, digits and underscores, and a dollar without a
/// name stays. A value is taken as it is.
pub open spec fn expand_from(s: Seq<char>, i: int, env: Seq<(Seq<char>, Seq<char>)>) -> Seq<char>
    decreases s.len() - i,
{
    if i < 0 || i >= s.len() {
        Seq::empty()
    } else if s[i] != '$' {
        seq![s[i]] + expand_from(s, i + 1, env)
    } else if i + 1 < s.len() && s[i + 1] == '{' {
        let n = brace_span(s, i + 2);
        let closed: int = if i + 2 + n < s.len() {
            1
        } else {
            0
        };
        proof {
            lemma_brace_span(s, i + 2);
        }
        var_text(env, s.subrange(i + 2, i + 2 + n), true) + expand_from(s, i + 2 + n + closed, env)
    } else {
        let n = name_span(s, i + 1);
        proof {
            lemma_name_span(s, i + 1);
        }
        if n > 0 {
            var_text(env, s.subrange(i + 1, i + 1 + n), false) + expand_from(s, i + 1 + n, env)
        } else {
            "$"@ + expand_from(s, i + 1, env)
        }
    }
}

/// The path with a leading tilde replaced by the home directory, where one
/// is known: `~` alone, and `~` before a slash.
pub open spec fn tilde_expanded(path: Seq<char>, home: Option<Seq<char>>) -> Seq<char> {
    match home {
        Some(h) => if path.len() >= 1 && path[0] == '~' && (path.len() == 1 || path[1] == '/') {
            h + path.skip(1)
        } else {
            path
        },
        None => path,
    }
}

/// The path expanded: first its tilde, with the value of `HOME`, then the
/// variables of what that gives.
pub open spec fn expanded(path: Seq<char>, env: Seq<(Seq<char>, Seq<char>)>) -> Seq<char> {
    expand_from(tilde_expanded(path, lookup(env, "HOME"@)), 0, env)
}

/// A span of characters before a closing brace ends at the text's end or
/// at a closing brace.
pub proof fn lemma_brace_span(s: Seq<char>, from: int)
    requires
        0 <= from <= s.len(),
    ensures
        from + brace_span(s, from) <= s.len(),
        from + brace_span(s, from) < s.len() ==> s[from + brace_span(s, from)] == '}',
    decreases s.len() - from,
{
    if from < s.len() && s[from] != '}' {
        lemma_brace_span(s, from + 1);
    }
}

/// A span of characters of a name ends within the text.
pub proof fn lemma_name_span(s: Seq<char>, from: int)
    requires
        0 <= from <= s.len(),
    ensures
        from + name_span(s, from) <= s.len(),
    decreases s.len() - from,
{
    if from < s.len() && is_name_char(s[from]) {
        lemma_name_span(s, from + 1);
    }
}

/// The value of the first variable of that name.
pub fn lookup_var<'a>(env: &'a Vec<(String, String)>, name: &str) -> (value: Option<&'a String>)
    ensures
        match value {
            Some(v) => lookup(env_view(env@), name@) == Some(v@),
            None => lookup(env_view(env@), name@) is None,
        },
{
    let ghost all = env_view(env@);
    let mut i: usize = 0;
    assert(all.skip(0) =~= all);
    while i < env.len()
        invariant
            i <= env.len(),
            all == env_view(env@),
            lookup(all, name@) == lookup(all.skip(i as int), name@),
        decreases env.len() - i,
    {
        assert(all.skip(i as int).drop_first() =~= all.skip(i + 1));
        assert(all.skip(i as int)[0] == all[i as int]);
        if same_text(env[i].0.as_str(), name) {
            return Some(&env[i].1);
        }
        i += 1;
    }
    None
}

fn append_var(out: &mut String, env: &Vec<(String, String)>, name: &str, braced: bool)
    ensures
        final(out)@ == old(out)@ + var_text(env_view(env@), name@, braced),
{
    match lookup_var(env, name) {
        Some(value) => {
            out.append(value.as_str());
        },
        None => {
            if braced {
                out.append("${");
                out.append(name);
                out.append("}");
            } else {
                out.append("$");
                out.append(name);
            }
            assert(out@ =~= old(out)@ + var_text(env_view(env@), name@, braced));
        },
    }
}

/// The text with its variables expanded.
pub fn expand_vars(text: &str, env: &Vec<(String, String)>) -> (out: String)
    ensures
        out@ == expand_from(text@, 0, env_view(env@)),
{
    let ghost vars = env_view(env@);
    let s = chars_of(text);
    let mut out = String::new();
    let mut i: usize = 0;
    assert(out@ + expand_from(s@, 0, vars) =~= expand_from(s@, 0, vars));
    while i < s.len()
        invariant
            i <= s.len(),
            s@ == text@,
            vars == env_view(env@),
            out@ + expand_from(s@, i as int, vars) == expand_from(s@, 0, vars),
        decreases s.len() - i,
    {
        let ghost before = out@;
        if s[i] != '$' {
            out.append(text.substring_char(i, i + 1));
            assert(text@.subrange(i as int, i + 1) =~= seq![s@[i as int]]);
            assert(out@ + expand_from(s@, i + 1, vars) =~= before + expand_from(
                s@,
                i as int,
                vars,
            ));
            i += 1;
        } else if i + 1 < s.len() && s[i + 1] == '{' {
            let mut end: usize = i + 2;
            while end < s.len() && s[end] != '}'
                invariant
                    i + 2 <= end <= s.len(),
                    end + brace_span(s@, end as int) == i + 2 + brace_span(s@, i + 2),
                decreases s.len() - end,
            {
                end += 1;
            }
            append_var(&mut out, env, text.substring_char(i + 2, end), true);
            let next: usize = if end < s.len() {
                end + 1
            } else {
                end
            };
            assert(out@ + expand_from(s@, next as int, vars) =~= before + expand_from(
                s@,
                i as int,
                vars,
            ));
            i = next;
        } else {
            let mut end: usize = i + 1;
            while end < s.len() && (alphanumeric(s[end]) || s[end] == '_')
                invariant
                    i + 1 <= end <= s.len(),
                    end + name_span(s@, end as int) == i + 1 + name_span(s@, i + 1),
                decreases s.len() - end,
            {
                end += 1;
            }
            if end > i + 1 {
                append_var(&mut out, env, text.substring_char(i + 1, end), false);
                assert(out@ + expand_from(s@, end as int, vars) =~= before + expand_from(
                    s@,
                    i as int,
                    vars,
                ));
                i = end;
            } else {
                out.append("$");
                assert(out@ + expand_from(s@, i + 1, vars) =~= before + expand_from(
                    s@,
                    i as int,
                    vars,
                ));
                i += 1;
            }
        }
    }
    assert(out@ + Seq::<char>::empty() =~= out@);
    out
}

/// Expands a path of the settings in an environment, which is given by its
/// variables: a leading tilde becomes the value of `HOME`, where it is set;
/// then every variable becomes its value, and one that is not set stays as
/// it would be written.
pub fn expand_path(path: &str, env: &Vec<(String, String)>) -> (text: String)
    ensures
        text@ == expanded(path@, env_view(env@)),
{
    let s = chars_of(path);
    let start = match lookup_var(env, "HOME") {
        Some(home) => {
            if s.len() >= 1 && s[0] == '~' && (s.len() == 1 || s[1] == '/') {
                assert(path@.subrange(1, s.len() as int) =~= path@.skip(1));
                home.clone().concat(path.substring_char(1, s.len()))
            } else {
                String::from_str(path)
            }
        },
        None => String::from_str(path),
    };
    expand_vars(start.as_str(), env)
}

} // verus!
