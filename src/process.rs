use vstd::prelude::*;
use vstd::string::*;

use crate::error::{Error, ErrorKind};

verus! {

/// Requested size of an attached terminal.
#[derive(Clone, Copy, Debug, PartialEq, Eq, Structural)]
pub struct ConsoleSize {
    pub width: u32,
    pub height: u32,
}

/// The process section of a bundle configuration.
#[derive(Clone, Debug, PartialEq, Eq)]
pub struct ProcessConfig {
    pub terminal: Option<bool>,
    pub console_size: Option<ConsoleSize>,
    pub cwd: String,
    pub env: Option<Vec<String>>,
    pub args: Option<Vec<String>>,
}

/// OS-ready parameters derived from a `ProcessConfig`.
#[derive(Clone, Debug, PartialEq, Eq)]
pub struct Process {
    pub args: Option<Vec<String>>,
    pub attach_terminal: bool,
    pub working_dir: String,
    pub env_vars: Option<Vec<(String, String)>>,
}

pub open spec fn strings_view(v: Seq<String>) -> Seq<Seq<char>> {
    v.map_values(|s: String| s@)
}

pub open spec fn pairs_view(v: Seq<(String, String)>) -> Seq<(Seq<char>, Seq<char>)> {
    v.map_values(|p: (String, String)| (p.0@, p.1@))
}

/// An argument can be handed to the OS as a NUL-terminated string.
pub open spec fn valid_arg(a: Seq<char>) -> bool {
    forall|i: int| 0 <= i < a.len() ==> a[i] != '\0'
}

pub open spec fn valid_args(v: Seq<Seq<char>>) -> bool {
    forall|i: int| 0 <= i < v.len() ==> valid_arg(#[trigger] v[i])
}

pub open spec fn is_absolute(p: Seq<char>) -> bool {
    p.len() > 0 && p[0] == '/'
}

/// Index of the first `c` in `s` at or after `i`, or -1.
pub open spec fn first_index_from(s: Seq<char>, c: char, i: int) -> int
    decreases s.len() - i,
{
    if i < 0 || i >= s.len() {
        -1
    } else if s[i] == c {
        i
    } else {
        first_index_from(s, c, i + 1)
    }
}

/// The `(key, value)` pair of an environment entry, split on its first `=`;
/// `None` when there is no `=` or the key is empty.
pub open spec fn env_pair(e: Seq<char>) -> Option<(Seq<char>, Seq<char>)> {
    let i = first_index_from(e, '=', 0);
    if i <= 0 {
        None
    } else {
        Some((e.subrange(0, i), e.subrange(i + 1, e.len() as int)))
    }
}

pub open spec fn valid_envs(v: Seq<Seq<char>>) -> bool {
    forall|i: int| 0 <= i < v.len() ==> (#[trigger] env_pair(v[i])).is_some()
}

pub open spec fn env_pairs(v: Seq<Seq<char>>) -> Seq<(Seq<char>, Seq<char>)> {
    v.map_values(|e: Seq<char>| env_pair(e).unwrap())
}

pub open spec fn opt_strings(v: Option<Vec<String>>) -> Option<Seq<Seq<char>>> {
    match v {
        Some(v) => Some(strings_view(v@)),
        None => None,
    }
}

pub open spec fn opt_pairs(v: Option<Vec<(String, String)>>) -> Option<Seq<(Seq<char>, Seq<char>)>> {
    match v {
        Some(v) => Some(pairs_view(v@)),
        None => None,
    }
}

pub open spec fn args_ok(a: Option<Vec<String>>) -> bool {
    match a {
        Some(v) => valid_args(strings_view(v@)),
        None => true,
    }
}

pub open spec fn envs_ok(e: Option<Vec<String>>) -> bool {
    match e {
        Some(v) => valid_envs(strings_view(v@)),
        None => true,
    }
}

/// The context of an error is the first offending entry of `v`.
pub open spec fn first_bad_env(v: Seq<Seq<char>>, c: Seq<char>) -> bool {
    exists|i: int|
        0 <= i < v.len() && env_pair(#[trigger] v[i]).is_none() && c == v[i] && forall|j: int|
            0 <= j < i ==> env_pair(#[trigger] v[j]).is_some()
}

/// On Unix a path is absolute when it starts with the root `/`.
fn path_is_absolute(p: &str) -> (r: bool)
    ensures
        r == is_absolute(p@),
{
    p.unicode_len() > 0 && p.get_char(0) == '/'
}

fn has_nul(s: &str) -> (r: bool)
    ensures
        r == !valid_arg(s@),
{
    let n = s.unicode_len();
    let mut i: usize = 0;
    while i < n
        invariant
            n == s@.len(),
            i <= n,
            forall|j: int| 0 <= j < i ==> s@[j] != '\0',
        decreases n - i,
    {
        if s.get_char(i) == '\0' {
            return true;
        }
        i = i + 1;
    }
    false
}

/// Checks that every argument is free of NUL characters and copies them.
pub fn into_arg_vec(args: &Option<Vec<String>>) -> (r: Result<Option<Vec<String>>, Error>)
    ensures
        r.is_ok() == args_ok(*args),
        r matches Ok(a) ==> opt_strings(a) == opt_strings(*args),
        r matches Err(e) ==> e.kind == ErrorKind::InvalidArgument && e.context@
            == "failed to parse argument"@,
{
    match args {
        None => Ok(None),
        Some(v) => {
            let mut out: Vec<String> = Vec::new();
            let mut i: usize = 0;
            while i < v.len()
                invariant
                    *args == Some(*v),
                    i <= v@.len(),
                    out@.len() == i,
                    forall|j: int| 0 <= j < i ==> (#[trigger] out@[j])@ == v@[j]@,
                    forall|j: int| 0 <= j < i ==> valid_arg(#[trigger] v@[j]@),
                decreases v@.len() - i,
            {
                if has_nul(v[i].as_str()) {
                    assert(strings_view(v@)[i as int] == v@[i as int]@);
                    assert(!valid_args(strings_view(v@)));
                    return Err(Error::new(ErrorKind::InvalidArgument, "failed to parse argument"));
                }
                out.push(v[i].clone());
                i = i + 1;
            }
            assert(strings_view(out@) =~= strings_view(v@));
            assert(valid_args(strings_view(v@)));
            Ok(Some(out))
        },
    }
}

/// Accepts an absolute working directory unchanged.
pub fn check_working_dir(working_dir: &str) -> (r: Result<(), Error>)
    ensures
        r.is_ok() == is_absolute(working_dir@),
        r matches Err(e) ==> e.kind == ErrorKind::InvalidWorkingDirectory && e.context@
            == working_dir@,
{
    if path_is_absolute(working_dir) {
        Ok(())
    } else {
        Err(Error::new(ErrorKind::InvalidWorkingDirectory, working_dir))
    }
}

/// Splits an environment entry on its first `=`.
fn split_env(e: &str) -> (r: Option<(String, String)>)
    ensures
        r matches Some(p) ==> env_pair(e@) == Some((p.0@, p.1@)),
        r is None ==> env_pair(e@) is None,
{
    let n = e.unicode_len();
    let mut i: usize = 0;
    while i < n
        invariant
            n == e@.len(),
            i <= n,
            first_index_from(e@, '=', 0) == first_index_from(e@, '=', i as int),
        decreases n - i,
    {
        if e.get_char(i) == '=' {
            if i == 0 {
                return None;
            }
            let k = String::from_str(e.substring_char(0, i));
            let v = String::from_str(e.substring_char(i + 1, n));
            return Some((k, v));
        }
        i = i + 1;
    }
    None
}

/// Splits every entry into a `(key, value)` pair, keeping their order; the
/// first malformed entry is reported.
pub fn parse_envs(envs: &Option<Vec<String>>) -> (r: Result<Option<Vec<(String, String)>>, Error>)
    ensures
        r.is_ok() == envs_ok(*envs),
        r matches Ok(p) ==> match *envs {
            Some(v) => opt_pairs(p) == Some(env_pairs(strings_view(v@))),
            None => p is None,
        },
        r matches Err(e) ==> e.kind == ErrorKind::InvalidEnvironmentVariable && match *envs {
            Some(v) => first_bad_env(strings_view(v@), e.context@),
            None => false,
        },
{
    match envs {
        None => Ok(None),
        Some(v) => {
            let mut out: Vec<(String, String)> = Vec::new();
            let mut i: usize = 0;
            while i < v.len()
                invariant
                    *envs == Some(*v),
                    i <= v@.len(),
                    out@.len() == i,
                    forall|j: int| 0 <= j < i ==> env_pair(#[trigger] v@[j]@) == Some(
                        ((out@[j]).0@, (out@[j]).1@),
                    ),
                decreases v@.len() - i,
            {
                match split_env(v[i].as_str()) {
                    Some(p) => {
                        out.push(p);
                    },
                    None => {
                        let ghost sv = strings_view(v@);
                        assert(sv[i as int] == v@[i as int]@);
                        assert forall|j: int| 0 <= j < i implies env_pair(#[trigger] sv[j]).is_some() by {
                            assert(sv[j] == v@[j]@);
                        }
                        assert(!valid_envs(sv));
                        return Err(Error::new(ErrorKind::InvalidEnvironmentVariable, v[i].as_str()));
                    },
                }
                i = i + 1;
            }
            let ghost sv = strings_view(v@);
            assert forall|j: int| 0 <= j < sv.len() implies (#[trigger] env_pair(sv[j])).is_some() by {
                assert(sv[j] == v@[j]@);
            }
            assert(pairs_view(out@) =~= env_pairs(sv));
            Ok(Some(out))
        },
    }
}

impl Process {
    /// Derives the OS-level parameters of a process from its configuration:
    /// arguments are checked first, then the working directory, then the
    /// environment.
    pub fn from_spec(spec: &ProcessConfig) -> (r: Result<Process, Error>)
        ensures
            r.is_ok() == (args_ok(spec.args) && is_absolute(spec.cwd@) && envs_ok(spec.env)),
            r matches Ok(p) ==> {
                &&& p.attach_terminal == (spec.terminal == Some(true))
                &&& opt_strings(p.args) == opt_strings(spec.args)
                &&& p.working_dir@ == spec.cwd@
                &&& match spec.env {
                    Some(v) => opt_pairs(p.env_vars) == Some(env_pairs(strings_view(v@))),
                    None => p.env_vars is None,
                }
            },
            r matches Err(e) ==> {
                &&& !args_ok(spec.args) ==> e.kind == ErrorKind::InvalidArgument && e.context@
                    == "failed to parse argument"@
                &&& args_ok(spec.args) && !is_absolute(spec.cwd@) ==> e.kind
                    == ErrorKind::InvalidWorkingDirectory && e.context@ == spec.cwd@
                &&& args_ok(spec.args) && is_absolute(spec.cwd@) ==> e.kind
                    == ErrorKind::InvalidEnvironmentVariable && match spec.env {
                    Some(v) => first_bad_env(strings_view(v@), e.context@),
                    None => false,
                }
            },
    {
        let attach_terminal = match spec.terminal {
            Some(t) => t,
            None => false,
        };
        let args = into_arg_vec(&spec.args)?;
        check_working_dir(spec.cwd.as_str())?;
        let env_vars = parse_envs(&spec.env)?;
        let working_dir = String::from_str(spec.cwd.as_str());
        Ok(Process { args, attach_terminal, working_dir, env_vars })
    }
}

proof fn lemma_first_index_skips(s: Seq<char>, c: char, from: int, to: int)
    requires
        0 <= from <= to <= s.len(),
        forall|j: int| from <= j < to ==> s[j] != c,
    ensures
        first_index_from(s, c, from) == first_index_from(s, c, to),
    decreases to - from,
{
    if from < to {
        lemma_first_index_skips(s, c, from + 1, to);
    }
}

/// An entry `KEY=VALUE` whose key is non-empty and holds no `=` splits into
/// exactly that key and value, whatever `=` the value holds: the split is on
/// the first `=`.
pub proof fn lemma_env_split_on_first(key: Seq<char>, value: Seq<char>)
    requires
        key.len() > 0,
        forall|j: int| 0 <= j < key.len() ==> key[j] != '=',
    ensures
        env_pair(key + seq!['='] + value) == Some((key, value)),
{
    let e = key + seq!['='] + value;
    lemma_first_index_skips(e, '=', 0, key.len() as int);
    assert(e[key.len() as int] == '=');
    assert(e.subrange(0, key.len() as int) =~= key);
    assert(e.subrange(key.len() as int + 1, e.len() as int) =~= value);
}

/// An entry without `=`, or whose first character is `=` (an empty key), is
/// malformed.
pub proof fn lemma_env_malformed(e: Seq<char>)
    requires
        (forall|j: int| 0 <= j < e.len() ==> e[j] != '=') || (e.len() > 0 && e[0] == '='),
    ensures
        env_pair(e) is None,
{
    if e.len() > 0 && e[0] == '=' {
    } else {
        lemma_first_index_skips(e, '=', 0, e.len() as int);
    }
}

/// Every well-formed list of entries is accepted, and the pairs come out in
/// the order of the entries.
pub proof fn lemma_envs_keep_order(v: Seq<Seq<char>>, i: int)
    requires
        valid_envs(v),
        0 <= i < v.len(),
    ensures
        env_pairs(v).len() == v.len(),
        Some(env_pairs(v)[i]) == env_pair(v[i]),
{
}

/// Body of the isolated process, run on its own stack once it exists. It
/// hands back the status the new process exits with.
pub fn child(environment: &Process) -> isize {
    0
}

} // verus!
