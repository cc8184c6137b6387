use vstd::prelude::*;
use vstd::string::*;

use crate::error::{Error, ErrorKind};

verus! {

/// Name of the configuration file inside a bundle directory.
pub const CONFIG_FILE_NAME: &'static str = "config.json";

/// `dir` joined with `name` as a path: a `/` goes between them unless `dir`
/// is empty or already ends with one.
pub open spec fn joined(dir: Seq<char>, name: Seq<char>) -> Seq<char> {
    if dir.len() == 0 || dir[dir.len() - 1] == '/' {
        dir + name
    } else {
        dir + seq!['/'] + name
    }
}

/// The context of a failed path lookup: the path, a colon, the OS message.
pub open spec fn lookup_context(path: Seq<char>, message: Seq<char>) -> Seq<char> {
    path + ": "@ + message
}

/// The error value for a failed lookup of `path`.
pub open spec fn lookup_failed(e: Error, path: Seq<char>, message: Seq<char>) -> bool {
    e.kind == ErrorKind::NotFound && e.context@ == lookup_context(path, message)
}

fn lookup_error(path: &str, message: &str) -> (r: Error)
    ensures
        lookup_failed(r, path@, message@),
{
    let mut context = String::from_str(path);
    context.append(": ");
    context.append(message);
    Error { kind: ErrorKind::NotFound, context }
}

/// The path of the configuration file of the bundle directory `bundle_dir`.
pub fn config_path_in(bundle_dir: &str) -> (r: String)
    ensures
        r@ == joined(bundle_dir@, CONFIG_FILE_NAME@),
{
    let n = bundle_dir.unicode_len();
    let mut p = String::from_str(bundle_dir);
    if n > 0 && bundle_dir.get_char(n - 1) != '/' {
        p.append("/");
    }
    p.append(CONFIG_FILE_NAME);
    proof {
        reveal_strlit("/");
        assert("/"@ =~= seq!['/']);
    }
    p
}

/// Accepts the canonical form of the bundle path `path`, or reports the
/// lookup failure against `path`.
pub fn load_bundle_path(path: &str, canonical: Result<String, String>) -> (r: Result<String, Error>)
    ensures
        match canonical {
            Ok(c) => r matches Ok(p) && p@ == c@,
            Err(m) => r matches Err(e) && lookup_failed(e, path@, m@),
        },
{
    match canonical {
        Ok(c) => Ok(c),
        Err(m) => Err(lookup_error(path, m.as_str())),
    }
}

/// Accepts the canonical form of the configuration file path, or reports
/// the lookup failure against the file's name.
pub fn load_config_file_path(canonical: Result<String, String>) -> (r: Result<String, Error>)
    ensures
        match canonical {
            Ok(c) => r matches Ok(p) && p@ == c@,
            Err(m) => r matches Err(e) && lookup_failed(e, CONFIG_FILE_NAME@, m@),
        },
{
    match canonical {
        Ok(c) => Ok(c),
        Err(m) => Err(lookup_error(CONFIG_FILE_NAME, m.as_str())),
    }
}

/// Resolves the configuration file of the bundle at `path`, given the
/// outcome of canonicalising `path` and then of canonicalising the
/// configuration path inside it (`config_path_in` of the first).
pub fn config_file_path(path: &str, bundle: Result<String, String>, config: Result<String, String>) -> (r:
    Result<String, Error>)
    ensures
        match bundle {
            Err(m) => r matches Err(e) && lookup_failed(e, path@, m@),
            Ok(_) => match config {
                Err(m) => r matches Err(e) && lookup_failed(e, CONFIG_FILE_NAME@, m@),
                Ok(c) => r matches Ok(p) && p@ == c@,
            },
        },
{
    let _bundle_path = load_bundle_path(path, bundle)?;
    let config_path = load_config_file_path(config)?;
    Ok(config_path)
}

} // verus!
