use vstd::prelude::*;
use vstd::string::*;

use crate::error::{Error, ErrorKind};
use crate::process::{opt_strings, strings_view, ConsoleSize, ProcessConfig};

verus! {

/// A JSON document as plain values. `Number` holds the value of a
/// non-negative integer that fits in `u64`, and `None` for any other number.
/// `Object` holds the members in the order the parser reports them.
#[derive(Debug, PartialEq, Eq)]
pub enum Json {
    Null,
    Bool(bool),
    Number(Option<u64>),
    Str(String),
    Array(Vec<Json>),
    Object(Vec<(String, Json)>),
}

/// What `serde_json` parses `text` into, or `None` when `text` is not
/// well-formed JSON or nests arrays and objects deeper than the parser's
/// fixed limit of 128 levels.
pub uninterp spec fn parsed_json(text: Seq<char>) -> Option<Json>;

/// Relies on `serde_json::from_str::<serde_json::Value>`: it fails on
/// malformed JSON and on nesting beyond its fixed depth limit, and the
/// document depends on the text alone.
#[verifier::external_body]
pub(crate) fn parse_json(text: &str) -> (r: Option<Json>)
    ensures
        r == parsed_json(text@),
{
    serde_json::from_str::<serde_json::Value>(text).ok().map(json_of_value)
}

/// The document type of `serde_json`, carried only into `json_of_value`.
#[verifier::external_type_specification]
#[verifier::external_body]
pub struct ExValue(serde_json::Value);

/// Relies on the variants of `serde_json::Value`: each becomes the variant
/// of the same name, members of an object in the map's own order.
#[verifier::external_body]
fn json_of_value(v: serde_json::Value) -> Json {
    match v {
        serde_json::Value::Null => Json::Null,
        serde_json::Value::Bool(b) => Json::Bool(b),
        serde_json::Value::Number(n) => Json::Number(n.as_u64()),
        serde_json::Value::String(s) => Json::Str(s),
        serde_json::Value::Array(a) => Json::Array(a.into_iter().map(json_of_value).collect()),
        serde_json::Value::Object(o) => Json::Object(
            o.into_iter().map(|(k, x)| (k, json_of_value(x))).collect(),
        ),
    }
}

/// A bundle configuration: version, hostname and process section.
#[derive(Clone, Debug, PartialEq, Eq)]
pub struct ConfigModel {
    pub oci_version: String,
    pub hostname: Option<String>,
    pub process: ProcessConfig,
}

/// Index of the first member named `key` at or after `i`, or -1.
pub open spec fn member_index(m: Seq<(String, Json)>, key: Seq<char>, i: int) -> int
    decreases m.len() - i,
{
    if i < 0 || i >= m.len() {
        -1
    } else if m[i].0@ == key {
        i
    } else {
        member_index(m, key, i + 1)
    }
}

/// The member `key` of an object; `None` when absent or not an object.
pub open spec fn member(j: Json, key: Seq<char>) -> Option<Json> {
    match j {
        Json::Object(m) => {
            let i = member_index(m@, key, 0);
            if i >= 0 {
                Some(m@[i].1)
            } else {
                None
            }
        },
        _ => None,
    }
}

/// A required string: `Some` of its characters when present and a string.
pub open spec fn req_str(v: Option<Json>) -> Option<Seq<char>> {
    match v {
        Some(Json::Str(s)) => Some(s@),
        _ => None,
    }
}

/// An optional field is absent or `null` (`Some(None)`), or holds a valid
/// value (`Some(Some(x))`); anything else is invalid (`None`).
pub open spec fn opt_str(v: Option<Json>) -> Option<Option<Seq<char>>> {
    match v {
        None => Some(None),
        Some(Json::Null) => Some(None),
        Some(Json::Str(s)) => Some(Some(s@)),
        _ => None,
    }
}

pub open spec fn opt_bool(v: Option<Json>) -> Option<Option<bool>> {
    match v {
        None => Some(None),
        Some(Json::Null) => Some(None),
        Some(Json::Bool(b)) => Some(Some(b)),
        _ => None,
    }
}

pub open spec fn all_strs(a: Seq<Json>) -> bool {
    forall|i: int| 0 <= i < a.len() ==> (#[trigger] a[i]) is Str
}

pub open spec fn str_items(a: Seq<Json>) -> Seq<Seq<char>> {
    a.map_values(|x: Json| x->Str_0@)
}

pub open spec fn opt_str_list(v: Option<Json>) -> Option<Option<Seq<Seq<char>>>> {
    match v {
        None => Some(None),
        Some(Json::Null) => Some(None),
        Some(Json::Array(a)) => if all_strs(a@) {
            Some(Some(str_items(a@)))
        } else {
            None
        },
        _ => None,
    }
}

pub open spec fn u32_of(v: Option<Json>) -> Option<u32> {
    match v {
        Some(Json::Number(Some(n))) => if n <= u32::MAX {
            Some(n as u32)
        } else {
            None
        },
        _ => None,
    }
}

pub open spec fn opt_console(v: Option<Json>) -> Option<Option<ConsoleSize>> {
    match v {
        None => Some(None),
        Some(Json::Null) => Some(None),
        Some(Json::Object(m)) => {
            let o = Json::Object(m);
            match (u32_of(member(o, "width"@)), u32_of(member(o, "height"@))) {
                (Some(w), Some(h)) => Some(Some(ConsoleSize { width: w, height: h })),
                _ => None,
            }
        },
        _ => None,
    }
}

pub open spec fn opt_view(v: Option<String>) -> Option<Seq<char>> {
    match v {
        Some(s) => Some(s@),
        None => None,
    }
}

/// `p` is a valid `process` section.
pub open spec fn process_valid(p: Json) -> bool {
    &&& p is Object
    &&& opt_bool(member(p, "terminal"@)).is_some()
    &&& opt_console(member(p, "consoleSize"@)).is_some()
    &&& req_str(member(p, "cwd"@)).is_some()
    &&& opt_str_list(member(p, "env"@)).is_some()
    &&& opt_str_list(member(p, "args"@)).is_some()
}

/// `s` holds exactly what the `process` section `p` says.
pub open spec fn process_matches(s: ProcessConfig, p: Json) -> bool {
    &&& Some(s.terminal) == opt_bool(member(p, "terminal"@))
    &&& Some(s.console_size) == opt_console(member(p, "consoleSize"@))
    &&& Some(s.cwd@) == req_str(member(p, "cwd"@))
    &&& Some(opt_strings(s.env)) == opt_str_list(member(p, "env"@))
    &&& Some(opt_strings(s.args)) == opt_str_list(member(p, "args"@))
}

/// `j` is a valid configuration document.
pub open spec fn config_valid(j: Json) -> bool {
    &&& j is Object
    &&& req_str(member(j, "ociVersion"@)) matches Some(v) && v.len() > 0
    &&& opt_str(member(j, "hostname"@)).is_some()
    &&& member(j, "process"@) matches Some(p) && process_valid(p)
}

/// `c` holds exactly what the document `j` says.
pub open spec fn config_matches(c: ConfigModel, j: Json) -> bool {
    &&& Some(c.oci_version@) == req_str(member(j, "ociVersion"@))
    &&& Some(opt_view(c.hostname)) == opt_str(member(j, "hostname"@))
    &&& process_matches(c.process, member(j, "process"@)->Some_0)
}

pub open spec fn deref_opt(v: Option<&Json>) -> Option<Json> {
    match v {
        Some(x) => Some(*x),
        None => None,
    }
}

pub(crate) fn str_eq(a: &str, b: &str) -> (r: bool)
    ensures
        r == (a@ == b@),
{
    let n = a.unicode_len();
    if n != b.unicode_len() {
        return false;
    }
    let mut i: usize = 0;
    while i < n
        invariant
            n == a@.len(),
            n == b@.len(),
            i <= n,
            forall|j: int| 0 <= j < i ==> a@[j] == b@[j],
        decreases n - i,
    {
        if a.get_char(i) != b.get_char(i) {
            return false;
        }
        i = i + 1;
    }
    assert(a@ =~= b@);
    true
}

/// The member `key` of an object, if it has one.
pub fn get_member<'a>(j: &'a Json, key: &str) -> (r: Option<&'a Json>)
    ensures
        deref_opt(r) == member(*j, key@),
{
    match j {
        Json::Object(m) => {
            let mut i: usize = 0;
            while i < m.len()
                invariant
                    *j == Json::Object(*m),
                    i <= m@.len(),
                    member_index(m@, key@, 0) == member_index(m@, key@, i as int),
                decreases m@.len() - i,
            {
                if str_eq(m[i].0.as_str(), key) {
                    return Some(&m[i].1);
                }
                i = i + 1;
            }
            None
        },
        _ => None,
    }
}

fn invalid(field: &str) -> (r: Error)
    ensures
        r.kind == ErrorKind::ParseConfig,
{
    Error::new(ErrorKind::ParseConfig, field)
}

fn read_req_str(v: Option<&Json>, field: &str) -> (r: Result<String, Error>)
    ensures
        r.is_ok() == req_str(deref_opt(v)).is_some(),
        r matches Ok(s) ==> Some(s@) == req_str(deref_opt(v)),
        r matches Err(e) ==> e.kind == ErrorKind::ParseConfig,
{
    match v {
        Some(Json::Str(s)) => Ok(String::from_str(s.as_str())),
        _ => Err(invalid(field)),
    }
}

fn read_opt_str(v: Option<&Json>, field: &str) -> (r: Result<Option<String>, Error>)
    ensures
        r.is_ok() == opt_str(deref_opt(v)).is_some(),
        r matches Ok(s) ==> Some(opt_view(s)) == opt_str(deref_opt(v)),
        r matches Err(e) ==> e.kind == ErrorKind::ParseConfig,
{
    match v {
        None => Ok(None),
        Some(Json::Null) => Ok(None),
        Some(Json::Str(s)) => Ok(Some(String::from_str(s.as_str()))),
        _ => Err(invalid(field)),
    }
}

fn read_opt_bool(v: Option<&Json>, field: &str) -> (r: Result<Option<bool>, Error>)
    ensures
        r.is_ok() == opt_bool(deref_opt(v)).is_some(),
        r matches Ok(b) ==> Some(b) == opt_bool(deref_opt(v)),
        r matches Err(e) ==> e.kind == ErrorKind::ParseConfig,
{
    match v {
        None => Ok(None),
        Some(Json::Null) => Ok(None),
        Some(Json::Bool(b)) => Ok(Some(*b)),
        _ => Err(invalid(field)),
    }
}

fn read_opt_str_list(v: Option<&Json>, field: &str) -> (r: Result<Option<Vec<String>>, Error>)
    ensures
        r.is_ok() == opt_str_list(deref_opt(v)).is_some(),
        r matches Ok(l) ==> Some(opt_strings(l)) == opt_str_list(deref_opt(v)),
        r matches Err(e) ==> e.kind == ErrorKind::ParseConfig,
{
    match v {
        None => Ok(None),
        Some(Json::Null) => Ok(None),
        Some(Json::Array(a)) => {
            let mut out: Vec<String> = Vec::new();
            let mut i: usize = 0;
            while i < a.len()
                invariant
                    v == Some(&Json::Array(*a)),
                    i <= a@.len(),
                    out@.len() == i,
                    forall|j: int| 0 <= j < i ==> (#[trigger] a@[j]) is Str && out@[j]@ == a@[j]->Str_0@,
                decreases a@.len() - i,
            {
                match &a[i] {
                    Json::Str(s) => {
                        out.push(String::from_str(s.as_str()));
                    },
                    _ => {
                        assert(!all_strs(a@));
                        return Err(invalid(field));
                    },
                }
                i = i + 1;
            }
            assert(strings_view(out@) =~= str_items(a@));
            Ok(Some(out))
        },
        _ => Err(invalid(field)),
    }
}

fn read_u32(v: Option<&Json>, field: &str) -> (r: Result<u32, Error>)
    ensures
        r.is_ok() == u32_of(deref_opt(v)).is_some(),
        r matches Ok(n) ==> Some(n) == u32_of(deref_opt(v)),
        r matches Err(e) ==> e.kind == ErrorKind::ParseConfig,
{
    match v {
        Some(Json::Number(Some(n))) => if *n <= u32::MAX as u64 {
            Ok(*n as u32)
        } else {
            Err(invalid(field))
        },
        _ => Err(invalid(field)),
    }
}

fn read_opt_console(v: Option<&Json>) -> (r: Result<Option<ConsoleSize>, Error>)
    ensures
        r.is_ok() == opt_console(deref_opt(v)).is_some(),
        r matches Ok(c) ==> Some(c) == opt_console(deref_opt(v)),
        r matches Err(e) ==> e.kind == ErrorKind::ParseConfig,
{
    match v {
        None => Ok(None),
        Some(Json::Null) => Ok(None),
        Some(o) => match o {
            Json::Object(_) => {
                let width = read_u32(get_member(o, "width"), "consoleSize.width")?;
                let height = read_u32(get_member(o, "height"), "consoleSize.height")?;
                Ok(Some(ConsoleSize { width, height }))
            },
            _ => Err(invalid("consoleSize")),
        },
    }
}

/// Reads the `process` section of a configuration document.
pub fn process_from_json(p: &Json) -> (r: Result<ProcessConfig, Error>)
    ensures
        r.is_ok() == process_valid(*p),
        r matches Ok(s) ==> process_matches(s, *p),
        r matches Err(e) ==> e.kind == ErrorKind::ParseConfig,
{
    if !matches!(p, Json::Object(_)) {
        return Err(invalid("process"));
    }
    let terminal = read_opt_bool(get_member(p, "terminal"), "process.terminal")?;
    let console_size = read_opt_console(get_member(p, "consoleSize"))?;
    let cwd = read_req_str(get_member(p, "cwd"), "process.cwd")?;
    let env = read_opt_str_list(get_member(p, "env"), "process.env")?;
    let args = read_opt_str_list(get_member(p, "args"), "process.args")?;
    Ok(ProcessConfig { terminal, console_size, cwd, env, args })
}

impl ConfigModel {
    /// Reads a configuration from a parsed document; any field that is
    /// missing or of the wrong type fails with `ParseConfig`.
    pub fn from_json(j: &Json) -> (r: Result<ConfigModel, Error>)
        ensures
            r.is_ok() == config_valid(*j),
            r matches Ok(c) ==> config_matches(c, *j),
            r matches Err(e) ==> e.kind == ErrorKind::ParseConfig,
    {
        if !matches!(j, Json::Object(_)) {
            return Err(invalid("config"));
        }
        let oci_version = read_req_str(get_member(j, "ociVersion"), "ociVersion")?;
        if oci_version.as_str().unicode_len() == 0 {
            return Err(invalid("ociVersion"));
        }
        let hostname = read_opt_str(get_member(j, "hostname"), "hostname")?;
        let process = match get_member(j, "process") {
            Some(p) => process_from_json(p)?,
            None => {
                return Err(invalid("process"));
            },
        };
        Ok(ConfigModel { oci_version, hostname, process })
    }

    pub fn oci_version(&self) -> (r: &str)
        ensures
            r@ == self.oci_version@,
    {
        self.oci_version.as_str()
    }

    pub fn hostname(&self) -> (r: &Option<String>)
        ensures
            *r == self.hostname,
    {
        &self.hostname
    }

    pub fn process(&self) -> (r: &ProcessConfig)
        ensures
            *r == self.process,
    {
        &self.process
    }
}

/// Loads a configuration from the contents of `config.json`, `None` when
/// the file is absent.
pub fn load(contents: Option<&str>) -> (r: Result<ConfigModel, Error>)
    ensures
        contents is None ==> (r matches Err(e) && e.kind == ErrorKind::NotFound),
        contents matches Some(t) ==> match parsed_json(t@) {
            None => (r matches Err(e) && e.kind == ErrorKind::ConfigSyntax),
            Some(j) => {
                &&& r.is_ok() == config_valid(j)
                &&& r matches Ok(c) ==> config_matches(c, j)
                &&& r matches Err(e) ==> e.kind == ErrorKind::ParseConfig
            },
        },
{
    match contents {
        None => Err(Error::new(ErrorKind::NotFound, "config.json")),
        Some(t) => match parse_json(t) {
            None => Err(Error::new(ErrorKind::ConfigSyntax, "config.json")),
            Some(j) => ConfigModel::from_json(&j),
        },
    }
}

} // verus!
