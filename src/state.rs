use vstd::prelude::*;
use vstd::string::*;

use crate::config::{deref_opt, get_member, member, parsed_json, req_str, str_eq, Json};
use crate::error::{Error, ErrorKind};
use crate::process::{args_ok, envs_ok, is_absolute, Process, ProcessConfig};

verus! {

/// Lifecycle status of a container: `Created`, then `Running`, then
/// `Stopped`, with no way back.
#[derive(Clone, Copy, Debug, PartialEq, Eq, Structural)]
pub enum Status {
    Created,
    Running,
    Stopped,
}

/// The persisted record of one container.
#[derive(Clone, Debug, PartialEq, Eq)]
pub struct ContainerState {
    pub id: String,
    pub pid: Option<i32>,
    pub status: Status,
    pub bundle_path: String,
}

pub ghost struct StateView {
    pub id: Seq<char>,
    pub pid: Option<i32>,
    pub status: Status,
    pub bundle_path: Seq<char>,
}

impl View for ContainerState {
    type V = StateView;

    open spec fn view(&self) -> StateView {
        StateView { id: self.id@, pid: self.pid, status: self.status, bundle_path: self.bundle_path@ }
    }
}

/// The records of all containers, one per id.
pub struct ContainerStore {
    records: Vec<ContainerState>,
}

pub open spec fn records_view(v: Seq<ContainerState>) -> Seq<StateView> {
    v.map_values(|c: ContainerState| c@)
}

impl View for ContainerStore {
    type V = Seq<StateView>;

    closed spec fn view(&self) -> Seq<StateView> {
        records_view(self.records@)
    }
}

/// A record has a pid exactly when it has left `Created`: the pid is set on
/// the move to `Running` and kept once `Stopped`.
pub open spec fn pid_fits(v: StateView) -> bool {
    (v.pid is None) == (v.status == Status::Created)
}

/// Ids are unique, and each record's pid fits its status.
pub open spec fn store_wf(s: Seq<StateView>) -> bool {
    &&& forall|i: int, j: int| 0 <= i < j < s.len() ==> (#[trigger] s[i]).id != (#[trigger] s[j]).id
    &&& forall|i: int| 0 <= i < s.len() ==> pid_fits(#[trigger] s[i])
}

/// Index of the record of `id` at or after `i`, or -1.
pub open spec fn find_from(s: Seq<StateView>, id: Seq<char>, i: int) -> int
    decreases s.len() - i,
{
    if i < 0 || i >= s.len() {
        -1
    } else if s[i].id == id {
        i
    } else {
        find_from(s, id, i + 1)
    }
}

pub open spec fn find(s: Seq<StateView>, id: Seq<char>) -> int {
    find_from(s, id, 0)
}

/// A process configuration from which an environment can be built.
pub open spec fn buildable(p: ProcessConfig) -> bool {
    args_ok(p.args) && is_absolute(p.cwd@) && envs_ok(p.env)
}

/// The kind of failure when no environment can be built from `p`: the
/// arguments are checked first, then the working directory, then the
/// environment.
pub open spec fn build_error(p: ProcessConfig) -> ErrorKind {
    if !args_ok(p.args) {
        ErrorKind::InvalidArgument
    } else if !is_absolute(p.cwd@) {
        ErrorKind::InvalidWorkingDirectory
    } else {
        ErrorKind::InvalidEnvironmentVariable
    }
}

/// The store after `start` of `id` with the outcome of the spawn, or the
/// kind of failure.
pub open spec fn start_spec(s: Seq<StateView>, id: Seq<char>, spawned: Result<i32, Seq<char>>) -> Result<
    Seq<StateView>,
    ErrorKind,
> {
    let i = find(s, id);
    if i < 0 {
        Err(ErrorKind::ContainerNotFound)
    } else if s[i].status != Status::Created {
        Err(ErrorKind::InvalidState)
    } else {
        match spawned {
            Err(_) => Err(ErrorKind::SpawnFailed),
            Ok(pid) => Ok(s.update(i, StateView { pid: Some(pid), status: Status::Running, ..s[i] })),
        }
    }
}

/// The store after the process of `id` was seen to terminate.
pub open spec fn stop_spec(s: Seq<StateView>, id: Seq<char>) -> Result<Seq<StateView>, ErrorKind> {
    let i = find(s, id);
    if i < 0 {
        Err(ErrorKind::ContainerNotFound)
    } else if s[i].status != Status::Running {
        Err(ErrorKind::InvalidState)
    } else {
        Ok(s.update(i, StateView { status: Status::Stopped, ..s[i] }))
    }
}

pub open spec fn spawn_view(r: Result<i32, String>) -> Result<i32, Seq<char>> {
    match r {
        Ok(p) => Ok(p),
        Err(m) => Err(m@),
    }
}

pub open spec fn update_holds(
    r: Result<(), Error>,
    old_s: Seq<StateView>,
    new_s: Seq<StateView>,
    expected: Result<Seq<StateView>, ErrorKind>,
) -> bool {
    match expected {
        Ok(s2) => r is Ok && new_s == s2,
        Err(k) => r matches Err(e) && e.kind == k && new_s == old_s,
    }
}

proof fn lemma_find_skips(s: Seq<StateView>, id: Seq<char>, from: int, to: int)
    requires
        0 <= from <= to <= s.len(),
        forall|j: int| from <= j < to ==> s[j].id != id,
    ensures
        find_from(s, id, from) == find_from(s, id, to),
    decreases to - from,
{
    if from < to {
        lemma_find_skips(s, id, from + 1, to);
    }
}

proof fn lemma_find_result(s: Seq<StateView>, id: Seq<char>)
    ensures
        -1 <= find(s, id) < s.len(),
        find(s, id) >= 0 ==> s[find(s, id)].id == id,
        find(s, id) < 0 ==> forall|j: int| 0 <= j < s.len() ==> s[j].id != id,
{
    lemma_find_from_result(s, id, 0);
}

proof fn lemma_find_from_result(s: Seq<StateView>, id: Seq<char>, i: int)
    requires
        0 <= i,
    ensures
        -1 <= find_from(s, id, i) < s.len(),
        find_from(s, id, i) >= 0 ==> s[find_from(s, id, i)].id == id && find_from(s, id, i) >= i,
        find_from(s, id, i) < 0 ==> forall|j: int| i <= j < s.len() ==> s[j].id != id,
    decreases s.len() - i,
{
    if i < s.len() && s[i].id != id {
        lemma_find_from_result(s, id, i + 1);
    }
}

pub open spec fn hex_digit(d: nat) -> char {
    if d < 10 {
        digit_char(d)
    } else if d == 10 {
        'a'
    } else if d == 11 {
        'b'
    } else if d == 12 {
        'c'
    } else if d == 13 {
        'd'
    } else if d == 14 {
        'e'
    } else {
        'f'
    }
}

/// How one character stands inside a JSON string literal: `"` and `\` and
/// the short control escapes get a backslash, other control characters
/// below 0x20 a `\u00xx` with lowercase hex, everything else itself.
pub open spec fn escaped_char(c: char) -> Seq<char> {
    if c == '"' {
        seq!['\\', '"']
    } else if c == '\\' {
        seq!['\\', '\\']
    } else if c == '\u{8}' {
        seq!['\\', 'b']
    } else if c == '\t' {
        seq!['\\', 't']
    } else if c == '\n' {
        seq!['\\', 'n']
    } else if c == '\u{c}' {
        seq!['\\', 'f']
    } else if c == '\r' {
        seq!['\\', 'r']
    } else if (c as u32) < 0x20 {
        seq!['\\', 'u', '0', '0', hex_digit((c as u32 / 16) as nat), hex_digit((c as u32 % 16) as nat)]
    } else {
        seq![c]
    }
}

pub open spec fn escaped(s: Seq<char>) -> Seq<char>
    decreases s.len(),
{
    if s.len() == 0 {
        Seq::empty()
    } else {
        escaped(s.drop_last()) + escaped_char(s.last())
    }
}

/// The JSON string literal of `s`: quotes around its escaped characters.
pub open spec fn json_quoted(s: Seq<char>) -> Seq<char> {
    seq!['"'] + escaped(s) + seq!['"']
}

/// Relies on `serde_json::to_string::<str>`: serialising a string into
/// memory cannot fail, and it escapes as `escaped_char` says.
#[verifier::external_body]
fn quote_json(s: &str) -> (r: String)
    ensures
        r@ == json_quoted(s@),
{
    serde_json::to_string(s).unwrap_or_default()
}

pub open spec fn digit_char(d: nat) -> char {
    if d == 0 { '0' } else if d == 1 { '1' } else if d == 2 { '2' } else if d == 3 { '3' }
    else if d == 4 { '4' } else if d == 5 { '5' } else if d == 6 { '6' } else if d == 7 { '7' }
    else if d == 8 { '8' } else { '9' }
}

pub open spec fn digits(n: nat) -> Seq<char>
    decreases n,
{
    if n < 10 {
        seq![digit_char(n)]
    } else {
        digits(n / 10) + seq![digit_char(n % 10)]
    }
}

/// Decimal notation of an integer, with a leading `-` when negative.
pub open spec fn decimal(n: int) -> Seq<char> {
    if n < 0 {
        seq!['-'] + digits((-n) as nat)
    } else {
        digits(n as nat)
    }
}

fn digit_text(d: u64) -> (r: &'static str)
    requires
        d < 10,
    ensures
        r@ == seq![digit_char(d as nat)],
{
    proof {
        reveal_strlit("0");
        reveal_strlit("1");
        reveal_strlit("2");
        reveal_strlit("3");
        reveal_strlit("4");
        reveal_strlit("5");
        reveal_strlit("6");
        reveal_strlit("7");
        reveal_strlit("8");
        reveal_strlit("9");
    }
    if d == 0 { "0" } else if d == 1 { "1" } else if d == 2 { "2" } else if d == 3 { "3" }
    else if d == 4 { "4" } else if d == 5 { "5" } else if d == 6 { "6" } else if d == 7 { "7" }
    else if d == 8 { "8" } else { "9" }
}

/// Decimal notation of `n`, with `-` before a negative value.
fn decimal_text(n: i32) -> (r: String)
    ensures
        r@ == decimal(n as int),
{
    let m: u64 = if n < 0 { (-(n as i64)) as u64 } else { n as u64 };
    let mut low: Vec<u64> = Vec::new();
    let mut cur: u64 = m;
    let ghost mut tail: Seq<char> = Seq::empty();
    while cur >= 10
        invariant
            digits(m as nat) == digits(cur as nat) + tail,
            tail.len() == low@.len(),
            forall|k: int| 0 <= k < low@.len() ==> low@[k] < 10 && tail[tail.len() - 1 - k] == digit_char(
                #[trigger] low@[k] as nat,
            ),
        decreases cur,
    {
        let d = cur % 10;
        proof {
            let t2 = seq![digit_char(d as nat)] + tail;
            assert(digits(cur as nat) == digits((cur / 10) as nat) + seq![digit_char(d as nat)]);
            assert(digits(cur as nat) + tail =~= digits((cur / 10) as nat) + t2);
            tail = t2;
        }
        low.push(d);
        cur = cur / 10;
    }
    let mut out = if n < 0 { String::from_str("-") } else { String::new() };
    let ghost sign = out@;
    out.append(digit_text(cur));
    proof {
        reveal_strlit("-");
        assert(digits(cur as nat) == seq![digit_char(cur as nat)]);
    }
    let mut k: usize = low.len();
    while k > 0
        invariant
            k <= low@.len(),
            tail.len() == low@.len(),
            forall|j: int| 0 <= j < low@.len() ==> low@[j] < 10 && tail[tail.len() - 1 - j] == digit_char(
                #[trigger] low@[j] as nat,
            ),
            out@ == sign + digits(cur as nat) + tail.subrange(0, (low@.len() - k) as int),
        decreases k,
    {
        k = k - 1;
        out.append(digit_text(low[k]));
        proof {
            let done = (low@.len() - k) as int;
            assert(tail[done - 1] == digit_char(low@[k as int] as nat));
            assert(tail.subrange(0, done) =~= tail.subrange(0, done - 1) + seq![tail[done - 1]]);
        }
    }
    proof {
        assert(tail.subrange(0, tail.len() as int) =~= tail);
        if n < 0 {
            assert(sign =~= seq!['-']);
        } else {
            assert(sign =~= Seq::<char>::empty());
        }
        assert((-(n as int)) as nat == m as nat || n >= 0);
    }
    out
}

pub open spec fn status_text(s: Status) -> Seq<char> {
    match s {
        Status::Created => "\"created\""@,
        Status::Running => "\"running\""@,
        Status::Stopped => "\"stopped\""@,
    }
}

pub open spec fn pid_text(p: Option<i32>) -> Seq<char> {
    match p {
        Some(n) => decimal(n as int),
        None => "null"@,
    }
}

/// The pretty-printed JSON of a record: fields `id`, `pid`, `status`,
/// `bundle_path` in that order, indented by two spaces.
pub open spec fn render(v: StateView) -> Seq<char> {
    "{\n  \"id\": "@ + json_quoted(v.id) + ",\n  \"pid\": "@ + pid_text(v.pid) + ",\n  \"status\": "@
        + status_text(v.status) + ",\n  \"bundle_path\": "@ + json_quoted(v.bundle_path) + "\n}"@
}

/// What `state` of `id` reports on the store `s`.
pub open spec fn state_spec(s: Seq<StateView>, id: Seq<char>) -> Result<Seq<char>, ErrorKind> {
    let i = find(s, id);
    if i < 0 {
        Err(ErrorKind::ContainerNotFound)
    } else {
        Ok(render(s[i]))
    }
}

impl Status {
    pub fn json_text(&self) -> (r: &'static str)
        ensures
            r@ == status_text(*self),
    {
        match self {
            Status::Created => "\"created\"",
            Status::Running => "\"running\"",
            Status::Stopped => "\"stopped\"",
        }
    }
}

impl ContainerState {
    /// The record as pretty-printed JSON.
    pub fn to_json(&self) -> (r: String)
        ensures
            r@ == render(self@),
    {
        let mut out = String::from_str("{\n  \"id\": ");
        let id = quote_json(self.id.as_str());
        out.append(id.as_str());
        out.append(",\n  \"pid\": ");
        match self.pid {
            Some(n) => {
                let d = decimal_text(n);
                out.append(d.as_str());
            },
            None => {
                out.append("null");
            },
        }
        out.append(",\n  \"status\": ");
        out.append(self.status.json_text());
        out.append(",\n  \"bundle_path\": ");
        let b = quote_json(self.bundle_path.as_str());
        out.append(b.as_str());
        out.append("\n}");
        out
    }
}

pub open spec fn pid_of(v: Option<Json>) -> Option<Option<i32>> {
    match v {
        None => Some(None),
        Some(Json::Null) => Some(None),
        Some(Json::Number(Some(n))) => if n <= i32::MAX {
            Some(Some(n as i32))
        } else {
            None
        },
        _ => None,
    }
}

pub open spec fn status_of(v: Option<Json>) -> Option<Status> {
    match req_str(v) {
        Some(t) => if t == "created"@ {
            Some(Status::Created)
        } else if t == "running"@ {
            Some(Status::Running)
        } else if t == "stopped"@ {
            Some(Status::Stopped)
        } else {
            None
        },
        None => None,
    }
}

/// The record that a persisted document `j` describes, if it is one.
pub open spec fn record_of(j: Json) -> Option<StateView> {
    match (
        req_str(member(j, "id"@)),
        pid_of(member(j, "pid"@)),
        status_of(member(j, "status"@)),
        req_str(member(j, "bundle_path"@)),
    ) {
        (Some(id), Some(pid), Some(status), Some(bundle_path)) => Some(
            StateView { id, pid, status, bundle_path },
        ),
        _ => None,
    }
}

fn read_string(v: Option<&Json>) -> (r: Option<String>)
    ensures
        match r {
            Some(s) => req_str(deref_opt(v)) == Some(s@),
            None => req_str(deref_opt(v)) is None,
        },
{
    match v {
        Some(Json::Str(s)) => Some(String::from_str(s.as_str())),
        _ => None,
    }
}

impl ContainerState {
    /// A copy of the record.
    pub fn copy(&self) -> (r: ContainerState)
        ensures
            r@ == self@,
    {
        ContainerState {
            id: String::from_str(self.id.as_str()),
            pid: self.pid,
            status: self.status,
            bundle_path: String::from_str(self.bundle_path.as_str()),
        }
    }

    /// Reads a persisted record back from its JSON document.
    pub fn from_json(j: &Json) -> (r: Option<ContainerState>)
        ensures
            match r {
                Some(c) => record_of(*j) == Some(c@),
                None => record_of(*j) is None,
            },
    {
        let id = read_string(get_member(j, "id"))?;
        let pid = match get_member(j, "pid") {
            None => None,
            Some(Json::Null) => None,
            Some(Json::Number(Some(n))) => if *n <= i32::MAX as u64 {
                Some(*n as i32)
            } else {
                return None;
            },
            _ => {
                return None;
            },
        };
        let status_text = read_string(get_member(j, "status"))?;
        let status = if str_eq(status_text.as_str(), "created") {
            Status::Created
        } else if str_eq(status_text.as_str(), "running") {
            Status::Running
        } else if str_eq(status_text.as_str(), "stopped") {
            Status::Stopped
        } else {
            return None;
        };
        let bundle_path = read_string(get_member(j, "bundle_path"))?;
        Some(ContainerState { id, pid, status, bundle_path })
    }

    /// Reads a persisted record back from its text; `None` when the text is
    /// not JSON or does not describe a record.
    pub fn parse(text: &str) -> (r: Option<ContainerState>)
        ensures
            match parsed_json(text@) {
                None => r is None,
                Some(j) => match r {
                    Some(c) => record_of(j) == Some(c@),
                    None => record_of(j) is None,
                },
            },
    {
        match crate::config::parse_json(text) {
            None => None,
            Some(j) => ContainerState::from_json(&j),
        }
    }
}

impl ContainerStore {
    pub open spec fn wf(&self) -> bool {
        store_wf(self@)
    }

    /// A store with no containers.
    pub fn new() -> (r: ContainerStore)
        ensures
            r@ == Seq::<StateView>::empty(),
            r.wf(),
    {
        ContainerStore { records: Vec::new() }
    }

    /// A store holding `records`, when their ids are unique and each pid
    /// fits its record's status.
    pub fn from_records(records: Vec<ContainerState>) -> (r: Option<ContainerStore>)
        ensures
            match r {
                Some(st) => st@ == records_view(records@) && st.wf(),
                None => !store_wf(records_view(records@)),
            },
    {
        let ghost v = records_view(records@);
        let n = records.len();
        let mut i: usize = 0;
        while i < n
            invariant
                n == records@.len(),
                v == records_view(records@),
                i <= n,
                forall|a: int, b: int| 0 <= a < b < i ==> (#[trigger] v[a]).id != (#[trigger] v[b]).id,
                forall|a: int| 0 <= a < i ==> pid_fits(#[trigger] v[a]),
            decreases n - i,
        {
            assert(v[i as int] == records@[i as int]@);
            if records[i].pid.is_none() != (records[i].status == Status::Created) {
                return None;
            }
            let mut j: usize = 0;
            while j < i
                invariant
                    n == records@.len(),
                    v == records_view(records@),
                    j <= i < n,
                    forall|b: int| 0 <= b < j ==> (#[trigger] v[b]).id != v[i as int].id,
                decreases i - j,
            {
                assert(v[j as int] == records@[j as int]@);
                assert(v[i as int] == records@[i as int]@);
                if str_eq(records[j].id.as_str(), records[i].id.as_str()) {
                    return None;
                }
                j = j + 1;
            }
            i = i + 1;
        }
        Some(ContainerStore { records })
    }

    /// Position of the record of `id`.
    pub fn find(&self, id: &str) -> (r: Option<usize>)
        ensures
            match r {
                Some(i) => find(self@, id@) == i && i < self@.len() && self@[i as int].id == id@,
                None => find(self@, id@) == -1,
            },
    {
        proof {
            lemma_find_result(self@, id@);
        }
        let mut i: usize = 0;
        while i < self.records.len()
            invariant
                i <= self@.len(),
                self@.len() == self.records@.len(),
                find(self@, id@) == find_from(self@, id@, i as int),
                -1 <= find(self@, id@) < self@.len(),
                find(self@, id@) >= 0 ==> self@[find(self@, id@)].id == id@,
            decreases self@.len() - i,
        {
            assert(self@[i as int] == self.records@[i as int]@);
            if str_eq(self.records[i].id.as_str(), id) {
                return Some(i);
            }
            i = i + 1;
        }
        None
    }

    /// The records, in the order they were created.
    pub fn records(&self) -> (r: &Vec<ContainerState>)
        ensures
            records_view(r@) == self@,
    {
        &self.records
    }

    /// Records a new container `id` in status `Created`, after checking that
    /// an environment can be built from its process configuration.
    pub fn create(&mut self, id: &str, bundle_path: &str, process: &ProcessConfig) -> (r: Result<
        ContainerState,
        Error,
    >)
        requires
            old(self).wf(),
        ensures
            final(self).wf(),
            r.is_ok() == (find(old(self)@, id@) < 0 && buildable(*process)),
            find(old(self)@, id@) >= 0 ==> (r matches Err(e) && e.kind == ErrorKind::ContainerExists),
            find(old(self)@, id@) < 0 && !buildable(*process) ==> (r matches Err(e) && e.kind
                == build_error(*process)),
            r matches Ok(c) ==> c@ == (StateView {
                id: id@,
                pid: None,
                status: Status::Created,
                bundle_path: bundle_path@,
            }) && final(self)@ == old(self)@.push(c@),
            r is Err ==> final(self)@ == old(self)@,
    {
        if self.find(id).is_some() {
            return Err(Error::new(ErrorKind::ContainerExists, id));
        }
        let _environment = Process::from_spec(process)?;
        let c = ContainerState {
            id: String::from_str(id),
            pid: None,
            status: Status::Created,
            bundle_path: String::from_str(bundle_path),
        };
        let rec = c.copy();
        proof {
            lemma_find_result(self@, id@);
        }
        self.records.push(rec);
        assert(self@ =~= old(self)@.push(c@));
        Ok(c)
    }

    /// Position of the record of `id` when it can be started, that is when
    /// it is `Created`; to be asked before spawning its process.
    pub fn check_startable(&self, id: &str) -> (r: Result<usize, Error>)
        ensures
            match r {
                Ok(i) => i == find(self@, id@) && self@[i as int].status == Status::Created,
                Err(e) => {
                    &&& find(self@, id@) < 0 ==> e.kind == ErrorKind::ContainerNotFound
                    &&& find(self@, id@) >= 0 ==> e.kind == ErrorKind::InvalidState
                        && self@[find(self@, id@)].status != Status::Created
                },
            },
    {
        match self.find(id) {
            None => Err(Error::new(ErrorKind::ContainerNotFound, id)),
            Some(i) => {
                assert(self@[i as int] == self.records@[i as int]@);
                if self.records[i].status == Status::Created {
                    Ok(i)
                } else {
                    Err(Error::new(ErrorKind::InvalidState, id))
                }
            },
        }
    }

    /// Records the outcome of spawning the process of `id`: a pid moves a
    /// `Created` container to `Running`; a failed spawn changes nothing.
    pub fn start(&mut self, id: &str, spawned: Result<i32, String>) -> (r: Result<(), Error>)
        requires
            old(self).wf(),
        ensures
            final(self).wf(),
            update_holds(r, old(self)@, final(self)@, start_spec(old(self)@, id@, spawn_view(spawned))),
            r matches Err(e) ==> (e.kind == ErrorKind::SpawnFailed ==> (spawned matches Err(m)
                && e.context@ == m@)),
    {
        let i = self.check_startable(id)?;
        proof {
            lemma_find_result(old(self)@, id@);
        }
        assert(self@[i as int] == self.records@[i as int]@);
        match spawned {
            Err(m) => Err(Error::new(ErrorKind::SpawnFailed, m.as_str())),
            Ok(pid) => {
                let rec = ContainerState {
                    id: String::from_str(self.records[i].id.as_str()),
                    pid: Some(pid),
                    status: Status::Running,
                    bundle_path: String::from_str(self.records[i].bundle_path.as_str()),
                };
                self.records.set(i, rec);
                proof {
                    assert(self@ =~= old(self)@.update(i as int, StateView { pid: Some(pid), status: Status::Running, ..old(self)@[i as int] }));
                    assert forall|a: int, b: int| 0 <= a < b < self@.len() implies (#[trigger] self@[a]).id != (#[trigger] self@[b]).id by {
                        assert(old(self)@[a].id != old(self)@[b].id);
                    }
                }
                Ok(())
            },
        }
    }

    /// Records that the process of `id` has terminated: a `Running`
    /// container becomes `Stopped` and keeps its pid.
    pub fn stop(&mut self, id: &str) -> (r: Result<(), Error>)
        requires
            old(self).wf(),
        ensures
            final(self).wf(),
            update_holds(r, old(self)@, final(self)@, stop_spec(old(self)@, id@)),
    {
        let i = match self.find(id) {
            None => {
                return Err(Error::new(ErrorKind::ContainerNotFound, id));
            },
            Some(i) => i,
        };
        assert(self@[i as int] == self.records@[i as int]@);
        proof {
            lemma_find_result(old(self)@, id@);
        }
        if self.records[i].status != Status::Running {
            return Err(Error::new(ErrorKind::InvalidState, id));
        }
        let rec = ContainerState {
            id: String::from_str(self.records[i].id.as_str()),
            pid: self.records[i].pid,
            status: Status::Stopped,
            bundle_path: String::from_str(self.records[i].bundle_path.as_str()),
        };
        self.records.set(i, rec);
        proof {
            assert(self@ =~= old(self)@.update(i as int, StateView { status: Status::Stopped, ..old(self)@[i as int] }));
            assert forall|a: int, b: int| 0 <= a < b < self@.len() implies (#[trigger] self@[a]).id != (#[trigger] self@[b]).id by {
                assert(old(self)@[a].id != old(self)@[b].id);
            }
        }
        Ok(())
    }

    /// Records the outcome of waiting for the process of `id`: when the wait
    /// returned, the container is `Stopped`; when it failed, nothing changes.
    pub fn record_wait(&mut self, id: &str, waited: Result<(), String>) -> (r: Result<(), Error>)
        requires
            old(self).wf(),
        ensures
            final(self).wf(),
            match waited {
                Ok(_) => update_holds(r, old(self)@, final(self)@, stop_spec(old(self)@, id@)),
                Err(m) => r matches Err(e) && e.kind == ErrorKind::WaitFailed && e.context@ == m@
                    && final(self)@ == old(self)@,
            },
    {
        match waited {
            Ok(_) => self.stop(id),
            Err(m) => Err(Error::new(ErrorKind::WaitFailed, m.as_str())),
        }
    }

    /// The record of `id` as pretty-printed JSON; reading changes nothing.
    pub fn state(&self, id: &str) -> (r: Result<String, Error>)
        ensures
            match state_spec(self@, id@) {
                Ok(t) => r matches Ok(x) && x@ == t,
                Err(k) => r matches Err(e) && e.kind == k,
            },
    {
        match self.find(id) {
            None => Err(Error::new(ErrorKind::ContainerNotFound, id)),
            Some(i) => {
                assert(self@[i as int] == self.records@[i as int]@);
                Ok(self.records[i].to_json())
            },
        }
    }
}

proof fn lemma_find_update(s: Seq<StateView>, id: Seq<char>, i: int, x: StateView, k: int)
    requires
        0 <= i < s.len(),
        0 <= k,
        x.id == s[i].id,
    ensures
        find_from(s.update(i, x), id, k) == find_from(s, id, k),
    decreases s.len() - k,
{
    if k < s.len() {
        lemma_find_update(s, id, i, x, k + 1);
    }
}

proof fn lemma_find_push(s: Seq<StateView>, x: StateView)
    requires
        forall|j: int| 0 <= j < s.len() ==> s[j].id != x.id,
    ensures
        find(s.push(x), x.id) == s.len(),
{
    lemma_find_skips(s.push(x), x.id, 0, s.len() as int);
}

/// Starting a container a second time fails with `InvalidState`, whatever
/// either spawn reported: after a successful start the record is no longer
/// `Created`.
pub proof fn lemma_start_twice_fails(
    s: Seq<StateView>,
    id: Seq<char>,
    first: Result<i32, Seq<char>>,
    second: Result<i32, Seq<char>>,
)
    requires
        store_wf(s),
        start_spec(s, id, first) is Ok,
    ensures
        start_spec(start_spec(s, id, first)->Ok_0, id, second) == Err::<Seq<StateView>, ErrorKind>(
            ErrorKind::InvalidState,
        ),
{
    let i = find(s, id);
    lemma_find_result(s, id);
    let x = StateView { pid: Some(first->Ok_0), status: Status::Running, ..s[i] };
    lemma_find_update(s, id, i, x, 0);
}

/// A stopped container cannot be started again.
pub proof fn lemma_start_after_stop_fails(s: Seq<StateView>, id: Seq<char>, spawned: Result<i32, Seq<char>>)
    requires
        store_wf(s),
        stop_spec(s, id) is Ok,
    ensures
        start_spec(stop_spec(s, id)->Ok_0, id, spawned) == Err::<Seq<StateView>, ErrorKind>(
            ErrorKind::InvalidState,
        ),
{
    let i = find(s, id);
    lemma_find_result(s, id);
    let x = StateView { status: Status::Stopped, ..s[i] };
    lemma_find_update(s, id, i, x, 0);
}

/// Asking for the state of an id that has no record always fails with
/// `ContainerNotFound`, and a start of it does too.
pub proof fn lemma_unknown_id(s: Seq<StateView>, id: Seq<char>, spawned: Result<i32, Seq<char>>)
    requires
        forall|j: int| 0 <= j < s.len() ==> s[j].id != id,
    ensures
        state_spec(s, id) == Err::<Seq<char>, ErrorKind>(ErrorKind::ContainerNotFound),
        start_spec(s, id, spawned) == Err::<Seq<StateView>, ErrorKind>(ErrorKind::ContainerNotFound),
{
    lemma_find_skips(s, id, 0, s.len() as int);
}

/// A record written by `create` and then `start` reads back, through
/// `state`, as the JSON of exactly its id, pid, status and bundle path; the
/// read itself changes nothing, so reading twice gives the same text.
pub proof fn lemma_state_round_trip(s: Seq<StateView>, id: Seq<char>, bundle_path: Seq<char>, pid: i32)
    requires
        store_wf(s),
        find(s, id) < 0,
    ensures
        ({
            let created = StateView { id, pid: None, status: Status::Created, bundle_path };
            let running = StateView { id, pid: Some(pid), status: Status::Running, bundle_path };
            let s1 = s.push(created);
            &&& state_spec(s1, id) == Ok::<Seq<char>, ErrorKind>(render(created))
            &&& start_spec(s1, id, Ok(pid)) == Ok::<Seq<StateView>, ErrorKind>(s1.update(s.len() as int, running))
            &&& state_spec(s1.update(s.len() as int, running), id) == Ok::<Seq<char>, ErrorKind>(render(running))
        }),
{
    let created = StateView { id, pid: None, status: Status::Created, bundle_path };
    let running = StateView { id, pid: Some(pid), status: Status::Running, bundle_path };
    let s1 = s.push(created);
    lemma_find_result(s, id);
    lemma_find_push(s, created);
    lemma_find_update(s1, id, s.len() as int, running, 0);
    assert(s1[s.len() as int] == created);
    assert(StateView { pid: Some(pid), status: Status::Running, ..s1[s.len() as int] } == running);
}

} // verus!
