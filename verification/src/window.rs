//! The window adapter: a captured window and its process as an environment.

use vstd::prelude::*;
use vstd::std_specs::convert::FromSpecImpl;
use vstd::string::StringExecFns;
use std::rc::Rc;
use crate::value::{
    empty_environment, env_contents, insert_variable, Contents, Value, Variable, VariableMapType,
};

verus! {

/// The text of the moment that lies `millis` milliseconds after the start of
/// 1970 in UTC, as `chrono` writes a `DateTime<Utc>`; `None` where `chrono`
/// has no such moment.
pub uninterp spec fn utc_text(millis: i64) -> Option<Seq<char>>;

/// `chrono::DateTime::from_timestamp_millis`, then the `Display` of the
/// `DateTime<Utc>`: the text of the moment, `None` where the number of
/// milliseconds is out of range.
#[verifier::external_body]
fn format_utc_millis(millis: i64) -> (text: Option<String>)
    ensures
        match text {
            Some(text) => utc_text(millis) == Some(text@),
            None => utc_text(millis) is None,
        },
{
    chrono::DateTime::from_timestamp_millis(millis).map(|moment| moment.to_string())
}

/// A moment in time that has a date in UTC.
#[derive(Clone, Copy, Debug, PartialEq, Eq)]
pub struct Timestamp {
    millis: i64,
}

impl Timestamp {
    #[verifier::type_invariant]
    spec fn has_date(&self) -> bool {
        utc_text(self.millis) is Some
    }

    /// Milliseconds since the start of 1970 in UTC.
    pub closed spec fn millis(self) -> i64 {
        self.millis
    }

    /// The moment as text: date, time of day, and `UTC`.
    pub closed spec fn text(self) -> Seq<char> {
        utc_text(self.millis)->Some_0
    }

    /// The moment `millis` milliseconds after the start of 1970 in UTC,
    /// where that moment has a date.
    pub fn from_millis(millis: i64) -> (moment: Option<Timestamp>)
        ensures
            moment is Some <==> utc_text(millis) is Some,
            moment matches Some(m) ==> m.millis() == millis && Some(m.text()) == utc_text(millis),
    {
        match format_utc_millis(millis) {
            Some(_) => Some(Timestamp { millis }),
            None => None,
        }
    }

    /// Milliseconds since the start of 1970 in UTC.
    pub fn as_millis(&self) -> (millis: i64)
        ensures
            millis == self.millis(),
    {
        self.millis
    }

    /// The moment as text.
    pub fn to_text(&self) -> (text: String)
        ensures
            text@ == self.text(),
    {
        proof {
            use_type_invariant(self);
        }
        match format_utc_millis(self.millis) {
            Some(text) => text,
            None => String::new(),
        }
    }
}

/// A process, as the capture reports it. `cpu_usage` holds the bit pattern
/// of a 32-bit float.
#[derive(Clone, Debug)]
pub struct Process {
    pub name: String,
    pub cmd: Vec<String>,
    pub exe: String,
    pub cwd: String,
    pub memory: i64,
    pub status: String,
    pub start_time: Timestamp,
    pub cpu_usage: Option<u32>,
}

/// A window and the process that owns it.
#[derive(Clone, Debug)]
pub struct Window {
    pub title: Option<String>,
    pub process: Process,
}

/// One sample: the windows, the time since the last user input in
/// nanoseconds, and the time of the sample.
#[derive(Clone, Debug)]
pub struct Event {
    pub windows: Vec<Window>,
    pub duration_since_user_input: u128,
    pub timestamp: i64,
}

/// The texts of `parts`, one after the other, with nothing between them.
pub open spec fn concatenated(parts: Seq<String>) -> Seq<char>
    decreases parts.len(),
{
    if parts.len() == 0 {
        Seq::empty()
    } else {
        concatenated(parts.drop_last()) + parts.last()@
    }
}

/// The command line as one text: its arguments without a separator.
pub fn joined_arguments(cmd: &Vec<String>) -> (text: String)
    ensures
        text@ == concatenated(cmd@),
{
    let mut text = String::new();
    let mut i: usize = 0;
    while i < cmd.len()
        invariant
            i <= cmd.len(),
            text@ == concatenated(cmd@.take(i as int)),
        decreases cmd.len() - i,
    {
        text.append(cmd[i].as_str());
        proof {
            assert(cmd@.take(i + 1).drop_last() =~= cmd@.take(i as int));
        }
        i += 1;
    }
    proof {
        assert(cmd@.take(cmd.len() as int) =~= cmd@);
    }
    text
}

/// What the environment of a process holds, given the text of its start
/// time: its name, command line, executable, working directory, memory,
/// status and start time, and its CPU usage where it reports one.
pub open spec fn process_contents(process: Process, start_time: Seq<char>) -> Contents {
    let always = map![
        "NAME"@ => Value::Text(process.name@),
        "CMD"@ => Value::Text(concatenated(process.cmd@)),
        "EXE"@ => Value::Text(process.exe@),
        "CWD"@ => Value::Text(process.cwd@),
        "MEMORY"@ => Value::Int(process.memory as usize as nat),
        "STATUS"@ => Value::Text(process.status@),
        "START_TIME"@ => Value::Text(start_time),
    ];
    match process.cpu_usage {
        Some(bits) => always.insert("CPU_USAGE"@, Value::Float(bits)),
        None => always,
    }
}

/// What the environment of a window holds, given the text of the start time
/// of its process: what that of the process holds, and the title where the
/// window has one.
pub open spec fn described(window: Window, start_time: Seq<char>) -> Contents {
    match window.title {
        Some(title) => process_contents(window.process, start_time).insert(
            "TITLE"@,
            Value::Text(title@),
        ),
        None => process_contents(window.process, start_time),
    }
}

/// What the environment of a window holds.
pub open spec fn window_contents(window: Window) -> Contents {
    described(window, window.process.start_time.text())
}

/// Names `value` by `key` in `env`.
fn set(env: &mut VariableMapType, key: &str, value: Variable)
    ensures
        env_contents(*final(env)) == env_contents(*old(env)).insert(key@, value@),
{
    insert_variable(env, Rc::new(String::from_str(key)), value);
}

/// Names the text `value` by `key` in `env`.
fn set_text(env: &mut VariableMapType, key: &str, value: String)
    ensures
        env_contents(*final(env)) == env_contents(*old(env)).insert(key@, Value::Text(value@)),
{
    set(env, key, Variable::RcStr(Rc::new(value)));
}

/// The environment of a window, given the text of the start time of its
/// process.
pub fn describe(window: Window, start_time: String) -> (env: VariableMapType)
    ensures
        env_contents(env) == described(window, start_time@),
{
    let mut env = empty_environment();
    let process = window.process;
    let cmd = joined_arguments(&process.cmd);
    set_text(&mut env, "NAME", process.name);
    set_text(&mut env, "CMD", cmd);
    set_text(&mut env, "EXE", process.exe);
    set_text(&mut env, "CWD", process.cwd);
    set(&mut env, "MEMORY", Variable::Int(#[verifier::truncate] (process.memory as usize)));
    set_text(&mut env, "STATUS", process.status);
    set_text(&mut env, "START_TIME", start_time);
    if let Some(bits) = process.cpu_usage {
        set(&mut env, "CPU_USAGE", Variable::Float(bits));
    }
    if let Some(title) = window.title {
        set_text(&mut env, "TITLE", title);
    }
    env
}

impl From<Window> for VariableMapType {
    fn from(window: Window) -> (env: Self)
        ensures
            env_contents(env) == window_contents(window),
    {
        let start_time = window.process.start_time.to_text();
        describe(window, start_time)
    }
}

impl FromSpecImpl<Window> for VariableMapType {
    open spec fn obeys_from_spec() -> bool {
        false
    }

    open spec fn from_spec(window: Window) -> Self {
        arbitrary()
    }
}

/// The environment of a window always names the process by `NAME`, `CMD`,
/// `EXE`, `CWD`, `MEMORY`, `STATUS` and `START_TIME`. It holds `TITLE` exactly
/// where the window has a title, and `CPU_USAGE` exactly where the process
/// reports one.
pub proof fn law_window_names(window: Window, start_time: Seq<char>)
    ensures
        described(window, start_time).contains_key("NAME"@),
        described(window, start_time).contains_key("CMD"@),
        described(window, start_time).contains_key("EXE"@),
        described(window, start_time).contains_key("CWD"@),
        described(window, start_time).contains_key("MEMORY"@),
        described(window, start_time).contains_key("STATUS"@),
        described(window, start_time).contains_key("START_TIME"@),
        described(window, start_time).contains_key("TITLE"@) <==> window.title is Some,
        described(window, start_time).contains_key("CPU_USAGE"@) <==> window.process.cpu_usage
            is Some,
        described(window, start_time)["MEMORY"@] is Int,
        described(window, start_time)["START_TIME"@] == Value::Text(start_time),
        described(window, start_time)["CMD"@] == Value::Text(concatenated(window.process.cmd@)),
{
    reveal_strlit("NAME");
    reveal_strlit("CMD");
    reveal_strlit("EXE");
    reveal_strlit("CWD");
    reveal_strlit("MEMORY");
    reveal_strlit("STATUS");
    reveal_strlit("START_TIME");
    reveal_strlit("TITLE");
    reveal_strlit("CPU_USAGE");
    assert("TITLE"@.len() == 5 && "CPU_USAGE"@.len() == 9);
    assert("CMD"@[1] != "EXE"@[1] && "CMD"@[1] != "CWD"@[1] && "EXE"@[0] != "CWD"@[0]);
    assert("MEMORY"@[0] != "STATUS"@[0]);
}

} // verus!
