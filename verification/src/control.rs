//! The control socket, over which clients talk to the daemon: requests and
//! responses, one JSON object per line, and the files that show that a daemon
//! runs.

use crate::capability::opt_string;
use crate::json::{json_text, opt_json};
use crate::paths::{join_path, joined_path};
use crate::protocol::{
    add_member, frame, lemma_single_line_add, next_member, optional_member, quoted, single_line,
    value_text,
};
use crate::text::{
    decimal, decimal_reads_back, joined, joined3, parse_u32, trim, trimmed, trimmed_end,
    trimmed_start, u32_text, u64_to_text, unit_result,
};
use crate::value::{opt_text, JsonValue, JsonView};
use vstd::prelude::*;
use vstd::string::*;

verus! {

/// How long a client waits for the daemon, in seconds.
pub const IPC_TIMEOUT_SECS: u64 = 30;

/// The lock file in a runtime directory.
pub open spec fn lock_file(runtime_dir: Seq<char>) -> Seq<char> {
    joined_path(runtime_dir, "middlesox.lock"@)
}

/// The control socket in a runtime directory.
pub open spec fn socket_file(runtime_dir: Seq<char>) -> Seq<char> {
    joined_path(runtime_dir, "middlesox.sock"@)
}

/// The lock file of a runtime directory.
pub fn lock_path_in(runtime_dir: &str) -> (r: String)
    ensures
        r@ == lock_file(runtime_dir@),
{
    join_path(runtime_dir, "middlesox.lock")
}

/// The control socket of a runtime directory.
pub fn socket_path_in(runtime_dir: &str) -> (r: String)
    ensures
        r@ == socket_file(runtime_dir@),
{
    join_path(runtime_dir, "middlesox.sock")
}

/// What became of the attempt to create the fallback runtime directory.
#[derive(Debug, Clone, Copy, PartialEq, Eq, Structural)]
pub enum FallbackDir {
    /// It was created, or neither created nor found.
    Usable,
    /// It was there before, and its metadata could be read.
    Existing { is_symlink: bool, owner: u32 },
}

/// The runtime directory: `XDG_RUNTIME_DIR` where it is set, else a directory of
/// the user's own under `/tmp`. One that is a link or that belongs to someone
/// else is refused: the path that stands for it cannot be used.
pub open spec fn runtime_directory(
    xdg: Option<Seq<char>>,
    uid: u32,
    pid: u32,
    fallback: FallbackDir,
) -> Seq<char> {
    match xdg {
        Some(dir) => dir,
        None => match fallback {
            FallbackDir::Usable => fallback_directory(uid),
            FallbackDir::Existing { is_symlink, owner } => if is_symlink || owner != uid {
                "/run/middlesox-rejected-"@ + decimal(pid as nat)
            } else {
                fallback_directory(uid)
            },
        },
    }
}

/// The directory that stands in for a missing runtime directory.
pub open spec fn fallback_directory(uid: u32) -> Seq<char> {
    "/tmp/middlesox-"@ + decimal(uid as nat)
}

/// The runtime directory of a user whose environment names none.
pub fn fallback_dir(uid: u32) -> (r: String)
    ensures
        r@ == fallback_directory(uid),
{
    joined("/tmp/middlesox-", u64_to_text(uid as u64).as_str())
}

pub fn choose_runtime_dir(xdg: Option<&str>, uid: u32, pid: u32, fallback: FallbackDir) -> (r:
    String)
    ensures
        r@ == runtime_directory(opt_text(xdg), uid, pid, fallback),
{
    match xdg {
        Some(dir) => dir.to_owned(),
        None => match fallback {
            FallbackDir::Usable => fallback_dir(uid),
            FallbackDir::Existing { is_symlink, owner } => if is_symlink || owner != uid {
                joined("/run/middlesox-rejected-", u64_to_text(pid as u64).as_str())
            } else {
                fallback_dir(uid)
            },
        },
    }
}

/// The lock file of a user, given the environment, the ids of user and process,
/// and what is known of the fallback directory.
pub fn lock_path(xdg: Option<&str>, uid: u32, pid: u32, fallback: FallbackDir) -> (r: String)
    ensures
        r@ == lock_file(runtime_directory(opt_text(xdg), uid, pid, fallback)),
{
    lock_path_in(choose_runtime_dir(xdg, uid, pid, fallback).as_str())
}

/// The control socket of a user.
pub fn socket_path(xdg: Option<&str>, uid: u32, pid: u32, fallback: FallbackDir) -> (r: String)
    ensures
        r@ == socket_file(runtime_directory(opt_text(xdg), uid, pid, fallback)),
{
    socket_path_in(choose_runtime_dir(xdg, uid, pid, fallback).as_str())
}

/// A runtime directory that the environment does not name is used only if it is
/// no link and belongs to the user.
pub proof fn foreign_directories_are_refused(uid: u32, pid: u32, owner: u32, is_symlink: bool)
    requires
        is_symlink || owner != uid,
    ensures
        runtime_directory(None, uid, pid, FallbackDir::Existing { is_symlink, owner })
            != fallback_directory(uid),
{
    reveal_strlit("/run/middlesox-rejected-");
    reveal_strlit("/tmp/middlesox-");
    let a = runtime_directory(None, uid, pid, FallbackDir::Existing { is_symlink, owner });
    assert(a[1] == 'r');
    assert(fallback_directory(uid)[1] == 't');
}


/// What stands in the lock file of a process.
pub open spec fn pid_text(pid: u32) -> Seq<char> {
    decimal(pid as nat) + "\n"@
}

/// What to write into the lock file.
pub fn pid_line(pid: u32) -> (r: String)
    ensures
        r@ == pid_text(pid),
{
    joined(u64_to_text(pid as u64).as_str(), "\n")
}

/// The process whose lock file has this content.
pub fn parse_pid(content: &str) -> (r: Option<u32>)
    ensures
        r == u32_text(trimmed(content@)),
{
    parse_u32(trim(content))
}

/// What a daemon writes into its lock file is read back as its process id.
pub proof fn pid_reads_back(pid: u32)
    ensures
        u32_text(trimmed(pid_text(pid))) == Some(pid),
{
    reveal_strlit("\n");
    let digits = decimal(pid as nat);
    let s = pid_text(pid);
    decimal_reads_back(pid as nat);
    assert(s.drop_last() =~= digits);
    assert(s.last() == '\n');
    assert(crate::text::is_digit(digits.last()));
    assert(crate::text::is_digit(digits[0]));
    assert(trimmed_end(s) == trimmed_end(digits));
    assert(trimmed_end(digits) == digits);
    assert(trimmed_start(digits) == digits);
}

/// The error of a lock that another process holds.
pub open spec fn lock_refusal(path: Seq<char>) -> Seq<char> {
    "Another instance is already running (lock file: "@ + path + ")"@
}

/// Whether the lock was obtained, given what the attempt to lock without waiting
/// returned.
pub fn lock_outcome(path: &str, flock_result: i32) -> (r: Result<(), String>)
    ensures
        unit_result(r) == (if flock_result == 0 {
            Ok(())
        } else {
            Err(lock_refusal(path@))
        }),
{
    if flock_result != 0 {
        Err(joined3("Another instance is already running (lock file: ", path, ")"))
    } else {
        Ok(())
    }
}

/// How far a process has come with the lock file.
#[derive(Debug, Clone, Copy, PartialEq, Eq, Structural)]
pub enum LockEvent {
    /// The file is open for writing, with what stood in it before.
    Opened,
    /// The attempt to lock it without waiting returned this.
    Tried(i32),
    /// The file was emptied.
    Emptied,
    /// The line was written.
    Written,
}

/// What to do next with the lock file.
#[derive(Debug)]
pub enum LockStep {
    /// Try to lock it without waiting.
    TryLock,
    /// Empty it.
    Empty,
    /// Write this at its start.
    Write(String),
    /// The lock is held as long as the file is open.
    Held,
    /// Close the file and give up, for this reason.
    Refused(String),
}

pub enum LockStepView {
    TryLock,
    Empty,
    Write(Seq<char>),
    Held,
    Refused(Seq<char>),
}

impl View for LockStep {
    type V = LockStepView;

    open spec fn view(&self) -> LockStepView {
        match self {
            LockStep::TryLock => LockStepView::TryLock,
            LockStep::Empty => LockStepView::Empty,
            LockStep::Write(text) => LockStepView::Write(text@),
            LockStep::Held => LockStepView::Held,
            LockStep::Refused(e) => LockStepView::Refused(e@),
        }
    }
}

/// What to do next with the lock file. It is emptied only once the lock is held:
/// it may tell the process id of another daemon.
pub open spec fn lock_step_for(path: Seq<char>, pid: u32, event: LockEvent) -> LockStepView {
    match event {
        LockEvent::Opened => LockStepView::TryLock,
        LockEvent::Tried(result) => if result == 0 {
            LockStepView::Empty
        } else {
            LockStepView::Refused(lock_refusal(path))
        },
        LockEvent::Emptied => LockStepView::Write(pid_text(pid)),
        LockEvent::Written => LockStepView::Held,
    }
}

/// What to do next with the lock file.
pub fn lock_step(path: &str, pid: u32, event: LockEvent) -> (r: LockStep)
    ensures
        r@ == lock_step_for(path@, pid, event),
{
    match event {
        LockEvent::Opened => LockStep::TryLock,
        LockEvent::Tried(result) => match lock_outcome(path, result) {
            Ok(()) => LockStep::Empty,
            Err(e) => LockStep::Refused(e),
        },
        LockEvent::Emptied => LockStep::Write(pid_line(pid)),
        LockEvent::Written => LockStep::Held,
    }
}

/// A lock file: whether some open file holds its lock, and what stands in it.
pub struct LockFile {
    pub held: bool,
    pub content: Seq<char>,
}

/// A lock file after one step of a process that opened it, and what came of the
/// step. A lock that is held is not given to another, and what is written at the
/// start replaces as much as it is long.
pub open spec fn after_lock_step(f: LockFile, step: LockStepView) -> (LockFile, LockEvent) {
    match step {
        LockStepView::TryLock => if f.held {
            (f, LockEvent::Tried((-1) as i32))
        } else {
            (LockFile { held: true, ..f }, LockEvent::Tried(0))
        },
        LockStepView::Empty => (LockFile { content: Seq::empty(), ..f }, LockEvent::Emptied),
        LockStepView::Write(text) => (
            LockFile {
                content: text + (if f.content.len() > text.len() {
                    f.content.skip(text.len() as int)
                } else {
                    Seq::empty()
                }),
                ..f
            },
            LockEvent::Written,
        ),
        LockStepView::Held => (f, LockEvent::Written),
        LockStepView::Refused(_) => (f, LockEvent::Written),
    }
}

/// A lock file after all steps of a process, from an event on, and what they came
/// to. `steps` bounds their number.
pub open spec fn lock_taken(
    f: LockFile,
    path: Seq<char>,
    pid: u32,
    event: LockEvent,
    steps: nat,
) -> (LockFile, LockStepView)
    decreases steps,
{
    let step = lock_step_for(path, pid, event);
    if steps == 0 || step is Held || step is Refused {
        (f, step)
    } else {
        let (after, next) = after_lock_step(f, step);
        lock_taken(after, path, pid, next, (steps - 1) as nat)
    }
}

/// A process gets the lock exactly if no other holds it. Then nothing but its
/// process id stands in the file, whatever stood there before. Else the file is
/// left as it was. Once the holder has closed the file, the next process gets the
/// lock.
pub proof fn one_process_holds_the_lock(f: LockFile, path: Seq<char>, pid: u32, next: u32)
    ensures
        lock_taken(f, path, pid, LockEvent::Opened, 3) == (if f.held {
            (f, LockStepView::Refused(lock_refusal(path)))
        } else {
            (LockFile { held: true, content: pid_text(pid) }, LockStepView::Held)
        }),
        lock_taken(
            LockFile { held: false, ..f },
            path,
            next,
            LockEvent::Opened,
            3,
        ) == (LockFile { held: true, content: pid_text(next) }, LockStepView::Held),
{
    reveal_with_fuel(lock_taken, 4);
    assert(pid_text(pid) + Seq::<char>::empty() =~= pid_text(pid));
    assert(pid_text(next) + Seq::<char>::empty() =~= pid_text(next));
}

/// Whether a daemon runs, given what the attempt to lock its lock file returned.
/// `None` stands for a lock file that is not there or cannot be opened.
pub fn lock_is_held(flock_result: Option<i32>) -> (r: bool)
    ensures
        r == (flock_result matches Some(result) && result != 0),
{
    match flock_result {
        Some(result) => result != 0,
        None => false,
    }
}

/// What is found at the path of the control socket.
#[derive(Debug)]
pub enum SocketEntry {
    Missing,
    Symlink,
    Other,
    /// It cannot be looked at, for this reason.
    Unreadable(String),
}

/// How to make room for the control socket.
#[derive(Debug, Clone, Copy, PartialEq, Eq, Structural)]
pub enum ListenerStep {
    Bind,
    RemoveAndBind,
}

/// How to make room for the control socket. A link is never replaced.
pub fn listener_step(path: &str, entry: &SocketEntry) -> (r: Result<ListenerStep, String>)
    ensures
        (match r {
            Ok(step) => Ok(step),
            Err(e) => Err(e@),
        }) == (match entry {
            SocketEntry::Missing => Ok(ListenerStep::Bind),
            SocketEntry::Other => Ok(ListenerStep::RemoveAndBind),
            SocketEntry::Symlink => Err("Refusing to replace symlink at socket path: "@ + path@),
            SocketEntry::Unreadable(e) => Err(
                "Failed to check socket path "@ + path@ + ": "@ + e@,
            ),
        }),
{
    match entry {
        SocketEntry::Missing => Ok(ListenerStep::Bind),
        SocketEntry::Other => Ok(ListenerStep::RemoveAndBind),
        SocketEntry::Symlink => Err(joined("Refusing to replace symlink at socket path: ", path)),
        SocketEntry::Unreadable(e) => {
            let head = joined3("Failed to check socket path ", path, ": ");
            Err(joined(head.as_str(), e.as_str()))
        },
    }
}

/// Whether a client can try to connect.
pub fn connect_check(path: &str, exists: bool) -> (r: Result<(), String>)
    ensures
        unit_result(r) == (if exists {
            Ok(())
        } else {
            Err("Daemon is not running (socket not found: "@ + path@ + ")"@)
        }),
{
    if exists {
        Ok(())
    } else {
        Err(joined3("Daemon is not running (socket not found: ", path, ")"))
    }
}

/// The error of a daemon that took too long.
pub fn daemon_timed_out() -> (r: String)
    ensures
        r@ == "Daemon did not respond within "@ + decimal(IPC_TIMEOUT_SECS as nat) + "s"@,
{
    joined3("Daemon did not respond within ", u64_to_text(IPC_TIMEOUT_SECS).as_str(), "s")
}

/// What a client asks of the daemon.
#[derive(Debug)]
pub enum ControlRequest {
    /// Read a key of the backend.
    Get { key: String },
    /// Set a key of the backend.
    SetKey { key: String, value: JsonValue },
    /// Run a named command.
    Exec { name: String },
    /// List the capabilities.
    Caps,
    /// List the commands.
    Commands,
    /// Tell the status of the daemon.
    Status,
    /// Stop the daemon.
    Stop,
}

pub enum ControlRequestView {
    Get { key: Seq<char> },
    SetKey { key: Seq<char>, value: JsonView },
    Exec { name: Seq<char> },
    Caps,
    Commands,
    Status,
    Stop,
}

impl View for ControlRequest {
    type V = ControlRequestView;

    open spec fn view(&self) -> ControlRequestView {
        match self {
            ControlRequest::Get { key } => ControlRequestView::Get { key: key@ },
            ControlRequest::SetKey { key, value } => ControlRequestView::SetKey {
                key: key@,
                value: value@,
            },
            ControlRequest::Exec { name } => ControlRequestView::Exec { name: name@ },
            ControlRequest::Caps => ControlRequestView::Caps,
            ControlRequest::Commands => ControlRequestView::Commands,
            ControlRequest::Status => ControlRequestView::Status,
            ControlRequest::Stop => ControlRequestView::Stop,
        }
    }
}

/// What the daemon answers.
#[derive(Debug)]
pub struct ControlResponse {
    /// Whether the request succeeded.
    pub success: bool,
    /// What was asked for.
    pub result: Option<JsonValue>,
    /// Why the request failed.
    pub error: Option<String>,
}

pub struct ControlResponseView {
    pub success: bool,
    pub result: Option<JsonView>,
    pub error: Option<Seq<char>>,
}

impl View for ControlResponse {
    type V = ControlResponseView;

    open spec fn view(&self) -> ControlResponseView {
        ControlResponseView {
            success: self.success,
            result: opt_json(self.result),
            error: opt_string(self.error),
        }
    }
}

/// The answer to a request that succeeded.
pub open spec fn answer(result: JsonView) -> ControlResponseView {
    ControlResponseView { success: true, result: Some(result), error: None }
}

/// The answer to a request that succeeded and has no result.
pub open spec fn empty_answer() -> ControlResponseView {
    ControlResponseView { success: true, result: None, error: None }
}

/// The answer to a request that failed.
pub open spec fn refusal(error: Seq<char>) -> ControlResponseView {
    ControlResponseView { success: false, result: None, error: Some(error) }
}

impl ControlResponse {
    /// The answer to a request that succeeded.
    pub fn ok(result: JsonValue) -> (r: ControlResponse)
        ensures
            r@ == answer(result@),
    {
        ControlResponse { success: true, result: Some(result), error: None }
    }

    /// The answer to a request that succeeded and has no result.
    pub fn ok_empty() -> (r: ControlResponse)
        ensures
            r@ == empty_answer(),
    {
        ControlResponse { success: true, result: None, error: None }
    }

    /// The answer to a request that failed.
    pub fn err(message: &str) -> (r: ControlResponse)
        ensures
            r@ == refusal(message@),
    {
        ControlResponse { success: false, result: None, error: Some(message.to_owned()) }
    }

    /// The response as a line.
    pub fn to_line(&self) -> (r: String)
        ensures
            r@ == control_response_text(self@) + "\n"@,
            crate::protocol::is_line(r@),
    {
        proof {
            reveal_strlit("{\"success\":true");
            reveal_strlit("{\"success\":false");
            reveal_strlit("result");
            reveal_strlit("error");
            reveal_strlit("}");
            reveal_strlit("");
        }
        let mut out = if self.success {
            "{\"success\":true".to_owned()
        } else {
            "{\"success\":false".to_owned()
        };
        match &self.result {
            Some(v) => {
                add_member(&mut out, "result", value_text(v).as_str());
            },
            None => {},
        }
        match &self.error {
            Some(e) => {
                add_member(&mut out, "error", value_text(&JsonValue::text(e.as_str())).as_str());
            },
            None => {},
        }
        proof {
            lemma_single_line_add(out@, "}"@);
        }
        out.append("}");
        assert(out@ =~= control_response_text(self@));
        frame(out.as_str())
    }
}

/// A response on the wire.
pub open spec fn control_response_text(r: ControlResponseView) -> Seq<char> {
    (if r.success {
        "{\"success\":true"@
    } else {
        "{\"success\":false"@
    }) + optional_member("result"@, r.result) + (match r.error {
        Some(e) => next_member("error"@, quoted(e)),
        None => ""@,
    }) + "}"@
}

/// A request on the wire.
pub open spec fn control_request_text(r: ControlRequestView) -> Seq<char> {
    match r {
        ControlRequestView::Get { key } => "{\"method\":\"get\""@ + next_member("key"@, quoted(key))
            + "}"@,
        ControlRequestView::SetKey { key, value } => "{\"method\":\"set\""@ + next_member(
            "key"@,
            quoted(key),
        ) + next_member("value"@, json_text(value)) + "}"@,
        ControlRequestView::Exec { name } => "{\"method\":\"exec\""@ + next_member(
            "name"@,
            quoted(name),
        ) + "}"@,
        ControlRequestView::Caps => "{\"method\":\"caps\"}"@,
        ControlRequestView::Commands => "{\"method\":\"commands\"}"@,
        ControlRequestView::Status => "{\"method\":\"status\"}"@,
        ControlRequestView::Stop => "{\"method\":\"stop\"}"@,
    }
}

fn quote(s: &str) -> (r: String)
    ensures
        r@ == quoted(s@),
        single_line(r@),
{
    value_text(&JsonValue::text(s))
}

impl ControlRequest {
    /// The request as a line.
    pub fn to_line(&self) -> (r: String)
        ensures
            r@ == control_request_text(self@) + "\n"@,
            crate::protocol::is_line(r@),
    {
        proof {
            reveal_strlit("{\"method\":\"get\"");
            reveal_strlit("{\"method\":\"set\"");
            reveal_strlit("{\"method\":\"exec\"");
            reveal_strlit("{\"method\":\"caps\"}");
            reveal_strlit("{\"method\":\"commands\"}");
            reveal_strlit("{\"method\":\"status\"}");
            reveal_strlit("{\"method\":\"stop\"}");
            reveal_strlit("key");
            reveal_strlit("value");
            reveal_strlit("name");
            reveal_strlit("}");
        }
        let mut out = String::new();
        match self {
            ControlRequest::Get { key } => {
                out.append("{\"method\":\"get\"");
                assert(out@ =~= "{\"method\":\"get\""@);
                add_member(&mut out, "key", quote(key.as_str()).as_str());
                proof {
                    lemma_single_line_add(out@, "}"@);
                }
                out.append("}");
            },
            ControlRequest::SetKey { key, value } => {
                out.append("{\"method\":\"set\"");
                assert(out@ =~= "{\"method\":\"set\""@);
                add_member(&mut out, "key", quote(key.as_str()).as_str());
                add_member(&mut out, "value", value_text(value).as_str());
                proof {
                    lemma_single_line_add(out@, "}"@);
                }
                out.append("}");
            },
            ControlRequest::Exec { name } => {
                out.append("{\"method\":\"exec\"");
                assert(out@ =~= "{\"method\":\"exec\""@);
                add_member(&mut out, "name", quote(name.as_str()).as_str());
                proof {
                    lemma_single_line_add(out@, "}"@);
                }
                out.append("}");
            },
            ControlRequest::Caps => {
                out.append("{\"method\":\"caps\"}");
            },
            ControlRequest::Commands => {
                out.append("{\"method\":\"commands\"}");
            },
            ControlRequest::Status => {
                out.append("{\"method\":\"status\"}");
            },
            ControlRequest::Stop => {
                out.append("{\"method\":\"stop\"}");
            },
        }
        assert(out@ =~= control_request_text(self@));
        frame(out.as_str())
    }

    /// Whether the daemon stops once the request is answered.
    pub fn stops_daemon(&self) -> (r: bool)
        ensures
            r == (self@ is Stop),
    {
        matches!(self, ControlRequest::Stop)
    }
}

/// The runtime directory is the one that the environment names. Where it names none it is
/// one of the user's own, unless what is there is a link or belongs to someone else.
pub proof fn runtime_directories_are_chosen(
    dir: Seq<char>,
    uid: u32,
    pid: u32,
    owner: u32,
    fallback: FallbackDir,
)
    ensures
        runtime_directory(Some(dir), uid, pid, fallback) == dir,
        runtime_directory(None, uid, pid, FallbackDir::Usable) == "/tmp/middlesox-"@ + decimal(
            uid as nat,
        ),
        runtime_directory(None, uid, pid, FallbackDir::Existing { is_symlink: false, owner: uid })
            == "/tmp/middlesox-"@ + decimal(uid as nat),
        runtime_directory(None, uid, pid, FallbackDir::Existing { is_symlink: true, owner })
            == "/run/middlesox-rejected-"@ + decimal(pid as nat),
        owner != uid ==> runtime_directory(
            None,
            uid,
            pid,
            FallbackDir::Existing { is_symlink: false, owner },
        ) == "/run/middlesox-rejected-"@ + decimal(pid as nat),
{
}

/// The lock and the socket lie in the runtime directory under different names.
pub proof fn lock_and_socket_lie_below(dir: Seq<char>)
    ensures
        lock_file(dir) == joined_path(dir, "middlesox.lock"@),
        socket_file(dir) == joined_path(dir, "middlesox.sock"@),
        lock_file(dir) != socket_file(dir),
{
    reveal_strlit("middlesox.lock");
    reveal_strlit("middlesox.sock");
    let (a, b) = (lock_file(dir), socket_file(dir));
    assert("middlesox.lock"@.len() == 14 && "middlesox.sock"@.len() == 14);
    assert("middlesox.lock"@[10] == 'l' && "middlesox.sock"@[10] == 's');
    assert("middlesox.lock"@[0] == 'm' && "middlesox.sock"@[0] == 'm');
    assert(a[a.len() - 4] == 'l' && b[b.len() - 4] == 's');
}

/// A process locks the file before it empties and writes it, and touches it only if it got
/// the lock.
pub proof fn the_lock_is_taken_first(path: Seq<char>, pid: u32, result: i32)
    ensures
        lock_step_for(path, pid, LockEvent::Opened) == LockStepView::TryLock,
        lock_step_for(path, pid, LockEvent::Tried(0)) == LockStepView::Empty,
        result != 0 ==> lock_step_for(path, pid, LockEvent::Tried(result)) == LockStepView::Refused(
            "Another instance is already running (lock file: "@ + path + ")"@,
        ),
        lock_step_for(path, pid, LockEvent::Emptied) == LockStepView::Write(
            decimal(pid as nat).push('\n'),
        ),
        lock_step_for(path, pid, LockEvent::Written) == LockStepView::Held,
{
    reveal_strlit("\n");
    assert("\n"@ =~= seq!['\n']);
    assert(pid_text(pid) =~= decimal(pid as nat).push('\n'));
}

/// A response succeeds with a result, succeeds without one, or fails for a reason.
pub proof fn responses_are_one_of_three(result: JsonView, error: Seq<char>)
    ensures
        answer(result).success && answer(result).result == Some(result)
            && answer(result).error is None,
        empty_answer().success && empty_answer().result is None && empty_answer().error is None,
        !refusal(error).success && refusal(error).result is None && refusal(error).error == Some(
            error,
        ),
{
}

/// A request is sent as an object with its method first, and then what it needs.
pub proof fn requests_are_written(key: Seq<char>, value: JsonView, name: Seq<char>)
    ensures
        control_request_text(ControlRequestView::Get { key }) == "{\"method\":\"get\",\"key\":"@
            + json_text(JsonView::Str(key)) + "}"@,
        control_request_text(ControlRequestView::SetKey { key, value })
            == "{\"method\":\"set\",\"key\":"@ + json_text(JsonView::Str(key)) + ",\"value\":"@
            + json_text(value) + "}"@,
        control_request_text(ControlRequestView::Exec { name })
            == "{\"method\":\"exec\",\"name\":"@ + json_text(JsonView::Str(name)) + "}"@,
        control_request_text(ControlRequestView::Caps) == "{\"method\":\"caps\"}"@,
        control_request_text(ControlRequestView::Commands) == "{\"method\":\"commands\"}"@,
        control_request_text(ControlRequestView::Status) == "{\"method\":\"status\"}"@,
        control_request_text(ControlRequestView::Stop) == "{\"method\":\"stop\"}"@,
{
    reveal_strlit(",\"");
    reveal_strlit("\":");
    reveal_strlit("key");
    reveal_strlit("value");
    reveal_strlit("name");
    reveal_strlit("{\"method\":\"get\"");
    reveal_strlit("{\"method\":\"set\"");
    reveal_strlit("{\"method\":\"exec\"");
    reveal_strlit("{\"method\":\"get\",\"key\":");
    reveal_strlit("{\"method\":\"set\",\"key\":");
    reveal_strlit("{\"method\":\"exec\",\"name\":");
    reveal_strlit(",\"value\":");
    assert("{\"method\":\"get\""@ + (",\""@ + "key"@ + "\":"@) =~= "{\"method\":\"get\",\"key\":"@);
    assert("{\"method\":\"set\""@ + (",\""@ + "key"@ + "\":"@) =~= "{\"method\":\"set\",\"key\":"@);
    assert("{\"method\":\"exec\""@ + (",\""@ + "name"@ + "\":"@)
        =~= "{\"method\":\"exec\",\"name\":"@);
    assert(",\""@ + "value"@ + "\":"@ =~= ",\"value\":"@);
    let (k, n, v) = (json_text(JsonView::Str(key)), json_text(JsonView::Str(name)),
        json_text(value));
    assert("{\"method\":\"get\""@ + (",\""@ + "key"@ + "\":"@ + k) + "}"@
        =~= "{\"method\":\"get\""@ + (",\""@ + "key"@ + "\":"@) + k + "}"@);
    assert("{\"method\":\"exec\""@ + (",\""@ + "name"@ + "\":"@ + n) + "}"@
        =~= "{\"method\":\"exec\""@ + (",\""@ + "name"@ + "\":"@) + n + "}"@);
    assert("{\"method\":\"set\""@ + (",\""@ + "key"@ + "\":"@ + k) + (",\""@ + "value"@ + "\":"@
        + v) + "}"@ =~= "{\"method\":\"set\""@ + (",\""@ + "key"@ + "\":"@) + k + (",\""@
        + "value"@ + "\":"@) + v + "}"@);
}

/// A response is sent as an object that says whether it succeeded, and its result and its
/// error where it has them.
pub proof fn responses_are_written(result: JsonView, error: Seq<char>)
    ensures
        control_response_text(
            ControlResponseView { success: true, result: Some(result), error: None },
        ) == "{\"success\":true,\"result\":"@ + json_text(result) + "}"@,
        control_response_text(ControlResponseView { success: true, result: None, error: None })
            == "{\"success\":true}"@,
        control_response_text(
            ControlResponseView { success: false, result: None, error: Some(error) },
        ) == "{\"success\":false,\"error\":"@ + json_text(JsonView::Str(error)) + "}"@,
{
    reveal_strlit(",\"");
    reveal_strlit("\":");
    reveal_strlit("result");
    reveal_strlit("error");
    reveal_strlit("{\"success\":true");
    reveal_strlit("{\"success\":false");
    reveal_strlit("{\"success\":true,\"result\":");
    reveal_strlit("{\"success\":true}");
    reveal_strlit("{\"success\":false,\"error\":");
    reveal_strlit("");
    reveal_strlit("}");
    assert("{\"success\":true"@ + (",\""@ + "result"@ + "\":"@)
        =~= "{\"success\":true,\"result\":"@);
    assert("{\"success\":false"@ + (",\""@ + "error"@ + "\":"@)
        =~= "{\"success\":false,\"error\":"@);
    let (r, e) = (json_text(result), json_text(JsonView::Str(error)));
    assert("{\"success\":true"@ + (",\""@ + "result"@ + "\":"@ + r) + ""@ + "}"@
        =~= "{\"success\":true"@ + (",\""@ + "result"@ + "\":"@) + r + "}"@);
    assert("{\"success\":true"@ + ""@ + ""@ + "}"@ =~= "{\"success\":true}"@);
    assert("{\"success\":false"@ + ""@ + (",\""@ + "error"@ + "\":"@ + e) + "}"@
        =~= "{\"success\":false"@ + (",\""@ + "error"@ + "\":"@) + e + "}"@);
}

/// The lock is obtained exactly if the attempt returned 0, and then no daemon runs. A lock
/// file that is not there is held by none.
pub proof fn attempts_tell_of_the_lock(
    path: &str,
    result: i32,
    outcome: Result<(), String>,
    held: bool,
    none: bool,
)
    requires
        call_ensures(lock_outcome, (path, result), outcome),
        call_ensures(lock_is_held, (Some(result),), held),
        call_ensures(lock_is_held, (None::<i32>,), none),
    ensures
        outcome is Ok <==> result == 0,
        outcome matches Err(e) ==> e@ == "Another instance is already running (lock file: "@ + path@
            + ")"@,
        held <==> outcome is Err,
        !none,
{
}

/// The control socket is bound where nothing is, or in place of what is there. A link is
/// never replaced, and neither is what cannot be looked at.
pub proof fn links_are_not_replaced(
    path: &str,
    reason: String,
    missing: Result<ListenerStep, String>,
    other: Result<ListenerStep, String>,
    link: Result<ListenerStep, String>,
    unreadable: Result<ListenerStep, String>,
)
    requires
        call_ensures(listener_step, (path, &SocketEntry::Missing), missing),
        call_ensures(listener_step, (path, &SocketEntry::Other), other),
        call_ensures(listener_step, (path, &SocketEntry::Symlink), link),
        call_ensures(listener_step, (path, &SocketEntry::Unreadable(reason)), unreadable),
    ensures
        missing == Ok::<ListenerStep, String>(ListenerStep::Bind),
        other == Ok::<ListenerStep, String>(ListenerStep::RemoveAndBind),
        link matches Err(e) && e@ == "Refusing to replace symlink at socket path: "@ + path@,
        unreadable matches Err(e) && e@ == "Failed to check socket path "@ + path@ + ": "@
            + reason@,
{
}

/// A client connects only where there is a socket.
pub proof fn clients_need_a_socket(path: &str, there: Result<(), String>, gone: Result<(), String>)
    requires
        call_ensures(connect_check, (path, true), there),
        call_ensures(connect_check, (path, false), gone),
    ensures
        there is Ok,
        gone matches Err(e) && e@ == "Daemon is not running (socket not found: "@ + path@ + ")"@,
{
}

/// A client waits half a minute for the daemon, and is then told so.
pub proof fn clients_do_not_wait_forever(r: String)
    requires
        call_ensures(daemon_timed_out, (), r),
    ensures
        r@ == "Daemon did not respond within "@ + decimal(30) + "s"@,
{
}

} // verus!
