//! Log-viewing requests and the file-tailing cursor.
use vstd::prelude::*;

use crate::auth::middleware::AuthUser;
use crate::collectors::docker::{container_id_ok, validate_id};
use crate::collectors::systemd::{unit_name_ok, validate_unit};
use crate::db::audit::AuditWrite;
use crate::error::AppError;
use crate::text::{chars_of, is_ascii_alnum, is_ascii_alnum_exec, is_ws, push_str};

verus! {

/// The characters a PM2 process name may hold.
pub open spec fn pm2_name_char(c: char) -> bool {
    is_ascii_alnum(c) || c == '.' || c == '_' || c == '-'
}

/// A PM2 process name that may be looked up: 1 to 128 characters, each an
/// ASCII letter or digit, `.`, `_` or `-`.
pub open spec fn pm2_name_ok(s: Seq<char>) -> bool {
    &&& 1 <= s.len() <= 128
    &&& forall|i: int| 0 <= i < s.len() ==> pm2_name_char(#[trigger] s[i])
}

/// Whether `name` is an acceptable PM2 process name.
pub fn validate_pm2_name(name: &str) -> (r: bool)
    ensures
        r == pm2_name_ok(name@),
{
    let cs = chars_of(name);
    if cs.len() == 0 || cs.len() > 128 {
        return false;
    }
    for i in 0..cs.len()
        invariant
            cs@ == name@,
            forall|j: int| 0 <= j < i ==> pm2_name_char(#[trigger] cs@[j]),
    {
        let c = cs[i];
        if !(is_ascii_alnum_exec(c) || c == '.' || c == '_' || c == '-') {
            return false;
        }
    }
    true
}

/// `prefix` followed by `name`.
pub fn log_target(prefix: &str, name: &str) -> (r: String)
    ensures
        r@ == prefix@ + name@,
{
    let mut s = String::new();
    push_str(&mut s, prefix);
    push_str(&mut s, name);
    assert(Seq::<char>::empty() + prefix@ =~= prefix@);
    s
}

/// A `BadRequest` with the given text.
fn bad_request(msg: &str) -> (e: AppError)
    ensures
        e matches AppError::BadRequest(m) && m@ == msg@,
{
    AppError::BadRequest(String::from_str(msg))
}

/// Checks a PM2 log request: the name must be acceptable, the app must exist
/// (`found` is `None` otherwise) and have an output log (`found` holds it).
/// Returns the path of the log to tail.
pub fn pm2_log_request(name: &str, found: Option<Option<String>>) -> (r: Result<String, AppError>)
    ensures
        !pm2_name_ok(name@) ==> (r matches Err(AppError::BadRequest(m)) && m@
            == "invalid pm2 name"@),
        pm2_name_ok(name@) ==> match found {
            None => r matches Err(AppError::NotFound),
            Some(None) => r matches Err(AppError::BadRequest(m)) && m@
                == "pm2 app has no out_log_path; check pm2 describe"@,
            Some(Some(p)) => r == Ok::<String, AppError>(p),
        },
{
    if !validate_pm2_name(name) {
        return Err(bad_request("invalid pm2 name"));
    }
    match found {
        None => Err(AppError::NotFound),
        Some(None) => Err(bad_request("pm2 app has no out_log_path; check pm2 describe")),
        Some(Some(p)) => Ok(p),
    }
}

/// Checks a container log request: the id must be safe and Docker reachable.
pub fn docker_log_request(id: &str, docker_available: bool) -> (r: Result<(), AppError>)
    ensures
        !container_id_ok(id@) ==> (r matches Err(AppError::BadRequest(m)) && m@
            == "invalid container id"@),
        container_id_ok(id@) && !docker_available ==> (r matches Err(AppError::BadRequest(m))
            && m@ == "docker not available"@),
        r is Ok <==> container_id_ok(id@) && docker_available,
{
    if !validate_id(id) {
        return Err(bad_request("invalid container id"));
    }
    if !docker_available {
        return Err(bad_request("docker not available"));
    }
    Ok(())
}

/// Checks a journal request: the unit name must pass the allow-list.
pub fn journal_log_request(unit: &str) -> (r: Result<(), AppError>)
    ensures
        r is Ok <==> unit_name_ok(unit@),
        r matches Err(e) ==> (e matches AppError::BadRequest(m) && m@ == "invalid unit name"@),
{
    if !validate_unit(unit) {
        return Err(bad_request("invalid unit name"));
    }
    Ok(())
}

/// The argument vector of the `journalctl` follower for `unit`: the unit is
/// one argument of its own, right after `-fu`, never spliced into another.
pub fn journalctl_args(unit: &str) -> (args: Vec<String>)
    ensures
        args@.len() == 6,
        args@[0]@ == "-fu"@,
        args@[1]@ == unit@,
        args@[2]@ == "--no-pager"@,
        args@[3]@ == "--output=short-iso"@,
        args@[4]@ == "-n"@,
        args@[5]@ == "200"@,
{
    let mut args: Vec<String> = Vec::new();
    args.push(String::from_str("-fu"));
    args.push(String::from_str(unit));
    args.push(String::from_str("--no-pager"));
    args.push(String::from_str("--output=short-iso"));
    args.push(String::from_str("-n"));
    args.push(String::from_str("200"));
    args
}

/// The audit record of a log view of `target` by `user`.
pub fn view_logs_audit<'a>(user: &'a AuthUser, target: &'a str) -> (w: AuditWrite<'a>)
    ensures
        w.user_id == Some(user.user_id),
        w.username matches Some(n) && n@ == user.username@,
        match user.ip {
            Some(i) => w.ip matches Some(j) && j@ == i@,
            None => w.ip is None,
        },
        w.action@ == "view_logs"@,
        w.target matches Some(t) && t@ == target@,
        w.detail is None,
{
    let ip = match &user.ip {
        Some(i) => Some(i.as_str()),
        None => None,
    };
    AuditWrite {
        user_id: Some(user.user_id),
        username: Some(user.username.as_str()),
        ip,
        action: "view_logs",
        target: Some(target),
        detail: None,
    }
}

/// How much of an existing log is sent when tailing starts.
pub const TAIL_INITIAL_BYTES: u64 = 8192;

/// The most that one poll of a growing log reads.
pub const TAIL_MAX_CHUNK: u64 = 1048576;

/// Where the first read of a log of `len` bytes starts: the last
/// `TAIL_INITIAL_BYTES` bytes (all of a shorter log).
pub fn tail_start(len: u64) -> (r: u64)
    ensures
        r == if len >= TAIL_INITIAL_BYTES {
            len - TAIL_INITIAL_BYTES
        } else {
            0
        },
{
    if len >= TAIL_INITIAL_BYTES {
        len - TAIL_INITIAL_BYTES
    } else {
        0
    }
}

/// A read to make from a log: `len` bytes from offset `from`.
#[derive(Clone, Copy, Debug, PartialEq, Eq, Structural)]
pub struct TailRead {
    pub from: u64,
    pub len: u64,
}

/// How far a tailed log has been sent.
pub struct TailCursor {
    pub pos: u64,
}

/// The position after a poll that found the log `new_len` bytes long: back to
/// the start if the log shrank (it was truncated or rotated).
pub open spec fn spec_poll_pos(pos: u64, new_len: u64) -> u64 {
    if new_len < pos {
        0
    } else {
        pos
    }
}

/// The read a poll plans: what the log holds past the position, at most
/// `TAIL_MAX_CHUNK` bytes, or nothing.
pub open spec fn spec_poll_read(pos: u64, new_len: u64) -> Option<TailRead> {
    let p = spec_poll_pos(pos, new_len);
    if new_len > p {
        Some(
            TailRead {
                from: p,
                len: if new_len - p <= TAIL_MAX_CHUNK {
                    (new_len - p) as u64
                } else {
                    TAIL_MAX_CHUNK
                },
            },
        )
    } else {
        None
    }
}

impl TailCursor {
    /// The cursor after the initial read of a log that was `len` bytes long.
    pub fn new(len: u64) -> (c: TailCursor)
        ensures
            c.pos == len,
    {
        TailCursor { pos: len }
    }

    /// One poll of the log, found `new_len` bytes long: resets the position
    /// if the log shrank, and says what to read next.
    pub fn poll(&mut self, new_len: u64) -> (r: Option<TailRead>)
        ensures
            final(self).pos == spec_poll_pos(old(self).pos, new_len),
            r == spec_poll_read(old(self).pos, new_len),
    {
        if new_len < self.pos {
            self.pos = 0;
        }
        if new_len > self.pos {
            let avail = new_len - self.pos;
            let len = if avail <= TAIL_MAX_CHUNK {
                avail
            } else {
                TAIL_MAX_CHUNK
            };
            Some(TailRead { from: self.pos, len })
        } else {
            None
        }
    }

    /// Moves past the `n` bytes that the read `read` delivered.
    pub fn advance(&mut self, read: TailRead, n: u64)
        requires
            old(self).pos == read.from,
            n <= read.len,
            read.from + read.len <= u64::MAX,
        ensures
            final(self).pos == old(self).pos + n,
    {
        self.pos = self.pos + n;
    }
}

/// A poll never plans to read past the end of the log nor more than
/// `TAIL_MAX_CHUNK` bytes, and after the read the position stays within the
/// log as it was seen: nothing is sent twice unless the log shrank.
pub proof fn lemma_poll_stays_in_log(pos: u64, new_len: u64, n: u64)
    ensures
        spec_poll_pos(pos, new_len) <= new_len || spec_poll_read(pos, new_len) is None,
        spec_poll_read(pos, new_len) matches Some(rd) ==> {
            &&& rd.from == spec_poll_pos(pos, new_len)
            &&& 0 < rd.len <= TAIL_MAX_CHUNK
            &&& rd.from + rd.len <= new_len
            &&& (n <= rd.len ==> rd.from + n <= new_len)
        },
        new_len < pos ==> spec_poll_pos(pos, new_len) == 0,
        pos <= new_len ==> spec_poll_pos(pos, new_len) == pos,
{
}


/// What a poll reads, in terms of the position reached and the log's new
/// length alone: a log that grew past the position is read from there; a log
/// that shrank below it (rotated or truncated) is read again from its start;
/// each read takes everything new up to `TAIL_MAX_CHUNK` bytes. Only when
/// nothing lies past the (reset) position is there nothing to read, so new
/// text is never left unread, also in a log that was empty when tailing began.
pub proof fn lemma_poll_reads_what_is_new(pos: u64, new_len: u64)
    ensures
        pos < new_len ==> (spec_poll_read(pos, new_len) matches Some(rd) && rd.from == pos && rd.len
            == (if new_len - pos <= TAIL_MAX_CHUNK {
            new_len - pos
        } else {
            TAIL_MAX_CHUNK as int
        })),
        0 < new_len < pos ==> (spec_poll_read(pos, new_len) matches Some(rd) && rd.from == 0 && rd.len
            == (if new_len <= TAIL_MAX_CHUNK {
            new_len
        } else {
            TAIL_MAX_CHUNK
        })),
        new_len == pos || new_len == 0 ==> spec_poll_read(pos, new_len) is None,
{
}

/// Characters that could carry a second argument, a shell command or a path
/// into a command line: whitespace, `/`, `\`, `;`, `&`, `|`, `$`, quotes,
/// backquote, `<`, `>`, parentheses, `*`, `?` and `~`.
pub open spec fn dangerous_char(c: char) -> bool {
    is_ws(c) || c == '/' || c == '\\' || c == ';' || c == '&' || c == '|' || c == '$' || c == '\''
        || c == '"' || c == '`' || c == '<' || c == '>' || c == '(' || c == ')' || c == '*' || c
        == '?' || c == '~'
}

/// No name that a log request accepts (PM2 name, container id or unit name)
/// holds a character that could reach beyond the one argument it is passed as.
pub proof fn lemma_accepted_names_are_inert(s: Seq<char>, i: int)
    requires
        0 <= i < s.len(),
        pm2_name_ok(s) || container_id_ok(s) || unit_name_ok(s),
    ensures
        !dangerous_char(s[i]),
{
    if pm2_name_ok(s) {
        assert(pm2_name_char(s[i]));
    } else if container_id_ok(s) {
        assert(crate::collectors::docker::container_id_char(s[i]));
    } else {
        assert(crate::collectors::systemd::unit_char(s[i]));
    }
}


/// What the Docker log stream is asked for: new lines as they come, both
/// standard output and standard error, without timestamps, starting with the
/// last `tail` lines.
pub struct DockerLogOptions {
    pub follow: bool,
    pub stdout: bool,
    pub stderr: bool,
    pub timestamps: bool,
    pub tail: String,
}

/// The options of a container's log stream: follow it, both streams, no
/// timestamps, the last 200 lines first.
pub fn docker_log_options() -> (o: DockerLogOptions)
    ensures
        o.follow,
        o.stdout,
        o.stderr,
        !o.timestamps,
        o.tail@ == "200"@,
{
    DockerLogOptions {
        follow: true,
        stdout: true,
        stderr: true,
        timestamps: false,
        tail: String::from_str("200"),
    }
}

/// What happens next while log text is relayed to a client's socket.
#[derive(Debug)]
pub enum RelayEvent {
    /// Log text from the source, decoded.
    Data(String),
    /// The source has nothing more to give.
    SourceEnd,
    /// The source could not be opened this time (a log file that is missing
    /// for now).
    SourceUnavailable,
    /// Reading the source failed; the text describes the error.
    SourceError(String),
    /// The client closed the socket, it ended, or it failed.
    ClientGone,
    /// Any other message from the client.
    ClientOther,
    /// Sending to the client failed.
    SendFailed,
}

/// What the relay does about an event.
#[derive(Debug)]
pub enum RelayAction {
    /// Send this text to the client and go on.
    Send(String),
    /// Send this text to the client, then end the relay.
    SendThenStop(String),
    /// Wait for the next event.
    Continue,
    /// End the relay.
    Stop,
    /// End the relay with the source's error.
    Fail,
}

/// The relay of a container's log stream: chunks are sent as they are (empty
/// ones skipped); a stream error is reported to the client as
/// `"\n[stream error] <error>\n"` and ends the relay; the end of the stream,
/// the client leaving or a failed send end it too.
pub fn docker_log_step(ev: RelayEvent) -> (a: RelayAction)
    ensures
        match ev {
            RelayEvent::Data(t) => if t@.len() == 0 {
                a is Continue
            } else {
                a matches RelayAction::Send(s) && s@ == t@
            },
            RelayEvent::SourceError(e) => a matches RelayAction::SendThenStop(m) && m@ == "\n[stream error] "@
                + e@ + "\n"@,
            RelayEvent::SourceEnd => a is Stop,
            RelayEvent::ClientGone => a is Stop,
            RelayEvent::SendFailed => a is Stop,
            RelayEvent::SourceUnavailable => a is Continue,
            RelayEvent::ClientOther => a is Continue,
        },
{
    match ev {
        RelayEvent::Data(t) => if t.as_str().is_empty() {
            RelayAction::Continue
        } else {
            RelayAction::Send(t)
        },
        RelayEvent::SourceError(e) => {
            let mut m = String::new();
            push_str(&mut m, "\n[stream error] ");
            push_str(&mut m, e.as_str());
            push_str(&mut m, "\n");
            RelayAction::SendThenStop(m)
        },
        RelayEvent::SourceEnd => RelayAction::Stop,
        RelayEvent::ClientGone => RelayAction::Stop,
        RelayEvent::SendFailed => RelayAction::Stop,
        RelayEvent::SourceUnavailable => RelayAction::Continue,
        RelayEvent::ClientOther => RelayAction::Continue,
    }
}

/// The relay of a unit's journal: each line is sent with its newline; the
/// end of the journal, the client leaving or a failed send end the relay, and
/// a read error ends it with that error.
pub fn journal_log_step(ev: RelayEvent) -> (a: RelayAction)
    ensures
        match ev {
            RelayEvent::Data(l) => a matches RelayAction::Send(s) && s@ == l@ + "\n"@,
            RelayEvent::SourceError(_) => a is Fail,
            RelayEvent::SourceEnd => a is Stop,
            RelayEvent::ClientGone => a is Stop,
            RelayEvent::SendFailed => a is Stop,
            RelayEvent::SourceUnavailable => a is Continue,
            RelayEvent::ClientOther => a is Continue,
        },
{
    match ev {
        RelayEvent::Data(l) => {
            let mut s = String::new();
            push_str(&mut s, l.as_str());
            push_str(&mut s, "\n");
            RelayAction::Send(s)
        },
        RelayEvent::SourceError(_) => RelayAction::Fail,
        RelayEvent::SourceEnd => RelayAction::Stop,
        RelayEvent::ClientGone => RelayAction::Stop,
        RelayEvent::SendFailed => RelayAction::Stop,
        RelayEvent::SourceUnavailable => RelayAction::Continue,
        RelayEvent::ClientOther => RelayAction::Continue,
    }
}

/// The relay of a tailed log file: new text is sent as it is (empty reads
/// skipped); a file that cannot be opened, or has nothing new, is polled again
/// later; a read error ends the relay with that error; the client leaving or
/// a failed send end it.
pub fn file_tail_step(ev: RelayEvent) -> (a: RelayAction)
    ensures
        match ev {
            RelayEvent::Data(t) => if t@.len() == 0 {
                a is Continue
            } else {
                a matches RelayAction::Send(s) && s@ == t@
            },
            RelayEvent::SourceError(_) => a is Fail,
            RelayEvent::SourceEnd => a is Continue,
            RelayEvent::SourceUnavailable => a is Continue,
            RelayEvent::ClientGone => a is Stop,
            RelayEvent::SendFailed => a is Stop,
            RelayEvent::ClientOther => a is Continue,
        },
{
    match ev {
        RelayEvent::Data(t) => if t.as_str().is_empty() {
            RelayAction::Continue
        } else {
            RelayAction::Send(t)
        },
        RelayEvent::SourceError(_) => RelayAction::Fail,
        RelayEvent::SourceEnd => RelayAction::Continue,
        RelayEvent::SourceUnavailable => RelayAction::Continue,
        RelayEvent::ClientGone => RelayAction::Stop,
        RelayEvent::SendFailed => RelayAction::Stop,
        RelayEvent::ClientOther => RelayAction::Continue,
    }
}

} // verus!
