//! The control socket: who may reach it, and how requests are framed.
//!
//! Requests are lines of bounded length. A line that is too long, or that is
//! no request, is answered with an error.

use vstd::prelude::*;
use vstd::string::*;
use crate::paths::{
    before_slash, is_slashed, lemma_slashed_prefix, may_be_parent, may_be_same, parent_of,
    parent_path, parts_at, path_of, same_path, PathModel,
};
use crate::text::{
    chars_of, concat2, concat3, decimal, from_utf8, octal, opt_text, show, show_octal, trim,
    trimmed, utf8_text, Text,
};
use crate::wire::{Response, ResponseModel};

verus! {

/// The longest line that is taken for a request, in bytes.
pub const MAX_REQUEST_BYTES: usize = 65536;

// ---------------------------------------------------------------------------
// Framing
// ---------------------------------------------------------------------------

/// What reading a line has come to.
#[derive(Debug, Clone, Copy, PartialEq, Eq, Structural)]
pub enum LineRead {
    /// More bytes are needed.
    More,
    /// The buffer holds a line.
    Line,
    /// The stream ended, and no line is pending.
    Eof,
    /// The line is longer than allowed.
    TooLong,
}

/// The position of the first line feed, or the length.
pub open spec fn line_end(bytes: Seq<u8>) -> int
    decreases bytes.len(),
{
    if bytes.len() == 0 {
        0
    } else if bytes[0] == 10u8 {
        0
    } else {
        1 + line_end(bytes.drop_first())
    }
}

/// What the next bytes of the stream make of the line in the buffer; none
/// means that the stream ended.
pub open spec fn fed(buffer: Seq<u8>, available: Seq<u8>, max: int) -> (LineRead, Seq<u8>) {
    let end = line_end(available);
    if available.len() == 0 {
        (
            if buffer.len() == 0 {
                LineRead::Eof
            } else {
                LineRead::Line
            },
            buffer,
        )
    } else if end < available.len() {
        if buffer.len() + end + 1 > max {
            (LineRead::TooLong, buffer)
        } else {
            (LineRead::Line, buffer + available.take(end + 1))
        }
    } else if buffer.len() + available.len() > max {
        (LineRead::TooLong, buffer + available)
    } else {
        (LineRead::More, buffer + available)
    }
}

proof fn lemma_line_end(bytes: Seq<u8>, n: int)
    requires
        0 <= n <= bytes.len(),
        forall|k: int| 0 <= k < n ==> bytes[k] != 10u8,
    ensures
        line_end(bytes) == n + line_end(bytes.skip(n)),
        n < bytes.len() && bytes[n] == 10u8 ==> line_end(bytes) == n,
        n == bytes.len() ==> line_end(bytes) == n,
    decreases n,
{
    if n == 0 {
        assert(bytes.skip(0) =~= bytes);
    } else {
        let rest = bytes.drop_first();
        assert forall|k: int| 0 <= k < n - 1 implies rest[k] != 10u8 by {
            assert(rest[k] == bytes[k + 1]);
        }
        lemma_line_end(rest, n - 1);
        assert(rest.skip(n - 1) =~= bytes.skip(n));
    }
}

proof fn lemma_line_end_bounds(bytes: Seq<u8>)
    ensures
        0 <= line_end(bytes) <= bytes.len(),
        line_end(bytes) < bytes.len() ==> bytes[line_end(bytes)] == 10u8,
        forall|k: int| 0 <= k < line_end(bytes) ==> bytes[k] != 10u8,
    decreases bytes.len(),
{
    if bytes.len() > 0 && bytes[0] != 10u8 {
        let rest = bytes.drop_first();
        lemma_line_end_bounds(rest);
        assert forall|k: int| 0 <= k < line_end(bytes) implies bytes[k] != 10u8 by {
            if k > 0 {
                assert(bytes[k] == rest[k - 1]);
            }
        }
    }
}

fn append_bytes(buffer: &mut Vec<u8>, available: &Vec<u8>, n: usize)
    requires
        n <= available.len(),
    ensures
        final(buffer)@ == old(buffer)@ + available@.take(n as int),
{
    let ghost before = buffer@;
    let mut i: usize = 0;
    proof {
        assert(before + available@.take(0) =~= before);
    }
    while i < n
        invariant
            i <= n <= available.len(),
            buffer@ == before + available@.take(i as int),
        decreases n - i,
    {
        buffer.push(available[i]);
        proof {
            assert(before + available@.take(i + 1) =~= (before + available@.take(i as int)).push(
                available@[i as int],
            ));
        }
        i += 1;
    }
}

/// Take the next bytes of the stream. Returns what they make of the line in
/// the buffer, and how many of them were used. The cap holds wherever the
/// line is cut into chunks.
pub fn read_line_capped(buffer: &mut Vec<u8>, available: &Vec<u8>, max: usize) -> (r: (
    LineRead,
    usize,
))
    ensures
        (r.0, final(buffer)@) == fed(old(buffer)@, available@, max as int),
        r.1 == final(buffer)@.len() - old(buffer)@.len(),
{
    if available.len() == 0 {
        return if buffer.len() == 0 {
            (LineRead::Eof, 0)
        } else {
            (LineRead::Line, 0)
        };
    }
    let mut end: usize = 0;
    while end < available.len() && available[end] != 10
        invariant
            end <= available.len(),
            forall|k: int| 0 <= k < end ==> available@[k] != 10u8,
        decreases available.len() - end,
    {
        end += 1;
    }
    proof {
        lemma_line_end(available@, end as int);
    }
    let held: usize = buffer.len();
    if end < available.len() {
        if end >= max || held > max - (end + 1) {
            return (LineRead::TooLong, 0);
        }
        append_bytes(buffer, available, end + 1);
        (LineRead::Line, end + 1)
    } else {
        let all: usize = available.len();
        append_bytes(buffer, available, all);
        assert(available@.take(all as int) =~= available@);
        if held > max || all > max - held {
            (LineRead::TooLong, all)
        } else {
            (LineRead::More, all)
        }
    }
}

/// Where a line is cut into chunks does not matter: taking `a`, which holds no
/// line feed and does not end the line, and then `b` comes to the same as
/// taking both at once.
pub proof fn law_chunks_do_not_matter(buffer: Seq<u8>, a: Seq<u8>, b: Seq<u8>, max: int)
    requires
        fed(buffer, a, max).0 == LineRead::More,
        b.len() > 0,
    ensures
        ({
            let first = fed(buffer, a, max).1;
            let split = fed(first, b, max);
            let whole = fed(buffer, a + b, max);
            &&& split.0 == whole.0
            &&& split.0 != LineRead::TooLong ==> split.1 == whole.1
        }),
{
    lemma_line_end_bounds(a);
    lemma_line_end_bounds(b);
    let ab = a + b;
    assert forall|k: int| 0 <= k < a.len() implies ab[k] != 10u8 by {
        assert(ab[k] == a[k]);
    }
    lemma_line_end(ab, a.len() as int);
    assert(ab.skip(a.len() as int) =~= b);
    let first = buffer + a;
    let end = line_end(b);
    assert(first + b =~= buffer + ab);
    if end < b.len() {
        assert(first + b.take(end + 1) =~= buffer + ab.take(a.len() + end + 1));
    }
}

/// A line that is read is never longer than the cap, and holds at most one
/// line feed, at its end.
pub proof fn law_lines_are_capped(buffer: Seq<u8>, available: Seq<u8>, max: int)
    requires
        buffer.len() <= max,
        forall|k: int| 0 <= k < buffer.len() ==> buffer[k] != 10u8,
    ensures
        ({
            let (read, line) = fed(buffer, available, max);
            read == LineRead::Line ==> line.len() <= max && forall|k: int|
                0 <= k < line.len() - 1 ==> line[k] != 10u8
        }),
{
    lemma_line_end_bounds(available);
    let (read, line) = fed(buffer, available, max);
    let end = line_end(available);
    if read == LineRead::Line && available.len() > 0 {
        assert forall|k: int| 0 <= k < line.len() - 1 implies line[k] != 10u8 by {
            if k >= buffer.len() {
                assert(line[k] == available[k - buffer.len()]);
            }
        }
    }
}

// ---------------------------------------------------------------------------
// Requests
// ---------------------------------------------------------------------------

/// What to do about a line.
#[derive(Debug, PartialEq, Eq)]
pub enum LineAction {
    /// Close the connection.
    Close,
    /// Read the next line.
    Skip,
    /// Reply, and read the next line.
    Reply(Response),
    /// Reply, and close the connection.
    ReplyAndClose(Response),
    /// Take it for a request.
    Process(String),
}

/// The value of a [`LineAction`].
pub enum LineActionModel {
    Close,
    Skip,
    Reply(ResponseModel),
    ReplyAndClose(ResponseModel),
    Process(Text),
}

impl View for LineAction {
    type V = LineActionModel;

    open spec fn view(&self) -> LineActionModel {
        match self {
            LineAction::Close => LineActionModel::Close,
            LineAction::Skip => LineActionModel::Skip,
            LineAction::Reply(r) => LineActionModel::Reply(r@),
            LineAction::ReplyAndClose(r) => LineActionModel::ReplyAndClose(r@),
            LineAction::Process(s) => LineActionModel::Process(s@),
        }
    }
}

/// What to do once reading has come to `read`, with these bytes for a line.
pub open spec fn line_action(read: LineRead, line: Seq<u8>) -> LineActionModel {
    match read {
        LineRead::More => LineActionModel::Skip,
        LineRead::Eof => LineActionModel::Close,
        LineRead::TooLong => LineActionModel::ReplyAndClose(
            ResponseModel::Error("request exceeds maximum length"@),
        ),
        LineRead::Line => match utf8_text(line) {
            None => LineActionModel::Reply(
                ResponseModel::Error("malformed request: not valid UTF-8"@),
            ),
            Some(text) => if trimmed(text).len() == 0 {
                LineActionModel::Skip
            } else {
                LineActionModel::Process(text)
            },
        },
    }
}

/// What to do once reading has come to `read`, with these bytes for a line.
/// Past a line that is too long the stream is out of step, so the
/// connection is closed, but not without an answer.
pub fn on_line(read: LineRead, line: &Vec<u8>) -> (r: LineAction)
    ensures
        r@ == match read {
            LineRead::More => LineActionModel::Skip,
            LineRead::Eof => LineActionModel::Close,
            LineRead::TooLong => LineActionModel::ReplyAndClose(
                ResponseModel::Error("request exceeds maximum length"@),
            ),
            LineRead::Line => match utf8_text(line@) {
                None => LineActionModel::Reply(
                    ResponseModel::Error("malformed request: not valid UTF-8"@),
                ),
                Some(line) => if trimmed(line).len() == 0 {
                    LineActionModel::Skip
                } else {
                    LineActionModel::Process(line)
                },
            },
        },
        r@ == line_action(read, line@),
{
    match read {
        LineRead::More => LineAction::Skip,
        LineRead::Eof => LineAction::Close,
        LineRead::TooLong => LineAction::ReplyAndClose(
            Response::Error("request exceeds maximum length".to_owned()),
        ),
        LineRead::Line => match from_utf8(line) {
            None => LineAction::Reply(
                Response::Error("malformed request: not valid UTF-8".to_owned()),
            ),
            Some(line) => if trim(line.as_str()).is_empty() {
                LineAction::Skip
            } else {
                LineAction::Process(line)
            },
        },
    }
}

/// The reply to a request that cannot be decoded.
pub fn malformed(e: &str) -> (r: Response)
    ensures
        r@ == ResponseModel::Error("malformed request: "@ + e@),
{
    Response::Error(concat2("malformed request: ", e))
}

/// The reply to a request of another protocol version, or of none.
pub open spec fn version_reply(prefix: Text, ours: u32, version: Result<u32, Text>) -> Option<
    ResponseModel,
> {
    match version {
        Ok(theirs) => if theirs == ours {
            None
        } else {
            Some(
                ResponseModel::Error(
                    prefix + ": daemon speaks "@ + decimal(ours as nat) + ", client speaks "@
                        + decimal(theirs as nat)
                        + " — update splitway so the daemon and client run the same protocol version"@,
                ),
            )
        },
        Err(e) => Some(ResponseModel::Error("malformed request: "@ + e)),
    }
}

/// The reply to a request of another protocol version, or of none; `None` if
/// the version is ours and the request is to be decoded. The version is
/// looked at first, so that a newer client is told to update and not that
/// its request is unknown.
pub fn check_version(prefix: &str, ours: u32, version: Result<u32, String>) -> (r: Option<Response>)
    ensures
        match r {
            None => version is Ok && version->Ok_0 == ours,
            Some(reply) => match version {
                Ok(theirs) => theirs != ours && reply@ == ResponseModel::Error(
                    prefix@ + ": daemon speaks "@ + decimal(ours as nat) + ", client speaks "@
                        + decimal(theirs as nat)
                        + " — update splitway so the daemon and client run the same protocol version"@,
                ),
                Err(e) => reply@ == ResponseModel::Error("malformed request: "@ + e@),
            },
        },
        version_reply(
            prefix@,
            ours,
            match version {
                Ok(theirs) => Ok(theirs),
                Err(e) => Err(e@),
            },
        ) == match r {
            Some(reply) => Some(reply@),
            None => None,
        },
{
    match version {
        Err(e) => Some(malformed(e.as_str())),
        Ok(theirs) => {
            if theirs == ours {
                return None;
            }
            let mut message = concat2(prefix, ": daemon speaks ");
            message.append(show(ours as usize).as_str());
            message.append(", client speaks ");
            message.append(show(theirs as usize).as_str());
            message.append(
                " — update splitway so the daemon and client run the same protocol version",
            );
            Some(Response::Error(message))
        },
    }
}

/// The reply to a request, given how handing it to the state owner went: its
/// answer; `None` if it dropped the request; an error if it is gone.
pub fn answered(outcome: Result<Option<Response>, ()>) -> (r: Response)
    ensures
        r@ == match outcome {
            Ok(Some(reply)) => reply@,
            Ok(None) => ResponseModel::Error("daemon dropped the request"@),
            Err(_) => ResponseModel::Error("daemon state task is not running"@),
        },
{
    match outcome {
        Ok(Some(reply)) => reply,
        Ok(None) => Response::Error("daemon dropped the request".to_owned()),
        Err(_) => Response::Error("daemon state task is not running".to_owned()),
    }
}

// ---------------------------------------------------------------------------
// Binding
// ---------------------------------------------------------------------------

/// Why binding was refused.
#[derive(Debug, Clone, Copy, PartialEq, Eq, Structural)]
pub enum RefusalKind {
    PermissionDenied,
    AddressInUse,
    Other,
}

/// What stands at the socket's path.
#[derive(Debug, PartialEq, Eq)]
pub enum SocketProbe {
    /// Nothing.
    Absent,
    /// A socket someone listens on.
    Live,
    /// A socket no one listens on.
    Dead,
    /// Nothing any more.
    Vanished,
    /// It cannot be told.
    Failed(String),
}

/// What binding the socket does next.
#[derive(Debug, PartialEq, Eq)]
pub enum BindStep {
    /// Read the directory's mode: [`directory_checked`].
    CheckPrivate { dir: String },
    /// Create the directory, set its mode, then its group: [`probe_socket`].
    PrepareDirectory { dir: String, mode: u32, gid: Option<u32> },
    /// Look at what stands at the socket's path: [`socket_probed`].
    Probe,
    /// Remove the socket no one listens on, then bind.
    RemoveStale,
    /// Bind the socket: [`socket_bound`].
    Bind,
    /// Set the socket's mode, then its group. Done.
    Secure { mode: u32, gid: Option<u32> },
    Refused { kind: RefusalKind, message: String },
}

/// The value of a [`BindStep`].
pub enum BindModel {
    CheckPrivate { dir: Text },
    PrepareDirectory { dir: Text, mode: u32, gid: Option<u32> },
    Probe,
    RemoveStale,
    Bind,
    Secure { mode: u32, gid: Option<u32> },
    Refused { kind: RefusalKind, message: Text },
}

impl View for BindStep {
    type V = BindModel;

    open spec fn view(&self) -> BindModel {
        match self {
            BindStep::CheckPrivate { dir } => BindModel::CheckPrivate { dir: dir@ },
            BindStep::PrepareDirectory { dir, mode, gid } => BindModel::PrepareDirectory {
                dir: dir@,
                mode: *mode,
                gid: *gid,
            },
            BindStep::Probe => BindModel::Probe,
            BindStep::RemoveStale => BindModel::RemoveStale,
            BindStep::Bind => BindModel::Bind,
            BindStep::Secure { mode, gid } => BindModel::Secure { mode: *mode, gid: *gid },
            BindStep::Refused { kind, message } => BindModel::Refused {
                kind: *kind,
                message: message@,
            },
        }
    }
}

/// The mode of the directory: open to its owner, or to the group to pass.
pub open spec fn directory_mode(gid: Option<u32>) -> u32 {
    if gid is Some {
        0o750u32
    } else {
        0o700u32
    }
}

/// The mode of the socket: open to its owner, or to the group too.
pub open spec fn socket_mode(gid: Option<u32>) -> u32 {
    if gid is Some {
        0o660u32
    } else {
        0o600u32
    }
}

/// Begin to bind a socket in `dir`, if its path has one.
pub open spec fn bind_begun(dir: Option<Text>, is_session_dir: bool, gid: Option<u32>) -> BindModel {
    match dir {
        None => BindModel::Probe,
        Some(dir) => if is_session_dir {
            BindModel::CheckPrivate { dir }
        } else {
            BindModel::PrepareDirectory { dir, mode: directory_mode(gid), gid }
        },
    }
}

/// May `r` be whether `dir` is the session's directory, `runtime`?
pub open spec fn may_be_session_dir(runtime: Option<Text>, dir: Option<Text>, r: bool) -> bool {
    match (runtime, dir) {
        (Some(runtime), Some(dir)) => if runtime.len() == 0 {
            !r
        } else {
            may_be_same(runtime, dir, r)
        },
        _ => !r,
    }
}

/// Does the session name a directory that is read as `dir`?
pub open spec fn names_dir(runtime: Option<Text>, dir: PathModel) -> bool {
    runtime is Some && (runtime->0).len() > 0 && path_of(runtime->0) == dir
}

/// Whether `dir` is the session's own directory: the one the session names,
/// if it names one.
pub fn is_session_dir(runtime: &Option<String>, dir: &Option<String>) -> (r: bool)
    ensures
        may_be_session_dir(opt_text(*runtime), opt_text(*dir), r),
{
    match (runtime, dir) {
        (Some(runtime), Some(dir)) => !runtime.as_str().is_empty() && same_path(
            runtime.as_str(),
            dir.as_str(),
        ),
        _ => false,
    }
}

/// Begin to bind a socket in `dir`, if its path has one. The session's own
/// directory is not changed, only looked at; any other is prepared. Both come
/// before the socket exists, so that no one else can reach it meanwhile.
pub fn bind_in(dir: Option<String>, is_session_dir: bool, gid: Option<u32>) -> (r: BindStep)
    ensures
        r@ == bind_begun(opt_text(dir), is_session_dir, gid),
{
    match dir {
        None => BindStep::Probe,
        Some(dir) => if is_session_dir {
            BindStep::CheckPrivate { dir }
        } else {
            let mode: u32 = if gid.is_some() {
                0o750
            } else {
                0o700
            };
            BindStep::PrepareDirectory { dir, mode, gid }
        },
    }
}

/// Begin to bind the socket at this path, where the session names `runtime` as
/// its own directory, if it does.
pub fn bind_socket(path: &str, runtime: &Option<String>, gid: Option<u32>) -> (r: BindStep)
    ensures
        exists|dir: Option<Text>, session: bool| #[trigger]
            may_be_parent(path@, dir) && #[trigger] may_be_session_dir(
                opt_text(*runtime),
                dir,
                session,
            ) && r@ == bind_begun(dir, session, gid),
        forall|i: int| #[trigger]
            parts_at(path@, i) ==> (r@ == bind_begun(Some(before_slash(path@, i)), true, gid) || r@
                == bind_begun(Some(before_slash(path@, i)), false, gid)),
        is_slashed(path@) && path_of(path@).names.len() > 0 && (*runtime is Some ==> is_slashed(
            (*runtime)->0@,
        )) ==> if names_dir(opt_text(*runtime), parent_path(path_of(path@))) {
            r@ is CheckPrivate
        } else {
            r@ is PrepareDirectory
        },
{
    let dir = parent_of(path);
    let session = is_session_dir(runtime, &dir);
    let ghost found = opt_text(dir);
    proof {
        if is_slashed(path@) && found is Some {
            lemma_slashed_prefix(path@, found->0);
        }
    }
    let step = bind_in(dir, session, gid);
    assert(may_be_parent(path@, found) && may_be_session_dir(opt_text(*runtime), found, session));
    step
}

/// The session directory's mode is known.
pub open spec fn private_or_refused(dir: Text, mode: u32) -> BindModel {
    if mode % 64 != 0 {
        BindModel::Refused {
            kind: RefusalKind::PermissionDenied,
            message: "refusing to bind: "@ + dir + " is not user-private (mode "@ + octal(
                (mode % 4096) as nat,
            ) + "); expected no group/other access"@,
        }
    } else {
        BindModel::Probe
    }
}

/// The session directory's mode is known: it must be open to its owner only.
pub fn directory_checked(dir: &str, mode: u32) -> (r: BindStep)
    ensures
        r@ == if mode % 64 != 0 {
            BindModel::Refused {
                kind: RefusalKind::PermissionDenied,
                message: "refusing to bind: "@ + dir@ + " is not user-private (mode "@ + octal(
                    (mode % 4096) as nat,
                ) + "); expected no group/other access"@,
            }
        } else {
            BindModel::Probe
        },
        r@ == private_or_refused(dir@, mode),
{
    if mode % 64 != 0 {
        let mut message = concat3("refusing to bind: ", dir, " is not user-private (mode ");
        message.append(show_octal(mode % 4096).as_str());
        message.append("); expected no group/other access");
        BindStep::Refused { kind: RefusalKind::PermissionDenied, message }
    } else {
        BindStep::Probe
    }
}

/// The directory is prepared.
pub fn probe_socket() -> (r: BindStep)
    ensures
        r@ == BindModel::Probe,
{
    BindStep::Probe
}

/// What stands at the socket's path is known.
pub open spec fn bind_or_refused(path: Text, probe: SocketProbe) -> BindModel {
    match probe {
        SocketProbe::Absent => BindModel::Bind,
        SocketProbe::Vanished => BindModel::Bind,
        SocketProbe::Dead => BindModel::RemoveStale,
        SocketProbe::Live => BindModel::Refused {
            kind: RefusalKind::AddressInUse,
            message: "another splitway-daemon is already listening on "@ + path,
        },
        SocketProbe::Failed(e) => BindModel::Refused {
            kind: RefusalKind::Other,
            message: "cannot probe existing socket "@ + path + ": "@ + e@,
        },
    }
}

/// What stands at the socket's path is known. Only a socket that no one
/// listens on is removed: a running daemon is not to be displaced.
pub fn socket_probed(path: &str, probe: SocketProbe) -> (r: BindStep)
    ensures
        r@ == match probe {
            SocketProbe::Absent => BindModel::Bind,
            SocketProbe::Vanished => BindModel::Bind,
            SocketProbe::Dead => BindModel::RemoveStale,
            SocketProbe::Live => BindModel::Refused {
                kind: RefusalKind::AddressInUse,
                message: "another splitway-daemon is already listening on "@ + path@,
            },
            SocketProbe::Failed(e) => BindModel::Refused {
                kind: RefusalKind::Other,
                message: "cannot probe existing socket "@ + path@ + ": "@ + e@,
            },
        },
        r@ == bind_or_refused(path@, probe),
{
    match probe {
        SocketProbe::Absent => BindStep::Bind,
        SocketProbe::Vanished => BindStep::Bind,
        SocketProbe::Dead => BindStep::RemoveStale,
        SocketProbe::Live => BindStep::Refused {
            kind: RefusalKind::AddressInUse,
            message: concat2("another splitway-daemon is already listening on ", path),
        },
        SocketProbe::Failed(e) => {
            let mut message = concat3("cannot probe existing socket ", path, ": ");
            message.append(e.as_str());
            BindStep::Refused { kind: RefusalKind::Other, message }
        },
    }
}

/// The socket is bound.
pub fn socket_bound(gid: Option<u32>) -> (r: BindStep)
    ensures
        r@ == (BindModel::Secure { mode: socket_mode(gid), gid }),
{
    let mode: u32 = if gid.is_some() {
        0o660
    } else {
        0o600
    };
    BindStep::Secure { mode, gid }
}

/// The failure to give `path` to the group.
pub fn group_error(path: &str, gid: u32, e: &str) -> (r: String)
    ensures
        r@ == "failed to set group ownership of "@ + path@ + " (gid "@ + decimal(gid as nat)
            + "); the daemon must run as root or be a member of the group: "@ + e@,
{
    let mut message = concat3("failed to set group ownership of ", path, " (gid ");
    message.append(show(gid as usize).as_str());
    message.append("); the daemon must run as root or be a member of the group: ");
    message.append(e);
    message
}

/// The id of the socket's group, given what looking it up came to; one that
/// does not exist is an error.
pub fn resolve_socket_group(name: &str, found: Option<u32>) -> (r: Result<u32, String>)
    ensures
        match found {
            Some(gid) => r == Ok::<u32, String>(gid),
            None => r is Err && (r->Err_0)@ == "socket group `"@ + name@
                + "` not found; enable services.splitway.unprivilegedGui (the NixOS module creates the group), or create it manually (e.g. `groupadd "@
                + name@ + "`) before passing --socket-group"@,
        },
{
    match found {
        Some(gid) => Ok(gid),
        None => {
            let mut message = concat3(
                "socket group `",
                name,
                "` not found; enable services.splitway.unprivilegedGui (the NixOS module creates the group), or create it manually (e.g. `groupadd ",
            );
            message.append(name);
            message.append("`) before passing --socket-group");
            Err(message)
        },
    }
}

/// Can the text be handed to the system as a string: is it free of NUL?
pub fn is_c_text(s: &str) -> (r: bool)
    ensures
        r == !s@.contains('\0'),
{
    let chars = chars_of(s);
    let mut i: usize = 0;
    while i < chars.len()
        invariant
            i <= chars.len(),
            chars@ == s@,
            forall|k: int| 0 <= k < i ==> s@[k] != '\0',
        decreases chars.len() - i,
    {
        if chars[i] == '\0' {
            assert(s@[i as int] == '\0');
            return false;
        }
        i += 1;
    }
    true
}

/// What a lookup of a group has come to.
#[derive(Debug, Clone, Copy, PartialEq, Eq, Structural)]
pub enum GroupLookup {
    Found(u32),
    Missing,
    /// Try again with a buffer of this size.
    Retry(usize),
    /// No larger buffer can be had.
    TooLarge,
    /// It failed with this code.
    Failed(i32),
}

/// The size of the first buffer to look a group up with, given what the
/// system suggests, if it does.
pub fn lookup_buffer(suggested: i64) -> (r: usize)
    ensures
        r == if 0 < suggested <= usize::MAX {
            suggested as int
        } else {
            1024
        },
{
    if suggested > 0 && suggested as u64 <= usize::MAX as u64 {
        suggested as usize
    } else {
        1024
    }
}

/// What a lookup with a buffer of this size has come to.
pub open spec fn looked_up(
    code: i32,
    too_small: i32,
    found: Option<u32>,
    buffer: usize,
) -> GroupLookup {
    if code == 0 {
        match found {
            Some(gid) => GroupLookup::Found(gid),
            None => GroupLookup::Missing,
        }
    } else if code == too_small {
        if 2 * buffer <= usize::MAX {
            GroupLookup::Retry((2 * buffer) as usize)
        } else {
            GroupLookup::TooLarge
        }
    } else {
        GroupLookup::Failed(code)
    }
}

/// What a lookup with a buffer of this size has come to, given the code it
/// returned, the code for a buffer that is too small, and the group, if it
/// was found. A code of zero without a group means that there is none.
pub fn lookup_result(code: i32, too_small: i32, found: Option<u32>, buffer: usize) -> (r:
    GroupLookup)
    ensures
        r == if code == 0 {
            match found {
                Some(gid) => GroupLookup::Found(gid),
                None => GroupLookup::Missing,
            }
        } else if code == too_small {
            if 2 * buffer <= usize::MAX {
                GroupLookup::Retry((2 * buffer) as usize)
            } else {
                GroupLookup::TooLarge
            }
        } else {
            GroupLookup::Failed(code)
        },
        r == looked_up(code, too_small, found, buffer),
{
    if code == 0 {
        match found {
            Some(gid) => GroupLookup::Found(gid),
            None => GroupLookup::Missing,
        }
    } else if code == too_small {
        match buffer.checked_mul(2) {
            Some(size) => GroupLookup::Retry(size),
            None => GroupLookup::TooLarge,
        }
    } else {
        GroupLookup::Failed(code)
    }
}

/// Without a group, neither the directory nor the socket is open to anyone but
/// the owner; with one, neither is open to anyone outside it.
pub proof fn law_outsiders_never_get_in(gid: Option<u32>)
    ensures
        gid is None ==> directory_mode(gid) % 64 == 0 && socket_mode(gid) % 64 == 0,
        directory_mode(gid) % 8 == 0,
        socket_mode(gid) % 8 == 0,
{
}

/// A line is read to its line feed, and no further; it may be up to the cap
/// long with it. Without a line feed more is needed, until the cap is passed.
/// What the stream ends in counts as a line, unless it is empty.
pub proof fn law_a_line_is_read_to_its_end(
    buffer: Seq<u8>,
    line: Seq<u8>,
    rest: Seq<u8>,
    max: int,
)
    requires
        forall|k: int| 0 <= k < line.len() ==> line[k] != 10u8,
    ensures
        buffer.len() + line.len() + 1 <= max ==> fed(buffer, line.push(10u8) + rest, max) == (
            LineRead::Line,
            buffer + line.push(10u8),
        ),
        buffer.len() + line.len() + 1 > max ==> fed(buffer, line.push(10u8) + rest, max).0
            == LineRead::TooLong,
        line.len() > 0 && buffer.len() + line.len() <= max ==> fed(buffer, line, max) == (
            LineRead::More,
            buffer + line,
        ),
        line.len() > 0 && buffer.len() + line.len() > max ==> fed(buffer, line, max).0
            == LineRead::TooLong,
        buffer.len() == 0 ==> fed(buffer, Seq::empty(), max).0 == LineRead::Eof,
        buffer.len() > 0 ==> fed(buffer, Seq::empty(), max) == (LineRead::Line, buffer),
        MAX_REQUEST_BYTES == 65536,
{
    let whole = line.push(10u8) + rest;
    let n = line.len() as int;
    assert(whole[n] == 10u8);
    assert forall|k: int| 0 <= k < n implies whole[k] != 10u8 by {
        assert(whole[k] == line[k]);
    }
    lemma_line_end(whole, n);
    lemma_line_end(line, n);
    assert(whole.take(n + 1) =~= line.push(10u8));
}

/// A line of text that is not blank is taken for a request as it is; a blank
/// one is passed over. One that is no text is answered with an error, and so
/// is one that is too long, before the connection is closed. At the end of
/// the stream it is closed without one.
pub proof fn law_lines_are_taken_for_requests(line: Seq<u8>, text: Text)
    ensures
        utf8_text(line) == Some(text) && trimmed(text).len() > 0 ==> line_action(
            LineRead::Line,
            line,
        ) == LineActionModel::Process(text),
        utf8_text(line) == Some(text) && trimmed(text).len() == 0 ==> line_action(
            LineRead::Line,
            line,
        ) is Skip,
        utf8_text(line) is None ==> (line_action(LineRead::Line, line)
            matches LineActionModel::Reply(r) && r is Error),
        line_action(LineRead::TooLong, line) matches LineActionModel::ReplyAndClose(r) && r
            is Error,
        line_action(LineRead::Eof, line) is Close,
        line_action(LineRead::More, line) is Skip,
{
}

/// A request is decoded exactly if it is of the daemon's own version; any
/// other is answered with an error that begins as clients expect it to.
pub proof fn law_only_our_version_is_decoded(prefix: Text, ours: u32, theirs: u32, e: Text)
    ensures
        version_reply(prefix, ours, Ok(theirs)) is None <==> theirs == ours,
        theirs != ours ==> (version_reply(prefix, ours, Ok(theirs)) matches Some(
            ResponseModel::Error(message),
        ) && message.len() >= prefix.len() && message.take(prefix.len() as int) == prefix),
        version_reply(prefix, ours, Err(e)) matches Some(ResponseModel::Error(message))
            && message.len() >= e.len() && message.skip(message.len() - e.len()) == e,
{
    let message = prefix + ": daemon speaks "@ + decimal(ours as nat) + ", client speaks "@
        + decimal(theirs as nat)
        + " — update splitway so the daemon and client run the same protocol version"@;
    assert(message.take(prefix.len() as int) =~= prefix);
    let malformed = "malformed request: "@ + e;
    assert(malformed.skip(malformed.len() - e.len()) =~= e);
}

/// The session's own directory is only looked at; any other is set up before
/// the socket is bound, open to its owner alone, or to the group to pass. The
/// socket is open to its owner alone, or to the group too.
pub proof fn law_directories_are_made_ready(dir: Text, gid: u32)
    ensures
        bind_begun(None, true, None) is Probe,
        bind_begun(None, false, Some(gid)) is Probe,
        bind_begun(Some(dir), true, None) == (BindModel::CheckPrivate { dir }),
        bind_begun(Some(dir), true, Some(gid)) == (BindModel::CheckPrivate { dir }),
        bind_begun(Some(dir), false, None) == (BindModel::PrepareDirectory {
            dir,
            mode: 0o700u32,
            gid: None,
        }),
        bind_begun(Some(dir), false, Some(gid)) == (BindModel::PrepareDirectory {
            dir,
            mode: 0o750u32,
            gid: Some(gid),
        }),
        socket_mode(None) == 0o600u32,
        socket_mode(Some(gid)) == 0o660u32,
{
}

/// A session directory that is open to anyone but its owner is refused; one
/// that is not is gone on with.
pub proof fn law_an_open_session_directory_is_refused(dir: Text, mode: u32)
    ensures
        mode % 64 == 0 ==> private_or_refused(dir, mode) is Probe,
        mode % 64 != 0 ==> (private_or_refused(dir, mode) matches BindModel::Refused { kind, .. }
            && kind == RefusalKind::PermissionDenied),
        private_or_refused(dir, 0o40700u32) is Probe,
        private_or_refused(dir, 0o40750u32) is Refused,
        private_or_refused(dir, 0o40701u32) is Refused,
{
}

/// A socket that someone listens on, or that cannot be told, is not touched;
/// one that no one listens on is removed; and where there is none, the socket
/// is bound.
pub proof fn law_only_a_dead_socket_is_removed(path: Text, e: String)
    ensures
        bind_or_refused(path, SocketProbe::Absent) is Bind,
        bind_or_refused(path, SocketProbe::Vanished) is Bind,
        bind_or_refused(path, SocketProbe::Dead) is RemoveStale,
        bind_or_refused(path, SocketProbe::Live) matches BindModel::Refused { kind, .. } && kind
            == RefusalKind::AddressInUse,
        bind_or_refused(path, SocketProbe::Failed(e)) is Refused,
{
}

/// A group that was found is the one; a buffer that is too small is doubled;
/// any other code is a failure.
pub proof fn law_a_lookup_is_tried_with_a_larger_buffer(
    code: i32,
    too_small: i32,
    gid: u32,
    buffer: usize,
)
    requires
        too_small != 0,
        2 * buffer <= usize::MAX,
    ensures
        looked_up(0, too_small, Some(gid), buffer) == GroupLookup::Found(gid),
        looked_up(0, too_small, None, buffer) is Missing,
        looked_up(too_small, too_small, None, buffer) == GroupLookup::Retry((2 * buffer) as usize),
        code != 0 && code != too_small ==> looked_up(code, too_small, None, buffer)
            == GroupLookup::Failed(code),
{
}

/// A directory is the session's own only if the session names one, and it is
/// if that is the same text. An empty name names none.
pub proof fn law_the_session_names_its_directory(dir: Text, other: Option<Text>, r: bool)
    ensures
        may_be_session_dir(None, other, r) ==> !r,
        may_be_session_dir(Some(Seq::empty()), other, r) ==> !r,
        may_be_session_dir(Some(dir), None, r) ==> !r,
        dir.len() > 0 && may_be_session_dir(Some(dir), Some(dir), r) ==> r,
{
}

} // verus!
