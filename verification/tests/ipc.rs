//! The control socket.

use splitway::daemon::ipc::{
    answered, bind_in, bind_socket, check_version, directory_checked, group_error, is_c_text,
    is_session_dir, lookup_buffer, lookup_result, malformed, on_line, probe_socket, read_line_capped, resolve_socket_group,
    socket_bound, socket_probed, BindStep, GroupLookup, LineAction, LineRead, RefusalKind,
    SocketProbe, MAX_REQUEST_BYTES,
};
use splitway::wire::Response;

const PREFIX: &str = "protocol version mismatch";
const OURS: u32 = 3;

fn error(message: &str) -> Response {
    Response::Error(message.to_string())
}

#[test]
fn version_mismatch_is_reported_before_request_parse() {
    // A wrong version carrying a request variant this daemon does not know:
    // the version is checked from a peek first, so this is reported as a
    // version mismatch ("update splitway"), never a raw decode error.
    match check_version(PREFIX, OURS, Ok(999)) {
        Some(Response::Error(msg)) => {
            assert!(
                msg.starts_with(PREFIX),
                "expected a version-mismatch error, got: {msg}"
            );
        }
        other => panic!("expected a version-mismatch error, got {other:?}"),
    }
}

#[test]
fn malformed_json_is_rejected_as_error() {
    assert!(matches!(
        check_version(PREFIX, OURS, Err("expected ident at line 1 column 2".to_string())),
        Some(Response::Error(_))
    ));
}

#[test]
fn the_version_is_named_on_both_sides() {
    assert_eq!(check_version(PREFIX, OURS, Ok(3)), None);
    assert_eq!(
        check_version(PREFIX, OURS, Ok(12)),
        Some(error(
            "protocol version mismatch: daemon speaks 3, client speaks 12 — update splitway so \
             the daemon and client run the same protocol version"
        ))
    );
    assert_eq!(malformed("eof"), error("malformed request: eof"));
    assert_eq!(
        check_version(PREFIX, OURS, Err("eof".to_string())),
        Some(error("malformed request: eof"))
    );
}

/// Everything that reading lines of a stream in chunks comes to.
fn read_all(chunks: &[&[u8]], max: usize) -> Vec<(LineRead, Vec<u8>)> {
    let mut out = Vec::new();
    let mut buffer: Vec<u8> = Vec::new();
    for chunk in chunks {
        let mut rest: Vec<u8> = chunk.to_vec();
        while !rest.is_empty() {
            let (read, used) = read_line_capped(&mut buffer, &rest, max);
            rest.drain(..used);
            if read != LineRead::More {
                out.push((read, buffer.clone()));
                buffer.clear();
            }
            if read == LineRead::TooLong {
                return out;
            }
        }
    }
    let (read, _) = read_line_capped(&mut buffer, &Vec::new(), max);
    out.push((read, buffer));
    out
}

#[test]
fn chunks_do_not_matter() {
    let whole = read_all(&[b"one\ntwo\r\nthree"], 16);
    assert_eq!(
        whole,
        vec![
            (LineRead::Line, b"one\n".to_vec()),
            (LineRead::Line, b"two\r\n".to_vec()),
            (LineRead::Line, b"three".to_vec()),
        ]
    );
    assert_eq!(read_all(&[b"o", b"ne", b"\nt", b"wo\r\nthr", b"ee"], 16), whole);
    assert_eq!(read_all(&[b"x\n"], 16).last().unwrap().0, LineRead::Eof);
}

#[test]
fn a_line_may_be_as_long_as_allowed_and_no_longer() {
    assert_eq!(read_all(&[b"abc\n"], 4)[0], (LineRead::Line, b"abc\n".to_vec()));
    assert_eq!(read_all(&[b"abcd\n"], 4)[0].0, LineRead::TooLong);
    assert_eq!(read_all(&[b"abcd"], 4)[0], (LineRead::Line, b"abcd".to_vec()));
    assert_eq!(read_all(&[b"abc", b"de\n"], 4)[0].0, LineRead::TooLong);
    assert_eq!(MAX_REQUEST_BYTES, 64 * 1024);
}

#[test]
fn what_becomes_of_a_line() {
    assert_eq!(on_line(LineRead::Eof, &vec![]), LineAction::Close);
    assert_eq!(on_line(LineRead::More, &vec![]), LineAction::Skip);
    assert_eq!(on_line(LineRead::Line, &b"  \r\n".to_vec()), LineAction::Skip);
    assert_eq!(
        on_line(LineRead::Line, &"{\u{e9}} ".as_bytes().to_vec()),
        LineAction::Process("{\u{e9}} ".to_string())
    );
    assert_eq!(
        on_line(LineRead::Line, &b"{\xff}\n".to_vec()),
        LineAction::Reply(error("malformed request: not valid UTF-8"))
    );
    assert_eq!(
        on_line(LineRead::TooLong, &vec![]),
        LineAction::ReplyAndClose(error("request exceeds maximum length"))
    );
}

#[test]
fn what_becomes_of_a_request() {
    assert_eq!(answered(Ok(Some(Response::Done))), Response::Done);
    assert_eq!(answered(Ok(None)), error("daemon dropped the request"));
    assert_eq!(answered(Err(())), error("daemon state task is not running"));
}

#[test]
fn resolve_socket_group_fails_fast_with_an_actionable_message() {
    let msg = resolve_socket_group("splitway-no-such-group-zzz", None).unwrap_err();
    assert!(msg.contains("splitway-no-such-group-zzz"), "got: {msg}");
    assert!(msg.contains("not found"), "got: {msg}");
    assert_eq!(resolve_socket_group("wheel", Some(10)), Ok(10));
}

/// Bind a socket in a fresh directory; the modes and groups that result.
fn bind(gid: Option<u32>) -> ((u32, Option<u32>), (u32, Option<u32>)) {
    let BindStep::PrepareDirectory { dir, mode, gid: dir_gid } =
        bind_socket("/run/splitway/s", &None, gid)
    else {
        panic!("the directory is prepared first");
    };
    assert_eq!(dir, "/run/splitway");
    assert_eq!(probe_socket(), BindStep::Probe);
    assert_eq!(socket_probed("/run/splitway/s", SocketProbe::Absent), BindStep::Bind);
    let BindStep::Secure { mode: sock_mode, gid: sock_gid } = socket_bound(gid) else {
        panic!("a bound socket is secured");
    };
    ((sock_mode, sock_gid), (mode, dir_gid))
}

#[test]
fn bind_without_group_is_owner_only_0600() {
    let (sock, dir) = bind(None);
    assert_eq!(sock, (0o600, None), "socket is owner-only by default");
    assert_eq!(dir, (0o700, None), "runtime dir is owner-only by default");
}

#[test]
fn bind_with_group_is_0660_owned_by_that_gid() {
    let (sock, dir) = bind(Some(1000));
    assert_eq!(sock.0, 0o660, "socket is group-rw with a socket group");
    assert_eq!(sock.1, Some(1000), "socket is owned by the socket group");
    assert_eq!(dir.0, 0o750, "runtime dir gates traversal by the socket group");
    assert_eq!(dir.1, Some(1000), "runtime dir is owned by the socket group");
}

#[test]
fn a_session_directory_must_be_private() {
    assert_eq!(
        bind_socket("/run/user/1/s", &Some("/run/user/1".to_string()), None),
        BindStep::CheckPrivate { dir: "/run/user/1".to_string() }
    );
    assert_eq!(directory_checked("/run/user/1", 0o40700), BindStep::Probe);
    assert_eq!(
        directory_checked("/run/user/1", 0o40755),
        BindStep::Refused {
            kind: RefusalKind::PermissionDenied,
            message: "refusing to bind: /run/user/1 is not user-private (mode 755); expected no \
                      group/other access"
                .to_string(),
        }
    );
    assert_eq!(bind_socket("/", &None, None), BindStep::Probe);
    assert_eq!(bind_in(None, false, None), BindStep::Probe);
    assert_eq!(
        bind_in(Some("d".to_string()), true, Some(7)),
        BindStep::CheckPrivate { dir: "d".to_string() }
    );
    assert_eq!(
        bind_in(Some("d".to_string()), false, Some(7)),
        BindStep::PrepareDirectory { dir: "d".to_string(), mode: 0o750, gid: Some(7) }
    );
}

#[test]
fn the_session_directory_is_the_one_the_session_names() {
    let dir = |s: &str| Some(s.to_string());
    assert!(is_session_dir(&dir("/run/user/1"), &dir("/run/user/1")));
    // The same directory, written otherwise.
    assert!(is_session_dir(&dir("/run//user/1/"), &dir("/run/user/1")));
    assert!(is_session_dir(&dir("/run/./user/1/."), &dir("/run/user/1")));
    assert!(is_session_dir(&dir("/tmp/.xdg/"), &dir("/tmp/.xdg")));
    assert!(!is_session_dir(&dir("/tmp/.xdg"), &dir("/tmp/.other")));
    assert!(!is_session_dir(&dir("run/user/1"), &dir("/run/user/1")));
    assert!(!is_session_dir(&dir("./run"), &dir("run")));
    assert!(!is_session_dir(&dir("/run/user/2"), &dir("/run/user/1")));
    assert!(!is_session_dir(&dir(""), &dir("")));
    assert!(!is_session_dir(&None, &dir("/run/user/1")));
    assert!(!is_session_dir(&dir("/run/user/1"), &None));
    // It is never prepared, even when a group is asked for.
    assert_eq!(
        bind_socket("/run/user/1/s", &dir("/run/user/1/"), Some(7)),
        BindStep::CheckPrivate { dir: "/run/user/1".to_string() }
    );
    assert_eq!(
        bind_socket("/run/splitway/s", &dir("/run/user/1"), None),
        BindStep::PrepareDirectory { dir: "/run/splitway".to_string(), mode: 0o700, gid: None }
    );
}

#[test]
fn a_running_daemon_is_not_displaced() {
    assert_eq!(socket_probed("/s", SocketProbe::Vanished), BindStep::Bind);
    assert_eq!(socket_probed("/s", SocketProbe::Dead), BindStep::RemoveStale);
    assert_eq!(
        socket_probed("/s", SocketProbe::Live),
        BindStep::Refused {
            kind: RefusalKind::AddressInUse,
            message: "another splitway-daemon is already listening on /s".to_string(),
        }
    );
    assert_eq!(
        socket_probed("/s", SocketProbe::Failed("denied".to_string())),
        BindStep::Refused {
            kind: RefusalKind::Other,
            message: "cannot probe existing socket /s: denied".to_string(),
        }
    );
}

#[test]
fn group_gid_returns_none_for_a_missing_group() {
    // A name no system would define: the lookup succeeds without a group, which
    // is "not found" and no error, so the caller can word its own message.
    assert!(is_c_text("splitway-no-such-group-zzz"));
    assert_eq!(
        lookup_result(0, 34, None, lookup_buffer(1024)),
        GroupLookup::Missing,
        "a non-existent group must resolve to None, not error"
    );
}

#[test]
fn looking_up_a_group() {
    const ERANGE: i32 = 34;
    assert_eq!(lookup_buffer(-1), 1024);
    assert_eq!(lookup_buffer(0), 1024);
    assert_eq!(lookup_buffer(512), 512);
    assert_eq!(lookup_result(0, ERANGE, Some(7), 512), GroupLookup::Found(7));
    assert_eq!(lookup_result(0, ERANGE, None, 512), GroupLookup::Missing);
    assert_eq!(lookup_result(ERANGE, ERANGE, None, 512), GroupLookup::Retry(1024));
    assert_eq!(lookup_result(ERANGE, ERANGE, None, usize::MAX), GroupLookup::TooLarge);
    assert_eq!(lookup_result(5, ERANGE, None, 512), GroupLookup::Failed(5));
    assert!(is_c_text("wheel"));
    assert!(!is_c_text("a\0b"));
    assert_eq!(
        group_error("/s", 10, "denied"),
        "failed to set group ownership of /s (gid 10); the daemon must run as root or be a member \
         of the group: denied"
    );
}
