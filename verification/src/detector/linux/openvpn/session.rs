//! Following an OpenVPN process over its management interface.
//!
//! A dropped management connection is not the VPN going down: it is made
//! anew, and the tunnel is sampled again. Only read-only commands are sent.

use vstd::prelude::*;
use crate::config::OpenVpnConfig;
use crate::detector::linux::openvpn::parser::{
    parse_push_reply_dns, parse_state_line, parse_state_line_with_time, pushed_dns, state_of,
    transition_for_state, transition_named,
};
use crate::detector::linux::state::{Deduper, Transition};
use crate::platform::{ErrorModel, EventModel, InfoModel, PlatformError, VpnEvent, VpnInfo};
use crate::text::{
    concat2, concat3, contains, copy_opt_text, copy_texts, has_part, lines, lines_of, opt_text,
    same_text, same_texts, strs, texts, trim_end, trimmed_end, Text,
};

verus! {

/// The first wait before a dropped connection is made anew, in seconds.
pub const INITIAL_BACKOFF: u64 = 1;

/// The longest such wait.
pub const MAX_BACKOFF: u64 = 30;

/// How long a session must have lasted to count as healthy, in seconds.
pub const MIN_HEALTHY_SESSION: u64 = 10;

/// The wait after this one: twice as long, up to the longest.
pub open spec fn longer_wait(backoff: u64) -> int {
    if 2 * backoff <= MAX_BACKOFF {
        2 * backoff
    } else {
        MAX_BACKOFF as int
    }
}

/// The wait after this one.
pub fn next_backoff(backoff: u64) -> (r: u64)
    ensures
        r == longer_wait(backoff),
{
    if backoff <= MAX_BACKOFF / 2 {
        backoff * 2
    } else {
        MAX_BACKOFF
    }
}

/// The wait once a session of this many seconds has ended. One that fails
/// fast, such as one with a wrong password, does not shorten it.
pub fn backoff_after(backoff: u64, elapsed: u64) -> (r: u64)
    ensures
        r == if elapsed >= MIN_HEALTHY_SESSION {
            INITIAL_BACKOFF
        } else {
            backoff
        },
{
    if elapsed >= MIN_HEALTHY_SESSION {
        INITIAL_BACKOFF
    } else {
        backoff
    }
}

/// How long to wait before the next connection is tried, and the backoff to
/// go on with: after a session of `session` seconds, or after a failure to
/// connect at all.
pub open spec fn retried(backoff: u64, session: Option<u64>) -> (int, int) {
    let wait = match session {
        Some(elapsed) => if elapsed >= MIN_HEALTHY_SESSION {
            INITIAL_BACKOFF
        } else {
            backoff
        },
        None => backoff,
    };
    (wait as int, longer_wait(wait))
}

/// How long to wait before the next connection is tried, and the backoff to
/// go on with.
pub fn retry_delay(backoff: u64, session: Option<u64>) -> (r: (u64, u64))
    ensures
        (r.0 as int, r.1 as int) == retried(backoff, session),
{
    let wait: u64 = match session {
        Some(elapsed) => backoff_after(backoff, elapsed),
        None => backoff,
    };
    (wait, next_backoff(wait))
}

/// A standalone OpenVPN process, and how to reach it.
#[derive(Debug, PartialEq, Eq)]
pub struct OpenVpnDetector {
    pub management: String,
    pub password_file: Option<String>,
}

impl OpenVpnDetector {
    /// The detector for this configuration.
    pub fn from_config(config: &OpenVpnConfig) -> (r: OpenVpnDetector)
        ensures
            r.management@ == config@.management,
            opt_text(r.password_file) == config@.password_file,
    {
        OpenVpnDetector {
            management: config.management.clone(),
            password_file: copy_opt_text(&config.management_password_file),
        }
    }

    /// The password for the management interface, given what reading its file
    /// came to; `None` where none is configured.
    pub fn read_password(&self, contents: Result<String, String>) -> (r: Result<
        Option<String>,
        PlatformError,
    >)
        ensures
            match opt_text(self.password_file) {
                None => r is Ok && r->Ok_0 is None,
                Some(path) => match contents {
                    Ok(text) => r is Ok && opt_text(r->Ok_0) == Some(first_line(text@)),
                    Err(e) => r is Err && (r->Err_0)@ == ErrorModel::CommandFailed(
                        "failed to read openvpn management password file "@ + path + ": "@ + e@,
                    ),
                },
            },
    {
        match &self.password_file {
            None => Ok(None),
            Some(path) => match contents {
                Ok(text) => Ok(Some(password_in(text.as_str()))),
                Err(e) => {
                    let head = concat3(
                        "failed to read openvpn management password file ",
                        path.as_str(),
                        ": ",
                    );
                    Err(PlatformError::CommandFailed(concat2(head.as_str(), e.as_str())))
                },
            },
        }
    }
}

/// The first line of a text, or nothing.
pub open spec fn first_line(t: Text) -> Text {
    if lines_of(t).len() > 0 {
        lines_of(t)[0]
    } else {
        Seq::empty()
    }
}

/// The password in a password file: its first line.
pub fn password_in(contents: &str) -> (r: String)
    ensures
        r@ == first_line(contents@),
{
    let all = lines(contents);
    let ghost all_lines = strs(all@);
    if all.len() > 0 {
        let first = all[0].to_owned();
        assert(all_lines[0] == first@);
        first
    } else {
        assert(all_lines.len() == 0);
        String::new()
    }
}

/// The lines to send when a connection is made: the password, if there is
/// one, and then what arms the notices and samples the state.
pub fn session_commands(password: &Option<String>) -> (r: Vec<String>)
    ensures
        texts(r@) == (match opt_text(*password) {
            Some(p) => seq![p],
            None => Seq::empty(),
        }) + seq!["log on all"@, "state on"@, "state"@],
{
    let mut out: Vec<String> = Vec::new();
    if let Some(password) = password {
        out.push(password.clone());
    }
    out.push("log on all".to_owned());
    out.push("state on".to_owned());
    out.push("state".to_owned());
    assert(texts(out@) =~= (match opt_text(*password) {
        Some(p) => seq![p],
        None => Seq::empty(),
    }) + seq!["log on all"@, "state on"@, "state"@]);
    out
}

/// The lines to send for a single probe.
pub fn probe_commands(password: &Option<String>) -> (r: Vec<String>)
    ensures
        texts(r@) == (match opt_text(*password) {
            Some(p) => seq![p],
            None => Seq::empty(),
        }) + seq!["log on all"@, "state"@],
{
    let mut out: Vec<String> = Vec::new();
    if let Some(password) = password {
        out.push(password.clone());
    }
    out.push("log on all".to_owned());
    out.push("state".to_owned());
    assert(texts(out@) =~= (match opt_text(*password) {
        Some(p) => seq![p],
        None => Seq::empty(),
    }) + seq!["log on all"@, "state"@]);
    out
}

// ---------------------------------------------------------------------------
// The watch
// ---------------------------------------------------------------------------

/// What is known of a tunnel across management connections.
#[derive(Debug, PartialEq, Eq)]
pub struct TunnelWatch {
    pub interface: String,
    pub dedup: Deduper,
    /// The servers pushed last.
    pub last_dns: Vec<String>,
    /// The servers reported with the last up.
    pub reported_dns: Vec<String>,
    /// When the tunnel of the last up was connected.
    pub connected_at: Option<u64>,
    /// The connection was made anew and the tunnel not sampled since.
    pub resampling: bool,
    /// Servers were pushed, or a reply without any seen, on this connection.
    pub push_seen: bool,
}

/// The value of a [`TunnelWatch`].
pub struct TunnelModel {
    pub interface: Text,
    pub last: Option<Transition>,
    pub last_dns: Seq<Text>,
    pub reported_dns: Seq<Text>,
    pub connected_at: Option<u64>,
    pub resampling: bool,
    pub push_seen: bool,
}

impl View for TunnelWatch {
    type V = TunnelModel;

    open spec fn view(&self) -> TunnelModel {
        TunnelModel {
            interface: self.interface@,
            last: self.dedup.last,
            last_dns: texts(self.last_dns@),
            reported_dns: texts(self.reported_dns@),
            connected_at: self.connected_at,
            resampling: self.resampling,
            push_seen: self.push_seen,
        }
    }
}

/// The value of an optional event.
pub open spec fn event_of(e: Option<VpnEvent>) -> Option<EventModel> {
    match e {
        Some(e) => Some(e@),
        None => None,
    }
}

/// The report of an up with these servers.
pub open spec fn up_event(w: TunnelModel, dns: Seq<Text>) -> EventModel {
    EventModel::Up(InfoModel { interface: w.interface, dns, demote: None })
}

/// The servers the tunnel found connected again has: those pushed on this
/// connection; else, for the same tunnel, those pushed before; else none.
pub open spec fn resampled_dns(w: TunnelModel, time: u64) -> Seq<Text> {
    if w.push_seen || w.connected_at == Some(time) {
        w.last_dns
    } else {
        Seq::empty()
    }
}

/// A management connection was made.
pub open spec fn after_connect(w: TunnelModel) -> TunnelModel {
    TunnelModel { resampling: true, push_seen: false, ..w }
}

/// The tunnel is connected, since `time`.
pub open spec fn after_connected(w: TunnelModel, time: u64) -> (TunnelModel, Option<EventModel>) {
    if w.last != Some(Transition::Up) {
        (
            TunnelModel {
                last: Some(Transition::Up),
                reported_dns: w.last_dns,
                connected_at: Some(time),
                resampling: false,
                ..w
            },
            Some(up_event(w, w.last_dns)),
        )
    } else if w.resampling {
        let dns = resampled_dns(w, time);
        (
            TunnelModel {
                last_dns: dns,
                reported_dns: dns,
                connected_at: Some(time),
                resampling: false,
                ..w
            },
            if dns == w.reported_dns {
                None
            } else {
                Some(up_event(w, dns))
            },
        )
    } else {
        (w, None)
    }
}

/// The tunnel is down. What it was pushed is forgotten.
pub open spec fn after_disconnected(w: TunnelModel) -> (TunnelModel, Option<EventModel>) {
    if w.last == Some(Transition::Down) {
        (TunnelModel { resampling: false, ..w }, None)
    } else {
        (
            TunnelModel {
                last: Some(Transition::Down),
                last_dns: Seq::empty(),
                resampling: false,
                ..w
            },
            Some(EventModel::Down(w.interface)),
        )
    }
}

/// A line was received.
pub open spec fn after_line(w: TunnelModel, line: Text) -> (TunnelModel, Option<EventModel>) {
    if has_part(line, "PUSH_REPLY"@) {
        (TunnelModel { last_dns: pushed_dns(line), push_seen: true, ..w }, None)
    } else {
        match state_of(line) {
            None => (w, None),
            Some((time, state)) => match transition_named(state) {
                None => (w, None),
                Some(Transition::Up) => after_connected(w, time),
                Some(Transition::Down) => after_disconnected(w),
            },
        }
    }
}

/// What reading the management connection came to.
#[derive(Debug, PartialEq, Eq)]
pub enum SessionRead {
    Line(String),
    /// The other end closed it.
    Eof,
    Failed(PlatformError),
}

/// What to do about it.
#[derive(Debug, PartialEq, Eq)]
pub enum SessionNext {
    /// Report the event, if any, and read on.
    ReadOn(Option<VpnEvent>),
    /// Connect anew, after [`retry_delay`].
    Reconnect(PlatformError),
}

/// The value of a [`SessionNext`].
pub enum SessionModel {
    ReadOn(Option<EventModel>),
    Reconnect(ErrorModel),
}

impl View for SessionNext {
    type V = SessionModel;

    open spec fn view(&self) -> SessionModel {
        match self {
            SessionNext::ReadOn(e) => SessionModel::ReadOn(event_of(*e)),
            SessionNext::Reconnect(e) => SessionModel::Reconnect(e@),
        }
    }
}

/// A watch for the tunnel on this interface, before the first connection.
pub open spec fn fresh_watch(interface: Text) -> TunnelModel {
    TunnelModel {
        interface,
        last: None,
        last_dns: Seq::empty(),
        reported_dns: Seq::empty(),
        connected_at: None,
        resampling: false,
        push_seen: false,
    }
}

impl TunnelWatch {
    /// A watch for the tunnel on this interface, before the first connection.
    pub fn new(interface: &str) -> (r: TunnelWatch)
        ensures
            r@ == (TunnelModel {
                interface: interface@,
                last: None,
                last_dns: Seq::empty(),
                reported_dns: Seq::empty(),
                connected_at: None,
                resampling: false,
                push_seen: false,
            }),
            r@ == fresh_watch(interface@),
    {
        let r = TunnelWatch {
            interface: interface.to_owned(),
            dedup: Deduper { last: None },
            last_dns: Vec::new(),
            reported_dns: Vec::new(),
            connected_at: None,
            resampling: false,
            push_seen: false,
        };
        assert(texts(r.last_dns@) =~= Seq::<Text>::empty());
        assert(texts(r.reported_dns@) =~= Seq::<Text>::empty());
        r
    }

    /// A management connection was made: the tunnel is sampled anew.
    pub fn on_connect(&mut self)
        ensures
            final(self)@ == (TunnelModel { resampling: true, push_seen: false, ..old(self)@ }),
            final(self)@ == after_connect(old(self)@),
    {
        self.resampling = true;
        self.push_seen = false;
    }

    /// The management connection was read. One that ended, however it did, is
    /// made anew, and leaves what is known of the tunnel as it is.
    pub fn on_read(&mut self, read: SessionRead) -> (r: SessionNext)
        ensures
            match read {
                SessionRead::Line(line) => {
                    let (after, event) = after_line(old(self)@, line@);
                    final(self)@ == after && r@ == SessionModel::ReadOn(event)
                },
                SessionRead::Eof => final(self)@ == old(self)@ && r@ == SessionModel::Reconnect(
                    ErrorModel::CommandFailed("openvpn closed the management connection"@),
                ),
                SessionRead::Failed(e) => final(self)@ == old(self)@ && r@
                    == SessionModel::Reconnect(e@),
            },
    {
        match read {
            SessionRead::Line(line) => SessionNext::ReadOn(self.handle_line(line.as_str())),
            SessionRead::Eof => SessionNext::Reconnect(
                PlatformError::CommandFailed(
                    "openvpn closed the management connection".to_owned(),
                ),
            ),
            SessionRead::Failed(e) => SessionNext::Reconnect(e),
        }
    }

    /// A line was received: the event to report, if any.
    pub fn handle_line(&mut self, line: &str) -> (r: Option<VpnEvent>)
        ensures
            (final(self)@, event_of(r)) == after_line(old(self)@, line@),
    {
        if contains(line, "PUSH_REPLY") {
            self.last_dns = parse_push_reply_dns(line);
            self.push_seen = true;
            return None;
        }
        match parse_state_line_with_time(line) {
            None => None,
            Some((time, state)) => match transition_for_state(state) {
                None => None,
                Some(Transition::Up) => self.on_connected(time),
                Some(Transition::Down) => self.on_disconnected(),
            },
        }
    }

    fn up(&self) -> (r: VpnEvent)
        ensures
            r@ == up_event(self@, self@.last_dns),
    {
        VpnEvent::Up(
            VpnInfo {
                interface_name: self.interface.clone(),
                dns_servers: copy_texts(&self.last_dns),
                demote_target: None,
            },
        )
    }

    fn on_connected(&mut self, time: u64) -> (r: Option<VpnEvent>)
        ensures
            (final(self)@, event_of(r)) == after_connected(old(self)@, time),
    {
        if self.dedup.push(Transition::Up).is_some() {
            self.reported_dns = copy_texts(&self.last_dns);
            self.connected_at = Some(time);
            self.resampling = false;
            return Some(self.up());
        }
        if !self.resampling {
            return None;
        }
        let same_tunnel = match self.connected_at {
            Some(t) => t == time,
            None => false,
        };
        if !self.push_seen && !same_tunnel {
            self.last_dns = Vec::new();
            assert(texts(self.last_dns@) =~= Seq::<Text>::empty());
        }
        let unchanged = same_texts(&self.last_dns, &self.reported_dns);
        self.reported_dns = copy_texts(&self.last_dns);
        self.connected_at = Some(time);
        self.resampling = false;
        if unchanged {
            None
        } else {
            Some(self.up())
        }
    }

    fn on_disconnected(&mut self) -> (r: Option<VpnEvent>)
        ensures
            (final(self)@, event_of(r)) == after_disconnected(old(self)@),
    {
        self.resampling = false;
        if self.dedup.push(Transition::Down).is_none() {
            return None;
        }
        self.last_dns = Vec::new();
        assert(texts(self.last_dns@) =~= Seq::<Text>::empty());
        Some(VpnEvent::Down { interface_name: self.interface.clone() })
    }
}

// ---------------------------------------------------------------------------
// The probe
// ---------------------------------------------------------------------------

/// How many replies of a probe end with `END`: that of the log, and that of
/// the state.
pub const END_TERMINATED_REPLIES: u32 = 2;

/// What a probe has read so far.
#[derive(Debug, PartialEq, Eq)]
pub struct Probe {
    pub connected: bool,
    pub dns: Vec<String>,
    pub ends_seen: u32,
}

/// The value of a [`Probe`].
pub struct ProbeModel {
    pub connected: bool,
    pub dns: Seq<Text>,
    pub ends_seen: u32,
}

impl View for Probe {
    type V = ProbeModel;

    open spec fn view(&self) -> ProbeModel {
        ProbeModel {
            connected: self.connected,
            dns: texts(self.dns@),
            ends_seen: self.ends_seen,
        }
    }
}

/// A line was read.
pub open spec fn probe_line(p: ProbeModel, line: Text) -> ProbeModel {
    let line = trimmed_end(line);
    if line == "END"@ {
        ProbeModel {
            ends_seen: if p.ends_seen < END_TERMINATED_REPLIES {
                (p.ends_seen + 1) as u32
            } else {
                p.ends_seen
            },
            ..p
        }
    } else if has_part(line, "PUSH_REPLY"@) {
        if pushed_dns(line).len() > 0 {
            ProbeModel { dns: pushed_dns(line), ..p }
        } else {
            p
        }
    } else {
        match state_of(line) {
            None => p,
            Some((_, state)) => match transition_named(state) {
                None => p,
                Some(t) => ProbeModel { connected: t == Transition::Up, ..p },
            },
        }
    }
}

/// What a probe found of the tunnel on this interface.
pub open spec fn probed(p: ProbeModel, interface: Text) -> Result<InfoModel, ErrorModel> {
    if p.connected {
        Ok(InfoModel { interface, dns: p.dns, demote: None })
    } else {
        Err(ErrorModel::VpnNotFound(interface))
    }
}

/// A probe that has read nothing.
pub open spec fn fresh_probe() -> ProbeModel {
    ProbeModel { connected: false, dns: Seq::empty(), ends_seen: 0 }
}

/// What reading came to in a probe.
#[derive(Debug, PartialEq, Eq)]
pub enum ProbeRead {
    Line(String),
    Eof,
    /// Nothing came in time, or the time for the probe is up.
    Quiet,
    Failed(PlatformError),
}

/// What a probe does next.
#[derive(Debug, PartialEq, Eq)]
pub enum ProbeNext {
    ReadOn,
    /// It has read enough: [`Probe::finish`].
    Enough,
    Failed(PlatformError),
}

impl Probe {
    /// A probe that has read nothing.
    pub fn new() -> (r: Probe)
        ensures
            r@ == (ProbeModel { connected: false, dns: Seq::empty(), ends_seen: 0 }),
            r@ == fresh_probe(),
    {
        let r = Probe { connected: false, dns: Vec::new(), ends_seen: 0 };
        assert(texts(r.dns@) =~= Seq::<Text>::empty());
        r
    }

    /// A line was read. Returns whether the last reply is complete: the log is
    /// replayed first, so the first `END` does not end the probe.
    pub fn on_line(&mut self, line: &str) -> (r: bool)
        ensures
            final(self)@ == probe_line(old(self)@, line@),
            r == (final(self)@.ends_seen >= END_TERMINATED_REPLIES),
    {
        let line = trim_end(line);
        if same_text(line, "END") {
            if self.ends_seen < END_TERMINATED_REPLIES {
                self.ends_seen = self.ends_seen + 1;
            }
        } else if contains(line, "PUSH_REPLY") {
            let pushed = parse_push_reply_dns(line);
            let ghost found = texts(pushed@);
            assert(found.len() == pushed@.len());
            if pushed.len() > 0 {
                self.dns = pushed;
            }
        } else if let Some(state) = parse_state_line(line) {
            match transition_for_state(state) {
                Some(Transition::Up) => {
                    self.connected = true;
                },
                Some(Transition::Down) => {
                    self.connected = false;
                },
                None => {},
            }
        }
        self.ends_seen >= END_TERMINATED_REPLIES
    }

    /// The connection was read. Silence ends the probe with what it has.
    pub fn on_read(&mut self, read: ProbeRead) -> (r: ProbeNext)
        ensures
            match read {
                ProbeRead::Line(line) => {
                    &&& final(self)@ == probe_line(old(self)@, line@)
                    &&& match r {
                        ProbeNext::ReadOn => final(self)@.ends_seen < END_TERMINATED_REPLIES,
                        ProbeNext::Enough => final(self)@.ends_seen >= END_TERMINATED_REPLIES,
                        ProbeNext::Failed(_) => false,
                    }
                },
                ProbeRead::Failed(e) => final(self)@ == old(self)@ && (r matches
                    ProbeNext::Failed(error) && error@ == e@),
                _ => final(self)@ == old(self)@ && r is Enough,
            },
    {
        match read {
            ProbeRead::Line(line) => if self.on_line(line.as_str()) {
                ProbeNext::Enough
            } else {
                ProbeNext::ReadOn
            },
            ProbeRead::Eof => ProbeNext::Enough,
            ProbeRead::Quiet => ProbeNext::Enough,
            ProbeRead::Failed(e) => ProbeNext::Failed(e),
        }
    }

    /// What the probe found of the tunnel on this interface.
    pub fn finish(self, interface: &str) -> (r: Result<VpnInfo, PlatformError>)
        ensures
            match r {
                Ok(info) => self@.connected && info@ == (InfoModel {
                    interface: interface@,
                    dns: self@.dns,
                    demote: None,
                }),
                Err(e) => !self@.connected && e@ == ErrorModel::VpnNotFound(interface@),
            },
            probed(self@, interface@) == match r {
                Ok(info) => Ok(info@),
                Err(e) => Err(e@),
            },
    {
        if !self.connected {
            return Err(PlatformError::VpnNotFound(interface.to_owned()));
        }
        Ok(
            VpnInfo {
                interface_name: interface.to_owned(),
                dns_servers: self.dns,
                demote_target: None,
            },
        )
    }
}

// ---------------------------------------------------------------------------
// Laws
// ---------------------------------------------------------------------------

/// A dropped management connection is never reported as the VPN going down:
/// making it anew reports nothing by itself.
pub proof fn law_reconnecting_reports_no_down(w: TunnelModel, line: Text)
    ensures
        ({
            let again = TunnelModel { resampling: true, push_seen: false, ..w };
            after_line(again, line).1 matches Some(EventModel::Down(_)) ==> state_of(line) is Some
                && transition_named((state_of(line)->0).1) == Some(Transition::Down)
        }),
{
}

/// The same tunnel, found connected again with the same servers, is not
/// reported again; its servers are kept even when they are not pushed anew.
pub proof fn law_same_tunnel_is_not_reported_again(w: TunnelModel, time: u64)
    requires
        w.last == Some(Transition::Up),
        w.connected_at == Some(time),
        w.last_dns == w.reported_dns,
    ensures
        ({
            let again = TunnelModel { resampling: true, push_seen: false, ..w };
            &&& after_connected(again, time).1 is None
            &&& after_connected(again, time).0.last_dns == w.last_dns
        }),
{
}

/// A tunnel that was restarted while the connection was down, and has pushed
/// nothing since, is reported without servers: those of the tunnel before
/// are not reused.
pub proof fn law_new_tunnel_does_not_reuse_servers(w: TunnelModel, time: u64)
    requires
        w.last == Some(Transition::Up),
        w.connected_at != Some(time),
        w.reported_dns.len() > 0,
    ensures
        ({
            let again = TunnelModel { resampling: true, push_seen: false, ..w };
            after_connected(again, time).1 == Some(up_event(w, Seq::empty()))
        }),
{
}

/// The servers of a session are not reused after it went down.
pub proof fn law_down_forgets_the_servers(w: TunnelModel, time: u64)
    requires
        w.last == Some(Transition::Up),
    ensures
        ({
            let down = after_disconnected(w).0;
            after_connected(down, time).1 == Some(up_event(w, Seq::empty()))
        }),
{
}

/// The wait between connections never exceeds its limit. It grows with every
/// failure until it reaches that, unless a healthy session came between.
pub proof fn law_backoff_is_capped(backoff: u64, session: Option<u64>)
    requires
        INITIAL_BACKOFF <= backoff <= MAX_BACKOFF,
    ensures
        ({
            let (wait, next) = retried(backoff, session);
            &&& INITIAL_BACKOFF <= wait <= MAX_BACKOFF
            &&& wait <= next <= MAX_BACKOFF
            &&& wait < MAX_BACKOFF ==> wait < next
            &&& !(session is Some && session->0 >= MIN_HEALTHY_SESSION) ==> wait == backoff
        }),
{
}

/// Is the line a state line with this state, and no push reply?
pub open spec fn tells(line: Text, state: Text) -> bool {
    &&& !has_part(line, "PUSH_REPLY"@)
    &&& state_of(line) is Some
    &&& (state_of(line)->0).1 == state
}

/// After a push reply the servers held are exactly those it names, whatever
/// was reported before; nothing is reported on account of it.
pub proof fn law_a_push_replaces_the_servers(w: TunnelModel, push: Text)
    requires
        has_part(push, "PUSH_REPLY"@),
    ensures
        after_line(w, push) == (
            TunnelModel { last_dns: pushed_dns(push), push_seen: true, ..w },
            None::<EventModel>,
        ),
{
}

/// An up that follows a push reply carries exactly the servers that it names,
/// unless the tunnel was up already and is not sampled anew; if it is, the up
/// is news only if they differ from those reported.
pub proof fn law_an_up_carries_what_was_pushed(w: TunnelModel, push: Text, line: Text)
    requires
        has_part(push, "PUSH_REPLY"@),
        tells(line, "CONNECTED"@),
    ensures
        ({
            let pushed = after_line(w, push).0;
            let (after, event) = after_line(pushed, line);
            let up = EventModel::Up(
                InfoModel { interface: w.interface, dns: pushed_dns(push), demote: None },
            );
            &&& w.last != Some(Transition::Up) ==> event == Some(up)
            &&& w.last == Some(Transition::Up) && w.resampling ==> event == if pushed_dns(push)
                == w.reported_dns {
                None
            } else {
                Some(up)
            }
            &&& w.last == Some(Transition::Up) && !w.resampling ==> event is None
            &&& after.last == Some(Transition::Up)
            &&& after.last_dns == pushed_dns(push)
            &&& after.interface == w.interface
            &&& event is Some ==> after.reported_dns == pushed_dns(push) && after.connected_at
                == Some((state_of(line)->0).0)
        }),
{
}

/// A tunnel that reconnects is reported down and then up again, with the
/// servers that were pushed in between; those from before are not kept.
pub proof fn law_a_reconnect_is_reported_again(
    w: TunnelModel,
    down: Text,
    push: Text,
    up: Text,
)
    requires
        w.last != Some(Transition::Down),
        tells(down, "RECONNECTING"@) || tells(down, "EXITING"@),
        has_part(push, "PUSH_REPLY"@),
        tells(up, "CONNECTED"@),
    ensures
        ({
            let gone = after_line(w, down);
            let pushed = after_line(gone.0, push);
            &&& gone.1 == Some(EventModel::Down(w.interface))
            &&& gone.0.last_dns.len() == 0
            &&& pushed.1 is None
            &&& after_line(pushed.0, up).1 == Some(
                EventModel::Up(
                    InfoModel { interface: w.interface, dns: pushed_dns(push), demote: None },
                ),
            )
            &&& after_line(gone.0, up).1 == Some(
                EventModel::Up(
                    InfoModel { interface: w.interface, dns: Seq::empty(), demote: None },
                ),
            )
        }),
{
    reveal_strlit("CONNECTED");
    reveal_strlit("EXITING");
    reveal_strlit("RECONNECTING");
}

/// A down is reported once, and what was pushed is forgotten with it; a down
/// after a down changes nothing that is known of the tunnel.
pub proof fn law_a_down_is_reported_once(w: TunnelModel, line: Text)
    requires
        tells(line, "RECONNECTING"@) || tells(line, "EXITING"@),
    ensures
        after_line(w, line).0.last == Some(Transition::Down),
        w.last != Some(Transition::Down) ==> after_line(w, line).1 == Some(
            EventModel::Down(w.interface),
        ) && after_line(w, line).0.last_dns.len() == 0,
        w.last == Some(Transition::Down) ==> after_line(w, line).1 is None && after_line(
            w,
            line,
        ).0.last_dns == w.last_dns,
        after_line(w, line).0.interface == w.interface,
{
    reveal_strlit("CONNECTED");
    reveal_strlit("EXITING");
    reveal_strlit("RECONNECTING");
}

/// A line that is neither a push reply nor a definite state changes nothing.
pub proof fn law_other_lines_change_nothing(w: TunnelModel, line: Text)
    requires
        !has_part(line, "PUSH_REPLY"@),
        !tells(line, "CONNECTED"@),
        !tells(line, "RECONNECTING"@),
        !tells(line, "EXITING"@),
    ensures
        after_line(w, line) == (w, None::<EventModel>),
{
}

/// Making the connection anew keeps all that is known. The tunnel then found
/// connected has the servers pushed since; else those from before if it is
/// the same tunnel, and none if it is not. It is reported if they differ.
pub proof fn law_a_new_connection_samples_the_tunnel(w: TunnelModel, line: Text)
    requires
        w.last == Some(Transition::Up),
        tells(line, "CONNECTED"@),
    ensures
        ({
            let again = after_connect(w);
            let same = w.connected_at == Some((state_of(line)->0).0);
            let dns = if same {
                w.last_dns
            } else {
                Seq::empty()
            };
            let (after, event) = after_line(again, line);
            &&& again.last == w.last && again.last_dns == w.last_dns && again.reported_dns
                == w.reported_dns && again.connected_at == w.connected_at && again.interface
                == w.interface
            &&& after.last_dns == dns
            &&& event == if dns == w.reported_dns {
                None
            } else {
                Some(
                    EventModel::Up(InfoModel { interface: w.interface, dns, demote: None }),
                )
            }
        }),
{
}

/// A probe goes by the last definite state and by the last push reply that
/// named servers, and has read enough at its second `END`.
pub proof fn law_a_probe_goes_by_the_last_word(p: ProbeModel, line: Text)
    requires
        trimmed_end(line) == line,
    ensures
        line == "END"@ && p.ends_seen < 2 ==> probe_line(p, line) == (ProbeModel {
            ends_seen: (p.ends_seen + 1) as u32,
            ..p
        }),
        line != "END"@ && has_part(line, "PUSH_REPLY"@) && pushed_dns(line).len() > 0
            ==> probe_line(p, line) == (ProbeModel { dns: pushed_dns(line), ..p }),
        line != "END"@ && has_part(line, "PUSH_REPLY"@) && pushed_dns(line).len() == 0
            ==> probe_line(p, line) == p,
        line != "END"@ && tells(line, "CONNECTED"@) ==> probe_line(p, line) == (ProbeModel {
            connected: true,
            ..p
        }),
        line != "END"@ && (tells(line, "EXITING"@) || tells(line, "RECONNECTING"@)) ==> probe_line(
            p,
            line,
        ) == (ProbeModel { connected: false, ..p }),
        line != "END"@ && !has_part(line, "PUSH_REPLY"@) && !tells(line, "CONNECTED"@) && !tells(
            line,
            "EXITING"@,
        ) && !tells(line, "RECONNECTING"@) ==> probe_line(p, line) == p,
        END_TERMINATED_REPLIES == 2,
{
    reveal_strlit("CONNECTED");
    reveal_strlit("EXITING");
    reveal_strlit("RECONNECTING");
}

/// The waits between connections start at one second, double, and stay at
/// thirty; a session of ten seconds starts them over.
pub proof fn law_waits_double_up_to_thirty_seconds(backoff: u64, elapsed: u64)
    requires
        1 <= backoff <= 30,
    ensures
        INITIAL_BACKOFF == 1,
        retried(backoff, None).0 == backoff,
        backoff <= 15 ==> retried(backoff, None).1 == 2 * backoff,
        backoff > 15 ==> retried(backoff, None).1 == 30,
        elapsed < 10 ==> retried(backoff, Some(elapsed)) == retried(backoff, None),
        elapsed >= 10 ==> retried(backoff, Some(elapsed)) == (1int, 2int),
{
}

/// A tunnel that connects after it pushed servers is found by a probe, and by
/// a new watch, with all of these servers; one that does not is not.
pub proof fn law_a_connected_tunnel_is_found(interface: Text, push: Text, up: Text)
    requires
        trimmed_end(push) == push && trimmed_end(up) == up,
        push != "END"@ && up != "END"@,
        has_part(push, "PUSH_REPLY"@),
        pushed_dns(push).len() > 0,
        tells(up, "CONNECTED"@),
    ensures
        ({
            let p = probe_line(probe_line(fresh_probe(), push), up);
            probed(p, interface) == Ok::<InfoModel, ErrorModel>(
                InfoModel { interface, dns: pushed_dns(push), demote: None },
            )
        }),
        probed(probe_line(fresh_probe(), push), interface) is Err,
        probed(fresh_probe(), interface) is Err,
        ({
            let w = after_line(fresh_watch(interface), push).0;
            after_line(w, up).1 == Some(
                EventModel::Up(InfoModel { interface, dns: pushed_dns(push), demote: None }),
            )
        }),
{
    law_a_probe_goes_by_the_last_word(fresh_probe(), push);
    law_a_probe_goes_by_the_last_word(probe_line(fresh_probe(), push), up);
}

/// The password is the first line of its file, without the line's end.
pub proof fn law_the_password_is_the_first_line(password: Text, rest: Text)
    requires
        forall|k: int| 0 <= k < password.len() ==> password[k] != '\n' && password[k] != '\r',
    ensures
        first_line(password) == password,
        first_line(password.push('\n') + rest) == password,
{
    crate::text::law_lines_end_at_line_feeds(password, rest);
}

/// A tunnel is sampled once in a connection: once it was seen connected,
/// seeing it connected again reports and changes nothing. One that went down
/// is not sampled but reported when it comes up.
pub proof fn law_a_tunnel_is_sampled_once(w: TunnelModel, up: Text, again: Text, down: Text)
    requires
        tells(up, "CONNECTED"@),
        tells(again, "CONNECTED"@),
        tells(down, "EXITING"@) || tells(down, "RECONNECTING"@),
    ensures
        ({
            let seen = after_line(w, up).0;
            &&& after_line(seen, again) == (seen, None::<EventModel>)
            &&& !seen.resampling || (w.last == Some(Transition::Up) && !w.resampling)
            &&& !after_line(w, down).0.resampling
        }),
{
    law_a_down_is_reported_once(w, down);
}

} // verus!
