//! Following a device through NetworkManager's signals.
//!
//! The device need not exist: it is created when the VPN client starts, and
//! goes away with it.

use vstd::prelude::*;
use crate::detector::linux::state::{transition, transition_of, Deduper, Transition};
use crate::platform::{EventModel, InfoModel, PlatformError, VpnEvent, VpnInfo};
use crate::text::{opt_text, Text};

verus! {

/// The watch of one interface.
#[derive(Debug, PartialEq, Eq)]
pub struct DeviceWatch {
    pub interface: String,
    /// The path of the device that is followed, if any.
    pub device: Option<String>,
    pub dedup: Deduper,
}

/// The value of a [`DeviceWatch`].
pub struct WatchModel {
    pub interface: Text,
    pub device: Option<Text>,
    pub last: Option<Transition>,
}

impl View for DeviceWatch {
    type V = WatchModel;

    open spec fn view(&self) -> WatchModel {
        WatchModel {
            interface: self.interface@,
            device: opt_text(self.device),
            last: self.dedup.last,
        }
    }
}

/// What a device state asks for.
#[derive(Debug, PartialEq, Eq)]
pub enum StateAction {
    Ignore,
    /// Look up what the VPN pushed: [`DeviceWatch::on_detected`].
    Detect,
    Emit(VpnEvent),
}

/// The value of a [`StateAction`].
pub enum ActionModel {
    Ignore,
    Detect,
    Emit(EventModel),
}

impl View for StateAction {
    type V = ActionModel;

    open spec fn view(&self) -> ActionModel {
        match self {
            StateAction::Ignore => ActionModel::Ignore,
            StateAction::Detect => ActionModel::Detect,
            StateAction::Emit(e) => ActionModel::Emit(e@),
        }
    }
}

/// Report a down, unless the last report was one.
pub open spec fn after_down(w: WatchModel) -> (WatchModel, ActionModel) {
    if w.last == Some(Transition::Down) {
        (w, ActionModel::Ignore)
    } else {
        (
            WatchModel { last: Some(Transition::Down), ..w },
            ActionModel::Emit(EventModel::Down(w.interface)),
        )
    }
}

/// A device state was seen.
pub open spec fn after_state(w: WatchModel, state: u32) -> (WatchModel, ActionModel) {
    match transition_of(state) {
        None => (w, ActionModel::Ignore),
        Some(t) => if w.last == Some(t) {
            (w, ActionModel::Ignore)
        } else if t == Transition::Up {
            (w, ActionModel::Detect)
        } else {
            after_down(w)
        },
    }
}

/// What the VPN pushed is known, or could not be found out. An up is reported
/// with or without resolvers; only one with resolvers counts as the last
/// report. One without leaves nothing on record: a later up is looked into
/// again, and the down that follows is reported.
pub open spec fn after_detect(w: WatchModel, result: Option<InfoModel>) -> (
    WatchModel,
    ActionModel,
) {
    match result {
        None => (w, ActionModel::Ignore),
        Some(info) => (
            WatchModel {
                last: if info.dns.len() > 0 {
                    Some(Transition::Up)
                } else {
                    None
                },
                ..w
            },
            ActionModel::Emit(EventModel::Up(info)),
        ),
    }
}

/// The device at `path` is followed now, and is in `state`.
pub open spec fn after_subscribed(w: WatchModel, path: Text, state: u32) -> (
    WatchModel,
    ActionModel,
) {
    after_state(WatchModel { device: Some(path), ..w }, state)
}

/// The device at `path` went away.
pub open spec fn after_removed(w: WatchModel, path: Text) -> (WatchModel, ActionModel) {
    if w.device == Some(path) {
        after_down(WatchModel { device: None, ..w })
    } else {
        (w, ActionModel::Ignore)
    }
}

impl DeviceWatch {
    /// A watch of this interface, with no device seen yet.
    pub fn new(interface: &str) -> (r: DeviceWatch)
        ensures
            r@ == (WatchModel { interface: interface@, device: None, last: None }),
    {
        DeviceWatch {
            interface: interface.to_owned(),
            device: None,
            dedup: Deduper { last: None },
        }
    }

    /// A device appeared: whether it is the one to follow, given the name of
    /// its interface, if that could be read.
    pub fn on_device_added(&self, name: &Option<String>) -> (r: bool)
        ensures
            r == (opt_text(*name) == Some(self@.interface)),
    {
        match name {
            Some(name) => *name == self.interface,
            None => false,
        }
    }

    /// The device at `path` is followed now, and is in `state`. It may have
    /// come up before it could be followed, so its state is taken at once.
    pub fn on_subscribed(&mut self, path: String, state: u32) -> (r: StateAction)
        ensures
            (final(self)@, r@) == after_state(
                WatchModel { device: Some(path@), ..old(self)@ },
                state,
            ),
            (final(self)@, r@) == after_subscribed(old(self)@, path@, state),
    {
        self.device = Some(path);
        self.handle_state(state)
    }

    /// A device went away. If it is the one that is followed, the VPN is down.
    pub fn on_device_removed(&mut self, path: &str) -> (r: StateAction)
        ensures
            (final(self)@, r@) == if old(self)@.device == Some(path@) {
                after_down(WatchModel { device: None, ..old(self)@ })
            } else {
                (old(self)@, ActionModel::Ignore)
            },
            (final(self)@, r@) == after_removed(old(self)@, path@),
    {
        let followed = match &self.device {
            Some(device) => crate::text::same_text(device.as_str(), path),
            None => false,
        };
        if !followed {
            return StateAction::Ignore;
        }
        self.device = None;
        self.emit_down()
    }

    /// The signals of the device ended.
    pub fn on_stream_end(&mut self)
        ensures
            final(self)@ == (WatchModel { device: None, ..old(self)@ }),
    {
        self.device = None;
    }

    /// The device is in a new state.
    pub fn handle_state(&mut self, new_state: u32) -> (r: StateAction)
        ensures
            (final(self)@, r@) == after_state(old(self)@, new_state),
    {
        match transition(new_state) {
            None => StateAction::Ignore,
            Some(t) => {
                if self.dedup.is_dup(t) {
                    return StateAction::Ignore;
                }
                match t {
                    Transition::Up => StateAction::Detect,
                    Transition::Down => self.emit_down(),
                }
            },
        }
    }

    /// What the VPN pushed is known, or could not be found out.
    pub fn on_detected(&mut self, result: Result<VpnInfo, PlatformError>) -> (r: StateAction)
        ensures
            (final(self)@, r@) == after_detect(
                old(self)@,
                match result {
                    Ok(info) => Some(info@),
                    Err(_) => None,
                },
            ),
    {
        match result {
            Err(_) => StateAction::Ignore,
            Ok(info) => {
                if info.dns_servers.len() > 0 {
                    self.dedup.record(Transition::Up);
                } else {
                    self.dedup.reset();
                }
                StateAction::Emit(VpnEvent::Up(info))
            },
        }
    }

    fn emit_down(&mut self) -> (r: StateAction)
        ensures
            (final(self)@, r@) == after_down(old(self)@),
    {
        match self.dedup.push(Transition::Down) {
            None => StateAction::Ignore,
            Some(_) => StateAction::Emit(
                VpnEvent::Down { interface_name: self.interface.clone() },
            ),
        }
    }
}

/// After an up was reported, with or without resolvers, the next down is
/// reported too.
pub proof fn law_a_down_follows_every_up(w: WatchModel, info: InfoModel, state: u32)
    requires
        transition_of(state) == Some(Transition::Down),
    ensures
        ({
            let up = after_detect(w, Some(info)).0;
            after_state(up, state).1 == ActionModel::Emit(EventModel::Down(w.interface))
        }),
{
}

/// After an up without resolvers, an activation is looked into again.
pub proof fn law_an_empty_up_is_looked_into_again(w: WatchModel, info: InfoModel, state: u32)
    requires
        info.dns.len() == 0,
        transition_of(state) == Some(Transition::Up),
    ensures
        after_state(after_detect(w, Some(info)).0, state).1 == ActionModel::Detect,
{
}

/// A down is never reported twice in a row.
pub proof fn law_downs_are_not_repeated(w: WatchModel, state: u32)
    requires
        transition_of(state) == Some(Transition::Down),
    ensures
        after_state(after_down(w).0, state) == (after_down(w).0, ActionModel::Ignore),
{
}

/// An activated device is looked into unless the last report was an up: after
/// a down, and at first, every activation is. After an up it is not news.
pub proof fn law_an_activation_is_looked_into(w: WatchModel, path: Text)
    ensures
        w.last != Some(Transition::Up) ==> after_state(w, 100) == (w, ActionModel::Detect),
        w.last == Some(Transition::Up) ==> after_state(w, 100) == (w, ActionModel::Ignore),
        w.last != Some(Transition::Up) ==> after_subscribed(w, path, 100).1 == ActionModel::Detect,
        after_subscribed(w, path, 100).0 == (WatchModel { device: Some(path), ..w }),
{
}

/// A device that is disconnected, going down or failed is reported down, under
/// the watched interface's name, unless the last report was a down.
pub proof fn law_a_device_that_goes_down_is_reported(w: WatchModel, state: u32, path: Text)
    requires
        state == 30 || state == 110 || state == 120,
    ensures
        w.last != Some(Transition::Down) ==> after_state(w, state) == (
            WatchModel { last: Some(Transition::Down), ..w },
            ActionModel::Emit(EventModel::Down(w.interface)),
        ),
        w.last == Some(Transition::Down) ==> after_state(w, state) == (w, ActionModel::Ignore),
        after_subscribed(w, path, state).1 == after_state(w, state).1,
        after_subscribed(w, path, state).0.device == Some(path),
        after_subscribed(w, path, state).0.last == after_state(w, state).0.last,
{
}

/// The stages in between, and states that are not known, change nothing.
pub proof fn law_other_states_change_nothing(w: WatchModel, state: u32)
    requires
        state != 30,
        state != 100,
        state != 110,
        state != 120,
    ensures
        after_state(w, state) == (w, ActionModel::Ignore),
{
}

/// What was found out of an activated device is reported as it is. With
/// resolvers it is the last report; a failure to find out changes nothing.
pub proof fn law_what_was_found_is_reported(w: WatchModel, info: InfoModel)
    ensures
        after_detect(w, Some(info)).1 == ActionModel::Emit(EventModel::Up(info)),
        after_detect(w, Some(info)).0.interface == w.interface,
        after_detect(w, Some(info)).0.device == w.device,
        info.dns.len() > 0 ==> after_detect(w, Some(info)).0.last == Some(Transition::Up),
        info.dns.len() == 0 ==> after_detect(w, Some(info)).0.last is None,
        after_detect(w, None) == (w, ActionModel::Ignore),
{
}

/// A VPN that comes up, goes down and comes up again is looked into and
/// reported each time.
pub proof fn law_a_reconnect_is_reported_again(
    w: WatchModel,
    first: InfoModel,
    down: u32,
    second: InfoModel,
)
    requires
        down == 30 || down == 110 || down == 120,
    ensures
        ({
            let up = after_detect(w, Some(first)).0;
            let gone = after_state(up, down);
            let again = after_state(gone.0, 100);
            &&& gone.1 == ActionModel::Emit(EventModel::Down(w.interface))
            &&& again.1 == ActionModel::Detect
            &&& after_detect(again.0, Some(second)).1 == ActionModel::Emit(EventModel::Up(second))
        }),
{
}

/// The device that is followed going away is the VPN going down, and it is
/// followed no more; any other device going away changes nothing.
pub proof fn law_a_device_that_goes_away_is_down(w: WatchModel, path: Text)
    ensures
        w.device != Some(path) ==> after_removed(w, path) == (w, ActionModel::Ignore),
        w.device == Some(path) ==> {
            &&& after_removed(w, path).0.device is None
            &&& after_removed(w, path).0.interface == w.interface
            &&& after_removed(w, path).0.last == Some(Transition::Down)
            &&& w.last != Some(Transition::Down) ==> after_removed(w, path).1 == ActionModel::Emit(
                EventModel::Down(w.interface),
            )
            &&& w.last == Some(Transition::Down) ==> after_removed(w, path).1 is Ignore
        },
{
}

} // verus!
