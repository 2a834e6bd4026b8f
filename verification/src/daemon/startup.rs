//! Starting and stopping: the configuration file, its watch, and the tools
//! the daemon runs.

use vstd::prelude::*;
use crate::config::{ConfigModel, LocalConfig, OpenVpnModel, VpnBackend};
use crate::detector::linux::openvpn::session::OpenVpnDetector;
use crate::paths::{
    before_slash, ends_in_name, file_name_of, is_bare_name, is_slashed, may_be_file_name,
    may_be_parent, parent_of, parent_path, parts_at, path_of,
};
use crate::text::{concat2, concat3, opt_text, same_text, Text};

verus! {

/// The configuration file, at a place fixed at launch.
#[derive(Debug, PartialEq, Eq)]
pub struct FileConfigStore {
    path: String,
}

impl FileConfigStore {
    /// The path of the file.
    pub closed spec fn spec_path(self) -> Text {
        self.path@
    }

    /// The file at this path.
    pub fn new(path: String) -> (r: FileConfigStore)
        ensures
            r.spec_path() == path@,
    {
        FileConfigStore { path }
    }

    /// Where the configuration lives, for clients to see.
    pub fn describe(&self) -> (r: String)
        ensures
            r@ == self.spec_path(),
    {
        self.path.clone()
    }
}

/// Which detector a configuration asks for.
#[derive(Debug, PartialEq, Eq)]
pub enum DetectorChoice {
    NetworkManager,
    OpenVpn(OpenVpnDetector),
}

/// How the OpenVPN process is reached that this configuration asks to follow;
/// nothing where it asks for NetworkManager.
pub open spec fn chosen(config: ConfigModel) -> Option<OpenVpnModel> {
    match config.backend {
        VpnBackend::NetworkManager => None,
        VpnBackend::OpenVpn => Some(config.openvpn),
    }
}

/// Chooses the detector of the platform.
pub struct PlatformDetectorFactory;

impl PlatformDetectorFactory {
    /// The detector this configuration asks for, where there is a choice.
    pub fn create(&self, config: &LocalConfig) -> (r: DetectorChoice)
        ensures
            match r {
                DetectorChoice::NetworkManager => config@.backend == VpnBackend::NetworkManager,
                DetectorChoice::OpenVpn(d) => {
                    &&& config@.backend == VpnBackend::OpenVpn
                    &&& d.management@ == config@.openvpn.management
                    &&& opt_text(d.password_file) == config@.openvpn.password_file
                },
            },
            chosen(config@) == match r {
                DetectorChoice::NetworkManager => None,
                DetectorChoice::OpenVpn(d) => Some(
                    OpenVpnModel {
                        management: d.management@,
                        password_file: opt_text(d.password_file),
                    },
                ),
            },
    {
        match config.vpn_backend {
            VpnBackend::NetworkManager => DetectorChoice::NetworkManager,
            VpnBackend::OpenVpn => DetectorChoice::OpenVpn(
                OpenVpnDetector::from_config(&config.openvpn),
            ),
        }
    }
}

/// The directory to watch for a file with this parent, if it has one.
pub open spec fn watched(parent: Option<Text>) -> Option<Text> {
    match parent {
        None => None,
        Some(dir) => if dir.len() == 0 {
            Some("."@)
        } else {
            Some(dir)
        },
    }
}

/// The directory to watch for a file with this parent, if it has one. A bare
/// name has an empty parent: it is looked for in the current directory.
pub fn watch_parent(parent: Option<String>) -> (r: Option<String>)
    ensures
        opt_text(r) == watched(opt_text(parent)),
{
    match parent {
        None => None,
        Some(dir) => if dir.as_str().is_empty() {
            Some(".".to_owned())
        } else {
            Some(dir)
        },
    }
}

/// The directory to watch for changes of the configuration file at this path:
/// its parent, or the current directory for a bare name. A root has none.
pub fn watch_dir(config_path: &str) -> (r: Option<String>)
    ensures
        exists|parent: Option<Text>| #[trigger]
            may_be_parent(config_path@, parent) && opt_text(r) == watched(parent),
        is_bare_name(config_path@) ==> opt_text(r) == Some("."@),
        forall|i: int| #[trigger]
            parts_at(config_path@, i) ==> opt_text(r) == Some(before_slash(config_path@, i)),
        is_slashed(config_path@) ==> match opt_text(r) {
            Some(dir) => {
                let m = path_of(config_path@);
                ||| m.names.len() > 0 && path_of(dir) == parent_path(m)
                ||| m.names.len() > 0 && parent_path(m) == path_of(Seq::empty()) && dir == "."@
                ||| m.names.len() == 0 && m.dotted && dir == "."@
            },
            None => path_of(config_path@).names.len() == 0 && !path_of(config_path@).dotted,
        },
        ends_in_name(config_path@) ==> r is Some,
        config_path@ == "/"@ ==> r is None,
{
    let parent = parent_of(config_path);
    let ghost found = opt_text(parent);
    let dir = watch_parent(parent);
    assert(may_be_parent(config_path@, found) && opt_text(dir) == watched(found));
    assert(found == Some(Seq::<char>::empty()) || found is None || (found->0).len() > 0) by {
        if found is Some && (found->0).len() == 0 {
            assert(found->0 =~= Seq::empty());
        }
    }
    dir
}

/// The name under which changes of the configuration file at this path are
/// reported, if it has one.
pub fn watched_file(config_path: &str) -> (r: Option<String>)
    ensures
        may_be_file_name(config_path@, opt_text(r)),
        is_bare_name(config_path@) && config_path@ != "."@ && config_path@ != ".."@ ==> opt_text(r)
            == Some(config_path@),
        forall|i: int| #[trigger]
            parts_at(config_path@, i) ==> opt_text(r) == Some(config_path@.skip(i + 1)),
        is_slashed(config_path@) && path_of(config_path@).names.len() > 0 ==> opt_text(r) == {
            let last = path_of(config_path@).names.last();
            if last == ".."@ {
                None
            } else {
                Some(last)
            }
        },
        is_slashed(config_path@) && path_of(config_path@).names.len() == 0 ==> path_of(
            config_path@,
        ).dotted || r is None,
        ends_in_name(config_path@) ==> r is Some,
        config_path@ == "/"@ || config_path@ == ".."@ ==> r is None,
{
    file_name_of(config_path)
}

/// Is one of the files of this name?
pub open spec fn names_file(changed: Seq<Option<String>>, name: Text) -> bool {
    exists|i: int| 0 <= i < changed.len() && opt_text(#[trigger] changed[i]) == Some(name)
}

/// Does a change touch the configuration file: is one of the changed files,
/// told by their names, of its name?
pub fn touches_config(changed: &Vec<Option<String>>, name: &str) -> (r: bool)
    ensures
        r == exists|i: int|
            0 <= i < changed@.len() && opt_text(#[trigger] changed@[i]) == Some(name@),
        r == names_file(changed@, name@),
{
    let mut i: usize = 0;
    while i < changed.len()
        invariant
            i <= changed.len(),
            forall|k: int| 0 <= k < i ==> opt_text(#[trigger] changed@[k]) != Some(name@),
        decreases changed.len() - i,
    {
        if let Some(file) = &changed[i] {
            if same_text(file.as_str(), name) {
                assert(opt_text(changed@[i as int]) == Some(name@));
                return true;
            }
        }
        i += 1;
    }
    false
}

/// How reading the configuration failed.
#[derive(Debug, PartialEq, Eq)]
pub enum LoadFailure {
    NotFound,
    Other(String),
}

/// What to do at launch about the configuration.
#[derive(Debug, PartialEq, Eq)]
pub enum InitStep {
    /// Run on this configuration.
    Use(LocalConfig),
    /// Create an empty file, and read it: [`created_config`].
    Create,
    /// Give up, for this reason.
    GiveUp(String),
}

/// The value of an [`InitStep`].
pub enum InitModel {
    Use(ConfigModel),
    Create,
    GiveUp(Text),
}

impl View for InitStep {
    type V = InitModel;

    open spec fn view(&self) -> InitModel {
        match self {
            InitStep::Use(config) => InitModel::Use(config@),
            InitStep::Create => InitModel::Create,
            InitStep::GiveUp(reason) => InitModel::GiveUp(reason@),
        }
    }
}

/// What to do at launch, given the configuration or why it could not be read:
/// nothing stands for a file that does not exist.
pub open spec fn on_load(result: Result<ConfigModel, Option<Text>>) -> InitModel {
    match result {
        Ok(config) => InitModel::Use(config),
        Err(None) => InitModel::Create,
        Err(Some(e)) => InitModel::GiveUp("failed to read config: "@ + e),
    }
}

/// What to do at launch once an empty configuration was created, or could not
/// be, and read.
pub open spec fn on_created(
    created: Result<(), Text>,
    reread: Result<ConfigModel, Text>,
) -> InitModel {
    match created {
        Err(e) => InitModel::GiveUp("failed to create empty config: "@ + e),
        Ok(_) => match reread {
            Ok(config) => InitModel::Use(config),
            Err(e) => InitModel::GiveUp("failed to read freshly created config: "@ + e),
        },
    }
}

/// The configuration was read at launch, or could not be. One that does not
/// exist is created.
pub fn load_or_init_config(result: Result<LocalConfig, LoadFailure>) -> (r: InitStep)
    ensures
        match result {
            Ok(config) => r matches InitStep::Use(c) && c@ == config@,
            Err(LoadFailure::NotFound) => r is Create,
            Err(LoadFailure::Other(e)) => r matches InitStep::GiveUp(m) && m@
                == "failed to read config: "@ + e@,
        },
        r@ == on_load(
            match result {
                Ok(config) => Ok(config@),
                Err(LoadFailure::NotFound) => Err(None),
                Err(LoadFailure::Other(e)) => Err(Some(e@)),
            },
        ),
{
    match result {
        Ok(config) => InitStep::Use(config),
        Err(LoadFailure::NotFound) => InitStep::Create,
        Err(LoadFailure::Other(e)) => InitStep::GiveUp(
            concat2("failed to read config: ", e.as_str()),
        ),
    }
}

/// An empty configuration was created, or could not be, and then read, or
/// could not be.
pub fn created_config(
    created: Result<(), String>,
    reread: Result<LocalConfig, String>,
) -> (r: InitStep)
    ensures
        match created {
            Err(e) => r matches InitStep::GiveUp(m) && m@ == "failed to create empty config: "@
                + e@,
            Ok(_) => match reread {
                Ok(config) => r matches InitStep::Use(c) && c@ == config@,
                Err(e) => r matches InitStep::GiveUp(m) && m@
                    == "failed to read freshly created config: "@ + e@,
            },
        },
        r@ == on_created(
            match created {
                Ok(_) => Ok(()),
                Err(e) => Err(e@),
            },
            match reread {
                Ok(config) => Ok(config@),
                Err(e) => Err(e@),
            },
        ),
{
    match created {
        Err(e) => InitStep::GiveUp(concat2("failed to create empty config: ", e.as_str())),
        Ok(_) => match reread {
            Ok(config) => InitStep::Use(config),
            Err(e) => InitStep::GiveUp(
                concat2("failed to read freshly created config: ", e.as_str()),
            ),
        },
    }
}

/// The value of a text, or of a complaint.
pub open spec fn told(r: Result<String, String>) -> Result<Text, Text> {
    match r {
        Ok(s) => Ok(s@),
        Err(e) => Err(e@),
    }
}

/// The interface to revert directly, given the configuration.
pub open spec fn target_of(config: Result<ConfigModel, Text>) -> Result<Text, Text> {
    match config {
        Err(e) => Err("failed to read config: "@ + e),
        Ok(c) => if c.vpn_name.len() == 0 {
            Err("no vpn_name configured to revert"@)
        } else {
            Ok(c.vpn_name)
        },
    }
}

/// What a direct revert of the interface tells the user.
pub open spec fn report_of(interface: Text, result: Result<(), Text>) -> Result<Text, Text> {
    match result {
        Ok(_) => Ok("reverted DNS rules on "@ + interface),
        Err(e) => Err("revert failed on "@ + interface + ": "@ + e),
    }
}

/// The interface to revert directly, given the configuration; it must name
/// one.
pub fn revert_target(config: Result<LocalConfig, String>) -> (r: Result<String, String>)
    ensures
        match config {
            Err(e) => r is Err && (r->Err_0)@ == "failed to read config: "@ + e@,
            Ok(c) => if c@.vpn_name.len() == 0 {
                r is Err && (r->Err_0)@ == "no vpn_name configured to revert"@
            } else {
                r is Ok && (r->Ok_0)@ == c@.vpn_name
            },
        },
        told(r) == target_of(
            match config {
                Ok(c) => Ok(c@),
                Err(e) => Err(e@),
            },
        ),
{
    match config {
        Err(e) => Err(concat2("failed to read config: ", e.as_str())),
        Ok(c) => if c.vpn_name.as_str().is_empty() {
            Err("no vpn_name configured to revert".to_owned())
        } else {
            Ok(c.vpn_name)
        },
    }
}

/// What a direct revert tells the user.
pub fn revert_report(interface: &str, result: Result<(), String>) -> (r: Result<String, String>)
    ensures
        match result {
            Ok(_) => r is Ok && (r->Ok_0)@ == "reverted DNS rules on "@ + interface@,
            Err(e) => r is Err && (r->Err_0)@ == "revert failed on "@ + interface@ + ": "@ + e@,
        },
        told(r) == report_of(
            interface@,
            match result {
                Ok(_) => Ok(()),
                Err(e) => Err(e@),
            },
        ),
{
    match result {
        Ok(_) => Ok(concat2("reverted DNS rules on ", interface)),
        Err(e) => {
            let head = concat3("revert failed on ", interface, ": ");
            Err(concat2(head.as_str(), e.as_str()))
        },
    }
}

/// The detector is the one the configuration asks for, and follows the OpenVPN
/// process it names, with the password file it names.
pub proof fn law_the_configured_detector_is_chosen(config: ConfigModel)
    ensures
        config.backend == VpnBackend::NetworkManager ==> chosen(config) is None,
        config.backend == VpnBackend::OpenVpn ==> (chosen(config) matches Some(openvpn)
            && openvpn.management == config.openvpn.management && openvpn.password_file
            == config.openvpn.password_file),
{
}

/// The parent is watched, and the current directory for one that is empty.
pub proof fn law_the_parent_is_watched(dir: Text)
    ensures
        watched(Some(Seq::empty())) == Some("."@),
        dir.len() > 0 ==> watched(Some(dir)) == Some(dir),
        watched(None) is None,
{
}

/// A change of several files touches the configuration exactly if that of one
/// of them does: it then has its name. One without a name does not.
pub proof fn law_a_change_touches_the_config_by_name(
    a: Seq<Option<String>>,
    b: Seq<Option<String>>,
    file: String,
    name: Text,
)
    ensures
        names_file(seq![Some(file)], name) <==> file@ == name,
        !names_file(seq![None::<String>], name),
        !names_file(Seq::empty(), name),
        names_file(a + b, name) <==> names_file(a, name) || names_file(b, name),
{
    let one = seq![Some(file)];
    if file@ == name {
        assert(opt_text(one[0]) == Some(name));
    }
    if names_file(a, name) {
        let i = choose|i: int| 0 <= i < a.len() && opt_text(#[trigger] a[i]) == Some(name);
        assert(opt_text((a + b)[i]) == Some(name));
    }
    if names_file(b, name) {
        let i = choose|i: int| 0 <= i < b.len() && opt_text(#[trigger] b[i]) == Some(name);
        assert(opt_text((a + b)[a.len() + i]) == Some(name));
    }
    if names_file(a + b, name) {
        let i = choose|i: int|
            0 <= i < (a + b).len() && opt_text(#[trigger] (a + b)[i]) == Some(name);
        if i < a.len() {
            assert(opt_text(a[i]) == Some(name));
        } else {
            assert(opt_text(b[i - a.len()]) == Some(name));
        }
    }
}

/// The daemon runs on the configuration it read, or on the one it created
/// where there was none; whatever else fails ends the launch.
pub proof fn law_a_missing_config_is_created(config: ConfigModel, e: Text)
    ensures
        on_load(Ok(config)) == InitModel::Use(config),
        on_load(Err(None)) is Create,
        on_load(Err(Some(e))) is GiveUp,
        on_created(Ok(()), Ok(config)) == InitModel::Use(config),
        on_created(Ok(()), Err(e)) is GiveUp,
        on_created(Err(e), Ok(config)) is GiveUp,
{
}

/// A direct revert goes by the configured interface, which must be there, and
/// tells success from failure.
pub proof fn law_the_configured_interface_is_reverted(config: ConfigModel, e: Text)
    ensures
        config.vpn_name.len() > 0 ==> target_of(Ok(config)) == Ok::<Text, Text>(config.vpn_name),
        config.vpn_name.len() == 0 ==> target_of(Ok(config)) is Err,
        target_of(Err(e)) is Err,
        report_of(config.vpn_name, Ok(())) is Ok,
        report_of(config.vpn_name, Err(e)) is Err,
{
}

} // verus!
