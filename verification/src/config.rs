//! What a configuration says: which scripts run on which events, and which
//! backend is used.

use crate::capability::{clone_opt, opt_string};
use crate::environment::Variables;
use crate::names::NameSet;
use crate::paths::{expand_path_in, expanded, join_path, joined_path};
use crate::text::{joined, joined3, str_eq};
use crate::value::{
    float_free, json_as_str, json_member, lemma_entries_map, opt_text, same_is_equality, same_json,
    JsonView, StateMap,
};
use vstd::prelude::*;

verus! {

/// Settings that hold for the whole program.
#[derive(Debug)]
pub struct Settings {
    /// The directory of the scripts. A relative one lies below the directory of
    /// the configuration file.
    pub scripts_dir: String,
    /// "trace", "debug", "info", "warn" or "error".
    pub log_level: String,
    /// Variables that every executable script is given.
    pub script_env: Variables,
}

/// Where a bridge listens.
#[derive(Debug)]
pub enum SocketAdapterConfig {
    /// Both sockets, by name.
    Explicit { cmd_socket: String, event_socket: String },
    /// A path from which both sockets follow.
    BasePath { base_path: String },
}

/// The backend to use.
#[derive(Debug)]
pub enum AdapterConfig {
    /// The simulated window manager.
    Mock,
    /// Hyprland, whose socket directory is discovered where none is given.
    Hyprland { socket_dir: Option<String> },
    /// MangoWC and other compositors based on dwl.
    Mangowc,
    /// An external bridge.
    Socket(SocketAdapterConfig),
}

/// Runs a script when an event comes.
#[derive(Debug)]
pub struct Watch {
    /// The name of the event.
    pub event: String,
    /// The script to run.
    pub script: String,
    /// What must hold of the state before the event.
    pub prev: StateMap,
    /// What must hold of the state after the event.
    pub curr: StateMap,
    /// What the watch is for.
    pub description: Option<String>,
    /// A watch that is not enabled never runs.
    pub enabled: bool,
}

/// A script that can be run by name.
#[derive(Debug)]
pub struct Command {
    pub name: String,
    /// The script to run.
    pub script: String,
    /// What the command is for.
    pub description: Option<String>,
}

/// A whole configuration.
#[derive(Debug)]
pub struct Config {
    pub settings: Settings,
    pub adapter: AdapterConfig,
    pub watch: Vec<Watch>,
    pub command: Vec<Command>,
}

pub struct SettingsView {
    pub scripts_dir: Seq<char>,
    pub log_level: Seq<char>,
    pub script_env: Map<Seq<char>, Seq<char>>,
}

pub enum AdapterView {
    Mock,
    Hyprland(Option<Seq<char>>),
    Mangowc,
    Socket { cmd: Seq<char>, event: Seq<char> },
}

pub struct WatchView {
    pub event: Seq<char>,
    pub script: Seq<char>,
    pub prev: Map<Seq<char>, JsonView>,
    pub curr: Map<Seq<char>, JsonView>,
    pub description: Option<Seq<char>>,
    pub enabled: bool,
}

pub struct CommandView {
    pub name: Seq<char>,
    pub script: Seq<char>,
    pub description: Option<Seq<char>>,
}

pub struct ConfigView {
    pub settings: SettingsView,
    pub adapter: AdapterView,
    pub watch: Seq<WatchView>,
    pub command: Seq<CommandView>,
}

impl View for Settings {
    type V = SettingsView;

    open spec fn view(&self) -> SettingsView {
        SettingsView {
            scripts_dir: self.scripts_dir@,
            log_level: self.log_level@,
            script_env: self.script_env@,
        }
    }
}

/// The command socket and the event socket of a bridge.
pub open spec fn bridge_sockets(s: SocketAdapterConfig) -> (Seq<char>, Seq<char>) {
    match s {
        SocketAdapterConfig::Explicit { cmd_socket, event_socket } => (cmd_socket@, event_socket@),
        SocketAdapterConfig::BasePath { base_path } => derived_sockets(base_path@),
    }
}

/// The two sockets that follow from a base path.
pub open spec fn derived_sockets(base: Seq<char>) -> (Seq<char>, Seq<char>) {
    (base + ".sock"@, base + "-events.sock"@)
}

impl View for AdapterConfig {
    type V = AdapterView;

    open spec fn view(&self) -> AdapterView {
        match self {
            AdapterConfig::Mock => AdapterView::Mock,
            AdapterConfig::Hyprland { socket_dir } => AdapterView::Hyprland(
                opt_string(*socket_dir),
            ),
            AdapterConfig::Mangowc => AdapterView::Mangowc,
            AdapterConfig::Socket(s) => AdapterView::Socket {
                cmd: bridge_sockets(*s).0,
                event: bridge_sockets(*s).1,
            },
        }
    }
}

impl View for Watch {
    type V = WatchView;

    open spec fn view(&self) -> WatchView {
        WatchView {
            event: self.event@,
            script: self.script@,
            prev: self.prev@,
            curr: self.curr@,
            description: opt_string(self.description),
            enabled: self.enabled,
        }
    }
}

impl View for Command {
    type V = CommandView;

    open spec fn view(&self) -> CommandView {
        CommandView {
            name: self.name@,
            script: self.script@,
            description: opt_string(self.description),
        }
    }
}

pub open spec fn watches_view(watches: Seq<Watch>) -> Seq<WatchView> {
    Seq::new(watches.len(), |i: int| watches[i]@)
}

pub open spec fn commands_view(commands: Seq<Command>) -> Seq<CommandView> {
    Seq::new(commands.len(), |i: int| commands[i]@)
}

impl View for Config {
    type V = ConfigView;

    open spec fn view(&self) -> ConfigView {
        ConfigView {
            settings: self.settings@,
            adapter: self.adapter@,
            watch: watches_view(self.watch@),
            command: commands_view(self.command@),
        }
    }
}

impl SocketAdapterConfig {
    /// The command socket and the event socket.
    pub fn socket_paths(&self) -> (r: (String, String))
        ensures
            (r.0@, r.1@) == bridge_sockets(*self),
    {
        match self {
            SocketAdapterConfig::Explicit { cmd_socket, event_socket } => (
                cmd_socket.clone(),
                event_socket.clone(),
            ),
            SocketAdapterConfig::BasePath { base_path } => (
                joined(base_path.as_str(), ".sock"),
                joined(base_path.as_str(), "-events.sock"),
            ),
        }
    }
}

/// The name by which a configuration selects a backend.
pub open spec fn adapter_name(a: AdapterView) -> Seq<char> {
    match a {
        AdapterView::Mock => "mock"@,
        AdapterView::Hyprland(_) => "hyprland"@,
        AdapterView::Mangowc => "mangowc"@,
        AdapterView::Socket { .. } => "socket"@,
    }
}

impl AdapterConfig {
    /// The name of the adapter.
    pub fn name(&self) -> (r: &'static str)
        ensures
            r@ == adapter_name(self@),
    {
        match self {
            AdapterConfig::Mock => "mock",
            AdapterConfig::Hyprland { .. } => "hyprland",
            AdapterConfig::Mangowc => "mangowc",
            AdapterConfig::Socket(_) => "socket",
        }
    }
}

impl Default for AdapterConfig {
    fn default() -> (a: AdapterConfig)
        ensures
            a@ == AdapterView::Mock,
    {
        AdapterConfig::Mock
    }
}

/// The string option of an adapter.
pub open spec fn option_text(options: Map<Seq<char>, JsonView>, key: Seq<char>) -> Option<
    Seq<char>,
> {
    json_as_str(json_member(JsonView::Object(options), key))
}

/// The sockets that the options of a socket adapter name. Two explicit paths
/// take precedence over a base path.
pub open spec fn sockets_of_options(options: Map<Seq<char>, JsonView>) -> Result<
    (Seq<char>, Seq<char>),
    Seq<char>,
> {
    match (option_text(options, "cmd_socket"@), option_text(options, "event_socket"@)) {
        (Some(cmd), Some(event)) => Ok((cmd, event)),
        _ => match option_text(options, "base_path"@) {
            Some(base) => Ok(derived_sockets(base)),
            None => Err(
                "Socket adapter requires 'cmd_socket'+'event_socket' or 'base_path' in [adapter]"@,
            ),
        },
    }
}

fn text_option<'a>(options: &'a StateMap, key: &str) -> (r: Option<&'a str>)
    ensures
        opt_text(r) == option_text(options@, key@),
{
    match options.get(key) {
        Some(v) => v.as_str(),
        None => None,
    }
}

/// The sockets that the options of a socket adapter name.
pub fn socket_paths_from_options(options: &StateMap) -> (r: Result<(String, String), String>)
    ensures
        (match r {
            Ok((cmd, event)) => Ok((cmd@, event@)),
            Err(e) => Err(e@),
        }) == sockets_of_options(options@),
{
    match (text_option(options, "cmd_socket"), text_option(options, "event_socket")) {
        (Some(cmd), Some(event)) => Ok((cmd.to_owned(), event.to_owned())),
        _ => match text_option(options, "base_path") {
            Some(base) => Ok((joined(base, ".sock"), joined(base, "-events.sock"))),
            None => Err(
                "Socket adapter requires 'cmd_socket'+'event_socket' or 'base_path' in [adapter]".to_owned(),
            ),
        },
    }
}

/// The adapter that a name and its options select.
pub open spec fn adapter_of_options(name: Seq<char>, options: Map<Seq<char>, JsonView>) -> Result<
    AdapterView,
    Seq<char>,
> {
    if name == "mock"@ {
        Ok(AdapterView::Mock)
    } else if name == "mangowc"@ {
        Ok(AdapterView::Mangowc)
    } else if name == "hyprland"@ {
        Ok(AdapterView::Hyprland(option_text(options, "socket_dir"@)))
    } else if name == "socket"@ {
        match sockets_of_options(options) {
            Ok((cmd, event)) => Ok(AdapterView::Socket { cmd, event }),
            Err(e) => Err(e),
        }
    } else {
        Err("Unknown adapter: '"@ + name + "'"@)
    }
}

/// The adapter that the `[adapter]` section of a configuration selects.
pub fn adapter_from_options(name: &str, options: &StateMap) -> (r: Result<AdapterConfig, String>)
    ensures
        (match r {
            Ok(a) => Ok(a@),
            Err(e) => Err(e@),
        }) == adapter_of_options(name@, options@),
{
    if str_eq(name, "mock") {
        Ok(AdapterConfig::Mock)
    } else if str_eq(name, "mangowc") {
        Ok(AdapterConfig::Mangowc)
    } else if str_eq(name, "hyprland") {
        let socket_dir = match text_option(options, "socket_dir") {
            Some(dir) => Some(dir.to_owned()),
            None => None,
        };
        Ok(AdapterConfig::Hyprland { socket_dir })
    } else if str_eq(name, "socket") {
        match socket_paths_from_options(options) {
            Ok((cmd_socket, event_socket)) => Ok(
                AdapterConfig::Socket(SocketAdapterConfig::Explicit { cmd_socket, event_socket }),
            ),
            Err(e) => Err(e),
        }
    } else {
        Err(joined3("Unknown adapter: '", name, "'"))
    }
}

/// Calls `dirs::config_dir`. Nothing is claimed of the result: it depends on the
/// environment. Paths are texts here: of a directory that is not UTF-8 the text
/// is the one that `to_string_lossy` gives.
#[verifier::external_body]
fn user_config_dir() -> (r: Option<String>) {
    dirs::config_dir().map(|p| p.to_string_lossy().into_owned())
}

/// Calls `dirs::home_dir`. Nothing is claimed of the result: it depends on the
/// environment. Paths are texts here: of a directory that is not UTF-8 the text
/// is the one that `to_string_lossy` gives.
#[verifier::external_body]
fn user_home_dir() -> (r: Option<String>) {
    dirs::home_dir().map(|p| p.to_string_lossy().into_owned())
}

/// The scripts directory of a user: below the configuration directory where
/// there is one, else below the home directory.
pub open spec fn scripts_dir_of(config_dir: Option<Seq<char>>, home: Option<Seq<char>>) -> Seq<
    char,
> {
    match (config_dir, home) {
        (Some(dir), _) => joined_path(dir, "middlesox/scripts"@),
        (None, Some(dir)) => joined_path(dir, ".config/middlesox/scripts"@),
        (None, None) => ".config/middlesox/scripts"@,
    }
}

/// The scripts directory, for what the machine names as the configuration and
/// home directories.
pub fn scripts_dir_in(config_dir: Option<&str>, home: Option<&str>) -> (r: String)
    ensures
        r@ == scripts_dir_of(opt_text(config_dir), opt_text(home)),
{
    match (config_dir, home) {
        (Some(dir), _) => join_path(dir, "middlesox/scripts"),
        (None, Some(dir)) => join_path(dir, ".config/middlesox/scripts"),
        (None, None) => ".config/middlesox/scripts".to_owned(),
    }
}

fn as_text(s: &Option<String>) -> (r: Option<&str>)
    ensures
        opt_text(r) == opt_string(*s),
{
    match s {
        Some(t) => Some(t.as_str()),
        None => None,
    }
}

/// The scripts directory of the user who runs the program.
pub fn default_scripts_dir() -> (r: String)
    ensures
        exists|config_dir: Option<Seq<char>>, home: Option<Seq<char>>|
            r@ == #[trigger] scripts_dir_of(config_dir, home),
{
    let config_dir = user_config_dir();
    let home = user_home_dir();
    let r = scripts_dir_in(as_text(&config_dir), as_text(&home));
    assert(r@ == scripts_dir_of(opt_string(config_dir), opt_string(home)));
    r
}

/// The places where a configuration file is looked for, the first with the
/// highest priority.
pub open spec fn config_places(config_dir: Option<Seq<char>>) -> Seq<Seq<char>> {
    seq![
        "./middlesox.toml"@,
        match config_dir {
            Some(dir) => joined_path(dir, "middlesox/config.toml"@),
            None => ""@,
        },
        "/etc/middlesox/config.toml"@,
    ]
}

/// The places where a configuration is looked for, in order.
pub fn config_candidates_in(config_dir: Option<&str>) -> (r: Vec<String>)
    ensures
        crate::names::texts(r@) == config_places(opt_text(config_dir)),
{
    let user = match config_dir {
        Some(dir) => join_path(dir, "middlesox/config.toml"),
        None => "".to_owned(),
    };
    let mut r: Vec<String> = Vec::new();
    r.push("./middlesox.toml".to_owned());
    r.push(user);
    r.push("/etc/middlesox/config.toml".to_owned());
    assert(crate::names::texts(r@) =~= config_places(opt_text(config_dir)));
    r
}

/// The places where a configuration file of the user who runs the program is
/// looked for.
pub fn config_candidates() -> (r: Vec<String>)
    ensures
        exists|config_dir: Option<Seq<char>>|
            crate::names::texts(r@) == #[trigger] config_places(config_dir),
{
    let config_dir = user_config_dir();
    let r = config_candidates_in(as_text(&config_dir));
    assert(crate::names::texts(r@) == config_places(opt_string(config_dir)));
    r
}

/// A path with a leading `~/` replaced by the home directory of the user who
/// runs the program.
pub fn expand_path(path: &str) -> (r: String)
    ensures
        exists|home: Option<Seq<char>>| r@ == #[trigger] expanded(path@, home),
{
    let home = user_home_dir();
    let r = expand_path_in(path, as_text(&home));
    assert(r@ == expanded(path@, opt_string(home)));
    r
}

/// The log level where none is configured.
pub fn default_log_level() -> (r: String)
    ensures
        r@ == "info"@,
{
    "info".to_owned()
}

impl Default for Settings {
    fn default() -> (s: Settings)
        ensures
            s@.log_level == "info"@,
            s@.script_env == Map::<Seq<char>, Seq<char>>::empty(),
            exists|config_dir: Option<Seq<char>>, home: Option<Seq<char>>|
                s@.scripts_dir == #[trigger] scripts_dir_of(config_dir, home),
    {
        Settings {
            scripts_dir: default_scripts_dir(),
            log_level: default_log_level(),
            script_env: Variables::new(),
        }
    }
}

/// The watches that an event may trigger, in the order of the configuration.
pub open spec fn watches_of(watches: Seq<WatchView>, event: Seq<char>) -> Seq<WatchView> {
    watches.filter(|w: WatchView| w.enabled && w.event == event)
}

/// The models of a sequence of borrowed watches.
pub open spec fn watch_refs(watches: Seq<&Watch>) -> Seq<WatchView> {
    Seq::new(watches.len(), |i: int| watches[i]@)
}

/// The first command of that name.
pub open spec fn command_named(commands: Seq<CommandView>, name: Seq<char>) -> Option<CommandView>
    decreases commands.len(),
{
    if commands.len() == 0 {
        None
    } else if commands[0].name == name {
        Some(commands[0])
    } else {
        command_named(commands.skip(1), name)
    }
}

/// The names of the events for which a watch is enabled.
pub open spec fn subscribed(watches: Seq<WatchView>) -> Set<Seq<char>> {
    Set::new(
        |e: Seq<char>|
            exists|i: int|
                0 <= i < watches.len() && (#[trigger] watches[i]).enabled && watches[i].event == e,
    )
}

/// The watch of the default configuration.
pub open spec fn default_watch() -> WatchView {
    WatchView {
        event: "workspace_change"@,
        script: "on_workspace_change.rhai"@,
        prev: Map::empty(),
        curr: Map::empty(),
        description: Some("Called when workspace changes"@),
        enabled: true,
    }
}

impl Config {
    /// The enabled watches for an event.
    pub fn watches_for_event(&self, event_name: &str) -> (r: Vec<&Watch>)
        ensures
            watch_refs(r@) == watches_of(self@.watch, event_name@),
    {
        let ghost all = self@.watch;
        let ghost wanted = |w: WatchView| w.enabled && w.event == event_name@;
        let mut r: Vec<&Watch> = Vec::new();
        reveal(Seq::filter);
        assert(all.take(0).filter(wanted) =~= Seq::empty());
        for i in 0..self.watch.len()
            invariant
                all == watches_view(self.watch@),
                wanted == (|w: WatchView| w.enabled && w.event == event_name@),
                watch_refs(r@) == all.take(i as int).filter(wanted),
        {
            reveal(Seq::filter);
            let ghost before = r@;
            let w = &self.watch[i];
            assert(all.take(i + 1).drop_last() =~= all.take(i as int));
            assert(all.take(i + 1).last() == w@);
            if w.enabled && str_eq(w.event.as_str(), event_name) {
                r.push(w);
                assert(watch_refs(r@) =~= watch_refs(before).push(w@));
            }
        }
        assert(all.take(all.len() as int) =~= all);
        r
    }

    /// The command of that name. Of two with one name the earlier counts.
    pub fn command_by_name(&self, name: &str) -> (r: Option<&Command>)
        ensures
            (match r {
                Some(c) => Some(c@),
                None => None,
            }) == command_named(self@.command, name@),
    {
        let ghost all = self@.command;
        assert(all.skip(0) =~= all);
        for i in 0..self.command.len()
            invariant
                all == commands_view(self.command@),
                command_named(all.skip(i as int), name@) == command_named(all, name@),
        {
            assert(all.skip(i as int)[0] == self.command@[i as int]@);
            assert(all.skip(i as int).skip(1) =~= all.skip(i + 1));
            if str_eq(self.command[i].name.as_str(), name) {
                return Some(&self.command[i]);
            }
        }
        assert(all.skip(all.len() as int).len() == 0);
        None
    }

    /// The names of the events to subscribe to.
    pub fn subscribed_events(&self) -> (r: NameSet)
        ensures
            r@ == subscribed(self@.watch),
    {
        let ghost all = self@.watch;
        let mut r = NameSet::new();
        for i in 0..self.watch.len()
            invariant
                all == watches_view(self.watch@),
                r@ == subscribed(all.take(i as int)),
        {
            let w = &self.watch[i];
            let ghost before = r@;
            if w.enabled {
                r.insert(w.event.as_str());
            }
            assert(r@ =~= subscribed(all.take(i + 1))) by {
                assert forall|e: Seq<char>| #[trigger] r@.contains(e) implies subscribed(
                    all.take(i + 1),
                ).contains(e) by {
                    if before.contains(e) {
                        let j = choose|j: int|
                            0 <= j < i && (#[trigger] all.take(i as int)[j]).enabled && all.take(
                                i as int,
                            )[j].event == e;
                        assert(all.take(i + 1)[j] == all.take(i as int)[j]);
                    } else {
                        assert(all.take(i + 1)[i as int] == w@);
                    }
                }
                assert forall|e: Seq<char>| #[trigger] subscribed(all.take(i + 1)).contains(
                    e,
                ) implies r@.contains(e) by {
                    let j = choose|j: int|
                        0 <= j < i + 1 && (#[trigger] all.take(i + 1)[j]).enabled && all.take(
                            i + 1,
                        )[j].event == e;
                    if j < i {
                        assert(all.take(i as int)[j] == all.take(i + 1)[j]);
                        assert(before.contains(e));
                    } else {
                        assert(all.take(i + 1)[j] == w@);
                    }
                }
            }
        }
        assert(all.take(all.len() as int) =~= all);
        r
    }

    /// The configuration that is used where there is no file.
    pub fn default_config() -> (c: Config)
        ensures
            c@.adapter == AdapterView::Mock,
            c@.watch == seq![default_watch()],
            c@.command == Seq::<CommandView>::empty(),
            c@.settings.log_level == "info"@,
            c@.settings.script_env == Map::<Seq<char>, Seq<char>>::empty(),
            exists|config_dir: Option<Seq<char>>, home: Option<Seq<char>>|
                c@.settings.scripts_dir == #[trigger] scripts_dir_of(config_dir, home),
    {
        let mut watch: Vec<Watch> = Vec::new();
        watch.push(
            Watch {
                event: "workspace_change".to_owned(),
                script: "on_workspace_change.rhai".to_owned(),
                prev: StateMap::new(),
                curr: StateMap::new(),
                description: Some("Called when workspace changes".to_owned()),
                enabled: true,
            },
        );
        let c = Config {
            settings: Settings::default(),
            adapter: AdapterConfig::default(),
            watch,
            command: Vec::new(),
        };
        assert(c@.watch =~= seq![default_watch()]);
        assert(c@.command =~= Seq::<CommandView>::empty());
        c
    }
}

/// Every field that is listed in the conditions has an equal value in the state.
pub open spec fn conditions_hold(
    conditions: Map<Seq<char>, JsonView>,
    state: Map<Seq<char>, JsonView>,
) -> bool {
    forall|k: Seq<char>| #[trigger]
        conditions.dom().contains(k) ==> state.dom().contains(k) && same_json(
            state[k],
            conditions[k],
        )
}

/// A watch matches a transition when both its lists of conditions hold.
pub open spec fn watch_matches(
    w: WatchView,
    prev: Map<Seq<char>, JsonView>,
    curr: Map<Seq<char>, JsonView>,
) -> bool {
    conditions_hold(w.prev, prev) && conditions_hold(w.curr, curr)
}

fn all_hold(conditions: &StateMap, state: &StateMap) -> (r: bool)
    ensures
        r == conditions_hold(conditions@, state@),
{
    let n: usize = conditions.len();
    let ghost listing = conditions.listing();
    for i in 0..n
        invariant
            n == conditions@.len(),
            conditions@.dom().finite(),
            listing == conditions.listing(),
            i > 0 ==> conditions.listing_ok(),
            forall|j: int|
                0 <= j < i ==> state@.dom().contains((#[trigger] listing[j]).0) && same_json(
                    state@[listing[j].0],
                    listing[j].1,
                ),
    {
        let (name, expected) = conditions.entry(i);
        proof {
            lemma_entries_map(listing);
            assert(listing[i as int] == (name@, expected@));
            assert(conditions@.dom().contains(name@));
            assert(conditions@[name@] == expected@);
        }
        match state.get(name) {
            Some(actual) => {
                if !actual.same(expected) {
                    return false;
                }
            },
            None => {
                return false;
            },
        }
    }
    proof {
        if n == 0 {
            assert(conditions@.dom() =~= Set::empty());
        } else {
            lemma_entries_map(listing);
            assert forall|k: Seq<char>| #[trigger]
                conditions@.dom().contains(k) implies state@.dom().contains(k) && same_json(
                state@[k],
                conditions@[k],
            ) by {
                let j = choose|j: int| 0 <= j < listing.len() && (#[trigger] listing[j]).0 == k;
                assert(conditions@[listing[j].0] == listing[j].1);
            }
        }
    }
    true
}

impl Watch {
    /// Whether the conditions of the watch hold of a transition.
    pub fn matches(&self, prev_state: &StateMap, curr_state: &StateMap) -> (r: bool)
        ensures
            r == watch_matches(self@, prev_state@, curr_state@),
    {
        all_hold(&self.prev, prev_state) && all_hold(&self.curr, curr_state)
    }
}

impl Clone for Watch {
    fn clone(&self) -> (r: Watch)
        ensures
            r@ == self@,
    {
        Watch {
            event: self.event.clone(),
            script: self.script.clone(),
            prev: self.prev.clone(),
            curr: self.curr.clone(),
            description: clone_opt(&self.description),
            enabled: self.enabled,
        }
    }
}

/// An event is subscribed exactly when some watch may be triggered by it.
pub proof fn subscribed_iff_watched(watches: Seq<WatchView>, event: Seq<char>)
    ensures
        subscribed(watches).contains(event) <==> watches_of(watches, event).len() > 0,
    decreases watches.len(),
{
    reveal(Seq::filter);
    let wanted = |w: WatchView| w.enabled && w.event == event;
    if watches.len() > 0 {
        let init = watches.drop_last();
        subscribed_iff_watched(init, event);
        let last = watches.last();
        if subscribed(watches).contains(event) {
            let i = choose|i: int|
                0 <= i < watches.len() && (#[trigger] watches[i]).enabled && watches[i].event
                    == event;
            if i < init.len() {
                assert(init[i] == watches[i]);
                assert(subscribed(init).contains(event));
            }
        }
        if subscribed(init).contains(event) {
            let i = choose|i: int|
                0 <= i < init.len() && (#[trigger] init[i]).enabled && init[i].event == event;
            assert(watches[i] == init[i]);
            assert(subscribed(watches).contains(event));
        }
        if wanted(last) {
            assert(watches[watches.len() - 1] == last);
            assert(subscribed(watches).contains(event));
        }
    }
}

/// A watch without conditions matches every transition.
pub proof fn no_conditions_match_all(
    w: WatchView,
    prev: Map<Seq<char>, JsonView>,
    curr: Map<Seq<char>, JsonView>,
)
    requires
        w.prev == Map::<Seq<char>, JsonView>::empty(),
        w.curr == Map::<Seq<char>, JsonView>::empty(),
    ensures
        watch_matches(w, prev, curr),
{
}

/// More conditions match fewer transitions.
pub proof fn more_conditions_match_less(
    fewer: Map<Seq<char>, JsonView>,
    key: Seq<char>,
    expected: JsonView,
    state: Map<Seq<char>, JsonView>,
)
    requires
        !fewer.dom().contains(key),
        conditions_hold(fewer.insert(key, expected), state),
    ensures
        conditions_hold(fewer, state),
{
    assert forall|k: Seq<char>| #[trigger] fewer.dom().contains(k) implies state.dom().contains(k)
        && same_json(state[k], fewer[k]) by {
        assert(fewer.insert(key, expected).dom().contains(k));
    }
}

/// A condition without floats holds exactly of the states that have that very value under
/// its key: a watch that asks for `true` matches no state with `false`.
pub proof fn conditions_ask_for_equal_values(
    conditions: Map<Seq<char>, JsonView>,
    key: Seq<char>,
    value: JsonView,
    state: Map<Seq<char>, JsonView>,
)
    requires
        float_free(value),
    ensures
        conditions_hold(conditions.insert(key, value), state) <==> state.dom().contains(key)
            && state[key] == value && conditions_hold(conditions.remove(key), state),
{
    let more = conditions.insert(key, value);
    let fewer = conditions.remove(key);
    if state.dom().contains(key) {
        same_is_equality(value, state[key]);
    }
    if conditions_hold(more, state) {
        assert(more.dom().contains(key));
        assert forall|k: Seq<char>| #[trigger] fewer.dom().contains(k) implies state.dom().contains(k)
            && same_json(state[k], fewer[k]) by {
            assert(more.dom().contains(k));
        }
    }
    if state.dom().contains(key) && state[key] == value && conditions_hold(fewer, state) {
        assert forall|k: Seq<char>| #[trigger] more.dom().contains(k) implies state.dom().contains(k)
            && same_json(state[k], more[k]) by {
            if k != key {
                assert(fewer.dom().contains(k));
            }
        }
    }
}

/// A watch matches a transition exactly if the state before it has all values that the
/// watch asks for of that state, and the state after it all that it asks for of that one.
pub proof fn watches_match_both_states(
    w: WatchView,
    prev: Map<Seq<char>, JsonView>,
    curr: Map<Seq<char>, JsonView>,
)
    requires
        forall|k: Seq<char>| #[trigger] w.prev.dom().contains(k) ==> float_free(w.prev[k]),
        forall|k: Seq<char>| #[trigger] w.curr.dom().contains(k) ==> float_free(w.curr[k]),
    ensures
        watch_matches(w, prev, curr) <==> (forall|k: Seq<char>| #[trigger]
            w.prev.dom().contains(k) ==> prev.dom().contains(k) && prev[k] == w.prev[k]) && (forall|
            k: Seq<char>,
        | #[trigger] w.curr.dom().contains(k) ==> curr.dom().contains(k) && curr[k] == w.curr[k]),
{
    assert forall|k: Seq<char>| #[trigger] w.prev.dom().contains(k) implies (same_json(
        prev[k],
        w.prev[k],
    ) <==> prev[k] == w.prev[k]) by {
        same_is_equality(w.prev[k], prev[k]);
    }
    assert forall|k: Seq<char>| #[trigger] w.curr.dom().contains(k) implies (same_json(
        curr[k],
        w.curr[k],
    ) <==> curr[k] == w.curr[k]) by {
        same_is_equality(w.curr[k], curr[k]);
    }
}

/// A watch that asks for a truth value of the state before or after a transition matches
/// none that has the other.
pub proof fn the_other_truth_value_does_not_match(
    w: WatchView,
    key: Seq<char>,
    b: bool,
    prev: Map<Seq<char>, JsonView>,
    curr: Map<Seq<char>, JsonView>,
)
    ensures
        !watch_matches(
            WatchView { curr: w.curr.insert(key, JsonView::Bool(b)), ..w },
            prev,
            curr.insert(key, JsonView::Bool(!b)),
        ),
        !watch_matches(
            WatchView { prev: w.prev.insert(key, JsonView::Bool(b)), ..w },
            prev.insert(key, JsonView::Bool(!b)),
            curr,
        ),
        !watch_matches(
            WatchView { curr: w.curr.insert(key, JsonView::Bool(b)), ..w },
            prev,
            curr.remove(key),
        ),
        !watch_matches(
            WatchView { prev: w.prev.insert(key, JsonView::Bool(b)), ..w },
            prev.remove(key),
            curr,
        ),
{
    conditions_ask_for_equal_values(
        w.curr,
        key,
        JsonView::Bool(b),
        curr.insert(key, JsonView::Bool(!b)),
    );
    conditions_ask_for_equal_values(
        w.prev,
        key,
        JsonView::Bool(b),
        prev.insert(key, JsonView::Bool(!b)),
    );
    conditions_ask_for_equal_values(w.curr, key, JsonView::Bool(b), curr.remove(key));
    conditions_ask_for_equal_values(w.prev, key, JsonView::Bool(b), prev.remove(key));
}

/// The watches for an event are those that are enabled and name it, each once and in
/// their order.
pub proof fn enabled_watches_are_found(watches: Seq<WatchView>, w: WatchView, event: Seq<char>)
    ensures
        watches_of(Seq::empty(), event).len() == 0,
        w.enabled && w.event == event ==> watches_of(watches.push(w), event) == watches_of(
            watches,
            event,
        ).push(w),
        !w.enabled || w.event != event ==> watches_of(watches.push(w), event) == watches_of(
            watches,
            event,
        ),
        watches_of(watches, event).contains(w) <==> watches.contains(w) && w.enabled && w.event
            == event,
    decreases watches.len(),
{
    reveal(Seq::filter);
    let more = watches.push(w);
    assert(more.drop_last() =~= watches);
    assert(more.last() == w);
    if watches.len() > 0 {
        let (init, last) = (watches.drop_last(), watches.last());
        enabled_watches_are_found(init, w, event);
        let found = watches_of(watches, event);
        let before = watches_of(init, event);
        assert(watches =~= init.push(last));
        assert(watches.contains(w) <==> init.contains(w) || last == w) by {
            if init.contains(w) {
                let i = choose|i: int| 0 <= i < init.len() && init[i] == w;
                assert(watches[i] == w);
            }
            if watches.contains(w) {
                let i = choose|i: int| 0 <= i < watches.len() && watches[i] == w;
                if i < init.len() {
                    assert(init[i] == w);
                }
            }
            assert(watches[watches.len() - 1] == last);
        }
        if last.enabled && last.event == event {
            assert(found == before.push(last));
            assert(found.contains(w) <==> before.contains(w) || last == w) by {
                if before.contains(w) {
                    let i = choose|i: int| 0 <= i < before.len() && before[i] == w;
                    assert(found[i] == w);
                }
                if found.contains(w) {
                    let i = choose|i: int| 0 <= i < found.len() && found[i] == w;
                    if i < before.len() {
                        assert(before[i] == w);
                    }
                }
                assert(found[before.len() as int] == last);
            }
        } else {
            assert(found == before);
        }
    } else {
        assert(watches_of(watches, event).len() == 0);
    }
}

/// The events to subscribe to are those that an enabled watch names.
pub proof fn watched_events_are_subscribed(watches: Seq<WatchView>, w: WatchView, event: Seq<char>)
    ensures
        !subscribed(Seq::empty()).contains(event),
        subscribed(watches.push(w)).contains(event) <==> subscribed(watches).contains(event) || (
        w.enabled && w.event == event),
{
    subscribed_iff_watched(Seq::empty(), event);
    subscribed_iff_watched(watches, event);
    subscribed_iff_watched(watches.push(w), event);
    enabled_watches_are_found(watches, w, event);
}

/// A command is found by its name, and of two with one name the earlier. A name that no
/// command has finds none.
pub proof fn commands_are_found(commands: Seq<CommandView>, name: Seq<char>, i: int)
    ensures
        0 <= i < commands.len() && commands[i].name == name && (forall|j: int|
            0 <= j < i ==> (#[trigger] commands[j]).name != name) ==> command_named(commands, name)
            == Some(commands[i]),
        (forall|j: int| 0 <= j < commands.len() ==> (#[trigger] commands[j]).name != name)
            ==> command_named(commands, name) is None,
    decreases commands.len(),
{
    if commands.len() > 0 {
        let rest = commands.skip(1);
        commands_are_found(rest, name, i - 1);
        assert(forall|j: int| 0 <= j < rest.len() ==> rest[j] == commands[j + 1]);
        assert(forall|j: int| 0 < j < commands.len() ==> #[trigger] commands[j] == rest[j - 1]);
    }
}

/// Both sockets of a bridge follow from a base path, and explicit ones stand for
/// themselves.
pub proof fn sockets_follow_from_a_base(base: String, cmd: String, event: String)
    ensures
        derived_sockets(base@) == (base@ + ".sock"@, base@ + "-events.sock"@),
        bridge_sockets(SocketAdapterConfig::BasePath { base_path: base }) == (
            base@ + ".sock"@,
            base@ + "-events.sock"@,
        ),
        bridge_sockets(SocketAdapterConfig::Explicit { cmd_socket: cmd, event_socket: event }) == (
            cmd@,
            event@,
        ),
{
}

/// An adapter is selected by its name. The options of Hyprland may give the directory of
/// its sockets. A socket adapter has two explicit sockets, which stand before a base path.
pub proof fn adapters_are_selected(
    options: Map<Seq<char>, JsonView>,
    name: Seq<char>,
    a: Seq<char>,
    b: Seq<char>,
    other: JsonView,
)
    requires
        other !is Str,
    ensures
        adapter_of_options("mock"@, options) == Ok::<AdapterView, Seq<char>>(AdapterView::Mock),
        adapter_of_options("mangowc"@, options) == Ok::<AdapterView, Seq<char>>(
            AdapterView::Mangowc,
        ),
        adapter_of_options("hyprland"@, options.insert("socket_dir"@, JsonView::Str(a))) == Ok::<
            AdapterView,
            Seq<char>,
        >(AdapterView::Hyprland(Some(a))),
        adapter_of_options("hyprland"@, options.insert("socket_dir"@, other)) == Ok::<
            AdapterView,
            Seq<char>,
        >(AdapterView::Hyprland(None)),
        adapter_of_options("hyprland"@, options.remove("socket_dir"@)) == Ok::<
            AdapterView,
            Seq<char>,
        >(AdapterView::Hyprland(None)),
        adapter_of_options(
            "socket"@,
            options.insert("cmd_socket"@, JsonView::Str(a)).insert(
                "event_socket"@,
                JsonView::Str(b),
            ),
        ) == Ok::<AdapterView, Seq<char>>(AdapterView::Socket { cmd: a, event: b }),
        adapter_of_options(
            "socket"@,
            options.remove("cmd_socket"@).insert("base_path"@, JsonView::Str(a)),
        ) == Ok::<AdapterView, Seq<char>>(
            AdapterView::Socket { cmd: a + ".sock"@, event: a + "-events.sock"@ },
        ),
        adapter_of_options(
            "socket"@,
            options.remove("event_socket"@).insert("base_path"@, JsonView::Str(a)),
        ) == Ok::<AdapterView, Seq<char>>(
            AdapterView::Socket { cmd: a + ".sock"@, event: a + "-events.sock"@ },
        ),
        adapter_of_options("socket"@, options.remove("cmd_socket"@).remove("base_path"@)) == Err::<
            AdapterView,
            Seq<char>,
        >("Socket adapter requires 'cmd_socket'+'event_socket' or 'base_path' in [adapter]"@),
        adapter_of_options("socket"@, options.remove("event_socket"@).remove("base_path"@))
            == Err::<
            AdapterView,
            Seq<char>,
        >("Socket adapter requires 'cmd_socket'+'event_socket' or 'base_path' in [adapter]"@),
        name != "mock"@ && name != "mangowc"@ && name != "hyprland"@ && name != "socket"@
            ==> adapter_of_options(name, options) == Err::<
            AdapterView,
            Seq<char>,
        >("Unknown adapter: '"@ + name + "'"@),
{
    reveal_strlit("mock");
    reveal_strlit("mangowc");
    reveal_strlit("hyprland");
    reveal_strlit("socket");
    reveal_strlit("socket_dir");
    reveal_strlit("cmd_socket");
    reveal_strlit("event_socket");
    reveal_strlit("base_path");
    assert("mock"@.len() == 4);
    assert("mangowc"@.len() == 7);
    assert("hyprland"@.len() == 8);
    assert("socket"@.len() == 6);
    assert("socket_dir"@.len() == 10 && "socket_dir"@[0] == 's');
    assert("cmd_socket"@.len() == 10 && "cmd_socket"@[0] == 'c');
    assert("event_socket"@.len() == 12);
    assert("base_path"@.len() == 9);
}

/// The name of an adapter selects it again.
pub proof fn adapters_are_named(a: AdapterView, options: Map<Seq<char>, JsonView>)
    ensures
        adapter_name(AdapterView::Mock) == "mock"@,
        adapter_name(AdapterView::Mangowc) == "mangowc"@,
        a is Hyprland ==> adapter_name(a) == "hyprland"@,
        a is Socket ==> adapter_name(a) == "socket"@,
        adapter_of_options(adapter_name(a), options) matches Ok(b) ==> adapter_name(b)
            == adapter_name(a),
{
    reveal_strlit("mock");
    reveal_strlit("mangowc");
    reveal_strlit("hyprland");
    reveal_strlit("socket");
    assert("mock"@.len() == 4);
    assert("mangowc"@.len() == 7);
    assert("hyprland"@.len() == 8);
    assert("socket"@.len() == 6);
}

/// Scripts lie below the configuration directory, or below the home directory where there
/// is none.
pub proof fn scripts_have_a_place(dir: Seq<char>, home: Option<Seq<char>>)
    ensures
        scripts_dir_of(Some(dir), home) == joined_path(dir, "middlesox/scripts"@),
        scripts_dir_of(None, Some(dir)) == joined_path(dir, ".config/middlesox/scripts"@),
        scripts_dir_of(None, None) == ".config/middlesox/scripts"@,
{
}

/// A configuration is looked for in the working directory, then in the configuration
/// directory of the user where there is one, and then in that of the system.
pub proof fn configurations_have_places(dir: Seq<char>)
    ensures
        config_places(Some(dir)) == seq![
            "./middlesox.toml"@,
            joined_path(dir, "middlesox/config.toml"@),
            "/etc/middlesox/config.toml"@,
        ],
        config_places(None) == seq!["./middlesox.toml"@, ""@, "/etc/middlesox/config.toml"@],
{
}

/// The watch of the default configuration runs on every change of the workspace, and on
/// nothing else.
pub proof fn the_default_watch_runs(
    prev: Map<Seq<char>, JsonView>,
    curr: Map<Seq<char>, JsonView>,
    event: Seq<char>,
)
    ensures
        watch_matches(default_watch(), prev, curr),
        subscribed(seq![default_watch()]).contains(event) <==> event == "workspace_change"@,
        default_watch().script == "on_workspace_change.rhai"@,
        default_watch().enabled,
{
    let none = Seq::<WatchView>::empty();
    watched_events_are_subscribed(none, default_watch(), event);
    assert(none.push(default_watch()) =~= seq![default_watch()]);
}

/// A watch without floats in its conditions is found to match exactly the transitions whose
/// states have all the values that it asks for.
pub proof fn watches_are_found_to_match(w: Watch, prev: StateMap, curr: StateMap, r: bool)
    requires
        call_ensures(Watch::matches, (&w, &prev, &curr), r),
        forall|k: Seq<char>| #[trigger] w.prev@.dom().contains(k) ==> float_free(w.prev@[k]),
        forall|k: Seq<char>| #[trigger] w.curr@.dom().contains(k) ==> float_free(w.curr@[k]),
    ensures
        r <==> (forall|k: Seq<char>| #[trigger]
            w.prev@.dom().contains(k) ==> prev@.dom().contains(k) && prev@[k] == w.prev@[k]) && (
        forall|k: Seq<char>| #[trigger]
            w.curr@.dom().contains(k) ==> curr@.dom().contains(k) && curr@[k] == w.curr@[k]),
{
    watches_match_both_states(w@, prev@, curr@);
}

} // verus!
