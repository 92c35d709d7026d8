//! Reading a configuration from TOML.
//!
//! ```toml
//! [settings]
//! scripts_dir = "scripts"
//!
//! [adapter]
//! name = "mock"
//!
//! [[watch]]
//! event = "workspace_change"
//! exec = "wallpaper.rhai"
//! curr = { id = 2 }
//!
//! [[command]]
//! name = "cycle_layout"
//! script = "cycle_layout.rhai"
//! ```

use crate::capability::opt_string;
use crate::config::{
    adapter_from_options, adapter_of_options, commands_view, default_log_level,
    default_scripts_dir, scripts_dir_of, watches_view, AdapterConfig, AdapterView, Command,
    CommandView, Config, ConfigView, Settings, SettingsView, Watch, WatchView,
};
use crate::environment::Variables;
use crate::json::{from_outside, json_model};
use crate::text::{joined, joined3};
use crate::value::{
    distinct_names, entries_map, json_as_bool, json_as_str, lemma_entries_map, one_field,
        state_of_one, value_view,
    values_view, JsonValue, JsonView, StateMap,
};
use vstd::prelude::*;

verus! {

/// What `toml` reads from a text, with its tables as objects, or why the text is
/// no TOML document.
pub uninterp spec fn toml_parse(text: Seq<char>) -> Result<JsonView, Seq<char>>;

/// Calls `toml::from_str` for a `serde_json::Value`. What it reads, and the text of
/// its error, depend on the text alone.
#[verifier::external_body]
fn toml_from_str(text: &str) -> (r: Result<serde_json::Value, String>)
    ensures
        match r {
            Ok(v) => toml_parse(text@) == Ok::<JsonView, Seq<char>>(json_model(v)),
            Err(e) => toml_parse(text@) == Err::<JsonView, Seq<char>>(e@),
        },
{
    toml::from_str(text).map_err(|e| e.to_string())
}

/// The error of a member that is not there.
pub open spec fn missing(name: Seq<char>) -> Seq<char> {
    "missing field `"@ + name + "`"@
}

/// The error of a member that is not what it has to be.
pub open spec fn expected(kind: Seq<char>, name: Seq<char>) -> Seq<char> {
    "expected "@ + kind + " for `"@ + name + "`"@
}

/// An error in a section of a document.
pub open spec fn within(error: Seq<char>, section: Seq<char>) -> Seq<char> {
    error + " in `"@ + section + "`"@
}

/// The error of a text that holds no configuration.
pub open spec fn parse_error(reason: Seq<char>) -> Seq<char> {
    "Failed to parse TOML config: "@ + reason
}

/// The member of a table, if it is there.
pub open spec fn field(table: Map<Seq<char>, JsonView>, name: Seq<char>) -> Option<JsonView> {
    if table.dom().contains(name) {
        Some(table[name])
    } else {
        None
    }
}

/// A text that must be there.
pub open spec fn required_text(table: Map<Seq<char>, JsonView>, name: Seq<char>) -> Result<
    Seq<char>,
    Seq<char>,
> {
    match field(table, name) {
        Some(v) => match json_as_str(v) {
            Some(s) => Ok(s),
            None => Err(expected("a string"@, name)),
        },
        None => Err(missing(name)),
    }
}

/// A text with a default.
pub open spec fn text_with_default(
    table: Map<Seq<char>, JsonView>,
    name: Seq<char>,
    default: Seq<char>,
) -> Result<Seq<char>, Seq<char>> {
    match field(table, name) {
        Some(v) => match json_as_str(v) {
            Some(s) => Ok(s),
            None => Err(expected("a string"@, name)),
        },
        None => Ok(default),
    }
}

/// A text that may be left out.
pub open spec fn text_if_there(table: Map<Seq<char>, JsonView>, name: Seq<char>) -> Result<
    Option<Seq<char>>,
    Seq<char>,
> {
    match field(table, name) {
        Some(v) => match json_as_str(v) {
            Some(s) => Ok(Some(s)),
            None => Err(expected("a string"@, name)),
        },
        None => Ok(None),
    }
}

/// A table that may be left out, and is then empty.
pub open spec fn table_if_there(table: Map<Seq<char>, JsonView>, name: Seq<char>) -> Result<
    Map<Seq<char>, JsonView>,
    Seq<char>,
> {
    match field(table, name) {
        Some(JsonView::Object(map)) => Ok(map),
        Some(_) => Err(expected("a table"@, name)),
        None => Ok(Map::empty()),
    }
}

/// A list that may be left out, and is then empty.
pub open spec fn list_if_there(table: Map<Seq<char>, JsonView>, name: Seq<char>) -> Result<
    Seq<JsonView>,
    Seq<char>,
> {
    match field(table, name) {
        Some(JsonView::Array(items)) => Ok(items),
        Some(_) => Err(expected("a list"@, name)),
        None => Ok(Seq::empty()),
    }
}

/// A truth value that may be left out, and is then true.
pub open spec fn flag_if_there(table: Map<Seq<char>, JsonView>, name: Seq<char>) -> Result<
    bool,
    Seq<char>,
> {
    match field(table, name) {
        Some(v) => match json_as_bool(v) {
            Some(b) => Ok(b),
            None => Err(expected("a boolean"@, name)),
        },
        None => Ok(true),
    }
}

/// The table that a list stands for: its items under the given names, in order.
/// What stands behind them is ignored.
pub open spec fn named_items(items: Seq<JsonView>, names: Seq<Seq<char>>) -> Map<
    Seq<char>,
    JsonView,
> {
    let n = if items.len() <= names.len() {
        items.len()
    } else {
        names.len()
    };
    entries_map(Seq::new(n, |i: int| (names[i], items[i])))
}

/// A table with the given members: written as a table, or as a list of the
/// members in order, of which the first few must be there.
pub open spec fn table_of(v: JsonView, names: Seq<Seq<char>>, first: nat) -> Result<
    Map<Seq<char>, JsonView>,
    Seq<char>,
> {
    match v {
        JsonView::Object(table) => Ok(table),
        JsonView::Array(items) => if items.len() >= first {
            Ok(named_items(items, names))
        } else {
            Err("too few items"@)
        },
        _ => Err("expected a table"@),
    }
}

/// The members of the settings.
pub open spec fn settings_members() -> Seq<Seq<char>> {
    seq!["scripts_dir"@, "log_level"@, "script_env"@]
}

/// The members of an adapter: written as a table, or as a list of nothing but the
/// name.
pub open spec fn adapter_table(v: JsonView) -> Result<Map<Seq<char>, JsonView>, Seq<char>> {
    match v {
        JsonView::Object(table) => Ok(table),
        JsonView::Array(items) => if items.len() == 1 {
            Ok(one_field("name"@, items[0]))
        } else {
            Err("expected one item"@)
        },
        _ => Err("expected a table"@),
    }
}

/// The members of a watch.
pub open spec fn watch_members() -> Seq<Seq<char>> {
    seq!["event"@, "exec"@, "prev"@, "curr"@, "description"@, "enabled"@]
}

/// The members of a command.
pub open spec fn command_members() -> Seq<Seq<char>> {
    seq!["name"@, "script"@, "description"@]
}

/// The entries of a table are texts.
pub open spec fn all_texts(table: Map<Seq<char>, JsonView>) -> bool {
    forall|k: Seq<char>| #[trigger] table.dom().contains(k) ==> table[k] is Str
}

/// A table of texts.
pub open spec fn texts_of(table: Map<Seq<char>, JsonView>) -> Map<Seq<char>, Seq<char>> {
    Map::new(|k: Seq<char>| table.dom().contains(k), |k: Seq<char>| table[k]->Str_0)
}

/// The settings in a table. `dir` is the scripts directory where none is given.
pub open spec fn settings_of(table: Map<Seq<char>, JsonView>, dir: Seq<char>) -> Result<
    SettingsView,
    Seq<char>,
> {
    match text_with_default(table, "scripts_dir"@, dir) {
        Err(e) => Err(e),
        Ok(scripts_dir) => match text_with_default(table, "log_level"@, "info"@) {
            Err(e) => Err(e),
            Ok(log_level) => match table_if_there(table, "script_env"@) {
                Err(e) => Err(e),
                Ok(script_env) => if all_texts(script_env) {
                    Ok(SettingsView { scripts_dir, log_level, script_env: texts_of(script_env) })
                } else {
                    Err(expected("a table of strings"@, "script_env"@))
                },
            },
        },
    }
}

/// The settings that a section holds.
pub open spec fn settings_section(v: JsonView, dir: Seq<char>) -> Result<SettingsView, Seq<char>> {
    match table_of(v, settings_members(), 0) {
        Err(e) => Err(within(e, "settings"@)),
        Ok(table) => match settings_of(table, dir) {
            Err(e) => Err(within(e, "settings"@)),
            Ok(settings) => Ok(settings),
        },
    }
}

/// The adapter that a section selects: its name, and options beside the name.
pub open spec fn adapter_section(v: JsonView) -> Result<AdapterView, Seq<char>> {
    match adapter_table(v) {
        Err(e) => Err(within(e, "adapter"@)),
        Ok(table) => match required_text(table, "name"@) {
            Err(e) => Err(within(e, "adapter"@)),
            Ok(name) => adapter_of_options(name, table),
        },
    }
}

/// A watch: the event and the script are required, conditions are optional, and a
/// watch is enabled unless it says otherwise.
pub open spec fn watch_of(v: JsonView) -> Result<WatchView, Seq<char>> {
    match table_of(v, watch_members(), 5) {
        Err(e) => Err(e),
        Ok(table) => match required_text(table, "event"@) {
            Err(e) => Err(e),
            Ok(event) => match required_text(table, "exec"@) {
                Err(e) => Err(e),
                Ok(script) => match table_if_there(table, "prev"@) {
                    Err(e) => Err(e),
                    Ok(prev) => match table_if_there(table, "curr"@) {
                        Err(e) => Err(e),
                        Ok(curr) => match text_if_there(table, "description"@) {
                            Err(e) => Err(e),
                            Ok(description) => match flag_if_there(table, "enabled"@) {
                                Err(e) => Err(e),
                                Ok(enabled) => Ok(
                                    WatchView { event, script, prev, curr, description, enabled },
                                ),
                            },
                        },
                    },
                },
            },
        },
    }
}

/// A command: its name and its script are required.
pub open spec fn command_of(v: JsonView) -> Result<CommandView, Seq<char>> {
    match table_of(v, command_members(), 3) {
        Err(e) => Err(e),
        Ok(table) => match required_text(table, "name"@) {
            Err(e) => Err(e),
            Ok(name) => match required_text(table, "script"@) {
                Err(e) => Err(e),
                Ok(script) => match text_if_there(table, "description"@) {
                    Err(e) => Err(e),
                    Ok(description) => Ok(CommandView { name, script, description }),
                },
            },
        },
    }
}

/// All watches of a list, or what is wrong with the first that is not well formed.
pub open spec fn watches_in(items: Seq<JsonView>) -> Result<Seq<WatchView>, Seq<char>>
    decreases items.len(),
{
    if items.len() == 0 {
        Ok(Seq::empty())
    } else {
        match watches_in(items.drop_last()) {
            Err(e) => Err(e),
            Ok(before) => match watch_of(items.last()) {
                Err(e) => Err(within(e, "watch"@)),
                Ok(watch) => Ok(before.push(watch)),
            },
        }
    }
}

/// All commands of a list, or what is wrong with the first that is not well formed.
pub open spec fn commands_in(items: Seq<JsonView>) -> Result<Seq<CommandView>, Seq<char>>
    decreases items.len(),
{
    if items.len() == 0 {
        Ok(Seq::empty())
    } else {
        match commands_in(items.drop_last()) {
            Err(e) => Err(e),
            Ok(before) => match command_of(items.last()) {
                Err(e) => Err(within(e, "command"@)),
                Ok(command) => Ok(before.push(command)),
            },
        }
    }
}

/// The watches that a document lists.
pub open spec fn listed_watches(table: Map<Seq<char>, JsonView>) -> Result<
    Seq<WatchView>,
    Seq<char>,
> {
    match list_if_there(table, "watch"@) {
        Ok(items) => watches_in(items),
        Err(e) => Err(e),
    }
}

/// The commands that a document lists.
pub open spec fn listed_commands(table: Map<Seq<char>, JsonView>) -> Result<
    Seq<CommandView>,
    Seq<char>,
> {
    match list_if_there(table, "command"@) {
        Ok(items) => commands_in(items),
        Err(e) => Err(e),
    }
}

/// The configuration in a document, or what is wrong with it. What the document
/// leaves out has a default, and what is not known is ignored. `dir` is the scripts
/// directory where none is given.
pub open spec fn config_of(doc: JsonView, dir: Seq<char>) -> Result<ConfigView, Seq<char>> {
    match doc {
        JsonView::Object(table) => {
            let settings = match field(table, "settings"@) {
                Some(v) => settings_section(v, dir),
                None => settings_of(Map::empty(), dir),
            };
            let adapter = match field(table, "adapter"@) {
                Some(v) => adapter_section(v),
                None => Ok(AdapterView::Mock),
            };
            match settings {
                Err(e) => Err(e),
                Ok(settings) => match adapter {
                    Err(e) => Err(e),
                    Ok(adapter) => match listed_watches(table) {
                        Err(e) => Err(e),
                        Ok(watch) => match listed_commands(table) {
                            Err(e) => Err(e),
                            Ok(command) => Ok(ConfigView { settings, adapter, watch, command }),
                        },
                    },
                },
            }
        },
        _ => Err("expected a table"@),
    }
}

/// The models of some names.
spec fn names_view(names: Seq<&'static str>) -> Seq<Seq<char>> {
    Seq::new(names.len(), |i: int| names[i]@)
}

fn missing_error(name: &str) -> (r: String)
    ensures
        r@ == missing(name@),
{
    joined3("missing field `", name, "`")
}

fn expected_error(kind: &str, name: &str) -> (r: String)
    ensures
        r@ == expected(kind@, name@),
{
    joined3(joined3("expected ", kind, " for `").as_str(), name, "`")
}

fn within_error(error: &str, section: &str) -> (r: String)
    ensures
        r@ == within(error@, section@),
{
    joined3(joined(error, " in `").as_str(), section, "`")
}

/// The model of what reading a table came to.
spec fn table_result(r: Result<StateMap, String>) -> Result<Map<Seq<char>, JsonView>, Seq<char>> {
    match r {
        Ok(m) => Ok(m@),
        Err(e) => Err(e@),
    }
}

/// The model of what reading a text came to.
spec fn text_result(r: Result<String, String>) -> Result<Seq<char>, Seq<char>> {
    match r {
        Ok(s) => Ok(s@),
        Err(e) => Err(e@),
    }
}

fn read_members(v: &JsonValue, names: &Vec<&'static str>, first: usize) -> (r: Result<
    StateMap,
    String,
>)
    ensures
        table_result(r) == table_of(v@, names_view(names@), first as nat),
{
    match (v.as_object(), v.as_array()) {
        (Some(table), _) => Ok(table.clone()),
        (None, Some(items)) => {
            if items.len() < first {
                return Err("too few items".to_owned());
            }
            let n: usize = if items.len() <= names.len() {
                items.len()
            } else {
                names.len()
            };
            let ghost all = Seq::new(
                n as nat,
                |i: int| (names_view(names@)[i], values_view(items@)[i]),
            );
            let mut out = StateMap::new();
            for i in 0..n
                invariant
                    n <= items@.len(),
                    n <= names@.len(),
                    all == Seq::new(
                        n as nat,
                        |i: int| (names_view(names@)[i], values_view(items@)[i]),
                    ),
                    out@ == entries_map(all.take(i as int)),
            {
                out.insert(names[i], items[i].clone());
                assert(all.take(i + 1).drop_last() =~= all.take(i as int));
                assert(all.take(i + 1).last() == all[i as int]);
            }
            assert(all.take(n as int) =~= all);
            Ok(out)
        },
        _ => Err("expected a table".to_owned()),
    }
}

fn read_adapter_table(v: &JsonValue) -> (r: Result<StateMap, String>)
    ensures
        table_result(r) == adapter_table(v@),
{
    match (v.as_object(), v.as_array()) {
        (Some(table), _) => Ok(table.clone()),
        (None, Some(items)) => if items.len() == 1 {
            assert(values_view(items@)[0] == items@[0]@);
            Ok(state_of_one("name", items[0].clone()))
        } else {
            Err("expected one item".to_owned())
        },
        _ => Err("expected a table".to_owned()),
    }
}

fn read_text(table: &StateMap, name: &str) -> (r: Result<String, String>)
    ensures
        text_result(r) == required_text(table@, name@),
{
    match table.get(name) {
        Some(v) => match v.as_str() {
            Some(s) => Ok(s.to_owned()),
            None => Err(expected_error("a string", name)),
        },
        None => Err(missing_error(name)),
    }
}

fn read_text_or(table: &StateMap, name: &str, default: &str) -> (r: Result<String, String>)
    ensures
        text_result(r) == text_with_default(table@, name@, default@),
{
    match table.get(name) {
        Some(v) => match v.as_str() {
            Some(s) => Ok(s.to_owned()),
            None => Err(expected_error("a string", name)),
        },
        None => Ok(default.to_owned()),
    }
}

fn read_optional(table: &StateMap, name: &str) -> (r: Result<Option<String>, String>)
    ensures
        (match r {
            Ok(s) => Ok(opt_string(s)),
            Err(e) => Err(e@),
        }) == text_if_there(table@, name@),
{
    match table.get(name) {
        Some(v) => match v.as_str() {
            Some(s) => Ok(Some(s.to_owned())),
            None => Err(expected_error("a string", name)),
        },
        None => Ok(None),
    }
}

fn read_table(table: &StateMap, name: &str) -> (r: Result<StateMap, String>)
    ensures
        table_result(r) == table_if_there(table@, name@),
{
    match table.get(name) {
        Some(v) => match v.as_object() {
            Some(m) => Ok(m.clone()),
            None => Err(expected_error("a table", name)),
        },
        None => Ok(StateMap::new()),
    }
}

fn read_flag(table: &StateMap, name: &str) -> (r: Result<bool, String>)
    ensures
        (match r {
            Ok(b) => Ok(b),
            Err(e) => Err(e@),
        }) == flag_if_there(table@, name@),
{
    match table.get(name) {
        Some(v) => match v.as_bool() {
            Some(b) => Ok(b),
            None => Err(expected_error("a boolean", name)),
        },
        None => Ok(true),
    }
}

fn read_variables(table: &StateMap) -> (r: Option<Variables>)
    ensures
        match r {
            Some(v) => all_texts(table@) && v@ == texts_of(table@),
            None => !all_texts(table@),
        },
{
    broadcast use value_view;

    let n: usize = table.len();
    let mut out = Variables::new();
    for i in 0..n
        invariant
            n == table@.len(),
            table@.dom().finite(),
            i > 0 ==> table.listing_ok(),
            out@.dom() == entries_map(table.listing().take(i as int)).dom(),
            forall|j: int|
                0 <= j < i ==> (#[trigger] table.listing()[j]).1 is Str && out@.dom().contains(
                    table.listing()[j].0,
                ) && out@[table.listing()[j].0] == table.listing()[j].1->Str_0,
    {
        let ghost listing = table.listing();
        let (name, v) = table.entry(i);
        proof {
            lemma_entries_map(listing);
            assert(listing[i as int] == (name@, v@));
            assert(listing.take(i + 1).drop_last() =~= listing.take(i as int));
            assert(listing.take(i + 1).last() == listing[i as int]);
        }
        match v.as_str() {
            Some(s) => {
                let ghost before = out@;
                out.insert(name, s);
                assert(out@.dom() =~= entries_map(listing.take(i + 1)).dom());
                assert forall|j: int| 0 <= j < i + 1 implies (#[trigger] listing[j]).1 is Str
                    && out@.dom().contains(listing[j].0) && out@[listing[j].0]
                    == listing[j].1->Str_0 by {
                    if j < i {
                        assert(listing[j].0 != listing[i as int].0);
                    }
                }
            },
            None => {
                assert(table@.dom().contains(name@) && !(table@[name@] is Str));
                return None;
            },
        }
    }
    proof {
        let listing = table.listing();
        if n == 0 {
            assert(table@.dom() =~= Set::empty());
            assert(listing.take(0).len() == 0);
            assert(out@ =~= texts_of(table@));
        } else {
            lemma_entries_map(listing);
            assert(listing.take(n as int) =~= listing);
            assert forall|k: Seq<char>| #[trigger]
                table@.dom().contains(k) implies table@[k] is Str && out@[k]
                == table@[k]->Str_0 by {
                let j = choose|j: int| 0 <= j < listing.len() && (#[trigger] listing[j]).0 == k;
                assert(table@[listing[j].0] == listing[j].1);
            }
            assert(out@ =~= texts_of(table@));
        }
    }
    Some(out)
}

fn read_settings(table: &StateMap, dir: &str) -> (r: Result<Settings, String>)
    ensures
        (match r {
            Ok(s) => Ok(s@),
            Err(e) => Err(e@),
        }) == settings_of(table@, dir@),
{
    let level = default_log_level();
    let scripts_dir = match read_text_or(table, "scripts_dir", dir) {
        Ok(s) => s,
        Err(e) => {
            return Err(e);
        },
    };
    let log_level = match read_text_or(table, "log_level", level.as_str()) {
        Ok(s) => s,
        Err(e) => {
            return Err(e);
        },
    };
    let env = match read_table(table, "script_env") {
        Ok(m) => m,
        Err(e) => {
            return Err(e);
        },
    };
    match read_variables(&env) {
        Some(script_env) => Ok(Settings { scripts_dir, log_level, script_env }),
        None => Err(expected_error("a table of strings", "script_env")),
    }
}

fn read_settings_section(v: &JsonValue, dir: &str) -> (r: Result<Settings, String>)
    ensures
        (match r {
            Ok(s) => Ok(s@),
            Err(e) => Err(e@),
        }) == settings_section(v@, dir@),
{
    let names = vec!["scripts_dir", "log_level", "script_env"];
    assert(names_view(names@) =~= settings_members());
    match read_members(v, &names, 0) {
        Err(e) => Err(within_error(e.as_str(), "settings")),
        Ok(table) => match read_settings(&table, dir) {
            Err(e) => Err(within_error(e.as_str(), "settings")),
            Ok(settings) => Ok(settings),
        },
    }
}

fn read_adapter_section(v: &JsonValue) -> (r: Result<AdapterConfig, String>)
    ensures
        (match r {
            Ok(a) => Ok(a@),
            Err(e) => Err(e@),
        }) == adapter_section(v@),
{
    match read_adapter_table(v) {
        Err(e) => Err(within_error(e.as_str(), "adapter")),
        Ok(table) => match read_text(&table, "name") {
            Err(e) => Err(within_error(e.as_str(), "adapter")),
            Ok(name) => adapter_from_options(name.as_str(), &table),
        },
    }
}

fn read_watch(v: &JsonValue) -> (r: Result<Watch, String>)
    ensures
        (match r {
            Ok(w) => Ok(w@),
            Err(e) => Err(e@),
        }) == watch_of(v@),
{
    let names = vec!["event", "exec", "prev", "curr", "description", "enabled"];
    assert(names_view(names@) =~= watch_members());
    let table = match read_members(v, &names, 5) {
        Ok(members) => members,
        Err(e) => {
            return Err(e);
        },
    };
    let event = match read_text(&table, "event") {
        Ok(s) => s,
        Err(e) => {
            return Err(e);
        },
    };
    let script = match read_text(&table, "exec") {
        Ok(s) => s,
        Err(e) => {
            return Err(e);
        },
    };
    let prev = match read_table(&table, "prev") {
        Ok(m) => m,
        Err(e) => {
            return Err(e);
        },
    };
    let curr = match read_table(&table, "curr") {
        Ok(m) => m,
        Err(e) => {
            return Err(e);
        },
    };
    let description = match read_optional(&table, "description") {
        Ok(s) => s,
        Err(e) => {
            return Err(e);
        },
    };
    match read_flag(&table, "enabled") {
        Ok(enabled) => Ok(Watch { event, script, prev, curr, description, enabled }),
        Err(e) => Err(e),
    }
}

fn read_command(v: &JsonValue) -> (r: Result<Command, String>)
    ensures
        (match r {
            Ok(c) => Ok(c@),
            Err(e) => Err(e@),
        }) == command_of(v@),
{
    let names = vec!["name", "script", "description"];
    assert(names_view(names@) =~= command_members());
    let table = match read_members(v, &names, 3) {
        Ok(members) => members,
        Err(e) => {
            return Err(e);
        },
    };
    let name = match read_text(&table, "name") {
        Ok(s) => s,
        Err(e) => {
            return Err(e);
        },
    };
    let script = match read_text(&table, "script") {
        Ok(s) => s,
        Err(e) => {
            return Err(e);
        },
    };
    match read_optional(&table, "description") {
        Ok(description) => Ok(Command { name, script, description }),
        Err(e) => Err(e),
    }
}

proof fn lemma_bad_watches(items: Seq<JsonView>, n: int)
    requires
        0 <= n <= items.len(),
        watches_in(items.take(n)) is Err,
    ensures
        watches_in(items) == watches_in(items.take(n)),
    decreases items.len() - n,
{
    if n == items.len() {
        assert(items.take(n) =~= items);
    } else {
        assert(items.take(n + 1).drop_last() =~= items.take(n));
        lemma_bad_watches(items, n + 1);
    }
}

proof fn lemma_bad_commands(items: Seq<JsonView>, n: int)
    requires
        0 <= n <= items.len(),
        commands_in(items.take(n)) is Err,
    ensures
        commands_in(items) == commands_in(items.take(n)),
    decreases items.len() - n,
{
    if n == items.len() {
        assert(items.take(n) =~= items);
    } else {
        assert(items.take(n + 1).drop_last() =~= items.take(n));
        lemma_bad_commands(items, n + 1);
    }
}

fn read_watches(table: &StateMap) -> (r: Result<Vec<Watch>, String>)
    ensures
        (match r {
            Ok(list) => Ok(watches_view(list@)),
            Err(e) => Err(e@),
        }) == listed_watches(table@),
{
    let mut out: Vec<Watch> = Vec::new();
    assert(watches_view(out@) =~= Seq::empty());
    let items = match table.get("watch") {
        Some(v) => match v.as_array() {
            Some(items) => items,
            None => {
                return Err(expected_error("a list", "watch"));
            },
        },
        None => {
            return Ok(out);
        },
    };
    let ghost all = values_view(items@);
    for i in 0..items.len()
        invariant
            all == values_view(items@),
            listed_watches(table@) == watches_in(all),
            watches_in(all.take(i as int)) == Ok::<_, Seq<char>>(watches_view(out@)),
    {
        let ghost before = out@;
        assert(all.take(i + 1).drop_last() =~= all.take(i as int));
        assert(all.take(i + 1).last() == items@[i as int]@);
        match read_watch(&items[i]) {
            Ok(watch) => {
                out.push(watch);
                assert(watches_view(out@) =~= watches_view(before).push(watch@));
            },
            Err(e) => {
                proof {
                    lemma_bad_watches(all, i + 1);
                }
                return Err(within_error(e.as_str(), "watch"));
            },
        }
    }
    assert(all.take(all.len() as int) =~= all);
    Ok(out)
}

fn read_commands(table: &StateMap) -> (r: Result<Vec<Command>, String>)
    ensures
        (match r {
            Ok(list) => Ok(commands_view(list@)),
            Err(e) => Err(e@),
        }) == listed_commands(table@),
{
    let mut out: Vec<Command> = Vec::new();
    assert(commands_view(out@) =~= Seq::empty());
    let items = match table.get("command") {
        Some(v) => match v.as_array() {
            Some(items) => items,
            None => {
                return Err(expected_error("a list", "command"));
            },
        },
        None => {
            return Ok(out);
        },
    };
    let ghost all = values_view(items@);
    for i in 0..items.len()
        invariant
            all == values_view(items@),
            listed_commands(table@) == commands_in(all),
            commands_in(all.take(i as int)) == Ok::<_, Seq<char>>(commands_view(out@)),
    {
        let ghost before = out@;
        assert(all.take(i + 1).drop_last() =~= all.take(i as int));
        assert(all.take(i + 1).last() == items@[i as int]@);
        match read_command(&items[i]) {
            Ok(command) => {
                out.push(command);
                assert(commands_view(out@) =~= commands_view(before).push(command@));
            },
            Err(e) => {
                proof {
                    lemma_bad_commands(all, i + 1);
                }
                return Err(within_error(e.as_str(), "command"));
            },
        }
    }
    assert(all.take(all.len() as int) =~= all);
    Ok(out)
}

/// The model of what reading a configuration came to.
pub open spec fn config_result(r: Result<Config, String>) -> Result<ConfigView, Seq<char>> {
    match r {
        Ok(c) => Ok(c@),
        Err(e) => Err(e@),
    }
}

/// The configuration in a text, or why there is none.
pub open spec fn parsed_config(text: Seq<char>, dir: Seq<char>) -> Result<ConfigView, Seq<char>> {
    match toml_parse(text) {
        Ok(doc) => match config_of(doc, dir) {
            Ok(c) => Ok(c),
            Err(e) => Err(parse_error(e)),
        },
        Err(e) => Err(parse_error(e)),
    }
}

impl Config {
    /// The configuration in a document that was read already, or what is wrong with
    /// the document. `scripts_dir` is the scripts directory where the document gives
    /// none.
    pub fn from_document(doc: &JsonValue, scripts_dir: &str) -> (r: Result<Config, String>)
        ensures
            config_result(r) == config_of(doc@, scripts_dir@),
    {
        let table = match doc.as_object() {
            Some(table) => table,
            None => {
                return Err("expected a table".to_owned());
            },
        };
        let settings = match table.get("settings") {
            Some(v) => read_settings_section(v, scripts_dir),
            None => read_settings(&StateMap::new(), scripts_dir),
        };
        let adapter = match table.get("adapter") {
            Some(v) => read_adapter_section(v),
            None => Ok(AdapterConfig::Mock),
        };
        match (settings, adapter, read_watches(table), read_commands(table)) {
            (Err(e), _, _, _) => Err(e),
            (_, Err(e), _, _) => Err(e),
            (_, _, Err(e), _) => Err(e),
            (_, _, _, Err(e)) => Err(e),
            (Ok(settings), Ok(adapter), Ok(watch), Ok(command)) => Ok(
                Config { settings, adapter, watch, command },
            ),
        }
    }

    /// The configuration that a text holds, or why it holds none: what `toml` says,
    /// or what is wrong with the document.
    pub fn parse(content: &str) -> (r: Result<Config, String>)
        ensures
            exists|config_dir: Option<Seq<char>>, home: Option<Seq<char>>|
                config_result(r) == parsed_config(
                    content@,
                    #[trigger] scripts_dir_of(config_dir, home),
                ),
    {
        let dir = default_scripts_dir();
        let read = match toml_from_str(content) {
            Ok(doc) => Config::from_document(&from_outside(doc), dir.as_str()),
            Err(e) => Err(e),
        };
        match read {
            Ok(c) => Ok(c),
            Err(e) => Err(joined("Failed to parse TOML config: ", e.as_str())),
        }
    }
}

/// An empty document gives the settings of the defaults, the mock adapter, and
/// neither watches nor commands.
pub proof fn empty_document_is_valid(dir: Seq<char>)
    ensures
        config_of(JsonView::Object(Map::empty()), dir) == Ok::<ConfigView, Seq<char>>(
            ConfigView {
                settings: SettingsView {
                    scripts_dir: dir,
                    log_level: "info"@,
                    script_env: Map::empty(),
                },
                adapter: AdapterView::Mock,
                watch: Seq::empty(),
                command: Seq::empty(),
            },
        ),
{
    assert(texts_of(Map::empty()) =~= Map::<Seq<char>, Seq<char>>::empty());
}

/// Members of a document that are not known do not matter.
pub proof fn unknown_members_are_ignored(
    table: Map<Seq<char>, JsonView>,
    name: Seq<char>,
    value: JsonView,
    dir: Seq<char>,
)
    requires
        name != "settings"@,
        name != "adapter"@,
        name != "watch"@,
        name != "command"@,
    ensures
        config_of(JsonView::Object(table.insert(name, value)), dir) == config_of(
            JsonView::Object(table),
            dir,
        ),
{
}

/// A watch in a table says its event, its script, what it asks for of the states before
/// and after, what it is for and whether it is enabled.
pub proof fn watches_are_read(
    event: Seq<char>,
    script: Seq<char>,
    prev: Map<Seq<char>, JsonView>,
    curr: Map<Seq<char>, JsonView>,
    description: Seq<char>,
    enabled: bool,
)
    ensures
        watch_of(
            JsonView::Object(
                map![
                    "event"@ => JsonView::Str(event),
                    "exec"@ => JsonView::Str(script),
                    "prev"@ => JsonView::Object(prev),
                    "curr"@ => JsonView::Object(curr),
                    "description"@ => JsonView::Str(description),
                    "enabled"@ => JsonView::Bool(enabled),
                ],
            ),
        ) == Ok::<WatchView, Seq<char>>(
            WatchView { event, script, prev, curr, description: Some(description), enabled },
        ),
        watch_of(
            JsonView::Object(
                map!["event"@ => JsonView::Str(event), "exec"@ => JsonView::Str(script)],
            ),
        ) == Ok::<WatchView, Seq<char>>(
            WatchView {
                event,
                script,
                prev: Map::empty(),
                curr: Map::empty(),
                description: None,
                enabled: true,
            },
        ),
{
    reveal_strlit("event");
    reveal_strlit("exec");
    reveal_strlit("prev");
    reveal_strlit("curr");
    reveal_strlit("description");
    reveal_strlit("enabled");
    assert("event"@.len() == 5);
    assert("exec"@.len() == 4 && "exec"@[0] == 'e');
    assert("prev"@.len() == 4 && "prev"@[0] == 'p');
    assert("curr"@.len() == 4 && "curr"@[0] == 'c');
    assert("description"@.len() == 11);
    assert("enabled"@.len() == 7);
}

/// A watch must name its event and its script.
pub proof fn watches_need_an_event_and_a_script(
    table: Map<Seq<char>, JsonView>,
    event: Seq<char>,
    other: JsonView,
)
    requires
        other !is Str,
    ensures
        watch_of(JsonView::Object(table.remove("event"@))) == Err::<WatchView, Seq<char>>(
            "missing field `event`"@,
        ),
        watch_of(JsonView::Object(table.insert("event"@, other))) == Err::<WatchView, Seq<char>>(
            "expected a string for `event`"@,
        ),
        watch_of(
            JsonView::Object(table.remove("exec"@).insert("event"@, JsonView::Str(event))),
        ) == Err::<WatchView, Seq<char>>("missing field `exec`"@),
        watch_of(
            JsonView::Object(table.insert("exec"@, other).insert("event"@, JsonView::Str(event))),
        ) == Err::<WatchView, Seq<char>>("expected a string for `exec`"@),
        other !is Object && other !is Array ==> watch_of(other) == Err::<WatchView, Seq<char>>(
            "expected a table"@,
        ),
{
    reveal_strlit("event");
    reveal_strlit("exec");
    reveal_strlit("prev");
    reveal_strlit("curr");
    reveal_strlit("description");
    reveal_strlit("enabled");
    assert("event"@.len() == 5);
    assert("exec"@.len() == 4 && "exec"@[0] == 'e');
    assert("prev"@.len() == 4 && "prev"@[0] == 'p');
    assert("curr"@.len() == 4 && "curr"@[0] == 'c');
    assert("description"@.len() == 11);
    assert("enabled"@.len() == 7);
    reveal_strlit("missing field `");
    reveal_strlit("event");
    reveal_strlit("`");
    reveal_strlit("missing field `event`");
    assert("missing field `"@ + "event"@ + "`"@ =~= "missing field `event`"@);
    reveal_strlit("missing field `");
    reveal_strlit("exec");
    reveal_strlit("`");
    reveal_strlit("missing field `exec`");
    assert("missing field `"@ + "exec"@ + "`"@ =~= "missing field `exec`"@);
    reveal_strlit("expected ");
    reveal_strlit("a string");
    reveal_strlit(" for `");
    reveal_strlit("event");
    reveal_strlit("`");
    reveal_strlit("expected a string for `event`");
    assert("expected "@ + "a string"@ + " for `"@ + "event"@ + "`"@
        =~= "expected a string for `event`"@);
    reveal_strlit("expected ");
    reveal_strlit("a string");
    reveal_strlit(" for `");
    reveal_strlit("exec");
    reveal_strlit("`");
    reveal_strlit("expected a string for `exec`");
    assert("expected "@ + "a string"@ + " for `"@ + "exec"@ + "`"@
        =~= "expected a string for `exec`"@);
}

/// The other members of a watch may be left out, and are read one by one: a member that is
/// not what it has to be is told.
pub proof fn watch_members_are_checked(
    table: Map<Seq<char>, JsonView>,
    w: WatchView,
    map: Map<Seq<char>, JsonView>,
    text: Seq<char>,
    b: bool,
    other: JsonView,
)
    requires
        watch_of(JsonView::Object(table)) == Ok::<WatchView, Seq<char>>(w),
    ensures
        watch_of(JsonView::Object(table.insert("event"@, JsonView::Str(text)))) == Ok::<
            WatchView,
            Seq<char>,
        >(WatchView { event: text, ..w }),
        watch_of(JsonView::Object(table.insert("exec"@, JsonView::Str(text)))) == Ok::<
            WatchView,
            Seq<char>,
        >(WatchView { script: text, ..w }),
        watch_of(JsonView::Object(table.insert("prev"@, JsonView::Object(map)))) == Ok::<
            WatchView,
            Seq<char>,
        >(WatchView { prev: map, ..w }),
        watch_of(JsonView::Object(table.insert("curr"@, JsonView::Object(map)))) == Ok::<
            WatchView,
            Seq<char>,
        >(WatchView { curr: map, ..w }),
        watch_of(JsonView::Object(table.insert("description"@, JsonView::Str(text)))) == Ok::<
            WatchView,
            Seq<char>,
        >(WatchView { description: Some(text), ..w }),
        watch_of(JsonView::Object(table.insert("enabled"@, JsonView::Bool(b)))) == Ok::<
            WatchView,
            Seq<char>,
        >(WatchView { enabled: b, ..w }),
        watch_of(JsonView::Object(table.remove("prev"@))) == Ok::<WatchView, Seq<char>>(
            WatchView { prev: Map::empty(), ..w },
        ),
        watch_of(JsonView::Object(table.remove("curr"@))) == Ok::<WatchView, Seq<char>>(
            WatchView { curr: Map::empty(), ..w },
        ),
        watch_of(JsonView::Object(table.remove("description"@))) == Ok::<WatchView, Seq<char>>(
            WatchView { description: None, ..w },
        ),
        watch_of(JsonView::Object(table.remove("enabled"@))) == Ok::<WatchView, Seq<char>>(
            WatchView { enabled: true, ..w },
        ),
        other !is Object ==> watch_of(JsonView::Object(table.insert("prev"@, other))) == Err::<
            WatchView,
            Seq<char>,
        >("expected a table for `prev`"@),
        other !is Object ==> watch_of(JsonView::Object(table.insert("curr"@, other))) == Err::<
            WatchView,
            Seq<char>,
        >("expected a table for `curr`"@),
        other !is Str ==> watch_of(JsonView::Object(table.insert("description"@, other))) == Err::<
            WatchView,
            Seq<char>,
        >("expected a string for `description`"@),
        other !is Bool ==> watch_of(JsonView::Object(table.insert("enabled"@, other))) == Err::<
            WatchView,
            Seq<char>,
        >("expected a boolean for `enabled`"@),
{
    reveal_strlit("event");
    reveal_strlit("exec");
    reveal_strlit("prev");
    reveal_strlit("curr");
    reveal_strlit("description");
    reveal_strlit("enabled");
    assert("event"@.len() == 5);
    assert("exec"@.len() == 4 && "exec"@[0] == 'e');
    assert("prev"@.len() == 4 && "prev"@[0] == 'p');
    assert("curr"@.len() == 4 && "curr"@[0] == 'c');
    assert("description"@.len() == 11);
    assert("enabled"@.len() == 7);
    reveal_strlit("expected ");
    reveal_strlit("a table");
    reveal_strlit(" for `");
    reveal_strlit("prev");
    reveal_strlit("`");
    reveal_strlit("expected a table for `prev`");
    assert("expected "@ + "a table"@ + " for `"@ + "prev"@ + "`"@
        =~= "expected a table for `prev`"@);
    reveal_strlit("expected ");
    reveal_strlit("a table");
    reveal_strlit(" for `");
    reveal_strlit("curr");
    reveal_strlit("`");
    reveal_strlit("expected a table for `curr`");
    assert("expected "@ + "a table"@ + " for `"@ + "curr"@ + "`"@
        =~= "expected a table for `curr`"@);
    reveal_strlit("expected ");
    reveal_strlit("a string");
    reveal_strlit(" for `");
    reveal_strlit("description");
    reveal_strlit("`");
    reveal_strlit("expected a string for `description`");
    assert("expected "@ + "a string"@ + " for `"@ + "description"@ + "`"@
        =~= "expected a string for `description`"@);
    reveal_strlit("expected ");
    reveal_strlit("a boolean");
    reveal_strlit(" for `");
    reveal_strlit("enabled");
    reveal_strlit("`");
    reveal_strlit("expected a boolean for `enabled`");
    assert("expected "@ + "a boolean"@ + " for `"@ + "enabled"@ + "`"@
        =~= "expected a boolean for `enabled`"@);
}

/// A command in a table says its name, its script and what it is for, which may be left
/// out.
pub proof fn commands_are_read(
    table: Map<Seq<char>, JsonView>,
    name: Seq<char>,
    script: Seq<char>,
    description: Seq<char>,
    other: JsonView,
)
    requires
        other !is Str,
    ensures
        command_of(
            JsonView::Object(
                map![
                    "name"@ => JsonView::Str(name),
                    "script"@ => JsonView::Str(script),
                    "description"@ => JsonView::Str(description),
                ],
            ),
        ) == Ok::<CommandView, Seq<char>>(
            CommandView { name, script, description: Some(description) },
        ),
        command_of(
            JsonView::Object(
                table.remove("description"@).insert("name"@, JsonView::Str(name)).insert(
                    "script"@,
                    JsonView::Str(script),
                ),
            ),
        ) == Ok::<CommandView, Seq<char>>(CommandView { name, script, description: None }),
        command_of(
            JsonView::Object(
                table.insert("description"@, other).insert("name"@, JsonView::Str(name)).insert(
                    "script"@,
                    JsonView::Str(script),
                ),
            ),
        ) == Err::<CommandView, Seq<char>>("expected a string for `description`"@),
        command_of(JsonView::Object(table.remove("name"@))) == Err::<CommandView, Seq<char>>(
            "missing field `name`"@,
        ),
        command_of(JsonView::Object(table.insert("name"@, other))) == Err::<
            CommandView,
            Seq<char>,
        >("expected a string for `name`"@),
        command_of(
            JsonView::Object(table.remove("script"@).insert("name"@, JsonView::Str(name))),
        ) == Err::<CommandView, Seq<char>>("missing field `script`"@),
        command_of(
            JsonView::Object(table.insert("script"@, other).insert("name"@, JsonView::Str(name))),
        ) == Err::<CommandView, Seq<char>>("expected a string for `script`"@),
        other !is Object && other !is Array ==> command_of(other) == Err::<CommandView, Seq<char>>(
            "expected a table"@,
        ),
{
    reveal_strlit("name");
    reveal_strlit("script");
    reveal_strlit("description");
    assert("name"@.len() == 4);
    assert("script"@.len() == 6);
    assert("description"@.len() == 11);
    reveal_strlit("missing field `");
    reveal_strlit("name");
    reveal_strlit("`");
    reveal_strlit("missing field `name`");
    assert("missing field `"@ + "name"@ + "`"@ =~= "missing field `name`"@);
    reveal_strlit("missing field `");
    reveal_strlit("script");
    reveal_strlit("`");
    reveal_strlit("missing field `script`");
    assert("missing field `"@ + "script"@ + "`"@ =~= "missing field `script`"@);
    reveal_strlit("expected ");
    reveal_strlit("a string");
    reveal_strlit(" for `");
    reveal_strlit("name");
    reveal_strlit("`");
    reveal_strlit("expected a string for `name`");
    assert("expected "@ + "a string"@ + " for `"@ + "name"@ + "`"@
        =~= "expected a string for `name`"@);
    reveal_strlit("expected ");
    reveal_strlit("a string");
    reveal_strlit(" for `");
    reveal_strlit("script");
    reveal_strlit("`");
    reveal_strlit("expected a string for `script`");
    assert("expected "@ + "a string"@ + " for `"@ + "script"@ + "`"@
        =~= "expected a string for `script`"@);
    reveal_strlit("expected ");
    reveal_strlit("a string");
    reveal_strlit(" for `");
    reveal_strlit("description");
    reveal_strlit("`");
    reveal_strlit("expected a string for `description`");
    assert("expected "@ + "a string"@ + " for `"@ + "description"@ + "`"@
        =~= "expected a string for `description`"@);
}

/// The settings in a table say the directory of the scripts, the level of the log and the
/// variables of the scripts, each of which may be left out.
pub proof fn settings_are_read(
    table: Map<Seq<char>, JsonView>,
    s: SettingsView,
    dir: Seq<char>,
    text: Seq<char>,
    other: JsonView,
)
    requires
        settings_of(table, dir) == Ok::<SettingsView, Seq<char>>(s),
        other !is Str,
    ensures
        settings_of(Map::empty(), dir) == Ok::<SettingsView, Seq<char>>(
            SettingsView { scripts_dir: dir, log_level: "info"@, script_env: Map::empty() },
        ),
        settings_of(table.insert("scripts_dir"@, JsonView::Str(text)), dir) == Ok::<
            SettingsView,
            Seq<char>,
        >(SettingsView { scripts_dir: text, ..s }),
        settings_of(table.insert("log_level"@, JsonView::Str(text)), dir) == Ok::<
            SettingsView,
            Seq<char>,
        >(SettingsView { log_level: text, ..s }),
        settings_of(table.remove("scripts_dir"@), dir) == Ok::<SettingsView, Seq<char>>(
            SettingsView { scripts_dir: dir, ..s },
        ),
        settings_of(table.remove("log_level"@), dir) == Ok::<SettingsView, Seq<char>>(
            SettingsView { log_level: "info"@, ..s },
        ),
        settings_of(table.remove("script_env"@), dir) == Ok::<SettingsView, Seq<char>>(
            SettingsView { script_env: Map::empty(), ..s },
        ),
        settings_of(table.insert("scripts_dir"@, other), dir) == Err::<SettingsView, Seq<char>>(
            "expected a string for `scripts_dir`"@,
        ),
        settings_of(table.insert("log_level"@, other), dir) == Err::<SettingsView, Seq<char>>(
            "expected a string for `log_level`"@,
        ),
        other !is Object ==> settings_of(table.insert("script_env"@, other), dir) == Err::<
            SettingsView,
            Seq<char>,
        >("expected a table for `script_env`"@),
{
    reveal_strlit("scripts_dir");
    reveal_strlit("log_level");
    reveal_strlit("script_env");
    assert("scripts_dir"@.len() == 11);
    assert("log_level"@.len() == 9);
    assert("script_env"@.len() == 10);
    reveal_strlit("expected ");
    reveal_strlit("a string");
    reveal_strlit(" for `");
    reveal_strlit("scripts_dir");
    reveal_strlit("`");
    reveal_strlit("expected a string for `scripts_dir`");
    assert("expected "@ + "a string"@ + " for `"@ + "scripts_dir"@ + "`"@
        =~= "expected a string for `scripts_dir`"@);
    reveal_strlit("expected ");
    reveal_strlit("a string");
    reveal_strlit(" for `");
    reveal_strlit("log_level");
    reveal_strlit("`");
    reveal_strlit("expected a string for `log_level`");
    assert("expected "@ + "a string"@ + " for `"@ + "log_level"@ + "`"@
        =~= "expected a string for `log_level`"@);
    reveal_strlit("expected ");
    reveal_strlit("a table");
    reveal_strlit(" for `");
    reveal_strlit("script_env");
    reveal_strlit("`");
    reveal_strlit("expected a table for `script_env`");
    assert("expected "@ + "a table"@ + " for `"@ + "script_env"@ + "`"@
        =~= "expected a table for `script_env`"@);
    assert(texts_of(Map::empty()) =~= Map::<Seq<char>, Seq<char>>::empty());
}

/// The variables of the scripts are read name for name, and all of them are texts.
pub proof fn script_variables_are_read(
    table: Map<Seq<char>, JsonView>,
    s: SettingsView,
    dir: Seq<char>,
    env: Map<Seq<char>, Seq<char>>,
    bad: Map<Seq<char>, JsonView>,
    name: Seq<char>,
)
    requires
        settings_of(table, dir) == Ok::<SettingsView, Seq<char>>(s),
        bad.dom().contains(name),
        bad[name] !is Str,
    ensures
        settings_of(
            table.insert(
                "script_env"@,
                JsonView::Object(env.map_values(|v: Seq<char>| JsonView::Str(v))),
            ),
            dir,
        ) == Ok::<SettingsView, Seq<char>>(SettingsView { script_env: env, ..s }),
        settings_of(table.insert("script_env"@, JsonView::Object(bad)), dir) == Err::<
            SettingsView,
            Seq<char>,
        >("expected a table of strings for `script_env`"@),
{
    reveal_strlit("scripts_dir");
    reveal_strlit("log_level");
    reveal_strlit("script_env");
    assert("scripts_dir"@.len() == 11);
    assert("log_level"@.len() == 9);
    assert("script_env"@.len() == 10);
    reveal_strlit("expected ");
    reveal_strlit("a table of strings");
    reveal_strlit(" for `");
    reveal_strlit("script_env");
    reveal_strlit("`");
    reveal_strlit("expected a table of strings for `script_env`");
    assert("expected "@ + "a table of strings"@ + " for `"@ + "script_env"@ + "`"@
        =~= "expected a table of strings for `script_env`"@);
    let written = env.map_values(|v: Seq<char>| JsonView::Str(v));
    assert(all_texts(written));
    assert(texts_of(written) =~= env);
}

/// An adapter in a table says its name, beside which its options stand. Where there is
/// nothing but the name, a list of it will do.
pub proof fn adapters_are_read(
    table: Map<Seq<char>, JsonView>,
    name: Seq<char>,
    items: Seq<JsonView>,
    other: JsonView,
)
    requires
        other !is Str,
        items.len() != 1,
    ensures
        adapter_section(JsonView::Object(table.insert("name"@, JsonView::Str(name))))
            == adapter_of_options(name, table.insert("name"@, JsonView::Str(name))),
        adapter_section(JsonView::Array(seq![JsonView::Str(name)])) == adapter_of_options(
            name,
            map!["name"@ => JsonView::Str(name)],
        ),
        adapter_section(JsonView::Object(table.remove("name"@))) == Err::<AdapterView, Seq<char>>(
            "missing field `name` in `adapter`"@,
        ),
        adapter_section(JsonView::Object(table.insert("name"@, other))) == Err::<
            AdapterView,
            Seq<char>,
        >("expected a string for `name` in `adapter`"@),
        adapter_section(JsonView::Array(items)) == Err::<AdapterView, Seq<char>>(
            "expected one item in `adapter`"@,
        ),
        other !is Object && other !is Array ==> adapter_section(other) == Err::<
            AdapterView,
            Seq<char>,
        >("expected a table in `adapter`"@),
{
    reveal_strlit("missing field `");
    reveal_strlit("name");
    reveal_strlit("`");
    reveal_strlit(" in `");
    reveal_strlit("adapter");
    reveal_strlit("missing field `name` in `adapter`");
    assert("missing field `"@ + "name"@ + "`"@ + " in `"@ + "adapter"@ + "`"@
        =~= "missing field `name` in `adapter`"@);
    reveal_strlit("expected ");
    reveal_strlit("a string");
    reveal_strlit(" for `");
    reveal_strlit("name");
    reveal_strlit("`");
    reveal_strlit(" in `");
    reveal_strlit("adapter");
    reveal_strlit("expected a string for `name` in `adapter`");
    assert("expected "@ + "a string"@ + " for `"@ + "name"@ + "`"@ + " in `"@ + "adapter"@ + "`"@
        =~= "expected a string for `name` in `adapter`"@);
    reveal_strlit("expected one item");
    reveal_strlit(" in `");
    reveal_strlit("adapter");
    reveal_strlit("`");
    reveal_strlit("expected one item in `adapter`");
    assert("expected one item"@ + " in `"@ + "adapter"@ + "`"@
        =~= "expected one item in `adapter`"@);
    reveal_strlit("expected a table");
    reveal_strlit(" in `");
    reveal_strlit("adapter");
    reveal_strlit("`");
    reveal_strlit("expected a table in `adapter`");
    assert("expected a table"@ + " in `"@ + "adapter"@ + "`"@ =~= "expected a table in `adapter`"@);
    assert(one_field("name"@, JsonView::Str(name)) =~= map!["name"@ => JsonView::Str(name)]);
}

/// A list stands for the table of its items under the members' names, in the order of the
/// members. What stands behind the last member is ignored, and too short a list is told.
pub proof fn lists_stand_for_tables(
    items: Seq<JsonView>,
    names: Seq<Seq<char>>,
    first: nat,
    i: int,
    name: Seq<char>,
    v: JsonView,
)
    requires
        names.no_duplicates(),
        v !is Object,
        v !is Array,
    ensures
        items.len() < first ==> table_of(JsonView::Array(items), names, first) == Err::<
            Map<Seq<char>, JsonView>,
            Seq<char>,
        >("too few items"@),
        table_of(v, names, first) == Err::<Map<Seq<char>, JsonView>, Seq<char>>(
            "expected a table"@,
        ),
        items.len() >= first ==> (table_of(JsonView::Array(items), names, first) matches Ok(table)
            && {
            &&& 0 <= i < items.len() && i < names.len() ==> table.dom().contains(names[i])
                && table[names[i]] == items[i]
            &&& items.len() <= i < names.len() ==> !table.dom().contains(names[i])
            &&& !names.contains(name) ==> !table.dom().contains(name)
        }),
{
    let n = if items.len() <= names.len() {
        items.len()
    } else {
        names.len()
    };
    let entries = Seq::new(n, |i: int| (names[i], items[i]));
    lemma_entries_map(entries);
    assert(distinct_names(entries)) by {
        assert forall|a: int, b: int| 0 <= a < b < entries.len() implies (#[trigger] entries[a]).0
            != (#[trigger] entries[b]).0 by {
            assert(names[a] != names[b]);
        }
    }
    if 0 <= i < n {
        assert(entries[i] == (names[i], items[i]));
    }
    if items.len() <= i < names.len() && entries_map(entries).dom().contains(names[i]) {
        let j = choose|j: int| 0 <= j < entries.len() && (#[trigger] entries[j]).0 == names[i];
        assert(names[j] == names[i]);
    }
    if entries_map(entries).dom().contains(name) {
        let j = choose|j: int| 0 <= j < entries.len() && (#[trigger] entries[j]).0 == name;
        assert(names[j] == name);
    }
}

/// The members that a list gives: three of the settings, of which none must be there, six
/// of a watch, of which five must, and three of a command, of which all must.
pub proof fn lists_give_these_members(items: Seq<JsonView>, dir: Seq<char>)
    ensures
        settings_members() == seq!["scripts_dir"@, "log_level"@, "script_env"@],
        watch_members() == seq![
            "event"@,
            "exec"@,
            "prev"@,
            "curr"@,
            "description"@,
            "enabled"@,
        ],
        command_members() == seq!["name"@, "script"@, "description"@],
        items.len() < 5 ==> watch_of(JsonView::Array(items)) == Err::<WatchView, Seq<char>>(
            "too few items"@,
        ),
        items.len() >= 5 ==> (table_of(JsonView::Array(items), watch_members(), 5) matches Ok(table)
            && watch_of(JsonView::Array(items)) == watch_of(JsonView::Object(table))),
        items.len() < 3 ==> command_of(JsonView::Array(items)) == Err::<CommandView, Seq<char>>(
            "too few items"@,
        ),
        items.len() >= 3 ==> (table_of(JsonView::Array(items), command_members(), 3) matches Ok(
            table,
        ) && command_of(JsonView::Array(items)) == command_of(JsonView::Object(table))),
        table_of(JsonView::Array(items), settings_members(), 0) matches Ok(table)
            && settings_section(JsonView::Array(items), dir) == settings_section(
            JsonView::Object(table),
            dir,
        ),
{
}

/// A document says its sections, each of which may be left out. An error is told of the
/// first section that has one: the settings, the adapter, the watches, the commands.
pub proof fn documents_are_read(table: Map<Seq<char>, JsonView>, dir: Seq<char>, doc: JsonView)
    ensures
        ({
            let settings = if table.dom().contains("settings"@) {
                settings_section(table["settings"@], dir)
            } else {
                settings_of(Map::empty(), dir)
            };
            let adapter = if table.dom().contains("adapter"@) {
                adapter_section(table["adapter"@])
            } else {
                Ok(AdapterView::Mock)
            };
            let (watches, commands) = (listed_watches(table), listed_commands(table));
            let read = config_of(JsonView::Object(table), dir);
            &&& settings is Err ==> read == Err::<ConfigView, Seq<char>>(settings->Err_0)
            &&& settings is Ok && adapter is Err ==> read == Err::<ConfigView, Seq<char>>(
                adapter->Err_0,
            )
            &&& settings is Ok && adapter is Ok && watches is Err ==> read == Err::<
                ConfigView,
                Seq<char>,
            >(watches->Err_0)
            &&& settings is Ok && adapter is Ok && watches is Ok && commands is Err ==> read
                == Err::<ConfigView, Seq<char>>(commands->Err_0)
            &&& settings is Ok && adapter is Ok && watches is Ok && commands is Ok ==> read == Ok::<
                ConfigView,
                Seq<char>,
            >(
                ConfigView {
                    settings: settings->Ok_0,
                    adapter: adapter->Ok_0,
                    watch: watches->Ok_0,
                    command: commands->Ok_0,
                },
            )
        }),
        doc !is Object ==> config_of(doc, dir) == Err::<ConfigView, Seq<char>>("expected a table"@),
{
}

/// The settings of a section are those of its table, and what is wrong with them is told
/// with the section's name.
pub proof fn settings_stand_in_a_section(
    table: Map<Seq<char>, JsonView>,
    dir: Seq<char>,
    other: JsonView,
)
    requires
        other !is Object,
        other !is Array,
    ensures
        settings_of(table, dir) is Ok ==> settings_section(JsonView::Object(table), dir)
            == settings_of(table, dir),
        settings_of(table, dir) is Err ==> settings_section(JsonView::Object(table), dir) == Err::<
            SettingsView,
            Seq<char>,
        >(settings_of(table, dir)->Err_0 + " in `"@ + "settings"@ + "`"@),
        settings_section(other, dir) == Err::<SettingsView, Seq<char>>(
            "expected a table in `settings`"@,
        ),
{
    reveal_strlit("expected a table");
    reveal_strlit(" in `");
    reveal_strlit("settings");
    reveal_strlit("`");
    reveal_strlit("expected a table in `settings`");
    assert("expected a table"@ + " in `"@ + "settings"@ + "`"@
        =~= "expected a table in `settings`"@);
}

/// Watches and commands are listed in their order, and the first that is not well formed
/// is told. Both lists may be left out.
pub proof fn lists_are_read_in_order(
    table: Map<Seq<char>, JsonView>,
    items: Seq<JsonView>,
    item: JsonView,
    other: JsonView,
)
    requires
        other !is Array,
    ensures
        listed_watches(table.remove("watch"@)) == Ok::<Seq<WatchView>, Seq<char>>(Seq::empty()),
        listed_watches(table.insert("watch"@, JsonView::Array(Seq::empty()))) == Ok::<
            Seq<WatchView>,
            Seq<char>,
        >(Seq::empty()),
        listed_watches(table.insert("watch"@, other)) == Err::<Seq<WatchView>, Seq<char>>(
            "expected a list for `watch`"@,
        ),
        ({
            let before = listed_watches(table.insert("watch"@, JsonView::Array(items)));
            let after = listed_watches(table.insert("watch"@, JsonView::Array(items.push(item))));
            &&& before is Err ==> after == before
            &&& before is Ok && watch_of(item) is Ok ==> after == Ok::<Seq<WatchView>, Seq<char>>(
                before->Ok_0.push(watch_of(item)->Ok_0),
            )
            &&& before is Ok && watch_of(item) is Err ==> after == Err::<
                Seq<WatchView>,
                Seq<char>,
            >(watch_of(item)->Err_0 + " in `"@ + "watch"@ + "`"@)
        }),
        listed_commands(table.remove("command"@)) == Ok::<Seq<CommandView>, Seq<char>>(
            Seq::empty(),
        ),
        listed_commands(table.insert("command"@, JsonView::Array(Seq::empty()))) == Ok::<
            Seq<CommandView>,
            Seq<char>,
        >(Seq::empty()),
        listed_commands(table.insert("command"@, other)) == Err::<Seq<CommandView>, Seq<char>>(
            "expected a list for `command`"@,
        ),
        ({
            let before = listed_commands(table.insert("command"@, JsonView::Array(items)));
            let after = listed_commands(
                table.insert("command"@, JsonView::Array(items.push(item))),
            );
            &&& before is Err ==> after == before
            &&& before is Ok && command_of(item) is Ok ==> after == Ok::<
                Seq<CommandView>,
                Seq<char>,
            >(before->Ok_0.push(command_of(item)->Ok_0))
            &&& before is Ok && command_of(item) is Err ==> after == Err::<
                Seq<CommandView>,
                Seq<char>,
            >(command_of(item)->Err_0 + " in `"@ + "command"@ + "`"@)
        }),
{
    reveal_strlit("expected ");
    reveal_strlit("a list");
    reveal_strlit(" for `");
    reveal_strlit("watch");
    reveal_strlit("`");
    reveal_strlit("expected a list for `watch`");
    assert("expected "@ + "a list"@ + " for `"@ + "watch"@ + "`"@
        =~= "expected a list for `watch`"@);
    reveal_strlit("expected ");
    reveal_strlit("a list");
    reveal_strlit(" for `");
    reveal_strlit("command");
    reveal_strlit("`");
    reveal_strlit("expected a list for `command`");
    assert("expected "@ + "a list"@ + " for `"@ + "command"@ + "`"@
        =~= "expected a list for `command`"@);
    assert(items.push(item).drop_last() =~= items);
    assert(items.push(item).last() == item);
}

/// A text is a configuration exactly if it is a document that is one. What is wrong with it
/// is told behind one and the same beginning.
pub proof fn texts_hold_configurations(text: Seq<char>, dir: Seq<char>, c: ConfigView)
    ensures
        parsed_config(text, dir) == Ok::<ConfigView, Seq<char>>(c)
            <==> (toml_parse(text) matches Ok(
            doc,
        ) && config_of(doc, dir) == Ok::<ConfigView, Seq<char>>(c)),
        toml_parse(text) matches Err(e) ==> parsed_config(text, dir) == Err::<
            ConfigView,
            Seq<char>,
        >("Failed to parse TOML config: "@ + e),
        toml_parse(text) matches Ok(doc) ==> config_of(doc, dir) matches Err(e) ==> parsed_config(
            text,
            dir,
        ) == Err::<ConfigView, Seq<char>>("Failed to parse TOML config: "@ + e),
{
}

} // verus!
