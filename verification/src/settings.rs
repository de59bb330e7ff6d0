//! Where the player's settings file is kept between runs.
//!
//! Settings are configuration and saves are data, and the XDG Base Directory
//! specification keeps those apart on purpose: a backup that takes the data
//! home and leaves the config home is a backup of the saves and not of the key
//! bindings. Reading the environment and the file is the program's.

use vstd::prelude::*;

use crate::paths::{is_absolute, join, spec_absolute, spec_join};
use crate::saves::opt_view;

verus! {

/// What a game's settings file is called, under its own directory in the
/// config home.
pub const SETTINGS_FILE: &'static str = "setting.json";

/// Where a user's configuration lives, per the XDG Base Directory
/// specification: an absolute `XDG_CONFIG_HOME`, or else `.config` under an
/// absolute `HOME`, or else nowhere. A relative value is ignored, as the
/// specification says it is to be.
pub open spec fn spec_config_home(xdg: Option<Seq<char>>, home: Option<Seq<char>>) -> Option<Seq<char>> {
    if xdg is Some && spec_absolute(xdg->0) {
        xdg
    } else if home is Some && spec_absolute(home->0) {
        Some(spec_join(home->0, ".config"@))
    } else {
        None
    }
}

/// Where a user's configuration lives, given `XDG_CONFIG_HOME` and `HOME` as
/// the environment has them.
pub fn config_home(xdg: Option<String>, home: Option<String>) -> (r: Option<String>)
    ensures
        opt_view(r) == spec_config_home(opt_view(xdg), opt_view(home)),
{
    if let Some(set) = xdg {
        if is_absolute(set.as_str()) {
            return Some(set);
        }
    }
    match home {
        Some(home) => {
            if is_absolute(home.as_str()) {
                Some(join(home.as_str(), ".config"))
            } else {
                None
            }
        },
        None => None,
    }
}

/// Where a user's configuration lives on a platform that also names an
/// application data directory: an absolute `XDG_CONFIG_HOME` first, then
/// `appdata`, then `.config` under an absolute `HOME`.
pub open spec fn spec_config_home_with(
    xdg: Option<Seq<char>>,
    appdata: Option<Seq<char>>,
    home: Option<Seq<char>>,
) -> Option<Seq<char>> {
    if xdg is Some && spec_absolute(xdg->0) {
        xdg
    } else if appdata is Some {
        appdata
    } else {
        spec_config_home(None, home)
    }
}

/// Where a user's configuration lives, given `XDG_CONFIG_HOME`, the
/// platform's application data directory and `HOME`.
///
/// `appdata` is `%APPDATA%` where the platform reads one and it is an absolute
/// path by that platform's own rules, which the program judges; elsewhere it
/// is nothing, and this is [`config_home`].
pub fn config_home_with(xdg: Option<String>, appdata: Option<String>, home: Option<String>) -> (r: Option<String>)
    ensures
        opt_view(r) == spec_config_home_with(opt_view(xdg), opt_view(appdata), opt_view(home)),
        appdata is None ==> opt_view(r) == spec_config_home(opt_view(xdg), opt_view(home)),
{
    if let Some(set) = xdg {
        if is_absolute(set.as_str()) {
            return Some(set);
        }
    }
    match appdata {
        Some(dir) => Some(dir),
        None => config_home(None, home),
    }
}

/// Where the game called `name` keeps its settings file, or nowhere where the
/// environment names no home at all.
///
/// Nowhere rather than a path beside the working directory, which is where the
/// save directory falls back to: a save nobody can write is a lost game and
/// worth falling back for, and a setting nobody can write is a run with the
/// defaults, which is what a fresh install is anyway.
pub fn settings_path(xdg: Option<String>, home: Option<String>, name: &str) -> (r: Option<String>)
    ensures
        opt_view(r) == (match spec_config_home(opt_view(xdg), opt_view(home)) {
            Some(config) => Some(spec_join(spec_join(config, name@), SETTINGS_FILE@)),
            None => None,
        }),
{
    match config_home(xdg, home) {
        Some(config) => {
            let game = join(config.as_str(), name);
            Some(join(game.as_str(), SETTINGS_FILE))
        },
        None => None,
    }
}

/// Where the configuration lives, in order: an absolute `XDG_CONFIG_HOME`,
/// then the platform's application data directory, then `.config` under an
/// absolute `HOME`, then nowhere. With no application data directory it is
/// exactly the XDG answer.
pub proof fn lemma_config_home_order(xdg: Option<Seq<char>>, appdata: Option<Seq<char>>, home: Option<Seq<char>>)
    ensures
        appdata is None ==> spec_config_home_with(xdg, appdata, home) == spec_config_home(xdg, home),
        (xdg is Some && spec_absolute(xdg->0)) ==> spec_config_home_with(xdg, appdata, home) == xdg,
        !(xdg is Some && spec_absolute(xdg->0)) && appdata is Some
            ==> spec_config_home_with(xdg, appdata, home) == appdata,
        !(xdg is Some && spec_absolute(xdg->0)) && appdata is None && home is Some && spec_absolute(home->0)
            ==> spec_config_home_with(xdg, appdata, home) == Some(spec_join(home->0, ".config"@)),
        !(xdg is Some && spec_absolute(xdg->0)) && appdata is None && !(home is Some && spec_absolute(home->0))
            ==> spec_config_home_with(xdg, appdata, home) is None,
{
}

/// The settings file of the game called `name` under a config home, or
/// nowhere where there is none.
pub fn settings_under(config: Option<String>, name: &str) -> (r: Option<String>)
    ensures
        opt_view(r) == (match opt_view(config) {
            Some(home) => Some(spec_join(spec_join(home, name@), SETTINGS_FILE@)),
            None => None,
        }),
{
    match config {
        Some(home) => {
            let game = join(home.as_str(), name);
            Some(join(game.as_str(), SETTINGS_FILE))
        },
        None => None,
    }
}

/// What the player's binding file is called, inside a game's own directory.
pub const BINDINGS_FILE: &'static str = "bindings.json";

/// Where the player's binding file is: in the game's own directory, beside
/// `saves/`, so that `--state` moves it along with everything else the game
/// keeps. The file holds what the player changed and is never written.
pub fn bindings_path(root: &str) -> (r: String)
    ensures
        r@ == spec_join(root@, BINDINGS_FILE@),
{
    join(root, BINDINGS_FILE)
}

} // verus!
