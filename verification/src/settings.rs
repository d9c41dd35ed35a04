//! The settings that the library reads: where the documents lie, how often
//! the screen is drawn, whether debugging is on.

use config::Config;
use vstd::prelude::*;
use vstd::string::StringExecFns;

verus! {

/// `Config` of config: the settings as they were loaded, carried through as
/// they are and asked key by key.
#[verifier::external_type_specification]
#[verifier::external_body]
pub struct ExConfig(Config);

/// For each key that a lookup of a string finds in the settings, the string
/// it finds.
pub uninterp spec fn config_strings(settings: Config) -> Map<Seq<char>, Seq<char>>;

/// For each key that a lookup of a truth value finds in the settings, the
/// value it finds.
pub uninterp spec fn config_flags(settings: Config) -> Map<Seq<char>, bool>;

/// For each key that a lookup of a whole number finds in the settings, the
/// number it finds.
pub uninterp spec fn config_numbers(settings: Config) -> Map<Seq<char>, i64>;

/// Whether `key` names a setting plainly, without a subscript into a list.
/// A lookup of config may panic on a subscript below zero, so the lookups
/// here take plain keys only.
pub open spec fn plain_key(key: Seq<char>) -> bool {
    !key.contains('[')
}

/// Calls `Config::get_string` of config and drops the error. The key must
/// be plain. Trusted: the call is a lookup in the settings as they stand, so
/// the same key gives the same answer.
#[verifier::external_body]
fn lookup_string(settings: &Config, key: &str) -> (found: Option<String>)
    requires
        plain_key(key@),
    ensures
        found is Some <==> config_strings(*settings).contains_key(key@),
        found matches Some(text) ==> text@ == config_strings(*settings)[key@],
{
    settings.get_string(key).ok()
}

/// Calls `Config::get_bool` of config and drops the error. The key must be
/// plain. Trusted: the call is a lookup in the settings as they stand.
#[verifier::external_body]
fn lookup_flag(settings: &Config, key: &str) -> (found: Option<bool>)
    requires
        plain_key(key@),
    ensures
        found is Some <==> config_flags(*settings).contains_key(key@),
        found matches Some(flag) ==> flag == config_flags(*settings)[key@],
{
    settings.get_bool(key).ok()
}

/// Calls `Config::get_int` of config and drops the error. The key must be
/// plain. Trusted: the call is a lookup in the settings as they stand.
#[verifier::external_body]
fn lookup_number(settings: &Config, key: &str) -> (found: Option<i64>)
    requires
        plain_key(key@),
    ensures
        found is Some <==> config_numbers(*settings).contains_key(key@),
        found matches Some(number) ==> number == config_numbers(*settings)[key@],
{
    settings.get_int(key).ok()
}

/// How many cycles of the main loop pass between two drawings of the
/// screen, where the settings do not say.
pub const SCREEN_REDRAW_RATE: u128 = 288;

/// The string that the settings hold under `key`, or `fallback`.
pub open spec fn string_or(settings: Config, key: Seq<char>, fallback: Seq<char>) -> Seq<char> {
    if config_strings(settings).contains_key(key) {
        config_strings(settings)[key]
    } else {
        fallback
    }
}

/// Whether the settings turn debugging on; they do not where they do not
/// speak of it.
pub open spec fn debug_of(settings: Config) -> bool {
    config_flags(settings).contains_key("debug"@) && config_flags(settings)["debug"@]
}

/// The directory of the data, as the settings give it.
pub open spec fn data_dir_of(settings: Config) -> Seq<char> {
    string_or(settings, "paths.data_dir"@, "data"@)
}

/// The redraw rate and the debug switch, each as the settings give it or at
/// its default (288 cycles, off). A rate below zero is read as the cast to
/// `u128` gives it: with 2^128 added, so that -1 is read as the largest
/// value there is.
pub fn init_settings(settings: &Config) -> (read: (u128, bool))
    ensures
        read.1 == debug_of(*settings),
        read.0 == if config_numbers(*settings).contains_key("performance.screen_redraw_rate"@) {
            config_numbers(*settings)["performance.screen_redraw_rate"@] as u128
        } else {
            SCREEN_REDRAW_RATE
        },
{
    proof {
        reveal_strlit("performance.screen_redraw_rate");
    }
    let rate: u128 = match lookup_number(settings, "performance.screen_redraw_rate") {
        Some(number) => number as u128,
        None => SCREEN_REDRAW_RATE,
    };
    (rate, is_debug(settings))
}

/// The directory of the data: `paths.data_dir`, or `data`.
pub fn get_data_dir(settings: &Config) -> (dir: String)
    ensures
        dir@ == data_dir_of(*settings),
{
    proof {
        reveal_strlit("paths.data_dir");
    }
    match lookup_string(settings, "paths.data_dir") {
        Some(dir) => dir,
        None => "data".to_string(),
    }
}

/// The path of the network table: the data directory, a slash, and
/// `paths.network_library` or `networks.yaml`.
pub fn network_library_path(settings: &Config) -> (path: String)
    ensures
        path@ == data_dir_of(*settings) + "/"@ + string_or(
            *settings,
            "paths.network_library"@,
            "networks.yaml"@,
        ),
{
    let mut path = get_data_dir(settings);
    path.append("/");
    proof {
        reveal_strlit("paths.network_library");
    }
    match lookup_string(settings, "paths.network_library") {
        Some(base) => path.append(base.as_str()),
        None => path.append("networks.yaml"),
    }
    path
}

/// The path of the content library: the data directory, a slash, and
/// `paths.transmission_library` or `transmissions/sets.yaml`.
pub fn transmission_library_path(settings: &Config) -> (path: String)
    ensures
        path@ == data_dir_of(*settings) + "/"@ + string_or(
            *settings,
            "paths.transmission_library"@,
            "transmissions/sets.yaml"@,
        ),
{
    let mut path = get_data_dir(settings);
    path.append("/");
    proof {
        reveal_strlit("paths.transmission_library");
    }
    match lookup_string(settings, "paths.transmission_library") {
        Some(base) => path.append(base.as_str()),
        None => path.append("transmissions/sets.yaml"),
    }
    path
}

/// Whether debugging is on: `debug`, or off.
pub fn is_debug(settings: &Config) -> (debug: bool)
    ensures
        debug == debug_of(*settings),
{
    proof {
        reveal_strlit("debug");
    }
    match lookup_flag(settings, "debug") {
        Some(flag) => flag,
        None => false,
    }
}

} // verus!
