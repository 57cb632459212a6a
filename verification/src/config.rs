//! The application's settings and the rules for changing them.
//!
//! The settings live in a JSON file that the library never opens.  Its owner
//! reads the file, hands over what it found, and writes back what it gets.

use crate::paths::{data_dir, join_path, joined};
use crate::recorder::{default_dir, text_view, RecorderConfig};
use crate::text::{blank, is_blank};
use vstd::prelude::*;

verus! {

/// The settings of the application.
#[derive(Debug, Clone)]
pub struct AppConfig {
    pub server_url: String,
    pub token: String,
    /// The directory for recordings; `None` for the default one.
    pub output_dir: Option<String>,
    /// The name of the input device; `None` to follow the system's default.
    pub input_device: Option<String>,
}

impl Default for AppConfig {
    /// Nothing is set.
    fn default() -> (config: Self)
        ensures
            config.server_url@.len() == 0,
            config.token@.len() == 0,
            config.output_dir is None,
            config.input_device is None,
    {
        AppConfig {
            server_url: String::new(),
            token: String::new(),
            output_dir: None,
            input_device: None,
        }
    }
}

/// The path of the settings file below the directory for application data.
pub open spec fn config_path_in(data_dir: Seq<char>) -> Seq<char> {
    joined(joined(data_dir, "com.lyre.app"@), "config.json"@)
}

/// The path of the settings file, given the directory for application data
/// if there is one.
pub fn config_path_from(data_dir: Option<String>) -> (r: Result<String, String>)
    ensures
        data_dir matches Some(d) ==> (r matches Ok(p) && p@ == config_path_in(d@)),
        data_dir is None ==> (r matches Err(e) && e@ == "could not determine app data directory"@),
{
    match data_dir {
        Some(d) => {
            let app_dir = join_path(d.as_str(), "com.lyre.app");
            Ok(join_path(app_dir.as_str(), "config.json"))
        },
        None => Err(String::from_str("could not determine app data directory")),
    }
}

/// The path of the settings file in this user's environment.
pub fn config_path() -> (r: Result<String, String>)
    ensures
        r matches Ok(p) ==> exists|d: Seq<char>| p@ == config_path_in(d),
        r matches Err(e) ==> e@ == "could not determine app data directory"@,
{
    config_path_from(data_dir())
}

/// The settings to start from: what was loaded, or nothing set where loading
/// failed.
fn base_config(loaded: Result<AppConfig, String>) -> (config: AppConfig)
    ensures
        loaded matches Ok(c) ==> config == c,
        loaded is Err ==> config.server_url@.len() == 0 && config.token@.len() == 0
            && config.output_dir is None && config.input_device is None,
{
    match loaded {
        Ok(c) => c,
        Err(_) => AppConfig::default(),
    }
}

/// The output directory of the loaded settings, if they have one.
pub open spec fn loaded_output_dir(loaded: Result<AppConfig, String>) -> Option<Seq<char>> {
    match loaded {
        Ok(c) => text_view(c.output_dir),
        Err(_) => None,
    }
}

/// The input device of the loaded settings, if they have one.
pub open spec fn loaded_input_device(loaded: Result<AppConfig, String>) -> Option<Seq<char>> {
    match loaded {
        Ok(c) => text_view(c.input_device),
        Err(_) => None,
    }
}

fn owned(s: Option<&str>) -> (r: Option<String>)
    ensures
        s matches Some(t) ==> (r matches Some(o) && o@ == t@),
        s is None ==> r is None,
{
    match s {
        Some(t) => Some(String::from_str(t)),
        None => None,
    }
}

/// The settings to write when the server and the token are saved: the
/// loaded ones with these two replaced, and nothing else touched.
pub fn save_config(loaded: Result<AppConfig, String>, server_url: &str, token: &str) -> (config:
    AppConfig)
    ensures
        config.server_url@ == server_url@,
        config.token@ == token@,
        text_view(config.output_dir) == loaded_output_dir(loaded),
        text_view(config.input_device) == loaded_input_device(loaded),
{
    let mut config = base_config(loaded);
    config.server_url = String::from_str(server_url);
    config.token = String::from_str(token);
    config
}

/// The settings to write when the output directory is saved; `None` goes
/// back to the default directory.
pub fn save_output_dir(loaded: Result<AppConfig, String>, output_dir: Option<&str>) -> (config:
    AppConfig)
    ensures
        output_dir matches Some(d) ==> (config.output_dir matches Some(o) && o@ == d@),
        output_dir is None ==> config.output_dir is None,
        loaded matches Ok(c) ==> config.server_url@ == c.server_url@ && config.token@ == c.token@,
        loaded is Err ==> config.server_url@.len() == 0 && config.token@.len() == 0,
        text_view(config.input_device) == loaded_input_device(loaded),
{
    let mut config = base_config(loaded);
    config.output_dir = owned(output_dir);
    config
}

/// The settings to write when the input device is saved; `None` follows the
/// system's default.
pub fn save_input_device(loaded: Result<AppConfig, String>, device_name: Option<&str>) -> (config:
    AppConfig)
    ensures
        device_name matches Some(d) ==> (config.input_device matches Some(o) && o@ == d@),
        device_name is None ==> config.input_device is None,
        loaded matches Ok(c) ==> config.server_url@ == c.server_url@ && config.token@ == c.token@,
        loaded is Err ==> config.server_url@.len() == 0 && config.token@.len() == 0,
        text_view(config.output_dir) == loaded_output_dir(loaded),
{
    let mut config = base_config(loaded);
    config.input_device = owned(device_name);
    config
}

/// The directory that the settings name for recordings, if they name one:
/// an empty name counts as none.
pub open spec fn configured_output_dir(loaded: Result<AppConfig, String>) -> Option<Seq<char>> {
    match loaded_output_dir(loaded) {
        Some(d) => if d.len() > 0 {
            Some(d)
        } else {
            None
        },
        None => None,
    }
}

/// The directory for recordings: the one of the settings, or the default
/// directory of this user's environment where the settings name none or
/// could not be loaded.
pub fn get_output_dir(loaded: Result<AppConfig, String>) -> (dir: String)
    ensures
        match configured_output_dir(loaded) {
            Some(d) => dir@ == d,
            None => exists|audio: Option<Seq<char>>, home: Option<Seq<char>>|
                dir@ == default_dir(audio, home),
        },
{
    match loaded {
        Ok(c) => match c.output_dir {
            Some(dir) => {
                if dir.as_str().unicode_len() > 0 {
                    return dir;
                }
            },
            None => {},
        },
        Err(_) => {},
    }
    RecorderConfig::default().output_dir
}

/// The input device that the settings name, if they could be loaded and
/// name one: an empty name counts as none.
pub fn get_input_device(loaded: Result<AppConfig, String>) -> (device: Option<String>)
    ensures
        match loaded_input_device(loaded) {
            Some(d) => if d.len() > 0 {
                device matches Some(n) && n@ == d
            } else {
                device is None
            },
            None => device is None,
        },
{
    match loaded {
        Ok(c) => match c.input_device {
            Some(name) => {
                if name.as_str().unicode_len() > 0 {
                    Some(name)
                } else {
                    None
                }
            },
            None => None,
        },
        Err(_) => None,
    }
}

/// What a request to set the output directory to `path` asks to save: the
/// path as it was given, or `None`, the default directory, for a path that
/// is blank.
pub fn requested_output_dir(path: &str) -> (dir: Option<String>)
    ensures
        is_blank(path@) ==> dir is None,
        !is_blank(path@) ==> (dir matches Some(d) && d@ == path@),
{
    if blank(path) {
        None
    } else {
        Some(String::from_str(path))
    }
}

/// Whether the settings could be loaded and hold both a server and a token.
pub fn has_config(loaded: Result<AppConfig, String>) -> (b: bool)
    ensures
        b == (loaded matches Ok(c) && c.server_url@.len() > 0 && c.token@.len() > 0),
{
    match loaded {
        Ok(c) => c.server_url.as_str().unicode_len() > 0 && c.token.as_str().unicode_len() > 0,
        Err(_) => false,
    }
}

} // verus!
