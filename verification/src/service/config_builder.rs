//! Resolution of the application configuration: values given on the
//! command line take priority; a configuration file, when named, fills
//! in whatever they left unset. Reading and parsing the file is the
//! `config` crate's work, behind a trusted boundary.

use crate::entity::app_config::AppConfig;
use crate::entity::language::clone_strings;
use crate::text::starts_with;
use vstd::prelude::*;

verus! {

/// Relies on the `config` crate: `Config::builder` with a
/// `File::with_name` source reads and parses the file at `path`
/// (choosing the format by its extension), and `Config::get`
/// deserializes the `exclude` and `reporter` keys, reporting a missing
/// key as `NotFound`. What comes back depends on the disk, so nothing
/// is promised of it.
#[verifier::external_body]
fn load_config_file(path: &str) -> Result<(Option<Vec<String>>, Option<String>), String> {
    let conf = config::Config::builder().add_source(config::File::with_name(path)).build().map_err(
        |e| e.to_string(),
    )?;
    let exclude = match conf.get::<Vec<String>>("exclude") {
        Ok(v) => Some(v),
        Err(config::ConfigError::NotFound(_)) => None,
        Err(e) => return Err(e.to_string()),
    };
    let reporter = match conf.get::<String>("reporter") {
        Ok(s) => Some(s),
        Err(config::ConfigError::NotFound(_)) => None,
        Err(e) => return Err(e.to_string()),
    };
    Ok((exclude, reporter))
}

#[derive(Debug)]
pub struct ConfigBuilder {
    pub exclude: Option<Vec<String>>,
    pub reporter: Option<String>,
}

impl ConfigBuilder {
    /// Starts from the command-line values, copying them.
    pub fn from_cli_args(exclude: &Option<Vec<String>>, reporter: &Option<String>) -> (r: Self)
        ensures
            r.exclude is Some <==> exclude is Some,
            exclude matches Some(v) ==> r.exclude matches Some(w) && w@ == v@,
            r.reporter is Some <==> reporter is Some,
            reporter matches Some(s) ==> r.reporter matches Some(t) && t@ == s@,
    {
        let e: Option<Vec<String>> = match exclude {
            Some(v) => Some(clone_strings(v)),
            None => None,
        };
        let r: Option<String> = match reporter {
            Some(s) => Some(s.clone()),
            None => None,
        };
        ConfigBuilder { exclude: e, reporter: r }
    }

    /// Fills each unset field from a configuration file's values: a field
    /// set on the command line keeps priority, an unset one takes the
    /// file's value.
    pub fn merge_configs(
        self,
        file_exclude: Option<Vec<String>>,
        file_reporter: Option<String>,
    ) -> (r: Self)
        ensures
            r.exclude == (if self.exclude is Some {
                self.exclude
            } else {
                file_exclude
            }),
            r.reporter == (if self.reporter is Some {
                self.reporter
            } else {
                file_reporter
            }),
    {
        let exclude = match self.exclude {
            Some(v) => Some(v),
            None => file_exclude,
        };
        let reporter = match self.reporter {
            Some(s) => Some(s),
            None => file_reporter,
        };
        ConfigBuilder { exclude, reporter }
    }

    /// Loads the named configuration file, if any, and merges it with
    /// `merge_configs`: values already set keep priority. Without a path
    /// nothing changes; a file that cannot be loaded is reported with a
    /// message naming it.
    pub fn merge_file_config(self, config_path: &Option<String>) -> (r: Result<Self, String>)
        ensures
            config_path is None ==> (r matches Ok(b) && b.exclude == self.exclude && b.reporter
                == self.reporter),
            r matches Ok(b) ==> (self.exclude is Some ==> b.exclude == self.exclude) && (
            self.reporter is Some ==> b.reporter == self.reporter),
            r matches Err(e) ==> config_path matches Some(p) && starts_with(
                e@,
                "Failed to load config file: "@ + p@ + ": "@,
            ),
    {
        match config_path {
            None => Ok(self),
            Some(path) => {
                match load_config_file(path.as_str()) {
                    Err(err) => {
                        let mut m = String::from_str("Failed to load config file: ");
                        m.append(path.as_str());
                        m.append(": ");
                        let ghost prefix = m@;
                        m.append(err.as_str());
                        proof {
                            assert(prefix =~= "Failed to load config file: "@ + path@ + ": "@);
                            assert(m@.take(prefix.len() as int) =~= prefix);
                        }
                        Err(m)
                    },
                    Ok((file_exclude, file_reporter)) => Ok(
                        self.merge_configs(file_exclude, file_reporter),
                    ),
                }
            },
        }
    }

    /// The resolved configuration.
    pub fn build(self) -> (r: AppConfig)
        ensures
            r.exclude == self.exclude,
            r.reporter == self.reporter,
    {
        AppConfig { exclude: self.exclude, reporter: self.reporter }
    }
}

} // verus!
