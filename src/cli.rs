//! Command-line arguments and their checks.
use vstd::prelude::*;

verus! {

#[verifier::external_type_specification]
#[verifier::external_body]
pub struct ExPathBuf(std::path::PathBuf);

/// Relies on `Path::exists`: whether the path names something on disk now.
#[verifier::external_body]
fn path_exists(p: &std::path::PathBuf) -> (r: bool) {
    p.exists()
}

/// Relies on `Path::is_file`: whether the path names a regular file now.
#[verifier::external_body]
fn path_is_file(p: &std::path::PathBuf) -> (r: bool) {
    p.is_file()
}

/// Relies on `Path::to_str`: the path as text, `None` when it is not valid
/// Unicode.
#[verifier::external_body]
fn path_to_str(p: &std::path::PathBuf) -> (r: Option<&str>) {
    p.to_str()
}

/// Command-line arguments of the agent.
#[derive(Debug)]
pub struct Cli {
    /// Path of the configuration file.
    pub config: Option<std::path::PathBuf>,
    /// Verbose logging.
    pub verbose: bool,
}

/// A configuration path is acceptable when nothing is there yet (defaults are
/// used) or when it names a regular file.
pub open spec fn config_path_acceptable(present: bool, is_file: bool) -> bool {
    !present || is_file
}

/// Decides on a configuration path from what the file system says of it.
pub fn check_config_path(present: bool, is_file: bool) -> (r: Result<(), String>)
    ensures
        r is Ok <==> config_path_acceptable(present, is_file),
{
    if present && !is_file {
        Err(String::from_str("Configuration path is not a file"))
    } else {
        Ok(())
    }
}

impl Cli {
    /// Checks the arguments: a configuration path that exists must be a
    /// file. A missing file is accepted, as defaults are used then.
    pub fn validate(&self) -> (r: Result<(), String>)
        ensures
            self.config is None ==> r is Ok,
    {
        match &self.config {
            Some(path) => {
                let present = path_exists(path);
                let is_file = if present { path_is_file(path) } else { false };
                check_config_path(present, is_file)
            },
            None => Ok(()),
        }
    }

    /// The configuration path as text: `None` without one, an error when it
    /// is not valid Unicode.
    pub fn config_path_str(&self) -> (r: Result<Option<&str>, String>)
        ensures
            self.config is None <==> r == Ok::<Option<&str>, String>(None),
            self.config is Some ==> (r is Err || r matches Ok(Some(_))),
    {
        match &self.config {
            Some(path) => match path_to_str(path) {
                Some(s) => Ok(Some(s)),
                None => Err(String::from_str("Configuration file path contains invalid UTF-8 characters")),
            },
            None => Ok(None),
        }
    }
}

} // verus!
