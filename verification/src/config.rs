//! The settings that outlive a session: three directories, each of which
//! may be unset.
//!
//! Loading and saving belong to the runtime. Here are the settings
//! themselves and the rules for reading and changing them; a setter leaves
//! the value to be saved in `self`.

use vstd::prelude::*;

verus! {

/// The persisted settings.
#[derive(Clone, Debug, PartialEq, Eq)]
pub struct AppConfig {
    /// Where merged files are written.
    pub output_directory: Option<String>,
    /// Where inputs were last picked from.
    pub last_input_directory: Option<String>,
    /// Which directory was last scanned.
    pub last_query_directory: Option<String>,
}

/// The settings with their paths as sequences of characters.
pub struct ConfigView {
    pub output_directory: Option<Seq<char>>,
    pub last_input_directory: Option<Seq<char>>,
    pub last_query_directory: Option<Seq<char>>,
}

/// A path that may be unset, as a sequence of characters.
pub open spec fn path_view(path: Option<String>) -> Option<Seq<char>> {
    match path {
        Some(p) => Some(p@),
        None => None,
    }
}

impl View for AppConfig {
    type V = ConfigView;

    open spec fn view(&self) -> ConfigView {
        ConfigView {
            output_directory: path_view(self.output_directory),
            last_input_directory: path_view(self.last_input_directory),
            last_query_directory: path_view(self.last_query_directory),
        }
    }
}

/// A copy of a path that may be unset.
fn copy_path(path: &Option<String>) -> (copy: Option<String>)
    ensures
        path_view(copy) == path_view(*path),
{
    match path {
        Some(p) => Some(p.clone()),
        None => None,
    }
}

impl Default for AppConfig {
    /// The settings of a first start: nothing is set.
    fn default() -> (config: AppConfig)
        ensures
            config@ == (ConfigView {
                output_directory: None,
                last_input_directory: None,
                last_query_directory: None,
            }),
    {
        AppConfig { output_directory: None, last_input_directory: None, last_query_directory: None }
    }
}

impl AppConfig {
    /// Sets the directory that merged files are written to.
    pub fn set_output_directory(&mut self, path: String)
        ensures
            final(self)@ == (ConfigView { output_directory: Some(path@), ..old(self)@ }),
    {
        self.output_directory = Some(path);
    }

    /// Unsets the output directory, so that the working directory is used.
    pub fn clear_output_directory(&mut self)
        ensures
            final(self)@ == (ConfigView { output_directory: None, ..old(self)@ }),
    {
        self.output_directory = None;
    }

    /// The directory that merged files are written to: the one that is set,
    /// else the working directory, else `.` where even that is unknown.
    pub fn get_output_directory(&self, working_directory: Option<String>) -> (path: String)
        ensures
            path@ == match self@.output_directory {
                Some(set) => set,
                None => match working_directory {
                    Some(current) => current@,
                    None => "."@,
                },
            },
    {
        match &self.output_directory {
            Some(set) => set.clone(),
            None => match working_directory {
                Some(current) => current,
                None => String::from_str("."),
            },
        }
    }

    /// Sets the directory that inputs were last picked from.
    pub fn set_last_input_directory(&mut self, path: String)
        ensures
            final(self)@ == (ConfigView { last_input_directory: Some(path@), ..old(self)@ }),
    {
        self.last_input_directory = Some(path);
    }

    /// The directory that inputs were last picked from, if any.
    pub fn get_last_input_directory(&self) -> (path: Option<String>)
        ensures
            path_view(path) == self@.last_input_directory,
    {
        copy_path(&self.last_input_directory)
    }

    /// Sets the directory that was last scanned.
    pub fn set_last_query_directory(&mut self, path: String)
        ensures
            final(self)@ == (ConfigView { last_query_directory: Some(path@), ..old(self)@ }),
    {
        self.last_query_directory = Some(path);
    }

    /// The directory that was last scanned, if any.
    pub fn get_last_query_directory(&self) -> (path: Option<String>)
        ensures
            path_view(path) == self@.last_query_directory,
    {
        copy_path(&self.last_query_directory)
    }

    /// A copy of the settings.
    pub fn duplicate(&self) -> (copy: AppConfig)
        ensures
            copy@ == self@,
    {
        AppConfig {
            output_directory: copy_path(&self.output_directory),
            last_input_directory: copy_path(&self.last_input_directory),
            last_query_directory: copy_path(&self.last_query_directory),
        }
    }
}

} // verus!
