//! User settings, versioned so that the stored form can evolve.
use vstd::prelude::*;

verus! {

/// The settings of the first version: the directory that puzzles are written under.
#[derive(Clone, Debug, PartialEq, Eq)]
pub struct Settings {
    pub(crate) directory: String,
}

impl Settings {
    pub closed spec fn directory(&self) -> Seq<char> {
        self.directory@
    }

    pub fn new(directory: String) -> (r: Settings)
        ensures
            r.directory() == directory@,
    {
        Settings { directory }
    }

    pub fn get_directory(&self) -> (r: String)
        ensures
            r@ == self.directory(),
    {
        self.directory.clone()
    }

    pub fn set_directory(&mut self, path: String)
        ensures
            final(self).directory() == path@,
    {
        self.directory = path;
    }
}

impl Default for Settings {
    /// No directory chosen yet.
    fn default() -> (r: Settings)
        ensures
            r.directory() == Seq::<char>::empty(),
    {
        Settings { directory: String::new() }
    }
}

/// Settings tagged with the version of their layout.
#[derive(Clone, Debug, PartialEq, Eq)]
pub enum VersionedSettings {
    V1(Settings),
}

impl Default for VersionedSettings {
    /// The current version with default settings.
    fn default() -> (r: VersionedSettings)
        ensures
            r->V1_0.directory() == Seq::<char>::empty(),
    {
        VersionedSettings::V1(Settings::default())
    }
}

impl VersionedSettings {
    /// The settings of the current version, to change in place.
    pub fn get_mut_settings(&mut self) -> (r: &mut Settings)
        ensures
            *r == old(self)->V1_0,
            *final(self) == VersionedSettings::V1(*final(r)),
    {
        match self {
            VersionedSettings::V1(settings) => settings,
        }
    }

    /// The settings of the current version.
    pub fn get_settings(&self) -> (r: &Settings)
        ensures
            *r == self->V1_0,
    {
        match self {
            VersionedSettings::V1(settings) => settings,
        }
    }
}

} // verus!
