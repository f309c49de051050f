//! What a run is asked to do.
//!
//! Reading the command line is left to the caller. What it found there comes
//! in as plain values: the directory, if one was named, and whether the
//! dry-run flag was present.

use vstd::prelude::*;

verus! {

/// The settings of one run. They are fixed once made.
#[derive(Debug, PartialEq, Eq)]
pub struct Config {
    dir: String,
    dry_run: bool,
}

/// The mathematical value of a [`Config`].
pub struct ConfigView {
    /// The directory to scan. It need not exist: a scan of a missing
    /// directory finds nothing.
    pub dir: Seq<char>,
    /// Whether build directories are only shown, not deleted.
    pub dry_run: bool,
}

/// Why a command line gives no settings.
#[derive(Clone, Copy, Debug, PartialEq, Eq)]
pub enum UsageError {
    /// No directory was named.
    MissingDir,
}

impl View for Config {
    type V = ConfigView;

    closed spec fn view(&self) -> ConfigView {
        ConfigView { dir: self.dir@, dry_run: self.dry_run }
    }
}

impl Config {
    /// The settings for scanning `dir`, deleting what is found unless
    /// `dry_run` is set.
    pub fn new(dir: String, dry_run: bool) -> (config: Config)
        ensures
            config@ == (ConfigView { dir: dir@, dry_run }),
    {
        Config { dir, dry_run }
    }

    /// The settings that a command line asks for. The directory is required:
    /// without one there is nothing to scan, and no settings are made. The
    /// flag is optional, and a run without it deletes.
    pub fn parse(dir: Option<String>, dry_run: bool) -> (parsed: Result<Config, UsageError>)
        ensures
            match parsed {
                Ok(config) => dir.is_some() && config@ == (ConfigView {
                    dir: dir.unwrap()@,
                    dry_run,
                }),
                Err(error) => dir.is_none() && error == UsageError::MissingDir,
            },
    {
        match dir {
            Some(dir) => Ok(Config::new(dir, dry_run)),
            None => Err(UsageError::MissingDir),
        }
    }

    /// The directory to scan.
    pub fn dir(&self) -> (dir: &String)
        ensures
            dir@ == self@.dir,
    {
        &self.dir
    }

    /// Whether build directories are only shown, not deleted.
    pub fn dry_run(&self) -> (dry_run: bool)
        ensures
            dry_run == self@.dry_run,
    {
        self.dry_run
    }
}

} // verus!
