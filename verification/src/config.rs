//! Engine configuration: the directories the engine reads and writes, the
//! derived file paths inside them, and the download parallelism.  The caller
//! supplies the platform's base directories; the derived paths are pinned to
//! the fixed file names inside them.

use vstd::prelude::*;
use vstd::string::StringExecFns;
use crate::naming::{join_path, joined_path};

verus! {

/// The engine's configuration.  Paths are plain unix-style strings; resolving
/// the platform's base directories is the caller's job.
#[derive(Clone, Debug)]
pub struct Config {
    /// The configuration directory.
    pub config_dir: String,
    /// The main configuration file, `config.toml` inside `config_dir`.
    pub config_file_path: String,
    /// The cache directory; chunk temporary files live here.
    pub cache_dir: String,
    /// The history file, `history.json` inside `cache_dir`.
    pub history_file_path: String,
    /// The log directory, `logs` inside `cache_dir`.
    pub log_dir: String,
    /// Where finished downloads land.
    pub download_dir: String,
    /// Download parallelism: how many chunks a download is split into.
    pub threads: usize,
}

impl Config {
    /// The derived paths agree with the base directories and the parallelism
    /// is usable.
    pub open spec fn wf(self) -> bool {
        &&& 1 <= self.threads <= u32::MAX
        &&& self.config_file_path@ == joined_path(self.config_dir@, "config.toml"@)
        &&& self.history_file_path@ == joined_path(self.cache_dir@, "history.json"@)
        &&& self.log_dir@ == joined_path(self.cache_dir@, "logs"@)
    }

    /// Build a configuration from the platform's base directories, deriving
    /// the fixed file paths inside them.
    pub fn from_base_dirs(
        config_dir: String,
        cache_dir: String,
        download_dir: String,
        threads: usize,
    ) -> (c: Config)
        requires
            1 <= threads <= u32::MAX,
        ensures
            c.wf(),
            c.config_dir@ == config_dir@,
            c.cache_dir@ == cache_dir@,
            c.download_dir@ == download_dir@,
            c.threads == threads,
    {
        let config_file_path = join_path(config_dir.as_str(), "config.toml");
        let history_file_path = join_path(cache_dir.as_str(), "history.json");
        let log_dir = join_path(cache_dir.as_str(), "logs");
        Config {
            config_dir,
            config_file_path,
            cache_dir,
            history_file_path,
            log_dir,
            download_dir,
            threads,
        }
    }

    /// The log file for one run: `<run_id>.log` inside the log directory.
    /// The run identifier (a timestamp plus a process id) comes from the
    /// caller, since only it can observe the clock.
    pub fn log_file_path(&self, run_id: &str) -> (p: String)
        ensures
            p@ == joined_path(self.log_dir@, run_id@ + ".log"@),
    {
        let mut name = run_id.to_owned();
        name.append(".log");
        join_path(self.log_dir.as_str(), name.as_str())
    }
}

/// What a fresh history file holds: an empty list, ready for appended records.
pub fn initial_history_contents() -> (s: String)
    ensures
        s@ == "[\n\n]"@,
{
    let s: &str = "[\n\n]";
    s.to_owned()
}

} // verus!
