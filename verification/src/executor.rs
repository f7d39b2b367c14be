use vstd::prelude::*;

use crate::config::{join_path, joined_path, path_from, path_of_text, LoggingConfig};
use std::path::PathBuf;

verus! {

/// The daemon's entry point. Reading the command line, taking the lock,
/// loading the configuration and serving are the program's own; what they
/// decide is here.
pub struct Executor;

/// The configuration directory below the home directory.
pub open spec fn home_config_subdir() -> Seq<char> {
    seq!['.', 'c', 'o', 'n', 'f', 'i', 'g', '/', 'a', 'x', 'u', 's']
}

impl Executor {
    /// The log filter used when the environment sets none: the configured
    /// level, with the database driver's logging switched off.
    pub fn default_log_filter(conf: &LoggingConfig) -> (r: String)
        ensures
            r@ == conf.level@ + seq![',', 's', 'q', 'l', 'x', '=', 'o', 'f', 'f'],
    {
        let mut s = conf.level.clone();
        let suffix = ",sqlx=off";
        proof {
            reveal_strlit(",sqlx=off");
            assert(suffix@ =~= seq![',', 's', 'q', 'l', 'x', '=', 'o', 'f', 'f']);
        }
        s.append(suffix);
        s
    }

    /// The configuration directory when the command line names none: the one
    /// the environment names; else `.config/axus` below the home directory;
    /// else `.config/axus` relative to the working directory.
    pub fn default_config_dir(env_dir: Option<PathBuf>, home_dir: Option<PathBuf>) -> (r: PathBuf)
        ensures
            match env_dir {
                Some(d) => r == d,
                None => match home_dir {
                    Some(h) => r == joined_path(h, home_config_subdir()),
                    None => r == path_of_text(home_config_subdir()),
                },
            },
    {
        let sub = ".config/axus";
        proof {
            reveal_strlit(".config/axus");
            assert(sub@ =~= home_config_subdir());
        }
        if let Some(d) = env_dir {
            return d;
        }
        match home_dir {
            Some(h) => join_path(&h, sub),
            None => path_from(sub),
        }
    }
}

} // verus!
