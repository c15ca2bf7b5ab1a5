pub mod config;
pub mod daemon;
pub mod disk_cache;
pub mod fs_scan;
pub mod image_loader;
pub mod image_ring_cache;
pub mod imgcodec;
pub mod laws;
pub mod plugins;
pub mod raster;
pub mod textenc;

use vstd::prelude::*;
use vstd::string::StringExecFns;

use crate::fs_scan::str_eq;

verus! {

/// The command-line options the viewer starts from: the path to open and the
/// logging level.
pub struct Config {
    pub path: String,
    pub log_level: String,
}

/// What parsing the arguments after the program name yields: the path and
/// log-level options gathered so far, or nothing for a rejected word.
/// `-l`/`--log` takes the next word as the log level (a trailing one clears
/// it); the first other word is the path; a second other word is an error.
pub open spec fn spec_parse_args(
    args: Seq<String>,
    i: int,
    path: Option<Seq<char>>,
    log: Option<Seq<char>>,
) -> Option<(Option<Seq<char>>, Option<Seq<char>>)>
    decreases args.len() - i,
{
    if i < 0 || i >= args.len() {
        Some((path, log))
    } else if args[i]@ == "-l"@ || args[i]@ == "--log"@ {
        if i + 1 < args.len() {
            spec_parse_args(args, i + 2, path, Some(args[i + 1]@))
        } else {
            spec_parse_args(args, i + 1, path, None)
        }
    } else if path is None {
        spec_parse_args(args, i + 1, Some(args[i]@), log)
    } else {
        None
    }
}

impl Config {
    /// Parses the command line (the program name first): `-l`/`--log` names
    /// the logging level, the one remaining word is the path to open.
    /// Reports a missing path and any extra word as an error; the log level
    /// defaults to `debug`.
    pub fn build(args: Vec<String>) -> (r: Result<Config, String>)
        requires
            args@.len() >= 1,
        ensures
            match spec_parse_args(args@, 1, None, None) {
                None => (r matches Err(e) && e@ == "Invalid option or too many arguments"@),
                Some(parsed) => match parsed.0 {
                    None => (r matches Err(e) && e@ == "Didn't get a path"@),
                    Some(p) => (r matches Ok(c) && c.path@ == p && c.log_level@ == (
                    match parsed.1 {
                        Some(l) => l,
                        None => "debug"@,
                    })),
                },
            },
    {
        let n = args.len();
        let mut path: Option<String> = None;
        let mut log_level: Option<String> = None;
        let mut i: usize = 1;
        while i < n
            invariant
                n == args@.len(),
                1 <= i,
                i <= n || i == n + 1,
                path matches Some(p) ==> spec_opt_view(path) == Some(p@),
                spec_parse_args(args@, 1, None, None) == spec_parse_args(
                    args@,
                    i as int,
                    spec_opt_view(path),
                    spec_opt_view(log_level),
                ),
            decreases n - i,
        {
            let arg = &args[i];
            if str_eq(arg.as_str(), "-l") || str_eq(arg.as_str(), "--log") {
                if i + 1 < n {
                    log_level = Some(args[i + 1].clone());
                    i = i + 2;
                } else {
                    log_level = None;
                    i = i + 1;
                }
            } else if path.is_none() {
                path = Some(arg.clone());
                i = i + 1;
            } else {
                return Err(String::from_str("Invalid option or too many arguments"));
            }
        }
        match path {
            Some(p) => {
                let log_level = match log_level {
                    Some(l) => l,
                    None => String::from_str("debug"),
                };
                Ok(Config { path: p, log_level })
            },
            None => Err(String::from_str("Didn't get a path")),
        }
    }
}

/// The view of an optional string.
pub open spec fn spec_opt_view(s: Option<String>) -> Option<Seq<char>> {
    match s {
        Some(v) => Some(v@),
        None => None,
    }
}

} // verus!
