use vstd::prelude::*;
use vstd::string::StringExecFns;

use crate::fs_scan::str_eq;

verus! {

/// A resolved background color, one byte per channel.
#[derive(PartialEq, Eq, Structural, Clone, Copy, Debug)]
pub struct Rgba {
    pub a: u8,
    pub r: u8,
    pub g: u8,
    pub b: u8,
}

/// The settings the viewer runs with, after command line, configuration file
/// and defaults have been merged.
pub struct Config {
    pub path: String,
    pub log_level: String,
    pub threads: usize,
    pub window_size: usize,
    pub background: Rgba,
    pub bindings: Vec<(String, String)>,
}

/// The options given on the command line, each still optional.
pub struct CliOptions {
    pub path: Option<String>,
    pub log_level: Option<String>,
    pub threads: Option<usize>,
    pub window_size: Option<usize>,
    pub background: Option<String>,
}

/// The options read from the configuration file, each still optional.
pub struct FileOptions {
    pub path: Option<String>,
    pub log_level: Option<String>,
    pub threads: Option<usize>,
    pub window_size: Option<usize>,
    pub background: Option<String>,
    pub bindings: Option<Vec<(String, String)>>,
}

/// The color csscolorparser yields for a CSS color string, as RGBA channel
/// bytes, or `None` for a string it rejects; a function of the string alone.
pub uninterp spec fn css_color_of(s: Seq<char>) -> Option<(u8, u8, u8, u8)>;

/// Parses a CSS color string into channel bytes.
/// Relies on csscolorparser::parse and Color::to_rgba8.
#[verifier::external_body]
fn parse_css(s: &str) -> (out: Option<(u8, u8, u8, u8)>)
    ensures
        out == css_color_of(s@),
{
    match csscolorparser::parse(s) {
        Ok(c) => {
            let rgba = c.to_rgba8();
            Some((rgba[0], rgba[1], rgba[2], rgba[3]))
        },
        Err(_) => None,
    }
}

/// The worker count the host suggests.
/// Relies on num_cpus::get, which returns at least 1; the value depends on
/// the machine, so nothing more is assumed of it.
#[verifier::external_body]
pub(crate) fn host_parallelism() -> (n: usize)
    ensures
        n >= 1,
{
    num_cpus::get()
}

/// The color a background string resolves to: the parsed color, or opaque
/// black for a string the parser rejects (reported, never fatal).
pub open spec fn spec_resolved_color(s: Seq<char>) -> Rgba {
    match css_color_of(s) {
        Some(t) => Rgba { a: t.3, r: t.0, g: t.1, b: t.2 },
        None => Rgba { a: 255, r: 0, g: 0, b: 0 },
    }
}

/// Resolves a background color string, falling back to opaque black.
pub fn parse_color(color_str: &str) -> (c: Rgba)
    ensures
        c == spec_resolved_color(color_str@),
{
    match parse_css(color_str) {
        Some(t) => Rgba { a: t.3, r: t.0, g: t.1, b: t.2 },
        None => Rgba { a: 255, r: 0, g: 0, b: 0 },
    }
}

/// The views of a binding list: each action name with its key.
pub open spec fn binding_views(bs: Seq<(String, String)>) -> Seq<(Seq<char>, Seq<char>)> {
    bs.map_values(|p: (String, String)| (p.0@, p.1@))
}

/// The built-in key bindings.
pub open spec fn spec_default_bindings() -> Seq<(Seq<char>, Seq<char>)> {
    seq![
        ("quit"@, "q"@),
        ("toggle_fullscreen"@, "f"@),
        ("switch_mode"@, "Escape"@),
        ("grid_page_down"@, "PageDown"@),
        ("grid_page_up"@, "PageUp"@),
        ("reset_zoom"@, "z"@),
    ]
}

/// The built-in key bindings, as a fresh list.
pub fn default_bindings() -> (out: Vec<(String, String)>)
    ensures
        binding_views(out@) == spec_default_bindings(),
{
    let mut out: Vec<(String, String)> = Vec::new();
    out.push((String::from_str("quit"), String::from_str("q")));
    out.push((String::from_str("toggle_fullscreen"), String::from_str("f")));
    out.push((String::from_str("switch_mode"), String::from_str("Escape")));
    out.push((String::from_str("grid_page_down"), String::from_str("PageDown")));
    out.push((String::from_str("grid_page_up"), String::from_str("PageUp")));
    out.push((String::from_str("reset_zoom"), String::from_str("z")));
    proof {
        assert(binding_views(out@) =~= spec_default_bindings());
    }
    out
}

/// The key bound to an action: the last binding wins, so a user binding
/// appended after the defaults overrides them.
pub open spec fn spec_binding_lookup(views: Seq<(Seq<char>, Seq<char>)>, action: Seq<char>) -> Option<
    Seq<char>,
>
    decreases views.len(),
{
    if views.len() == 0 {
        None
    } else if views.last().0 == action {
        Some(views.last().1)
    } else {
        spec_binding_lookup(views.drop_last(), action)
    }
}

/// Looks up the key bound to an action.
pub fn binding_for(bindings: &Vec<(String, String)>, action: &str) -> (r: Option<String>)
    ensures
        match r {
            Some(key) => spec_binding_lookup(binding_views(bindings@), action@) == Some(key@),
            None => spec_binding_lookup(binding_views(bindings@), action@) is None,
        },
{
    let n = bindings.len();
    proof {
        assert(binding_views(bindings@).subrange(0, n as int) =~= binding_views(bindings@));
    }
    let mut i: usize = n;
    while i > 0
        invariant
            n == bindings@.len(),
            i <= n,
            spec_binding_lookup(binding_views(bindings@), action@) == spec_binding_lookup(
                binding_views(bindings@).subrange(0, i as int),
                action@,
            ),
        decreases i,
    {
        let ghost pfx = binding_views(bindings@).subrange(0, i as int);
        proof {
            assert(pfx.last() == binding_views(bindings@)[i - 1]);
            assert(pfx.drop_last() =~= binding_views(bindings@).subrange(0, i - 1));
        }
        if str_eq(bindings[i - 1].0.as_str(), action) {
            proof {
                assert(spec_binding_lookup(pfx, action@) == Some(pfx.last().1));
            }
            return Some(bindings[i - 1].1.clone());
        }
        i = i - 1;
    }
    None
}

/// The value an optional setting resolves to: the command line wins over the
/// configuration file.
pub open spec fn spec_choice<T>(cli: Option<T>, file: Option<T>) -> Option<T> {
    if cli is Some {
        cli
    } else {
        file
    }
}

impl Config {
    /// Merges the command-line options, the configuration-file options and
    /// the built-in defaults, in that order of precedence: path defaults to
    /// the current directory, the log level to `warn`, the worker count to
    /// the host's parallelism, the full-view window size to 3, the
    /// background to black, and user bindings are appended after the
    /// defaults so they shadow them.
    pub fn load(cli: CliOptions, file: FileOptions) -> (c: Config)
        ensures
            c.path@ == (match spec_choice(cli.path, file.path) {
                Some(p) => p@,
                None => "."@,
            }),
            c.log_level@ == (match spec_choice(cli.log_level, file.log_level) {
                Some(l) => l@,
                None => "warn"@,
            }),
            spec_choice(cli.threads, file.threads) matches Some(t) ==> c.threads == t,
            spec_choice(cli.threads, file.threads) is None ==> c.threads >= 1,
            c.window_size == (match spec_choice(cli.window_size, file.window_size) {
                Some(w) => w as int,
                None => 3,
            }),
            c.background == spec_resolved_color(
                match spec_choice(cli.background, file.background) {
                    Some(b) => b@,
                    None => "#000000"@,
                },
            ),
            binding_views(c.bindings@) == spec_default_bindings() + (match file.bindings {
                Some(bs) => binding_views(bs@),
                None => Seq::empty(),
            }),
    {
        let path = match cli.path {
            Some(p) => p,
            None => match file.path {
                Some(p) => p,
                None => String::from_str("."),
            },
        };
        let log_level = match cli.log_level {
            Some(l) => l,
            None => match file.log_level {
                Some(l) => l,
                None => String::from_str("warn"),
            },
        };
        let threads = match cli.threads {
            Some(t) => t,
            None => match file.threads {
                Some(t) => t,
                None => host_parallelism(),
            },
        };
        let window_size = match cli.window_size {
            Some(w) => w,
            None => match file.window_size {
                Some(w) => w,
                None => 3,
            },
        };
        let background_str = match cli.background {
            Some(b) => b,
            None => match file.background {
                Some(b) => b,
                None => String::from_str("#000000"),
            },
        };
        let background = parse_color(background_str.as_str());
        let mut bindings = default_bindings();
        let ghost defaults = bindings@;
        let ghost user_views = match &file.bindings {
            Some(bs) => binding_views(bs@),
            None => Seq::<(Seq<char>, Seq<char>)>::empty(),
        };
        if let Some(mut user) = file.bindings {
            let ghost user0 = user@;
            let n0: usize = user.len();
            let mut i: usize = 0;
            while user.len() > 0
                invariant
                    user0.len() == n0,
                    i <= user0.len(),
                    user@ == user0.skip(i as int),
                    bindings@ == defaults + user0.subrange(0, i as int),
                decreases user@.len(),
            {
                let p = user.remove(0);
                proof {
                    assert(p == user0[i as int]);
                    assert(user@ =~= user0.skip(i as int + 1));
                }
                bindings.push(p);
                proof {
                    assert(bindings@ =~= defaults + user0.subrange(0, i as int + 1));
                }
                i = i + 1;
            }
            proof {
                assert(user0.subrange(0, i as int) =~= user0);
                assert(bindings@ == defaults + user0);
            }
        }
        proof {
            assert(binding_views(bindings@) =~= spec_default_bindings() + user_views);
        }
        Config { path, log_level, threads, window_size, background, bindings }
    }
}

} // verus!
