//! The dev watch loop: the watched path set with its ignore patterns, the
//! decision taken on each file-system event, and the debounced
//! single-flight rebuild state machine.

use vstd::prelude::*;
use crate::strutil::{
    self, spec_contains, spec_ends_with, spec_starts_with,
};
use crate::build_cmd;
use crate::clients::{self, LoamEnv};

verus! {

/// The message the watcher sends the coordinating task.
#[derive(Debug, Clone, Copy, PartialEq, Eq, Structural)]
pub enum Message {
    FileChanged,
}

/// The dev command: a build command run once, then re-run on changes.
#[derive(Debug)]
pub struct Cmd {
    pub build_cmd: build_cmd::Cmd,
}

/// What can go wrong while watching.
#[derive(Debug, Clone, PartialEq, Eq)]
pub enum Error {
    Watcher(String),
    Build(build_cmd::Error),
    Io(String),
}

/// The kind of file-system event delivered by the notification source.
#[derive(Debug, Clone, Copy, PartialEq, Eq, Structural)]
pub enum EventKind {
    Create,
    Modify,
    Remove,
    Other,
}

/// One ignore pattern: a file suffix, an exact file name, or a directory
/// name.
#[derive(Debug, Clone)]
pub enum IgnorePattern {
    Suffix(String),
    FileName(String),
    DirName(String),
}

/// Whether a path matches one pattern.
pub open spec fn pattern_matches(p: IgnorePattern, path: Seq<char>) -> bool {
    match p {
        IgnorePattern::Suffix(s) => spec_ends_with(path, s@),
        IgnorePattern::FileName(n) => path == n@ || spec_ends_with(path, "/"@ + n@),
        IgnorePattern::DirName(d) => spec_contains(path, "/"@ + d@ + "/"@) || spec_starts_with(
            path,
            d@ + "/"@,
        ),
    }
}

/// Whether a path matches any of the patterns.
pub open spec fn matches_any(ps: Seq<IgnorePattern>, path: Seq<char>) -> bool {
    exists|t: int| 0 <= t < ps.len() && pattern_matches(#[trigger] ps[t], path)
}

/// What the common ignore set covers: editor swap and backup files,
/// VCS-adjacent editor state, platform metadata files, and common
/// temporary and log suffixes.
pub open spec fn default_ignored(path: Seq<char>) -> bool {
    ||| spec_ends_with(path, ".swp"@)
    ||| spec_ends_with(path, ".swo"@)
    ||| spec_ends_with(path, ".swx"@)
    ||| path == "4913"@ || spec_ends_with(path, "/"@ + "4913"@)
    ||| path == ".DS_Store"@ || spec_ends_with(path, "/"@ + ".DS_Store"@)
    ||| path == "Thumbs.db"@ || spec_ends_with(path, "/"@ + "Thumbs.db"@)
    ||| spec_ends_with(path, "~"@)
    ||| spec_ends_with(path, ".bak"@)
    ||| spec_contains(path, "/"@ + ".vscode"@ + "/"@) || spec_starts_with(path, ".vscode"@ + "/"@)
    ||| spec_contains(path, "/"@ + ".idea"@ + "/"@) || spec_starts_with(path, ".idea"@ + "/"@)
    ||| spec_ends_with(path, ".tmp"@)
    ||| spec_ends_with(path, ".log"@)
}

/// The watched directory set and its ignore patterns.
#[derive(Debug)]
pub struct Watcher {
    /// The configuration file's directory, watched non-recursively.
    pub env_toml_dir: String,
    /// Each package's source directory, watched recursively.
    pub packages: Vec<String>,
    pub ignores: Vec<IgnorePattern>,
}

fn pattern_matches_exec(p: &IgnorePattern, path: &str) -> (r: bool)
    ensures
        r == pattern_matches(*p, path@),
{
    match p {
        IgnorePattern::Suffix(s) => strutil::ends_with(path, s.as_str()),
        IgnorePattern::FileName(n) => {
            let slash = strutil::strcat("/", n.as_str());
            strutil::str_eq(path, n.as_str()) || strutil::ends_with(path, slash.as_str())
        },
        IgnorePattern::DirName(d) => {
            let mid = strutil::strcat3("/", d.as_str(), "/");
            let head = strutil::strcat(d.as_str(), "/");
            strutil::has_substring(path, mid.as_str()) || strutil::starts_with(
                path,
                head.as_str(),
            )
        },
    }
}

impl Watcher {
    /// Builds the watch set over the configuration directory and package
    /// directories, with the common ignore patterns.
    pub fn new(env_toml_dir: &str, packages: Vec<String>) -> (r: Watcher)
        ensures
            r.env_toml_dir@ == env_toml_dir@,
            r.packages@ == packages@,
            forall|path: Seq<char>| matches_any(r.ignores@, path) <==> default_ignored(path),
    {
        let mut ignores: Vec<IgnorePattern> = Vec::new();
        ignores.push(IgnorePattern::Suffix(String::from_str(".swp")));
        ignores.push(IgnorePattern::Suffix(String::from_str(".swo")));
        ignores.push(IgnorePattern::Suffix(String::from_str(".swx")));
        ignores.push(IgnorePattern::FileName(String::from_str("4913")));
        ignores.push(IgnorePattern::FileName(String::from_str(".DS_Store")));
        ignores.push(IgnorePattern::FileName(String::from_str("Thumbs.db")));
        ignores.push(IgnorePattern::Suffix(String::from_str("~")));
        ignores.push(IgnorePattern::Suffix(String::from_str(".bak")));
        ignores.push(IgnorePattern::DirName(String::from_str(".vscode")));
        ignores.push(IgnorePattern::DirName(String::from_str(".idea")));
        ignores.push(IgnorePattern::Suffix(String::from_str(".tmp")));
        ignores.push(IgnorePattern::Suffix(String::from_str(".log")));
        proof {
            assert(ignores@.len() == 12);
            assert(ignores@[0] matches IgnorePattern::Suffix(x) && x@ == ".swp"@);
            assert(ignores@[1] matches IgnorePattern::Suffix(x) && x@ == ".swo"@);
            assert(ignores@[2] matches IgnorePattern::Suffix(x) && x@ == ".swx"@);
            assert(ignores@[3] matches IgnorePattern::FileName(x) && x@ == "4913"@);
            assert(ignores@[4] matches IgnorePattern::FileName(x) && x@ == ".DS_Store"@);
            assert(ignores@[5] matches IgnorePattern::FileName(x) && x@ == "Thumbs.db"@);
            assert(ignores@[6] matches IgnorePattern::Suffix(x) && x@ == "~"@);
            assert(ignores@[7] matches IgnorePattern::Suffix(x) && x@ == ".bak"@);
            assert(ignores@[8] matches IgnorePattern::DirName(x) && x@ == ".vscode"@);
            assert(ignores@[9] matches IgnorePattern::DirName(x) && x@ == ".idea"@);
            assert(ignores@[10] matches IgnorePattern::Suffix(x) && x@ == ".tmp"@);
            assert(ignores@[11] matches IgnorePattern::Suffix(x) && x@ == ".log"@);
            assert forall|path: Seq<char>|
                matches_any(ignores@, path) <==> default_ignored(path) by {
                if matches_any(ignores@, path) {
                    let t = choose|t: int|
                        0 <= t < ignores@.len() && pattern_matches(#[trigger] ignores@[t], path);
                    if t == 0 || t == 1 || t == 2 || t == 6 || t == 7 || t == 10 || t == 11 {
                        assert(default_ignored(path));
                    } else if t == 3 || t == 4 || t == 5 {
                        assert(default_ignored(path));
                    } else {
                        assert(t == 8 || t == 9);
                        assert(default_ignored(path));
                    }
                }
                if default_ignored(path) {
                    if spec_ends_with(path, ".swp"@) {
                        assert(pattern_matches(ignores@[0], path));
                    } else if spec_ends_with(path, ".swo"@) {
                        assert(pattern_matches(ignores@[1], path));
                    } else if spec_ends_with(path, ".swx"@) {
                        assert(pattern_matches(ignores@[2], path));
                    } else if path == "4913"@ || spec_ends_with(path, "/"@ + "4913"@) {
                        assert(pattern_matches(ignores@[3], path));
                    } else if path == ".DS_Store"@ || spec_ends_with(path, "/"@ + ".DS_Store"@) {
                        assert(pattern_matches(ignores@[4], path));
                    } else if path == "Thumbs.db"@ || spec_ends_with(path, "/"@ + "Thumbs.db"@) {
                        assert(pattern_matches(ignores@[5], path));
                    } else if spec_ends_with(path, "~"@) {
                        assert(pattern_matches(ignores@[6], path));
                    } else if spec_ends_with(path, ".bak"@) {
                        assert(pattern_matches(ignores@[7], path));
                    } else if spec_contains(path, "/"@ + ".vscode"@ + "/"@) || spec_starts_with(
                        path,
                        ".vscode"@ + "/"@,
                    ) {
                        assert(pattern_matches(ignores@[8], path));
                    } else if spec_contains(path, "/"@ + ".idea"@ + "/"@) || spec_starts_with(
                        path,
                        ".idea"@ + "/"@,
                    ) {
                        assert(pattern_matches(ignores@[9], path));
                    } else if spec_ends_with(path, ".tmp"@) {
                        assert(pattern_matches(ignores@[10], path));
                    } else {
                        assert(pattern_matches(ignores@[11], path));
                    }
                }
            }
        }
        Watcher { env_toml_dir: String::from_str(env_toml_dir), packages, ignores }
    }

    /// Whether a changed path is relevant: anything not matching an
    /// ignore pattern.
    pub fn is_watched(&self, path: &str) -> (r: bool)
        ensures
            r == !matches_any(self.ignores@, path@),
    {
        let mut t: usize = 0;
        while t < self.ignores.len()
            invariant
                t <= self.ignores@.len(),
                forall|k: int| 0 <= k < t ==> !pattern_matches(#[trigger] self.ignores@[k], path@),
            decreases self.ignores@.len() - t,
        {
            if pattern_matches_exec(&self.ignores[t], path) {
                return false;
            }
            t = t + 1;
        }
        true
    }

    /// Whether a path is the environments configuration file itself.
    pub fn is_env_toml(&self, path: &str) -> (r: bool)
        ensures
            r == (path@ == self.env_toml_dir@ + "/environments.toml"@),
    {
        let full = strutil::strcat(self.env_toml_dir.as_str(), "/environments.toml");
        strutil::str_eq(path, full.as_str())
    }

    /// The decision taken on one file-system event: create, modify and
    /// remove events on a watched first path signal a change; everything
    /// else is dropped.
    pub fn handle_event(&self, kind: EventKind, paths: &Vec<String>) -> (r: Option<Message>)
        ensures
            r == if (kind is Create || kind is Modify || kind is Remove) && paths@.len() > 0
                && !matches_any(self.ignores@, paths@[0]@) {
                Option::Some(Message::FileChanged)
            } else {
                Option::<Message>::None
            },
    {
        match kind {
            EventKind::Create | EventKind::Modify | EventKind::Remove => {
                if paths.len() > 0 && self.is_watched(paths[0].as_str()) {
                    Some(Message::FileChanged)
                } else {
                    None
                }
            },
            EventKind::Other => None,
        }
    }
}

/// The rebuild coordinator: one initial pass, then one rebuild at a time,
/// with changes during a pending rebuild dropped rather than queued.
#[derive(Debug, Clone, Copy, PartialEq, Eq, Structural)]
pub struct DevLoop {
    /// A rebuild is pending or running.
    pub in_flight: bool,
    /// How many pipeline passes have been started.
    pub builds: u64,
    /// The loop was interrupted.
    pub stopped: bool,
}

/// What the coordinating task does next.
#[derive(Debug, Clone, Copy, PartialEq, Eq, Structural)]
pub enum DevAction {
    /// Run one full pipeline pass now.
    RunPipeline,
    /// Wait out the debounce window, then rebuild.
    Debounce,
    /// Drop the event.
    Ignore,
    /// Leave the loop.
    Stop,
}

impl DevLoop {
    /// A fresh session: nothing in flight, nothing built, not stopped.
    pub fn new() -> (r: DevLoop)
        ensures
            r == (DevLoop { in_flight: false, builds: 0u64, stopped: false }),
    {
        DevLoop { in_flight: false, builds: 0, stopped: false }
    }

    /// Starting the session runs exactly one initial pipeline pass.
    pub fn on_start(&mut self) -> (r: DevAction)
        requires
            old(self).builds < u64::MAX,
        ensures
            r is RunPipeline,
            *final(self) == (DevLoop {
                in_flight: old(self).in_flight,
                builds: (old(self).builds + 1) as u64,
                stopped: old(self).stopped,
            }),
    {
        self.builds = self.builds + 1;
        DevAction::RunPipeline
    }

    /// A change to a watched file starts the debounce window when idle;
    /// during a pending rebuild it is dropped, not queued. A change to an
    /// ignored file never triggers anything.
    pub fn on_change(&mut self, watched: bool) -> (r: DevAction)
        ensures
            !watched ==> r is Ignore && *final(self) == *old(self),
            watched && old(self).in_flight ==> r is Ignore && *final(self) == *old(self),
            watched && !old(self).in_flight ==> r is Debounce && *final(self) == (DevLoop {
                in_flight: true,
                builds: old(self).builds,
                stopped: old(self).stopped,
            }),
    {
        if !watched {
            DevAction::Ignore
        } else if self.in_flight {
            DevAction::Ignore
        } else {
            self.in_flight = true;
            DevAction::Debounce
        }
    }

    /// The debounce window closed: run one pipeline pass, collapsing all
    /// the events that arrived during the window into it.
    pub fn on_debounce_elapsed(&mut self) -> (r: DevAction)
        requires
            old(self).in_flight,
            old(self).builds < u64::MAX,
        ensures
            r is RunPipeline,
            *final(self) == (DevLoop {
                in_flight: old(self).in_flight,
                builds: (old(self).builds + 1) as u64,
                stopped: old(self).stopped,
            }),
    {
        self.builds = self.builds + 1;
        DevAction::RunPipeline
    }

    /// The rebuild finished; the loop is idle again and keeps watching.
    pub fn on_build_finished(&mut self)
        ensures
            *final(self) == (DevLoop {
                in_flight: false,
                builds: old(self).builds,
                stopped: old(self).stopped,
            }),
    {
        self.in_flight = false;
    }

    /// An interrupt stops the loop; an in-flight rebuild still completes.
    pub fn on_interrupt(&mut self) -> (r: DevAction)
        ensures
            r is Stop,
            *final(self) == (DevLoop {
                in_flight: old(self).in_flight,
                builds: old(self).builds,
                stopped: true,
            }),
    {
        self.stopped = true;
        DevAction::Stop
    }
}

impl Cmd {
    /// The build command every dev pass runs: the same command, with the
    /// environment defaulted to development and the profile to the fast
    /// debug one; every other setting is kept as given.
    pub fn cloned_build_command(&mut self) -> (r: build_cmd::Cmd)
        ensures
            final(self).build_cmd.build_clients_args.env == Option::Some(
                if old(self).build_cmd.build_clients_args.env is Some {
                    old(self).build_cmd.build_clients_args.env->0
                } else {
                    LoamEnv::Development
                },
            ),
            final(self).build_cmd.profile is Some,
            old(self).build_cmd.profile is Some ==> final(self).build_cmd.profile == old(
                self,
            ).build_cmd.profile,
            old(self).build_cmd.profile is None ==> final(self).build_cmd.profile->0@
                == "debug"@,
            final(self).build_cmd.list == old(self).build_cmd.list,
            final(self).build_cmd.manifest_path == old(self).build_cmd.manifest_path,
            final(self).build_cmd.package == old(self).build_cmd.package,
            final(self).build_cmd.features == old(self).build_cmd.features,
            final(self).build_cmd.all_features == old(self).build_cmd.all_features,
            final(self).build_cmd.no_default_features == old(
                self,
            ).build_cmd.no_default_features,
            final(self).build_cmd.out_dir == old(self).build_cmd.out_dir,
            final(self).build_cmd.print_commands_only == old(
                self,
            ).build_cmd.print_commands_only,
            final(self).build_cmd.build_clients == old(self).build_cmd.build_clients,
            build_cmd::cmd_eq(r, final(self).build_cmd),
    {
        match self.build_cmd.build_clients_args.env {
            Some(_) => {},
            None => {
                self.build_cmd.build_clients_args.env = Some(LoamEnv::Development);
            },
        }
        match &self.build_cmd.profile {
            Some(_) => {},
            None => {
                self.build_cmd.profile = Some(String::from_str("debug"));
            },
        }
        self.build_cmd.clone()
    }
}

} // verus!
