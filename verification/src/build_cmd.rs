//! The build command: which packages build, in what order, and the exact
//! compiler invocation assembled for each — target format, profile, and
//! the requested features narrowed to the package's available ones.

use vstd::prelude::*;
use crate::strutil;
use crate::clients;
use crate::deps::{self, Package};

verus! {

/// The build command's arguments.
#[derive(Debug)]
pub struct Cmd {
    /// List package names instead of building.
    pub list: bool,
    /// Path to the workspace manifest.
    pub manifest_path: String,
    /// Build only this package and its contract dependencies.
    pub package: Option<String>,
    /// Build with this profile instead of `release`.
    pub profile: Option<String>,
    /// Feature names to activate, comma or space separated.
    pub features: Option<String>,
    pub all_features: bool,
    pub no_default_features: bool,
    /// An extra directory to place artifacts in.
    pub out_dir: Option<String>,
    /// Print the assembled commands without executing them.
    pub print_commands_only: bool,
    /// Also build client packages after the contracts.
    pub build_clients: bool,
    pub build_clients_args: clients::Args,
}

/// The two build commands agree on every field, up to views.
pub open spec fn cmd_eq(a: Cmd, b: Cmd) -> bool {
    &&& a.list == b.list
    &&& a.manifest_path@ == b.manifest_path@
    &&& crate::env_toml::opt_str_eq(a.package, b.package)
    &&& crate::env_toml::opt_str_eq(a.profile, b.profile)
    &&& crate::env_toml::opt_str_eq(a.features, b.features)
    &&& a.all_features == b.all_features
    &&& a.no_default_features == b.no_default_features
    &&& crate::env_toml::opt_str_eq(a.out_dir, b.out_dir)
    &&& a.print_commands_only == b.print_commands_only
    &&& a.build_clients == b.build_clients
    &&& a.build_clients_args == b.build_clients_args
}

impl Clone for Cmd {
    /// A clone carries every field over unchanged.
    fn clone(&self) -> (r: Self)
        ensures
            cmd_eq(r, *self),
    {
        Cmd {
            list: self.list,
            manifest_path: self.manifest_path.clone(),
            package: crate::env_toml::clone_opt_string(&self.package),
            profile: crate::env_toml::clone_opt_string(&self.profile),
            features: crate::env_toml::clone_opt_string(&self.features),
            all_features: self.all_features,
            no_default_features: self.no_default_features,
            out_dir: crate::env_toml::clone_opt_string(&self.out_dir),
            print_commands_only: self.print_commands_only,
            build_clients: self.build_clients,
            build_clients_args: self.build_clients_args,
        }
    }
}

/// What can go wrong while building.
#[derive(Debug, Clone, PartialEq, Eq)]
pub enum Error {
    Metadata(String),
    CargoCmd(String),
    /// The external compiler exited with this status.
    Exit(i32),
    PackageNotFound { package: String },
    CreatingOutDir(String),
    CopyingWasmFile(String),
    GettingCurrentDir(String),
    Loam(deps::Error),
    BuildClients(clients::Error),
}

/// Index of the first comma or space at or after `i`, or the length.
pub open spec fn next_sep(s: Seq<char>, i: int) -> int
    decreases s.len() - i,
{
    if 0 <= i < s.len() && s[i] != ',' && s[i] != ' ' {
        next_sep(s, i + 1)
    } else {
        i
    }
}

pub proof fn lemma_next_sep_bounds(s: Seq<char>, i: int)
    requires
        0 <= i <= s.len(),
    ensures
        i <= next_sep(s, i) <= s.len(),
    decreases s.len() - i,
{
    if i < s.len() && s[i] != ',' && s[i] != ' ' {
        lemma_next_sep_bounds(s, i + 1);
    }
}

proof fn lemma_next_sep_at(s: Seq<char>, k: int, i: int)
    requires
        0 <= k <= i <= s.len(),
        forall|j: int| k <= j < i ==> s[j] != ',' && s[j] != ' ',
        i == s.len() || s[i] == ',' || s[i] == ' ',
    ensures
        next_sep(s, k) == i,
    decreases i - k,
{
    if k < i {
        lemma_next_sep_at(s, k + 1, i);
    }
}

/// The pieces of `s` split at commas and spaces, empty pieces kept.
pub open spec fn sep_split(s: Seq<char>, i: int) -> Seq<Seq<char>>
    decreases s.len() - i,
{
    if i < 0 || i > s.len() {
        Seq::empty()
    } else {
        proof {
            lemma_next_sep_bounds(s, i);
        }
        let j = next_sep(s, i);
        if j >= s.len() {
            seq![s.subrange(i, s.len() as int)]
        } else {
            seq![s.subrange(i, j)] + sep_split(s, j + 1)
        }
    }
}

fn split_features(s: &str) -> (r: Vec<String>)
    ensures
        r.deep_view() == sep_split(s@, 0),
{
    let len = s.unicode_len();
    let mut out: Vec<String> = Vec::new();
    let mut i: usize = 0;
    let mut done = false;
    while !done
        invariant
            len == s@.len(),
            i <= len,
            done ==> out.deep_view() =~= sep_split(s@, 0),
            !done ==> out.deep_view() + sep_split(s@, i as int) =~= sep_split(s@, 0),
        decreases len - i + (if done { 0int } else { 1 }),
    {
        if done {
        } else {
            let mut j: usize = i;
            while j < len && s.get_char(j) != ',' && s.get_char(j) != ' '
                invariant
                    len == s@.len(),
                    i <= j <= len,
                    forall|t: int| i <= t < j ==> s@[t] != ',' && s@[t] != ' ',
                decreases len - j,
            {
                j = j + 1;
            }
            proof {
                lemma_next_sep_at(s@, i as int, j as int);
            }
            let ghost old_dv = out.deep_view();
            let piece = s.substring_char(i, j);
            out.push(String::from_str(piece));
            proof {
                assert(out.deep_view() =~= old_dv.push(s@.subrange(i as int, j as int)));
            }
            if j >= len {
                proof {
                    assert(sep_split(s@, i as int) =~= seq![s@.subrange(i as int, len as int)]);
                    assert(out.deep_view() =~= sep_split(s@, 0));
                }
                done = true;
            } else {
                proof {
                    assert(sep_split(s@, i as int) =~= seq![s@.subrange(i as int, j as int)]
                        + sep_split(s@, j + 1));
                    assert(out.deep_view() + sep_split(s@, j + 1) =~= sep_split(s@, 0));
                }
                i = j + 1;
            }
        }
    }
    out
}

/// The requested features narrowed to the package's available ones, in
/// the requested order. Unavailable requested features are dropped
/// silently, never an error.
pub open spec fn activated_features(
    requested: Seq<Seq<char>>,
    available: Seq<Seq<char>>,
) -> Seq<Seq<char>> {
    requested.filter(|f: Seq<char>| available.contains(f))
}

fn feature_intersection(requested: &Vec<String>, available: &Vec<String>) -> (r: Vec<String>)
    ensures
        r.deep_view() == activated_features(requested.deep_view(), available.deep_view()),
{
    let ghost req = requested.deep_view();
    let ghost avail = available.deep_view();
    let mut r: Vec<String> = Vec::new();
    let mut i: usize = 0;
    proof {
        reveal(Seq::filter);
        assert(req.take(0) =~= Seq::<Seq<char>>::empty());
    }
    while i < requested.len()
        invariant
            req == requested.deep_view(),
            avail == available.deep_view(),
            req.len() == requested@.len(),
            i <= req.len(),
            r.deep_view() =~= activated_features(req.take(i as int), avail),
        decreases req.len() - i,
    {
        proof {
            reveal(Seq::filter);
            assert(req.take(i + 1).drop_last() =~= req.take(i as int));
            assert(req.take(i + 1).last() == req[i as int]);
            assert(req[i as int] == requested@[i as int]@);
        }
        if deps::vec_contains_str(available, requested[i].as_str()) {
            let ghost old_dv = r.deep_view();
            r.push(requested[i].clone());
            proof {
                assert(activated_features(req.take(i + 1), avail) == activated_features(
                    req.take(i as int),
                    avail,
                ).push(req[i as int]));
                assert(r.deep_view() =~= old_dv.push(req[i as int]));
            }
        } else {
            proof {
                assert(activated_features(req.take(i + 1), avail) == activated_features(
                    req.take(i as int),
                    avail,
                ));
            }
        }
        i = i + 1;
    }
    proof {
        assert(req.take(req.len() as int) =~= req);
    }
    r
}

/// The packages with a deployable (cdylib) build target.
pub open spec fn cdylib_packages(ps: Seq<Package>) -> Seq<Package> {
    ps.filter(|p: Package| p.targets_cdylib)
}

/// Position of the first package named `name` at or after `i`, or the
/// length of `ps` when none is.
pub open spec fn first_named_from(ps: Seq<Package>, name: Seq<char>, i: int) -> int
    decreases ps.len() - i,
{
    if 0 <= i < ps.len() {
        if ps[i].name@ == name {
            i
        } else {
            first_named_from(ps, name, i + 1)
        }
    } else {
        i
    }
}

pub open spec fn first_named(ps: Seq<Package>, name: Seq<char>) -> int {
    first_named_from(ps, name, 0)
}

proof fn lemma_first_named_at(ps: Seq<Package>, name: Seq<char>, k: int, i: int)
    requires
        0 <= k <= i <= ps.len(),
        forall|j: int| k <= j < i ==> (#[trigger] ps[j]).name@ != name,
        i == ps.len() || ps[i].name@ == name,
    ensures
        first_named_from(ps, name, k) == i,
    decreases i - k,
{
    if k < i {
        lemma_first_named_at(ps, name, k + 1, i);
    }
}

/// The package set one build run selects: the named package and its
/// contract dependencies, or every deployable package.
pub open spec fn selection_spec(package: Option<String>, ps: Seq<Package>) -> Seq<Package> {
    match package {
        Option::None => cdylib_packages(ps),
        Option::Some(sel) => {
            let chosen = ps[first_named(ps, sel@)];
            deps::kind_deps_of(ps, chosen.manifest_path@, deps::DepKind::Contract).push(chosen)
        },
    }
}

impl Cmd {
    /// The requested feature names, split at commas and spaces.
    pub fn features(&self) -> (r: Option<Vec<String>>)
        ensures
            match r {
                Some(v) => self.features is Some && v.deep_view() == sep_split(
                    self.features->0@,
                    0,
                ),
                None => self.features is None,
            },
    {
        match &self.features {
            Some(f) => Some(split_features(f.as_str())),
            None => None,
        }
    }

    /// The packages to build: the selected package with its contract
    /// dependencies, or every package that builds a deployable artifact.
    pub fn packages(&self, metadata_packages: &Vec<Package>) -> (r: Result<Vec<Package>, Error>)
        ensures
            match r {
                Ok(v) => {
                    let sel = selection_spec(self.package, metadata_packages@);
                    &&& self.package is Some ==> first_named(
                        metadata_packages@,
                        self.package->0@,
                    ) < metadata_packages@.len()
                    &&& v@.len() == sel.len()
                    &&& forall|t: int|
                        0 <= t < sel.len() ==> deps::pkg_eq(#[trigger] v@[t], sel[t])
                },
                Err(e) => {
                    &&& self.package is Some
                    &&& e matches Error::PackageNotFound { package } && package@
                        == self.package->0@
                    &&& first_named(metadata_packages@, self.package->0@)
                        == metadata_packages@.len()
                    &&& forall|k: int|
                        0 <= k < metadata_packages@.len() ==> (
                        #[trigger] metadata_packages@[k]).name@ != self.package->0@
                },
            },
    {
        match &self.package {
            Some(sel) => {
                let mut k: usize = 0;
                while k < metadata_packages.len()
                    invariant
                        self.package == Option::Some(*sel),
                        k <= metadata_packages@.len(),
                        forall|t: int|
                            0 <= t < k ==> (#[trigger] metadata_packages@[t]).name@ != sel@,
                    decreases metadata_packages@.len() - k,
                {
                    if strutil::str_eq(metadata_packages[k].name.as_str(), sel.as_str()) {
                        let chosen = metadata_packages[k].clone();
                        let mut v = deps::contract(
                            metadata_packages,
                            chosen.manifest_path.as_str(),
                        );
                        let ghost pre = v@;
                        proof {
                            assert(chosen.manifest_path@
                                == metadata_packages@[k as int].manifest_path@);
                        }
                        v.push(chosen);
                        proof {
                            lemma_first_named_at(metadata_packages@, sel@, 0, k as int);
                            let picked = metadata_packages@[k as int];
                            let cs = deps::kind_deps_of(
                                metadata_packages@,
                                picked.manifest_path@,
                                deps::DepKind::Contract,
                            );
                            let selspec = selection_spec(self.package, metadata_packages@);
                            assert(selspec == cs.push(picked));
                            assert(deps::pkg_eq(v@.last(), picked));
                            assert forall|t: int| 0 <= t < selspec.len() implies deps::pkg_eq(
                                #[trigger] v@[t],
                                selspec[t],
                            ) by {
                                if t < cs.len() {
                                    assert(v@[t] == pre[t]);
                                    assert(deps::pkg_eq(pre[t], cs[t]));
                                    assert(selspec[t] == cs[t]);
                                } else {
                                    assert(selspec[t] == picked);
                                    assert(v@[t] == v@.last());
                                }
                            }
                        }
                        return Ok(v);
                    }
                    k = k + 1;
                }
                proof {
                    lemma_first_named_at(
                        metadata_packages@,
                        sel@,
                        0,
                        metadata_packages@.len() as int,
                    );
                }
                Err(Error::PackageNotFound { package: sel.clone() })
            },
            None => {
                let ghost ps = metadata_packages@;
                let mut v: Vec<Package> = Vec::new();
                let mut i: usize = 0;
                proof {
                    reveal(Seq::filter);
                    assert(ps.take(0) =~= Seq::<Package>::empty());
                }
                while i < metadata_packages.len()
                    invariant
                        ps == metadata_packages@,
                        i <= ps.len(),
                        ({
                            let sel = cdylib_packages(ps.take(i as int));
                            &&& v@.len() == sel.len()
                            &&& forall|t: int|
                                0 <= t < sel.len() ==> deps::pkg_eq(#[trigger] v@[t], sel[t])
                        }),
                    decreases ps.len() - i,
                {
                    proof {
                        reveal(Seq::filter);
                        assert(ps.take(i + 1).drop_last() =~= ps.take(i as int));
                        assert(ps.take(i + 1).last() == ps[i as int]);
                    }
                    let ghost pre = cdylib_packages(ps.take(i as int));
                    if metadata_packages[i].targets_cdylib {
                        v.push(metadata_packages[i].clone());
                        proof {
                            assert(cdylib_packages(ps.take(i + 1)) == pre.push(ps[i as int]));
                        }
                    } else {
                        proof {
                            assert(cdylib_packages(ps.take(i + 1)) == pre);
                        }
                    }
                    i = i + 1;
                }
                proof {
                    assert(ps.take(ps.len() as int) =~= ps);
                }
                Ok(v)
            },
        }
    }

    /// The packages to build, topologically sorted by their contract
    /// relationships: each package of the selection exactly once, every
    /// contract dependency before its consumer. A missing named package
    /// and a cyclic selection are the two errors, each exactly when its
    /// condition holds.
    pub fn list_packages(&self, metadata_packages: &Vec<Package>) -> (r: Result<
        Vec<Package>,
        Error,
    >)
        ensures
            ({
                let sel = selection_spec(self.package, metadata_packages@);
                match r {
                    Ok(ws) => {
                        &&& self.package is Some ==> first_named(
                            metadata_packages@,
                            self.package->0@,
                        ) < metadata_packages@.len()
                        &&& deps::pkg_permutation(ws@, sel)
                        &&& forall|a: int, b: int|
                            0 <= a < ws@.len() && 0 <= b < ws@.len() && deps::consumes(
                                #[trigger] ws@[a],
                                #[trigger] ws@[b],
                            ) ==> b < a
                        &&& !deps::has_cycle(sel)
                    },
                    Err(e) => match e {
                        Error::PackageNotFound { package } => {
                            &&& self.package is Some && package@ == self.package->0@
                            &&& first_named(metadata_packages@, self.package->0@)
                                == metadata_packages@.len()
                        },
                        Error::Loam(le) => {
                            &&& le == deps::Error::Cycle
                            &&& self.package is Some ==> first_named(
                                metadata_packages@,
                                self.package->0@,
                            ) < metadata_packages@.len()
                            &&& deps::has_cycle(sel)
                        },
                        _ => false,
                    },
                }
            }),
    {
        let ghost sel = selection_spec(self.package, metadata_packages@);
        let selected = match self.packages(metadata_packages) {
            Ok(v) => v,
            Err(e) => {
                return Err(e);
            },
        };
        let ghost picked = selected@;
        match deps::get_workspace(&selected) {
            Ok(ws) => {
                proof {
                    deps::lemma_cycle_congruence(picked, sel);
                    let idx = choose|idx: Seq<usize>|
                        deps::is_ordering(picked, idx) && (forall|k: int|
                            0 <= k < ws@.len() ==> deps::pkg_eq(
                                #[trigger] ws@[k],
                                picked[idx[k] as int],
                            ));
                    assert(idx.no_duplicates());
                    assert forall|k: int| 0 <= k < ws@.len() implies deps::pkg_eq(
                        #[trigger] ws@[k],
                        sel[idx[k] as int],
                    ) by {
                        assert(deps::pkg_eq(ws@[k], picked[idx[k] as int]));
                        assert(deps::pkg_eq(picked[idx[k] as int], sel[idx[k] as int]));
                    }
                    assert(deps::pkg_permutation(ws@, sel));
                }
                Ok(ws)
            },
            Err(le) => {
                proof {
                    deps::lemma_cycle_congruence(picked, sel);
                }
                Err(Error::Loam(le))
            },
        }
    }
}

/// The compiler flags of the default optimization profile, applied when
/// no explicit profile is requested.
pub fn set_default_profile_flags() -> (r: Vec<String>)
    ensures
        r.deep_view() =~= seq![
            "--"@,
            "-C"@,
            "opt-level=z"@,
            "-C"@,
            "overflow-checks=yes"@,
            "-C"@,
            "debuginfo=0"@,
            "-C"@,
            "strip=symbols"@,
            "-C"@,
            "debug-assertions=yes"@,
            "-C"@,
            "panic=abort"@,
            "-C"@,
            "codegen-units=1"@,
            "-C"@,
            "lto=yes"@,
        ],
{
    let mut r: Vec<String> = Vec::new();
    r.push(String::from_str("--"));
    r.push(String::from_str("-C"));
    r.push(String::from_str("opt-level=z"));
    r.push(String::from_str("-C"));
    r.push(String::from_str("overflow-checks=yes"));
    r.push(String::from_str("-C"));
    r.push(String::from_str("debuginfo=0"));
    r.push(String::from_str("-C"));
    r.push(String::from_str("strip=symbols"));
    r.push(String::from_str("-C"));
    r.push(String::from_str("debug-assertions=yes"));
    r.push(String::from_str("-C"));
    r.push(String::from_str("panic=abort"));
    r.push(String::from_str("-C"));
    r.push(String::from_str("codegen-units=1"));
    r.push(String::from_str("-C"));
    r.push(String::from_str("lto=yes"));
    r
}

/// The artifact file name of a package: its name, dashes normalized to
/// underscores, with the bytecode extension.
pub fn artifact_file_name(name: &str) -> (r: String)
    ensures
        r@ == deps::underscored(name@) + ".wasm"@,
{
    let mut r = deps::dash_to_underscore(name);
    r.append(".wasm");
    r
}


/// The relative path from `base` to `path`, when one exists.
pub uninterp spec fn relative_path_of(path: Seq<char>, base: Seq<char>) -> Option<Seq<char>>;

/// Relies on pathdiff::diff_paths: the relative path that reaches `path`
/// from `base`, or nothing when none exists. The result depends on the
/// two paths alone.
#[verifier::external_body]
fn diff_paths(path: &str, base: &str) -> (r: Option<String>)
    ensures
        r is Some <==> relative_path_of(path@, base@) is Some,
        r matches Some(p) ==> relative_path_of(path@, base@) == Option::Some(p@),
{
    pathdiff::diff_paths(path, base).map(|p| p.to_string_lossy().into_owned())
}

/// The manifest-path argument of one package's compile: relative to the
/// working directory where a relative path exists, else as recorded.
pub open spec fn manifest_arg_spec(manifest: Seq<char>, working_dir: Seq<char>) -> Seq<char> {
    match relative_path_of(manifest, working_dir) {
        Option::Some(rel) => "--manifest-path="@ + rel,
        Option::None => "--manifest-path="@ + manifest,
    }
}

/// The profile arguments: `release` by default, nothing for `debug`, and
/// an explicit profile selection otherwise.
pub open spec fn profile_args_spec(profile: Option<String>) -> Seq<Seq<char>> {
    match profile {
        Option::None => seq!["--release"@],
        Option::Some(p) => if p@ == "release"@ {
            seq!["--release"@]
        } else if p@ == "debug"@ {
            Seq::empty()
        } else {
            seq!["--profile="@ + p@]
        },
    }
}

/// The feature arguments: the requested features narrowed to the
/// package's available ones, comma-joined, when any survive.
pub open spec fn feature_args_spec(features: Option<String>, available: Seq<Seq<char>>) -> Seq<
    Seq<char>,
> {
    match features {
        Option::None => Seq::empty(),
        Option::Some(f) => {
            let act = activated_features(sep_split(f@, 0), available);
            if act.len() > 0 {
                seq!["--features="@ + strutil::spec_join(act, ","@)]
            } else {
                Seq::empty()
            }
        },
    }
}

impl Cmd {
    /// Assembles the full compiler argument list for one package: the
    /// target bytecode format, the optimization profile, and the
    /// surviving feature flags; without an explicit profile the default
    /// profile's flags are appended.
    #[verifier::rlimit(30)]
    pub fn build_package_command(&self, p: &Package, working_dir: &str) -> (r: Vec<String>)
        ensures
            r.deep_view() == seq![
                "rustc"@,
                manifest_arg_spec(p.manifest_path@, working_dir@),
                "--crate-type=cdylib"@,
                "--target=wasm32-unknown-unknown"@,
            ] + profile_args_spec(self.profile)
                + (if self.all_features { seq!["--all-features"@] } else { Seq::empty() })
                + (if self.no_default_features { seq!["--no-default-features"@] } else {
                    Seq::empty()
                })
                + feature_args_spec(self.features, p.features.deep_view())
                + (if self.profile is None {
                    seq![
                        "--"@,
                        "-C"@,
                        "opt-level=z"@,
                        "-C"@,
                        "overflow-checks=yes"@,
                        "-C"@,
                        "debuginfo=0"@,
                        "-C"@,
                        "strip=symbols"@,
                        "-C"@,
                        "debug-assertions=yes"@,
                        "-C"@,
                        "panic=abort"@,
                        "-C"@,
                        "codegen-units=1"@,
                        "-C"@,
                        "lto=yes"@,
                    ]
                } else {
                    Seq::empty()
                }),
    {
        let mut r: Vec<String> = Vec::new();
        r.push(String::from_str("rustc"));
        let manifest_arg = match diff_paths(p.manifest_path.as_str(), working_dir) {
            Some(rel) => strutil::strcat("--manifest-path=", rel.as_str()),
            None => strutil::strcat("--manifest-path=", p.manifest_path.as_str()),
        };
        r.push(manifest_arg);
        r.push(String::from_str("--crate-type=cdylib"));
        r.push(String::from_str("--target=wasm32-unknown-unknown"));
        match &self.profile {
            None => r.push(String::from_str("--release")),
            Some(prof) => {
                if strutil::str_eq(prof.as_str(), "release") {
                    r.push(String::from_str("--release"));
                } else if strutil::str_eq(prof.as_str(), "debug") {
                } else {
                    r.push(strutil::strcat("--profile=", prof.as_str()));
                }
            },
        }
        if self.all_features {
            r.push(String::from_str("--all-features"));
        }
        if self.no_default_features {
            r.push(String::from_str("--no-default-features"));
        }
        match &self.features {
            None => {},
            Some(f) => {
                let requested = split_features(f.as_str());
                let act = feature_intersection(&requested, &p.features);
                if act.len() > 0 {
                    let joined = strutil::join_with(&act, ",");
                    r.push(strutil::strcat("--features=", joined.as_str()));
                }
            },
        }
        if self.profile.is_none() {
            let mut defaults = set_default_profile_flags();
            let mut k: usize = 0;
            let ghost base = r.deep_view();
            let ghost dv = defaults.deep_view();
            while k < defaults.len()
                invariant
                    dv == defaults.deep_view(),
                    dv.len() == defaults@.len(),
                    k <= dv.len(),
                    r.deep_view() =~= base + dv.take(k as int),
                decreases dv.len() - k,
            {
                let ghost old_dv = r.deep_view();
                r.push(defaults[k].clone());
                proof {
                    assert(dv[k as int] == defaults@[k as int]@);
                    assert(r.deep_view() =~= old_dv.push(dv[k as int]));
                    assert(dv.take(k + 1) =~= dv.take(k as int).push(dv[k as int]));
                }
                k = k + 1;
            }
            proof {
                assert(dv.take(dv.len() as int) =~= dv);
            }
        }
        proof {
            assert(r.deep_view() =~= seq![
                "rustc"@,
                manifest_arg_spec(p.manifest_path@, working_dir@),
                "--crate-type=cdylib"@,
                "--target=wasm32-unknown-unknown"@,
            ] + profile_args_spec(self.profile)
                + (if self.all_features { seq!["--all-features"@] } else { Seq::empty() })
                + (if self.no_default_features { seq!["--no-default-features"@] } else {
                    Seq::<Seq<char>>::empty()
                })
                + feature_args_spec(self.features, p.features.deep_view())
                + (if self.profile is None {
                    seq![
                        "--"@,
                        "-C"@,
                        "opt-level=z"@,
                        "-C"@,
                        "overflow-checks=yes"@,
                        "-C"@,
                        "debuginfo=0"@,
                        "-C"@,
                        "strip=symbols"@,
                        "-C"@,
                        "debug-assertions=yes"@,
                        "-C"@,
                        "panic=abort"@,
                        "-C"@,
                        "codegen-units=1"@,
                        "-C"@,
                        "lto=yes"@,
                    ]
                } else {
                    Seq::<Seq<char>>::empty()
                }));
        }
        r
    }

    /// The printable form of one assembled compile: what a dry run
    /// prints and a real run echoes before executing.
    pub fn command_line(args: &Vec<String>) -> (r: String)
        ensures
            r@ == "cargo "@ + strutil::spec_join(args.deep_view(), " "@),
    {
        let joined = strutil::join_with(args, " ");
        strutil::strcat("cargo ", joined.as_str())
    }
}

} // verus!
