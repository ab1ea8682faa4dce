//! The configuration: the machines, the sync targets with their per-machine
//! paths, and which of the machines this one is.
use vstd::prelude::*;

use crate::text::{chars_eq, chars_of, join_path, join_path_spec, push_char};

verus! {

/// A machine of the configuration, reachable over SSH as `ssh_target`.
pub struct Machine {
    pub name: String,
    pub ssh_target: String,
}

/// Something to keep in sync, with its path on each machine (by machine name).
pub struct Target {
    pub name: String,
    pub target_type: String,
    pub paths: Vec<(String, String)>,
}

pub struct Config {
    pub machines: Vec<Machine>,
    pub targets: Vec<Target>,
    pub exclude: Vec<String>,
}

/// The configuration seen from the machine it runs on.
pub struct DetectedConfig<'a> {
    pub local: &'a Machine,
    pub remote: &'a Machine,
    pub config: &'a Config,
}

/// Why no local machine could be picked.
#[derive(Clone, Copy, Debug, PartialEq, Eq, Structural)]
pub enum DetectError {
    /// The first machine is local but there is no second one to sync with.
    TooFewMachines,
    /// No machine has a configured path that exists here.
    NoLocalMachine,
}

impl DetectError {
    /// The error as reported.
    pub fn message(&self) -> (s: &'static str)
        ensures
            s@ == match self {
                DetectError::TooFewMachines => "need at least 2 machines in config"@,
                DetectError::NoLocalMachine =>
                    "could not detect local machine — none of the configured paths exist on this system"@,
            },
    {
        match self {
            DetectError::TooFewMachines => "need at least 2 machines in config",
            DetectError::NoLocalMachine =>
                "could not detect local machine — none of the configured paths exist on this system",
        }
    }
}

/// Index of the first entry of `paths` whose machine name is `name`.
pub open spec fn path_index(paths: Seq<(String, String)>, name: Seq<char>) -> Option<int>
    decreases paths.len(),
{
    if paths.len() == 0 {
        None
    } else if paths[0].0@ == name {
        Some(0)
    } else {
        match path_index(paths.drop_first(), name) {
            Some(i) => Some(i + 1),
            None => None,
        }
    }
}

/// The path of `paths` for machine `name`, as `HashMap::get` finds it.
pub open spec fn path_for<'b>(paths: &'b Vec<(String, String)>, name: Seq<char>) -> Option<
    &'b String,
> {
    match path_index(paths@, name) {
        Some(i) => Some(&paths@[i].1),
        None => None,
    }
}

/// The machine that is synced with when machine `i` is the local one.
pub open spec fn remote_index(i: int) -> int {
    if i == 0 {
        1
    } else {
        0
    }
}

/// No machine has two paths in one target, as in the map the configuration
/// file holds.
pub open spec fn machines_distinct(paths: Seq<(String, String)>) -> bool {
    forall|i: int, j: int| 0 <= i < j < paths.len() ==> paths[i].0@ != paths[j].0@
}

impl Target {
    /// Each machine has at most one path.
    pub open spec fn wf(&self) -> bool {
        machines_distinct(self.paths@)
    }
}

impl Config {
    /// Every target has at most one path per machine.
    pub open spec fn wf(&self) -> bool {
        forall|t: int| 0 <= t < self.targets.len() ==> (#[trigger] self.targets@[t]).wf()
    }
}

/// Where each machine has at most one path, the lookup finds that one.
pub proof fn lemma_path_for_unique<'b>(paths: &'b Vec<(String, String)>, name: Seq<char>, i: int)
    requires
        machines_distinct(paths@),
        0 <= i < paths@.len(),
        paths@[i].0@ == name,
    ensures
        path_for(paths, name) == Some(&paths@[i].1),
{
    lemma_path_index(paths@, name);
}

pub proof fn lemma_path_index(paths: Seq<(String, String)>, name: Seq<char>)
    ensures
        match path_index(paths, name) {
            Some(i) => 0 <= i < paths.len() && paths[i].0@ == name && forall|k: int|
                0 <= k < i ==> paths[k].0@ != name,
            None => forall|k: int| 0 <= k < paths.len() ==> paths[k].0@ != name,
        },
    decreases paths.len(),
{
    if paths.len() > 0 && paths[0].0@ != name {
        lemma_path_index(paths.drop_first(), name);
        assert forall|k: int| 0 < k < paths.len() implies paths[k] == paths.drop_first()[k - 1] by {}
    }
}

/// Looks up the path configured for machine `name`.
pub fn lookup_path<'b>(paths: &'b Vec<(String, String)>, name: &String) -> (r: Option<&'b String>)
    ensures
        r == path_for(paths, name@),
{
    let ghost p = paths@;
    let nc = chars_of(name.as_str());
    let mut i: usize = 0;
    assert(p.skip(0) =~= p);
    while i < paths.len()
        invariant
            i <= paths.len(),
            p == paths@,
            nc@ == name@,
            path_index(p, name@) == match path_index(p.skip(i as int), name@) {
                Some(k) => Some(k + i),
                None => None,
            },
        decreases paths.len() - i,
    {
        let kc = chars_of(paths[i].0.as_str());
        assert(p.skip(i as int)[0] == p[i as int]);
        assert(p.skip(i as int).drop_first() =~= p.skip(i + 1));
        if chars_eq(&kc, &nc) {
            return Some(&paths[i].1);
        }
        i += 1;
    }
    assert(p.skip(i as int).len() == 0);
    None
}

impl<'a> DetectedConfig<'a> {
    /// The path of `target` on this machine.
    pub fn local_path<'b>(&self, target: &'b Target) -> (r: Option<&'b String>)
        ensures
            r == path_for(&target.paths, self.local.name@),
            target.wf() ==> forall|i: int|
                0 <= i < target.paths.len() && (#[trigger] target.paths@[i]).0@ == self.local.name@
                    ==> r == Some(&target.paths@[i].1),
    {
        proof {
            assert forall|i: int|
                target.wf() && 0 <= i < target.paths.len() && (#[trigger] target.paths@[i]).0@
                    == self.local.name@ implies path_for(&target.paths, self.local.name@) == Some(
                &target.paths@[i].1,
            ) by {
                lemma_path_for_unique(&target.paths, self.local.name@, i);
            }
        }
        lookup_path(&target.paths, &self.local.name)
    }

    /// The path of `target` on the other machine.
    pub fn remote_path<'b>(&self, target: &'b Target) -> (r: Option<&'b String>)
        ensures
            r == path_for(&target.paths, self.remote.name@),
            target.wf() ==> forall|i: int|
                0 <= i < target.paths.len() && (#[trigger] target.paths@[i]).0@ == self.remote.name@
                    ==> r == Some(&target.paths@[i].1),
    {
        proof {
            assert forall|i: int|
                target.wf() && 0 <= i < target.paths.len() && (#[trigger] target.paths@[i]).0@
                    == self.remote.name@ implies path_for(&target.paths, self.remote.name@) == Some(
                &target.paths@[i].1,
            ) by {
                lemma_path_for_unique(&target.paths, self.remote.name@, i);
            }
        }
        lookup_path(&target.paths, &self.remote.name)
    }

    /// `path` on the other machine, in rsync's `host:path` form.
    pub fn remote_rsync_path(&self, path: &str) -> (r: String)
        ensures
            r@ == self.remote.ssh_target@.push(':') + path@,
    {
        let mut r = self.remote.ssh_target.clone();
        push_char(&mut r, ':');
        let pc = chars_of(path);
        crate::text::append_chars(&mut r, &pc);
        r
    }
}

/// Calls `Path::exists`, which asks the file system whether `p` names
/// something there; nothing is claimed of the answer.
#[verifier::external_body]
pub(crate) fn path_exists(p: &str) -> bool {
    std::path::Path::new(p).exists()
}

impl Config {
    /// Machine `i` has a path configured in some target.
    pub open spec fn has_configured_path(&self, i: int) -> bool {
        exists|t: int|
            0 <= t < self.targets.len() && path_index(
                self.targets@[t].paths@,
                self.machines@[i].name@,
            ) is Some
    }

    /// The machine pair that `detect` picks when `has_local[i]` tells whether
    /// machine `i` has an existing local path.
    pub open spec fn detection(&self, has_local: Seq<bool>) -> Result<(int, int), DetectError> {
        if exists|i: int| 0 <= i < has_local.len() && has_local[i] {
            let i = choose|i: int|
                0 <= i < has_local.len() && has_local[i] && forall|k: int|
                    0 <= k < i ==> !has_local[k];
            if remote_index(i) >= self.machines.len() {
                Err(DetectError::TooFewMachines)
            } else {
                Ok((i, remote_index(i)))
            }
        } else {
            Err(DetectError::NoLocalMachine)
        }
    }

    /// `exists` holds one answer per target to whether machine `name`'s
    /// path in it exists; no answer is true where the target has no path
    /// for the machine.
    pub open spec fn existence_answers(&self, name: Seq<char>, exists: Seq<bool>) -> bool {
        &&& exists.len() == self.targets.len()
        &&& forall|t: int|
            0 <= t < exists.len() && path_index(self.targets@[t].paths@, name) is None
                ==> !#[trigger] exists[t]
    }

    /// Some target has a path for machine `name` that exists, by the answers.
    pub open spec fn has_existing_path_spec(&self, name: Seq<char>, exists: Seq<bool>) -> bool {
        exists|t: int|
            0 <= t < self.targets.len() && path_index(self.targets@[t].paths@, name) is Some
                && #[trigger] exists[t]
    }

    /// Whether some target has a path for machine `name` whose existence
    /// answer, `exists[t]` for target `t`, is yes.
    pub fn has_existing_path(&self, name: &String, exists: &[bool]) -> (r: bool)
        requires
            exists@.len() == self.targets.len(),
        ensures
            r == self.has_existing_path_spec(name@, exists@),
    {
        let mut t: usize = 0;
        while t < self.targets.len()
            invariant
                t <= self.targets.len(),
                exists@.len() == self.targets.len(),
                forall|k: int|
                    0 <= k < t ==> !(path_index(self.targets@[k].paths@, name@) is Some
                        && #[trigger] exists@[k]),
            decreases self.targets.len() - t,
        {
            if exists[t] && lookup_path(&self.targets[t].paths, name).is_some() {
                return true;
            }
            t += 1;
        }
        false
    }

    /// Whether some target's path for machine `name` exists on this system:
    /// each configured path is asked about, and the answers are combined by
    /// `has_existing_path`.
    pub fn machine_has_local_path(&self, name: &String) -> (r: bool)
        ensures
            exists|e: Seq<bool>|
                self.existence_answers(name@, e) && r == self.has_existing_path_spec(name@, e),
            r ==> exists|t: int|
                0 <= t < self.targets.len() && path_index(self.targets@[t].paths@, name@) is Some,
    {
        let mut answers: Vec<bool> = Vec::new();
        let mut t: usize = 0;
        while t < self.targets.len()
            invariant
                t <= self.targets.len(),
                answers@.len() == t,
                forall|k: int|
                    0 <= k < t && path_index(self.targets@[k].paths@, name@) is None
                        ==> !#[trigger] answers@[k],
            decreases self.targets.len() - t,
        {
            let a = match lookup_path(&self.targets[t].paths, name) {
                Some(p) => path_exists(p.as_str()),
                None => false,
            };
            answers.push(a);
            t += 1;
        }
        assert(self.existence_answers(name@, answers@));
        self.has_existing_path(name, answers.as_slice())
    }

    /// `r` is what `detection` picks for the flags `h`.
    pub open spec fn detected_as(&self, r: Result<DetectedConfig<'_>, DetectError>, h: Seq<
        bool,
    >) -> bool {
        match (r, self.detection(h)) {
            (Ok(d), Ok((i, j))) => d.local == &self.machines@[i] && d.remote == &self.machines@[j]
                && d.config == self,
            (Err(e), Err(f)) => e == f,
            _ => false,
        }
    }

    /// The per-machine flags that the answers give.
    pub open spec fn local_flags(&self, answers: Seq<Seq<bool>>) -> Seq<bool> {
        Seq::new(
            self.machines@.len(),
            |i: int| self.has_existing_path_spec(self.machines@[i].name@, answers[i]),
        )
    }

    /// Picks the local machine: the first one, in configuration order, for
    /// which `has_local` is true; the remote one is the first machine, or the
    /// second when the local one is the first.
    pub fn detect_from(&self, has_local: &[bool]) -> (r: Result<DetectedConfig<'_>, DetectError>)
        requires
            has_local@.len() == self.machines.len(),
        ensures
            self.detected_as(r, has_local@),
    {
        let mut i: usize = 0;
        while i < has_local.len()
            invariant
                i <= has_local@.len() == self.machines.len(),
                forall|k: int| 0 <= k < i ==> !has_local@[k],
            decreases has_local@.len() - i,
        {
            if has_local[i] {
                proof {
                    let w = choose|w: int|
                        0 <= w < has_local@.len() && has_local@[w] && forall|k: int|
                            0 <= k < w ==> !has_local@[k];
                    assert(0 <= w < has_local@.len() && has_local@[w] && forall|k: int|
                        0 <= k < w ==> !has_local@[k]);
                    if w < i {
                    } else if w > i {
                        assert(!has_local@[i as int]);
                    }
                }
                let remote_idx: usize = if i == 0 {
                    1
                } else {
                    0
                };
                if remote_idx >= self.machines.len() {
                    return Err(DetectError::TooFewMachines);
                }
                return Ok(
                    DetectedConfig {
                        local: &self.machines[i],
                        remote: &self.machines[remote_idx],
                        config: self,
                    },
                );
            }
            i += 1;
        }
        Err(DetectError::NoLocalMachine)
    }

    /// Detects which configured machine this is, by which configured paths
    /// exist here.
    pub fn detect(&self) -> (r: Result<DetectedConfig<'_>, DetectError>)
        ensures
            r matches Ok(d) ==> exists|i: int|
                0 <= i < self.machines.len() && self.has_configured_path(i) && remote_index(i)
                    < self.machines.len() && d.local == &self.machines@[i] && d.remote
                    == &self.machines@[remote_index(i)] && d.config == self,
            r matches Err(e) ==> (e == DetectError::TooFewMachines ==> self.machines.len() == 1),
            (forall|i: int| 0 <= i < self.machines.len() ==> !self.has_configured_path(i)) ==> (
            r matches Err(e) && e == DetectError::NoLocalMachine),
            exists|answers: Seq<Seq<bool>>|
                answers.len() == self.machines.len() && (forall|i: int|
                    0 <= i < self.machines.len() ==> self.existence_answers(
                        self.machines@[i].name@,
                        #[trigger] answers[i],
                    )) && self.detected_as(r, self.local_flags(answers)),
    {
        let mut has_local: Vec<bool> = Vec::new();
        let ghost mut answers: Seq<Seq<bool>> = Seq::empty();
        let mut i: usize = 0;
        while i < self.machines.len()
            invariant
                i <= self.machines.len(),
                has_local@.len() == i,
                answers.len() == i,
                forall|k: int| 0 <= k < i ==> #[trigger] has_local@[k] ==> self.has_configured_path(k),
                forall|k: int|
                    0 <= k < i ==> self.existence_answers(
                        self.machines@[k].name@,
                        #[trigger] answers[k],
                    ) && has_local@[k] == self.has_existing_path_spec(
                        self.machines@[k].name@,
                        answers[k],
                    ),
            decreases self.machines.len() - i,
        {
            let b = self.machine_has_local_path(&self.machines[i].name);
            proof {
                let e = choose|e: Seq<bool>|
                    self.existence_answers(self.machines@[i as int].name@, e) && b
                        == self.has_existing_path_spec(self.machines@[i as int].name@, e);
                answers = answers.push(e);
            }
            has_local.push(b);
            i += 1;
        }
        proof {
            self.lemma_detection(has_local@);
            assert(has_local@ =~= self.local_flags(answers));
        }
        self.detect_from(has_local.as_slice())
    }

    /// What `detection` picks, when the flags only mark machines with a
    /// configured path.
    pub proof fn lemma_detection(&self, h: Seq<bool>)
        requires
            h.len() == self.machines.len(),
            forall|k: int| 0 <= k < h.len() ==> #[trigger] h[k] ==> self.has_configured_path(k),
        ensures
            self.detection(h) matches Ok((i, j)) ==> 0 <= i < self.machines.len()
                && self.has_configured_path(i) && j == remote_index(i) && j < self.machines.len(),
            self.detection(h) matches Err(e) ==> (e == DetectError::TooFewMachines
                ==> self.machines.len() == 1),
            (forall|i: int| 0 <= i < self.machines.len() ==> !self.has_configured_path(i)) ==> (
            self.detection(h) matches Err(e) && e == DetectError::NoLocalMachine),
    {
        if exists|i: int| 0 <= i < h.len() && h[i] {
            let i0 = choose|i: int| 0 <= i < h.len() && h[i];
            assert(h[i0]);
            lemma_first_true(h, i0);
            let w = choose|w: int|
                0 <= w < h.len() && h[w] && forall|k: int| 0 <= k < w ==> !h[k];
            assert(self.has_configured_path(w));
        }
    }
}

/// The location of the configuration file under the home directory `home`
/// (the current directory when there is none).
pub open spec fn config_path_spec(home: Option<Seq<char>>) -> Seq<char> {
    let base = match home {
        Some(h) => h,
        None => seq!['.'],
    };
    join_path_spec(join_path_spec(join_path_spec(base, ".config"@), "emusync"@), "config.json"@)
}

/// `$HOME/.config/emusync/config.json`, as `Path::join` builds it.
pub fn config_path_for(home: Option<&str>) -> (r: String)
    ensures
        r@ == config_path_spec(
            match home {
                Some(h) => Some(h@),
                None => None,
            },
        ),
{
    let mut base = String::new();
    match home {
        Some(h) => {
            base = h.to_owned();
        },
        None => {
            push_char(&mut base, '.');
        },
    }
    let a = join_path(base.as_str(), ".config");
    let b = join_path(a.as_str(), "emusync");
    join_path(b.as_str(), "config.json")
}

/// The template configuration that `init` writes.
pub open spec fn default_config_spec(c: Config) -> bool {
    &&& c.machines.len() == 2
    &&& c.machines@[0].name@ == "machine-1"@
    &&& c.machines@[1].name@ == "machine-2"@
    &&& c.machines@[0].ssh_target@ == "user@hostname-or-ip"@
    &&& c.machines@[1].ssh_target@ == "user@hostname-or-ip"@
    &&& c.targets.len() == 1
    &&& c.targets@[0].name@ == "example-saves"@
    &&& c.targets@[0].target_type@ == "directory"@
    &&& c.targets@[0].paths.len() == 2
    &&& c.targets@[0].paths@[0].0@ == "machine-1"@
    &&& c.targets@[0].paths@[0].1@ == "/path/to/saves"@
    &&& c.targets@[0].paths@[1].0@ == "machine-2"@
    &&& c.targets@[0].paths@[1].1@ == "/path/to/saves"@
    &&& c.exclude.len() == 3
    &&& c.exclude@[0]@ == ".DS_Store"@
    &&& c.exclude@[1]@ == "Thumbs.db"@
    &&& c.exclude@[2]@ == ".lock"@
}

/// The template configuration that `init` writes.
pub fn default_config() -> (c: Config)
    ensures
        default_config_spec(c),
        c.wf(),
{
    proof {
        reveal_strlit("machine-1");
        reveal_strlit("machine-2");
        assert("machine-1"@[8] != "machine-2"@[8]);
    }
    let mut machines: Vec<Machine> = Vec::new();
    machines.push(
        Machine { name: "machine-1".to_owned(), ssh_target: "user@hostname-or-ip".to_owned() },
    );
    machines.push(
        Machine { name: "machine-2".to_owned(), ssh_target: "user@hostname-or-ip".to_owned() },
    );
    let mut paths: Vec<(String, String)> = Vec::new();
    paths.push(("machine-1".to_owned(), "/path/to/saves".to_owned()));
    paths.push(("machine-2".to_owned(), "/path/to/saves".to_owned()));
    let mut targets: Vec<Target> = Vec::new();
    targets.push(
        Target { name: "example-saves".to_owned(), target_type: "directory".to_owned(), paths },
    );
    let mut exclude: Vec<String> = Vec::new();
    exclude.push(".DS_Store".to_owned());
    exclude.push("Thumbs.db".to_owned());
    exclude.push(".lock".to_owned());
    Config { machines, targets, exclude }
}

/// Where some flag is set, there is a first one.
pub proof fn lemma_first_true(h: Seq<bool>, i: int)
    requires
        0 <= i < h.len(),
        h[i],
    ensures
        exists|w: int| 0 <= w < h.len() && h[w] && forall|k: int| 0 <= k < w ==> !h[k],
    decreases i,
{
    if exists|k: int| 0 <= k < i && h[k] {
        let k = choose|k: int| 0 <= k < i && h[k];
        lemma_first_true(h, k);
    } else {
        assert(forall|k: int| 0 <= k < i ==> !h[k]);
    }
}

/// Which of a target's two paths is not configured.
#[derive(Clone, Copy, Debug, PartialEq, Eq, Structural)]
pub enum MissingPath {
    Local,
    Remote,
}

impl MissingPath {
    /// What a sync reports for a target it skips.
    pub fn skip_message(&self) -> (s: &'static str)
        ensures
            s@ == match self {
                MissingPath::Local => "skipped (no local path configured)"@,
                MissingPath::Remote => "skipped (no remote path configured)"@,
            },
    {
        match self {
            MissingPath::Local => "skipped (no local path configured)",
            MissingPath::Remote => "skipped (no remote path configured)",
        }
    }

    /// What a status reports for such a target.
    pub fn status_error(&self) -> (s: &'static str)
        ensures
            s@ == match self {
                MissingPath::Local => "no local path"@,
                MissingPath::Remote => "no remote path"@,
            },
    {
        match self {
            MissingPath::Local => "no local path",
            MissingPath::Remote => "no remote path",
        }
    }
}

impl<'a> DetectedConfig<'a> {
    /// The target's local and remote paths; the local one is looked up first.
    pub fn configured_paths<'b>(&self, target: &'b Target) -> (r: Result<
        (&'b String, &'b String),
        MissingPath,
    >)
        ensures
            match (path_for(&target.paths, self.local.name@), path_for(
                &target.paths,
                self.remote.name@,
            )) {
                (None, _) => r == Err::<(&'b String, &'b String), MissingPath>(MissingPath::Local),
                (Some(_), None) => r == Err::<(&'b String, &'b String), MissingPath>(
                    MissingPath::Remote,
                ),
                (Some(l), Some(m)) => r == Ok::<(&'b String, &'b String), MissingPath>((l, m)),
            },
    {
        let l = match self.local_path(target) {
            Some(p) => p,
            None => {
                return Err(MissingPath::Local);
            },
        };
        let m = match self.remote_path(target) {
            Some(p) => p,
            None => {
                return Err(MissingPath::Remote);
            },
        };
        Ok((l, m))
    }
}

/// The detected pair is two different machines: the remote one is the
/// first machine, or the second when the local one is the first.
pub proof fn law_detected_pair(c: &Config, has_local: Seq<bool>)
    requires
        has_local.len() == c.machines.len(),
    ensures
        c.detection(has_local) matches Ok((i, j)) ==> (i != j && 0 <= i < c.machines.len() && 0
            <= j < c.machines.len() && (j == 0 || (i == 0 && j == 1))),
        c.detection(has_local) matches Ok((i, j)) ==> has_local[i] && forall|k: int|
            0 <= k < i ==> !has_local[k],
{
    if exists|i: int| 0 <= i < has_local.len() && has_local[i] {
        let i0 = choose|i: int| 0 <= i < has_local.len() && has_local[i];
        lemma_first_true(has_local, i0);
    }
}

} // verus!
