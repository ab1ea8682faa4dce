//! The rsync side of syncing: the command lines run for one-way and
//! two-way syncs, how rsync's exit status and output are read, the remote
//! file count, and the walk that finds the newest file of a local tree.
use vstd::prelude::*;

use crate::text::{
    chars_of, concat_str, contains, contains_seq, ends_with, lines, lines_of, parse_u64,
    parse_u64_chars, push_char, starts_with, trim, trim_chars,
};

verus! {

/// Which way a sync goes: both ways by modification time, or forced.
#[derive(Clone, Copy, Debug, PartialEq, Eq, Structural)]
pub enum Direction {
    Auto,
    Push,
    Pull,
}

/// What a directory sync did.
pub struct SyncResult {
    pub transferred: bool,
    pub direction: &'static str,
}

/// One run of `rsync`: its arguments after the program name.
pub struct RsyncCall {
    pub args: Vec<String>,
}

impl View for RsyncCall {
    type V = Seq<Seq<char>>;

    open spec fn view(&self) -> Seq<Seq<char>> {
        self.args@.map_values(|a: String| a@)
    }
}

/// The views of a list of strings.
pub open spec fn strings_view(v: Seq<String>) -> Seq<Seq<char>> {
    v.map_values(|a: String| a@)
}

/// The views of a list of string slices.
pub open spec fn strs_view(v: Seq<&str>) -> Seq<Seq<char>> {
    v.map_values(|a: &str| a@)
}

/// The arguments of an rsync run: recursive, verbose, keeping links and
/// times, without permissions, owner or group; `-n` for a dry run; one
/// `--exclude=` per pattern; then the extra arguments, the source and the
/// destination.
pub open spec fn rsync_args(
    src: Seq<char>,
    dst: Seq<char>,
    extra: Seq<Seq<char>>,
    excludes: Seq<Seq<char>>,
    dry_run: bool,
) -> Seq<Seq<char>> {
    seq!["-rvltDP"@, "--no-perms"@, "--no-owner"@, "--no-group"@] + (if dry_run {
        seq!["-n"@]
    } else {
        seq![]
    }) + excludes.map_values(|e: Seq<char>| "--exclude="@ + e) + extra + seq![src, dst]
}

/// `s` ending in exactly the `/` that makes rsync copy a directory's contents.
pub open spec fn with_trailing_slash(s: Seq<char>) -> Seq<char> {
    if s.len() > 0 && s.last() == '/' {
        s
    } else {
        s.push('/')
    }
}

/// `ssh_target:path`, rsync's remote form.
pub open spec fn remote_spec(ssh_target: Seq<char>, path: Seq<char>) -> Seq<char> {
    ssh_target.push(':') + path
}

/// The rsync runs of a two-way sync: a push, a pull, or (by modification
/// time) a push followed by a pull, each with `--update`.
pub open spec fn bidirectional_calls(
    local_path: Seq<char>,
    ssh_target: Seq<char>,
    remote_path: Seq<char>,
    excludes: Seq<Seq<char>>,
    direction: Direction,
    dry_run: bool,
) -> Seq<Seq<Seq<char>>> {
    let l = with_trailing_slash(local_path);
    let r = with_trailing_slash(remote_spec(ssh_target, remote_path));
    let push = rsync_args(l, r, seq!["--update"@], excludes, dry_run);
    let pull = rsync_args(r, l, seq!["--update"@], excludes, dry_run);
    match direction {
        Direction::Push => seq![push],
        Direction::Pull => seq![pull],
        Direction::Auto => seq![push, pull],
    }
}

/// How many rsync runs a sync in `direction` takes.
pub open spec fn run_count(direction: Direction) -> nat {
    match direction {
        Direction::Auto => 2,
        _ => 1,
    }
}

/// Whether anything was transferred, given what each run reported.
pub open spec fn any_transferred(t: Seq<bool>) -> bool {
    exists|i: int| 0 <= i < t.len() && t[i]
}

/// The direction a two-way sync reports.
pub open spec fn sync_label(direction: Direction, t: Seq<bool>) -> Seq<char> {
    match direction {
        Direction::Push => "push"@,
        Direction::Pull => "pull"@,
        Direction::Auto => if t[0] && t[1] {
            "both"@
        } else if t[0] {
            "push"@
        } else if t[1] {
            "pull"@
        } else {
            "none"@
        },
    }
}

/// The rsync runs of a two-way sync, to be run in order until one fails.
pub struct BidirectionalPlan {
    pub direction: Direction,
    pub calls: Vec<RsyncCall>,
}

impl View for BidirectionalPlan {
    type V = Seq<Seq<Seq<char>>>;

    open spec fn view(&self) -> Seq<Seq<Seq<char>>> {
        self.calls@.map_values(|c: RsyncCall| c@)
    }
}

/// The runs of a plan go in order and stop at the first failure: the index
/// of the next run, or none once all have run or the last one failed.
pub open spec fn next_run_spec<E>(n: nat, runs: Seq<Result<bool, E>>) -> Option<usize> {
    if runs.len() >= n || (runs.len() > 0 && runs.last() is Err) {
        None
    } else {
        Some(runs.len() as usize)
    }
}

/// The runs of a plan as they went: at least one, all but the last
/// successful, and either all of them or up to the one that failed.
pub open spec fn runs_complete<E>(n: nat, runs: Seq<Result<bool, E>>) -> bool {
    &&& 0 < runs.len() <= n
    &&& forall|i: int| 0 <= i < runs.len() - 1 ==> #[trigger] runs[i] is Ok
    &&& (runs.last() is Err || runs.len() == n)
}

/// Whether each run transferred something.
pub open spec fn run_flags<E>(runs: Seq<Result<bool, E>>) -> Seq<bool> {
    runs.map_values(|r: Result<bool, E>| r matches Ok(b) && b)
}

/// How an rsync run ended, by its exit status.
#[derive(Clone, Copy, Debug, PartialEq, Eq, Structural)]
pub enum RsyncExit {
    /// Exit status 0.
    Complete,
    /// Exit status 23 or 24: some files were not transferred; the run
    /// counts, with a warning.
    Partial,
    /// Any other exit status: the sync fails.
    Failed(i32),
    /// No exit status: rsync was killed by a signal.
    Signaled,
}

pub open spec fn rsync_exit_spec(code: Option<i32>) -> RsyncExit {
    match code {
        Some(0) => RsyncExit::Complete,
        Some(c) => if c == 23 || c == 24 {
            RsyncExit::Partial
        } else {
            RsyncExit::Failed(c)
        },
        None => RsyncExit::Signaled,
    }
}

/// A line of rsync's verbose output that names a transferred file rather
/// than a header, a summary or a directory.
pub open spec fn reports_transfer(line: Seq<char>) -> bool {
    let t = trim(line);
    &&& t.len() > 0
    &&& !"sending"@.is_prefix_of(t)
    &&& !"sent "@.is_prefix_of(t)
    &&& !"total "@.is_prefix_of(t)
    &&& !"receiving"@.is_prefix_of(t)
    &&& !contains_seq(t, "bytes/sec"@)
    &&& !"building file list"@.is_prefix_of(t)
    &&& !"./"@.is_prefix_of(t)
    &&& !contains_seq(t, "files to consider"@)
    &&& !contains_seq(t, "files..."@)
    &&& !"created directory"@.is_prefix_of(t)
    &&& !"(DRY RUN)"@.is_suffix_of(t)
    &&& !"Transfer starting"@.is_prefix_of(t)
}

/// Some line of the output reports a transfer.
pub open spec fn output_reports_transfer(out: Seq<char>) -> bool {
    exists|i: int| 0 <= i < lines(out).len() && reports_transfer(#[trigger] lines(out)[i])
}

/// The command run over SSH to count the files under `path`.
pub open spec fn count_command_spec(path: Seq<char>) -> Seq<char> {
    "find '"@ + path + "' -type f 2>/dev/null | wc -l"@
}

/// The count that the remote command printed, 0 where it is not a number.
pub open spec fn file_count_spec(out: Seq<char>) -> u64 {
    match parse_u64(trim(out)) {
        Some(n) => n,
        None => 0,
    }
}

// ---------------------------------------------------------------------------

/// A copy of each string of `v`.
pub(crate) fn copy_strings(v: &[String]) -> (r: Vec<String>)
    ensures
        strings_view(r@) == strings_view(v@),
{
    let mut r: Vec<String> = Vec::new();
    let mut i: usize = 0;
    while i < v.len()
        invariant
            i <= v@.len(),
            strings_view(r@) == strings_view(v@.take(i as int)),
        decreases v@.len() - i,
    {
        let ghost old_r = r@;
        r.push(v[i].clone());
        assert(strings_view(r@) =~= strings_view(old_r).push(v@[i as int]@));
        assert(strings_view(v@.take(i + 1)) =~= strings_view(v@.take(i as int)).push(
            v@[i as int]@,
        ));
        i += 1;
    }
    assert(v@.take(v@.len() as int) =~= v@);
    r
}

/// The arguments of an rsync run (see `rsync_args`).
pub fn rsync_command(
    src: &str,
    dst: &str,
    extra_args: &[&str],
    excludes: &[String],
    dry_run: bool,
) -> (c: RsyncCall)
    ensures
        c@ == rsync_args(src@, dst@, strs_view(extra_args@), strings_view(excludes@), dry_run),
{
    let mut args: Vec<String> = Vec::new();
    args.push("-rvltDP".to_owned());
    args.push("--no-perms".to_owned());
    args.push("--no-owner".to_owned());
    args.push("--no-group".to_owned());
    if dry_run {
        args.push("-n".to_owned());
    }
    let ghost head = strings_view(args@);
    assert(head =~= seq!["-rvltDP"@, "--no-perms"@, "--no-owner"@, "--no-group"@] + (if dry_run {
        seq!["-n"@]
    } else {
        seq![]
    }));
    let ghost ex = strings_view(excludes@).map_values(|e: Seq<char>| "--exclude="@ + e);
    let mut i: usize = 0;
    while i < excludes.len()
        invariant
            i <= excludes@.len(),
            ex == strings_view(excludes@).map_values(|e: Seq<char>| "--exclude="@ + e),
            strings_view(args@) == head + ex.take(i as int),
        decreases excludes@.len() - i,
    {
        let ghost old_args = args@;
        args.push(concat_str("--exclude=", excludes[i].as_str()));
        assert(strings_view(args@) =~= strings_view(old_args).push(ex[i as int]));
        assert(ex.take(i + 1) =~= ex.take(i as int).push(ex[i as int]));
        i += 1;
    }
    assert(ex.take(excludes@.len() as int) =~= ex);
    let ghost mid = strings_view(args@);
    let ghost xs = strs_view(extra_args@);
    let mut j: usize = 0;
    while j < extra_args.len()
        invariant
            j <= extra_args@.len(),
            xs == strs_view(extra_args@),
            strings_view(args@) == mid + xs.take(j as int),
        decreases extra_args@.len() - j,
    {
        let ghost old_args = args@;
        args.push(extra_args[j].to_owned());
        assert(strings_view(args@) =~= strings_view(old_args).push(xs[j as int]));
        assert(xs.take(j + 1) =~= xs.take(j as int).push(xs[j as int]));
        j += 1;
    }
    assert(xs.take(extra_args@.len() as int) =~= xs);
    let ghost before = args@;
    args.push(src.to_owned());
    args.push(dst.to_owned());
    assert(strings_view(args@) =~= strings_view(before) + seq![src@, dst@]);
    RsyncCall { args }
}

/// `path`, with a `/` appended unless it already ends with one.
pub fn ensure_trailing_slash(path: &str) -> (r: String)
    ensures
        r@ == with_trailing_slash(path@),
{
    let pc = chars_of(path);
    let mut r = path.to_owned();
    if !(pc.len() > 0 && pc[pc.len() - 1] == '/') {
        push_char(&mut r, '/');
    }
    r
}

/// The rsync run that copies the contents of `src` into `dst`.
pub fn rsync_one_way(
    src: &str,
    dst: &str,
    excludes: &[String],
    extra_args: &[&str],
    dry_run: bool,
) -> (c: RsyncCall)
    ensures
        c@ == rsync_args(
            with_trailing_slash(src@),
            with_trailing_slash(dst@),
            strs_view(extra_args@),
            strings_view(excludes@),
            dry_run,
        ),
{
    let s = ensure_trailing_slash(src);
    let d = ensure_trailing_slash(dst);
    rsync_command(s.as_str(), d.as_str(), extra_args, excludes, dry_run)
}

/// The rsync runs that sync `local_path` with `remote_path` on `ssh_target`.
pub fn rsync_bidirectional(
    local_path: &str,
    ssh_target: &str,
    remote_path: &str,
    excludes: &[String],
    direction: Direction,
    dry_run: bool,
) -> (p: BidirectionalPlan)
    ensures
        p.direction == direction,
        p@ == bidirectional_calls(
            local_path@,
            ssh_target@,
            remote_path@,
            strings_view(excludes@),
            direction,
            dry_run,
        ),
        p.calls.len() == run_count(direction),
{
    let mut remote = ssh_target.to_owned();
    push_char(&mut remote, ':');
    let rc = chars_of(remote_path);
    crate::text::append_chars(&mut remote, &rc);
    let local_trailing = ensure_trailing_slash(local_path);
    let remote_trailing = ensure_trailing_slash(remote.as_str());
    let update: [&str; 1] = ["--update"];
    assert(strs_view(update@) =~= seq!["--update"@]);
    let mut calls: Vec<RsyncCall> = Vec::new();
    match direction {
        Direction::Push => {
            calls.push(
                rsync_command(
                    local_trailing.as_str(),
                    remote_trailing.as_str(),
                    &update,
                    excludes,
                    dry_run,
                ),
            );
        },
        Direction::Pull => {
            calls.push(
                rsync_command(
                    remote_trailing.as_str(),
                    local_trailing.as_str(),
                    &update,
                    excludes,
                    dry_run,
                ),
            );
        },
        Direction::Auto => {
            calls.push(
                rsync_command(
                    local_trailing.as_str(),
                    remote_trailing.as_str(),
                    &update,
                    excludes,
                    dry_run,
                ),
            );
            calls.push(
                rsync_command(
                    remote_trailing.as_str(),
                    local_trailing.as_str(),
                    &update,
                    excludes,
                    dry_run,
                ),
            );
        },
    }
    let p = BidirectionalPlan { direction, calls };
    assert(p@ =~= bidirectional_calls(
        local_path@,
        ssh_target@,
        remote_path@,
        strings_view(excludes@),
        direction,
        dry_run,
    ));
    p
}

impl BidirectionalPlan {
    /// The outcome of the sync, from the outcomes of its runs as they went:
    /// the error of the run that failed, or what the runs transferred.
    pub fn settle<E>(&self, runs: Vec<Result<bool, E>>) -> (r: Result<SyncResult, E>)
        requires
            self.calls.len() == run_count(self.direction),
            runs_complete(self.calls@.len(), runs@),
        ensures
            match runs@.last() {
                Err(e) => r == Err::<SyncResult, E>(e),
                Ok(_) => r matches Ok(s) && s.transferred == any_transferred(run_flags(runs@))
                    && s.direction@ == sync_label(self.direction, run_flags(runs@)),
            },
    {
        match settle_runs(runs) {
            Err(e) => Err(e),
            Ok(f) => Ok(self.result(f.as_slice())),
        }
    }

    /// The outcome of the sync, from whether each of its runs transferred
    /// anything.
    pub fn result(&self, transferred: &[bool]) -> (r: SyncResult)
        requires
            self.calls.len() == run_count(self.direction),
            transferred@.len() == self.calls.len(),
        ensures
            r.transferred == any_transferred(transferred@),
            r.direction@ == sync_label(self.direction, transferred@),
    {
        match self.direction {
            Direction::Push => {
                SyncResult { transferred: transferred[0], direction: "push" }
            },
            Direction::Pull => {
                SyncResult { transferred: transferred[0], direction: "pull" }
            },
            Direction::Auto => {
                let pushed = transferred[0];
                let pulled = transferred[1];
                let dir = if pushed && pulled {
                    "both"
                } else if pushed {
                    "push"
                } else if pulled {
                    "pull"
                } else {
                    "none"
                };
                SyncResult { transferred: pushed || pulled, direction: dir }
            },
        }
    }
}

pub open spec fn direction_label_spec(d: Direction) -> Seq<char> {
    match d {
        Direction::Push => "push"@,
        Direction::Pull => "pull"@,
        Direction::Auto => "auto"@,
    }
}

/// The word for a direction.
pub fn direction_label(d: Direction) -> (s: &'static str)
    ensures
        s@ == direction_label_spec(d),
{
    match d {
        Direction::Push => "push",
        Direction::Pull => "pull",
        Direction::Auto => "auto",
    }
}

/// Whether any of the runs transferred something.
pub fn any_true(transferred: &[bool]) -> (b: bool)
    ensures
        b == any_transferred(transferred@),
{
    let mut i: usize = 0;
    while i < transferred.len()
        invariant
            i <= transferred@.len(),
            forall|k: int| 0 <= k < i ==> !transferred@[k],
        decreases transferred@.len() - i,
    {
        if transferred[i] {
            return true;
        }
        i += 1;
    }
    false
}

/// Which run of `calls` comes next, given the outcomes of the runs so far:
/// runs go in order, and none follows a failed one.
pub fn next_run<E>(calls: &[RsyncCall], runs: &[Result<bool, E>]) -> (r: Option<usize>)
    ensures
        r == next_run_spec(calls@.len(), runs@),
{
    let n = runs.len();
    if n >= calls.len() {
        return None;
    }
    if n > 0 && runs[n - 1].is_err() {
        return None;
    }
    Some(n)
}

/// What each run transferred, or the error of the run that failed.
pub fn settle_runs<E>(runs: Vec<Result<bool, E>>) -> (r: Result<Vec<bool>, E>)
    requires
        runs@.len() > 0,
        forall|i: int| 0 <= i < runs@.len() - 1 ==> #[trigger] runs@[i] is Ok,
    ensures
        match runs@.last() {
            Err(e) => r == Err::<Vec<bool>, E>(e),
            Ok(_) => r matches Ok(f) && f@ == run_flags(runs@),
        },
{
    let ghost all = runs@;
    let mut runs = runs;
    let last = runs.pop().unwrap();
    match last {
        Err(e) => Err(e),
        Ok(b) => {
            let mut f: Vec<bool> = Vec::new();
            let mut i: usize = 0;
            while i < runs.len()
                invariant
                    runs@ == all.drop_last(),
                    all.len() > 0,
                    forall|k: int| 0 <= k < all.len() - 1 ==> #[trigger] all[k] is Ok,
                    i <= runs@.len(),
                    f@ == run_flags(all).take(i as int),
                decreases runs@.len() - i,
            {
                let x = match &runs[i] {
                    Ok(x) => *x,
                    Err(_) => {
                        assert(all[i as int] is Ok);
                        false
                    },
                };
                f.push(x);
                assert(run_flags(all).take(i + 1) =~= run_flags(all).take(i as int).push(x));
                i += 1;
            }
            f.push(b);
            assert(f@ =~= run_flags(all));
            Ok(f)
        },
    }
}

/// How an rsync run ended, by its exit status.
pub fn rsync_exit(code: Option<i32>) -> (e: RsyncExit)
    ensures
        e == rsync_exit_spec(code),
{
    match code {
        Some(0) => RsyncExit::Complete,
        Some(23) | Some(24) => RsyncExit::Partial,
        Some(c) => RsyncExit::Failed(c),
        None => RsyncExit::Signaled,
    }
}

/// The fixed patterns by which rsync's header and summary lines are known.
struct NoisePatterns {
    sending: Vec<char>,
    sent: Vec<char>,
    total: Vec<char>,
    receiving: Vec<char>,
    bytes_sec: Vec<char>,
    building: Vec<char>,
    dot_slash: Vec<char>,
    to_consider: Vec<char>,
    files_dots: Vec<char>,
    created: Vec<char>,
    dry_run: Vec<char>,
    starting: Vec<char>,
}

impl NoisePatterns {
    spec fn wf(&self) -> bool {
        &&& self.sending@ == "sending"@
        &&& self.sent@ == "sent "@
        &&& self.total@ == "total "@
        &&& self.receiving@ == "receiving"@
        &&& self.bytes_sec@ == "bytes/sec"@
        &&& self.building@ == "building file list"@
        &&& self.dot_slash@ == "./"@
        &&& self.to_consider@ == "files to consider"@
        &&& self.files_dots@ == "files..."@
        &&& self.created@ == "created directory"@
        &&& self.dry_run@ == "(DRY RUN)"@
        &&& self.starting@ == "Transfer starting"@
    }

    fn new() -> (p: Self)
        ensures
            p.wf(),
    {
        NoisePatterns {
            sending: chars_of("sending"),
            sent: chars_of("sent "),
            total: chars_of("total "),
            receiving: chars_of("receiving"),
            bytes_sec: chars_of("bytes/sec"),
            building: chars_of("building file list"),
            dot_slash: chars_of("./"),
            to_consider: chars_of("files to consider"),
            files_dots: chars_of("files..."),
            created: chars_of("created directory"),
            dry_run: chars_of("(DRY RUN)"),
            starting: chars_of("Transfer starting"),
        }
    }

    fn reports_transfer(&self, line: &Vec<char>) -> (b: bool)
        requires
            self.wf(),
        ensures
            b == reports_transfer(line@),
    {
        let t = trim_chars(line);
        t.len() > 0 && !starts_with(&t, &self.sending) && !starts_with(&t, &self.sent)
            && !starts_with(&t, &self.total) && !starts_with(&t, &self.receiving) && !contains(
            &t,
            &self.bytes_sec,
        ) && !starts_with(&t, &self.building) && !starts_with(&t, &self.dot_slash) && !contains(
            &t,
            &self.to_consider,
        ) && !contains(&t, &self.files_dots) && !starts_with(&t, &self.created) && !ends_with(
            &t,
            &self.dry_run,
        ) && !starts_with(&t, &self.starting)
    }
}

/// Whether rsync's verbose output shows that some file was transferred.
pub fn rsync_transferred(stdout: &str) -> (b: bool)
    ensures
        b == output_reports_transfer(stdout@),
{
    let pats = NoisePatterns::new();
    let text = chars_of(stdout);
    let ls = lines_of(&text);
    let ghost lv = ls@.map_values(|v: Vec<char>| v@);
    let mut i: usize = 0;
    while i < ls.len()
        invariant
            pats.wf(),
            i <= ls.len(),
            lv == ls@.map_values(|v: Vec<char>| v@),
            lv == lines(stdout@),
            forall|k: int| 0 <= k < i ==> !reports_transfer(#[trigger] lv[k]),
        decreases ls.len() - i,
    {
        if pats.reports_transfer(&ls[i]) {
            assert(reports_transfer(lv[i as int]));
            return true;
        }
        i += 1;
    }
    false
}

/// The command run over SSH to count the files under `path`.
pub fn count_files_command(path: &str) -> (r: String)
    ensures
        r@ == count_command_spec(path@),
{
    let mut r = concat_str("find '", path);
    r.append("' -type f 2>/dev/null | wc -l");
    r
}

/// The count printed by the remote count command; 0 where it is not a number.
pub fn file_count_from_output(out: &str) -> (n: u64)
    ensures
        n == file_count_spec(out@),
{
    let t = trim_chars(&chars_of(out));
    match parse_u64_chars(&t) {
        Some(n) => n,
        None => 0,
    }
}

// ---------------------------------------------------------------------------
// Walking a local directory tree
// ---------------------------------------------------------------------------

/// The kind of a directory entry, as its file type (not following links) says.
#[derive(Clone, Copy, Debug, PartialEq, Eq, Structural)]
pub enum EntryKind {
    Dir,
    File,
    Other,
}

/// A directory entry as the walk sees it: its path (of whatever type the
/// caller names paths with), its kind and, for a file, its modification
/// time in seconds since the epoch.
pub struct WalkEntry<P> {
    pub path: P,
    pub kind: EntryKind,
    pub mtime: u64,
}

/// The newest modification time among the files of `es`, 0 if none.
pub open spec fn newest_file_mtime<P>(es: Seq<WalkEntry<P>>) -> u64
    decreases es.len(),
{
    if es.len() == 0 {
        0
    } else {
        let m = newest_file_mtime(es.drop_last());
        let e = es.last();
        if e.kind == EntryKind::File && e.mtime > m {
            e.mtime
        } else {
            m
        }
    }
}

/// How many of `es` are files.
pub open spec fn file_count<P>(es: Seq<WalkEntry<P>>) -> nat
    decreases es.len(),
{
    if es.len() == 0 {
        0
    } else {
        file_count(es.drop_last()) + if es.last().kind == EntryKind::File {
            1nat
        } else {
            0nat
        }
    }
}

/// The paths of the directories among `es`, in order.
pub open spec fn dir_paths<P>(es: Seq<WalkEntry<P>>) -> Seq<P>
    decreases es.len(),
{
    if es.len() == 0 {
        seq![]
    } else {
        let d = dir_paths(es.drop_last());
        if es.last().kind == EntryKind::Dir {
            d.push(es.last().path)
        } else {
            d
        }
    }
}

/// A walk over a directory tree that keeps the newest file modification
/// time and the number of files seen. The caller lists each directory that
/// `next_dir` hands out and reports its entries to `visit`; a directory that
/// cannot be listed is reported as empty.
pub struct DirWalk<P> {
    /// Directories still to be listed.
    pub pending: Vec<P>,
    /// Newest modification time of the files seen.
    pub newest: u64,
    /// Number of files seen.
    pub files: u64,
    /// Every entry reported so far.
    pub seen: Ghost<Seq<WalkEntry<P>>>,
}

impl<P> DirWalk<P> {
    /// The counters agree with the entries reported so far.
    pub open spec fn wf(&self) -> bool {
        &&& self.newest == newest_file_mtime(self.seen@)
        &&& self.files == file_count(self.seen@)
    }

    /// A walk of the tree under `root`.
    pub fn new(root: P) -> (w: Self)
        ensures
            w.wf(),
            w.seen@ == Seq::<WalkEntry<P>>::empty(),
            w.pending@ == seq![root],
    {
        let mut pending: Vec<P> = Vec::new();
        pending.push(root);
        let w = DirWalk { pending, newest: 0, files: 0, seen: Ghost(Seq::empty()) };
        assert(w.pending@ =~= seq![root]);
        w
    }

    /// The next directory to list, if any is left.
    pub fn next_dir(&mut self) -> (d: Option<P>)
        ensures
            final(self).seen@ == old(self).seen@,
            final(self).newest == old(self).newest,
            final(self).files == old(self).files,
            old(self).pending.len() == 0 ==> d is None && final(self).pending@ == old(
                self,
            ).pending@,
            old(self).pending.len() > 0 ==> (d == Some(old(self).pending@.last())
                && final(self).pending@ == old(self).pending@.drop_last()),
    {
        self.pending.pop()
    }

    /// Takes in the entries of one listed directory: the files among them
    /// count and may raise the newest time; the directories among them are
    /// queued.
    pub fn visit(&mut self, entries: Vec<WalkEntry<P>>)
        requires
            old(self).wf(),
            old(self).files + file_count(entries@) <= u64::MAX,
        ensures
            final(self).wf(),
            final(self).seen@ == old(self).seen@ + entries@,
            final(self).pending@ == old(self).pending@ + dir_paths(entries@),
    {
        let ghost start = self.seen@;
        let ghost start_pending = self.pending@;
        let ghost es = entries@;
        let mut entries = entries;
        assert(es.len() == entries.len());
        let mut i: usize = 0;
        proof {
            lemma_file_count_prefix(es, es.len() as int);
        }
        assert(es.take(0) =~= Seq::<WalkEntry<P>>::empty());
        assert(start + es.take(0) =~= start);
        assert(es.skip(0) =~= es);
        while entries.len() > 0
            invariant
                i <= es.len(),
                i + entries@.len() == es.len(),
                es.len() <= usize::MAX,
                entries@ == es.skip(i as int),
                self.seen@ == start + es.take(i as int),
                self.wf(),
                self.pending@ == start_pending + dir_paths(es.take(i as int)),
                file_count(start) + file_count(es) <= u64::MAX,
                start == old(self).seen@,
                old(self).files == file_count(start),
            decreases entries.len(),
        {
            let e = entries.remove(0);
            assert(e == es[i as int]);
            assert(entries@ =~= es.skip(i + 1));
            proof {
                assert(es.take(i + 1).drop_last() =~= es.take(i as int));
                assert((start + es.take(i + 1)).drop_last() =~= start + es.take(i as int));
                lemma_file_count_concat(start, es.take(i + 1));
                lemma_file_count_prefix(es, i + 1);
                lemma_file_count_concat(start, es.take(i as int));
            }
            match e.kind {
                EntryKind::File => {
                    self.files = self.files + 1;
                    if e.mtime > self.newest {
                        self.newest = e.mtime;
                    }
                },
                EntryKind::Dir => {
                    let ghost pv = self.pending@;
                    self.pending.push(e.path);
                    assert(self.pending@ =~= pv.push(es[i as int].path));
                },
                EntryKind::Other => {},
            }
            self.seen = Ghost(start + es.take(i + 1));
            i += 1;
        }
        assert(es.take(es.len() as int) =~= es);
    }

    /// The newest modification time of the files seen, 0 if none.
    pub fn newest_mtime(&self) -> (m: u64)
        requires
            self.wf(),
        ensures
            m == newest_file_mtime(self.seen@),
    {
        self.newest
    }

    /// The number of files seen.
    pub fn file_total(&self) -> (n: u64)
        requires
            self.wf(),
        ensures
            n == file_count(self.seen@),
    {
        self.files
    }
}

pub proof fn lemma_file_count_concat<P>(a: Seq<WalkEntry<P>>, b: Seq<WalkEntry<P>>)
    ensures
        file_count(a + b) == file_count(a) + file_count(b),
    decreases b.len(),
{
    if b.len() == 0 {
        assert(a + b =~= a);
    } else {
        assert((a + b).drop_last() =~= a + b.drop_last());
        lemma_file_count_concat(a, b.drop_last());
    }
}

pub proof fn lemma_file_count_prefix<P>(a: Seq<WalkEntry<P>>, k: int)
    requires
        0 <= k <= a.len(),
    ensures
        file_count(a.take(k)) <= file_count(a),
    decreases a.len(),
{
    if k < a.len() {
        assert(a.drop_last().take(k) =~= a.take(k));
        lemma_file_count_prefix(a.drop_last(), k);
    } else {
        assert(a.take(k) =~= a);
    }
}

// ---------------------------------------------------------------------------
// Laws
// ---------------------------------------------------------------------------

/// A path given a trailing slash ends with one, keeps everything before it,
/// and does not get a second one.
pub proof fn law_trailing_slash(s: Seq<char>)
    ensures
        with_trailing_slash(s).last() == '/',
        s.is_prefix_of(with_trailing_slash(s)),
        with_trailing_slash(with_trailing_slash(s)) == with_trailing_slash(s),
{
}

/// A two-way sync by time runs the push before the pull, both with
/// `--update`, so that each side only receives files newer than its own.
pub proof fn law_auto_sync_pushes_then_pulls(
    local_path: Seq<char>,
    ssh_target: Seq<char>,
    remote_path: Seq<char>,
    excludes: Seq<Seq<char>>,
    dry_run: bool,
)
    ensures
        ({
            let c = bidirectional_calls(
                local_path,
                ssh_target,
                remote_path,
                excludes,
                Direction::Auto,
                dry_run,
            );
            let l = with_trailing_slash(local_path);
            let r = with_trailing_slash(remote_spec(ssh_target, remote_path));
            &&& c.len() == 2
            &&& c[0] == bidirectional_calls(
                local_path,
                ssh_target,
                remote_path,
                excludes,
                Direction::Push,
                dry_run,
            )[0]
            &&& c[1] == bidirectional_calls(
                local_path,
                ssh_target,
                remote_path,
                excludes,
                Direction::Pull,
                dry_run,
            )[0]
            &&& c[0][c[0].len() - 2] == l && c[0].last() == r
            &&& c[1][c[1].len() - 2] == r && c[1].last() == l
            &&& c[0].contains("--update"@) && c[1].contains("--update"@)
        }),
{
    let c = bidirectional_calls(local_path, ssh_target, remote_path, excludes, Direction::Auto, dry_run);
    let k0 = c[0].len() - 3;
    let k1 = c[1].len() - 3;
    assert(c[0][k0] == "--update"@);
    assert(c[1][k1] == "--update"@);
}

/// A two-way sync by time reports `none` exactly when neither run
/// transferred anything, and otherwise the side(s) that did.
pub proof fn law_auto_label(pushed: bool, pulled: bool)
    ensures
        (sync_label(Direction::Auto, seq![pushed, pulled]) == "none"@) <==> !any_transferred(
            seq![pushed, pulled],
        ),
        any_transferred(seq![pushed, pulled]) == (pushed || pulled),
{
    reveal_strlit("none");
    reveal_strlit("push");
    reveal_strlit("pull");
    reveal_strlit("both");
    let t = seq![pushed, pulled];
    if pushed {
        assert(t[0]);
    }
    if pulled {
        assert(t[1]);
    }
    if sync_label(Direction::Auto, t) == "none"@ {
        if pushed && pulled {
            assert("both"@[0] != "none"@[0]);
        } else if pushed {
            assert("push"@[1] != "none"@[1]);
        } else if pulled {
            assert("pull"@[1] != "none"@[1]);
        }
    }
}

/// The newest time of a walk is the time of its newest file: no file seen
/// is newer, and it is the time of some file unless it is 0.
pub proof fn law_newest_is_greatest<P>(es: Seq<WalkEntry<P>>)
    ensures
        forall|i: int|
            0 <= i < es.len() && (#[trigger] es[i]).kind == EntryKind::File ==> es[i].mtime
                <= newest_file_mtime(es),
        newest_file_mtime(es) == 0 || exists|i: int|
            0 <= i < es.len() && (#[trigger] es[i]).kind == EntryKind::File && es[i].mtime
                == newest_file_mtime(es),
    decreases es.len(),
{
    if es.len() > 0 {
        let p = es.drop_last();
        law_newest_is_greatest(p);
        assert forall|i: int| 0 <= i < p.len() implies es[i] == #[trigger] p[i] by {}
        assert(newest_file_mtime(es) >= newest_file_mtime(p));
        assert forall|i: int|
            0 <= i < es.len() && (#[trigger] es[i]).kind == EntryKind::File implies es[i].mtime
                <= newest_file_mtime(es) by {
            if i < p.len() {
                assert(es[i] == p[i]);
            }
        }
        if newest_file_mtime(es) != newest_file_mtime(p) {
            assert(es[es.len() - 1].kind == EntryKind::File);
        } else if newest_file_mtime(p) != 0 {
            let w = choose|w: int|
                0 <= w < p.len() && (#[trigger] p[w]).kind == EntryKind::File && p[w].mtime
                    == newest_file_mtime(p);
            assert(es[w] == p[w]);
        }
    }
}

/// The walk's counts do not depend on how the entries were split into
/// directories: reporting `a` then `b` gives the counts of `a + b`.
pub proof fn law_walk_counts_compose<P>(a: Seq<WalkEntry<P>>, b: Seq<WalkEntry<P>>)
    ensures
        file_count(a + b) == file_count(a) + file_count(b),
        newest_file_mtime(a + b) == if newest_file_mtime(b) > newest_file_mtime(a) {
            newest_file_mtime(b)
        } else {
            newest_file_mtime(a)
        },
    decreases b.len(),
{
    lemma_file_count_concat(a, b);
    if b.len() == 0 {
        assert(a + b =~= a);
    } else {
        assert((a + b).drop_last() =~= a + b.drop_last());
        law_walk_counts_compose(a, b.drop_last());
    }
}

/// rsync's exit status decides: 0 is a complete run, 23 and 24 (some
/// files not transferred) a partial one that is only warned about, a missing
/// status a kill by signal, and every other status a failure that keeps the
/// status.
pub proof fn law_rsync_exit(c: i32)
    ensures
        rsync_exit_spec(None) == RsyncExit::Signaled,
        rsync_exit_spec(Some(0)) == RsyncExit::Complete,
        rsync_exit_spec(Some(c)) == RsyncExit::Partial <==> (c == 23 || c == 24),
        c != 0 && c != 23 && c != 24 ==> rsync_exit_spec(Some(c)) == RsyncExit::Failed(c),
{
}

/// Of an rsync run whose source and destination end in `/` and whose extra
/// arguments hold no `-n`, the arguments hold `-n` exactly for a dry run.
pub proof fn lemma_dry_run_flag(
    src: Seq<char>,
    dst: Seq<char>,
    extra: Seq<Seq<char>>,
    excludes: Seq<Seq<char>>,
    dry_run: bool,
)
    requires
        src.len() > 0 && src.last() == '/',
        dst.len() > 0 && dst.last() == '/',
        !extra.contains("-n"@),
    ensures
        rsync_args(src, dst, extra, excludes, dry_run).contains("-n"@) <==> dry_run,
{
    let a = rsync_args(src, dst, extra, excludes, dry_run);
    reveal_strlit("-rvltDP");
    reveal_strlit("--no-perms");
    reveal_strlit("--no-owner");
    reveal_strlit("--no-group");
    reveal_strlit("--exclude=");
    reveal_strlit("-n");
    let h: int = if dry_run {
        5
    } else {
        4
    };
    let ex = excludes.map_values(|e: Seq<char>| "--exclude="@ + e);
    if dry_run {
        assert(a[4] == "-n"@);
    } else {
        assert forall|k: int| 0 <= k < a.len() implies a[k] != "-n"@ by {
            if k < 4 {
                assert(a[k].len() != 2);
            } else if k < 4 + ex.len() {
                assert(a[k] == "--exclude="@ + excludes[k - 4]);
            } else if k < 4 + ex.len() + extra.len() {
                assert(a[k] == extra[k - 4 - ex.len()]);
            } else {
                assert(a[k].last() == '/');
            }
        }
    }
}

/// A dry run never transfers: every rsync run of a two-way sync passes `-n`
/// exactly when the sync is a dry run.
pub proof fn law_bidirectional_dry_run(
    local_path: Seq<char>,
    ssh_target: Seq<char>,
    remote_path: Seq<char>,
    excludes: Seq<Seq<char>>,
    direction: Direction,
    dry_run: bool,
)
    ensures
        forall|i: int|
            0 <= i < bidirectional_calls(
                local_path,
                ssh_target,
                remote_path,
                excludes,
                direction,
                dry_run,
            ).len() ==> (#[trigger] bidirectional_calls(
                local_path,
                ssh_target,
                remote_path,
                excludes,
                direction,
                dry_run,
            )[i]).contains("-n"@) == dry_run,
{
    let l = with_trailing_slash(local_path);
    let r = with_trailing_slash(remote_spec(ssh_target, remote_path));
    reveal_strlit("--update");
    reveal_strlit("-n");
    let u = seq!["--update"@];
    assert(!u.contains("-n"@)) by {
        if u.contains("-n"@) {
            assert(u[0].len() != 2);
        }
    }
    lemma_dry_run_flag(l, r, u, excludes, dry_run);
    lemma_dry_run_flag(r, l, u, excludes, dry_run);
}

} // verus!
