use emusync::sync::{
    count_files_command, ensure_trailing_slash, file_count_from_output, next_run,
    rsync_bidirectional, rsync_command, rsync_exit, rsync_one_way, rsync_transferred,
    settle_runs, DirWalk, Direction, EntryKind, RsyncExit, WalkEntry,
};

fn s(v: &[&str]) -> Vec<String> {
    v.iter().map(|x| x.to_string()).collect()
}

#[test]
fn rsync_command_lists_all_arguments() {
    let ex = s(&[".DS_Store", ".lock"]);
    let c = rsync_command("/src/", "h:/dst/", &["--update"], &ex, true);
    assert_eq!(
        c.args,
        s(&[
            "-rvltDP",
            "--no-perms",
            "--no-owner",
            "--no-group",
            "-n",
            "--exclude=.DS_Store",
            "--exclude=.lock",
            "--update",
            "/src/",
            "h:/dst/"
        ])
    );
    let c = rsync_command("a", "b", &[], &[], false);
    assert_eq!(c.args, s(&["-rvltDP", "--no-perms", "--no-owner", "--no-group", "a", "b"]));
}

#[test]
fn trailing_slash_is_added_once() {
    assert_eq!(ensure_trailing_slash("/a"), "/a/");
    assert_eq!(ensure_trailing_slash("/a/"), "/a/");
    assert_eq!(ensure_trailing_slash(""), "/");
    assert_eq!(ensure_trailing_slash(&ensure_trailing_slash("x")), "x/");
}

#[test]
fn one_way_adds_slashes() {
    let c = rsync_one_way("/l/save", "h:/r/save", &s(&[".lock"]), &[], false);
    assert_eq!(
        c.args,
        s(&["-rvltDP", "--no-perms", "--no-owner", "--no-group", "--exclude=.lock", "/l/save/", "h:/r/save/"])
    );
}

#[test]
fn bidirectional_push_pull_and_auto() {
    let ex = s(&["x"]);
    let p = rsync_bidirectional("/l", "me@h", "/r", &ex, Direction::Push, false);
    assert_eq!(p.calls.len(), 1);
    assert_eq!(
        p.calls[0].args,
        s(&["-rvltDP", "--no-perms", "--no-owner", "--no-group", "--exclude=x", "--update", "/l/", "me@h:/r/"])
    );
    let p = rsync_bidirectional("/l", "me@h", "/r/", &ex, Direction::Pull, false);
    assert_eq!(
        p.calls[0].args,
        s(&["-rvltDP", "--no-perms", "--no-owner", "--no-group", "--exclude=x", "--update", "me@h:/r/", "/l/"])
    );
    let p = rsync_bidirectional("/l", "me@h", "/r", &ex, Direction::Auto, true);
    assert_eq!(p.calls.len(), 2);
    assert_eq!(p.calls[0].args[7], "/l/");
    assert_eq!(p.calls[1].args[7], "me@h:/r/");
}

#[test]
fn bidirectional_results() {
    let ex: Vec<String> = vec![];
    let auto = rsync_bidirectional("/l", "h", "/r", &ex, Direction::Auto, false);
    let r = auto.result(&[true, true]);
    assert!(r.transferred);
    assert_eq!(r.direction, "both");
    assert_eq!(auto.result(&[true, false]).direction, "push");
    assert_eq!(auto.result(&[false, true]).direction, "pull");
    let r = auto.result(&[false, false]);
    assert!(!r.transferred);
    assert_eq!(r.direction, "none");
    let push = rsync_bidirectional("/l", "h", "/r", &ex, Direction::Push, false);
    let r = push.result(&[false]);
    assert!(!r.transferred);
    assert_eq!(r.direction, "push");
    let pull = rsync_bidirectional("/l", "h", "/r", &ex, Direction::Pull, false);
    let r = pull.result(&[true]);
    assert!(r.transferred);
    assert_eq!(r.direction, "pull");
}

#[test]
fn exit_codes() {
    assert_eq!(rsync_exit(Some(0)), RsyncExit::Complete);
    assert_eq!(rsync_exit(Some(23)), RsyncExit::Partial);
    assert_eq!(rsync_exit(Some(24)), RsyncExit::Partial);
    assert_eq!(rsync_exit(Some(12)), RsyncExit::Failed(12));
    assert_eq!(rsync_exit(None), RsyncExit::Signaled);
}

#[test]
fn transfer_detection_ignores_headers_and_summaries() {
    let quiet = "sending incremental file list\n./\ncreated directory /x\n\nsent 100 bytes  received 20 bytes  240.00 bytes/sec\ntotal size is 0  speedup is 0.00\n";
    assert!(!rsync_transferred(quiet));
    let busy = "sending incremental file list\nsave/file.sav\n    1,024 100%    0.00kB/s    0:00:00 (xfr#1, to-chk=0/2)\nsent 1,200 bytes\n";
    assert!(rsync_transferred(busy));
    assert!(!rsync_transferred("total size is 5  speedup is 1.00 (DRY RUN)\n"));
    assert!(!rsync_transferred("receiving file list ... done\n  3 files to consider\nTransfer starting: 3 files\nbuilding file list ... done\n"));
    assert!(!rsync_transferred(""));
    assert!(rsync_transferred("a.txt"));
}

#[test]
fn remote_file_count() {
    assert_eq!(count_files_command("/r/x"), "find '/r/x' -type f 2>/dev/null | wc -l");
    assert_eq!(file_count_from_output("  42\n"), 42);
    assert_eq!(file_count_from_output("oops"), 0);
    assert_eq!(file_count_from_output(""), 0);
}

fn entry(path: &str, kind: EntryKind, mtime: u64) -> WalkEntry<String> {
    WalkEntry { path: path.to_string(), kind, mtime }
}

#[test]
fn walk_tracks_newest_file_and_count() {
    let mut w = DirWalk::new("/root".to_string());
    assert_eq!(w.next_dir(), Some("/root".to_string()));
    assert_eq!(w.next_dir(), None);
    w.visit(vec![
        entry("/root/a", EntryKind::File, 10),
        entry("/root/sub", EntryKind::Dir, 0),
        entry("/root/link", EntryKind::Other, 99),
        entry("/root/b", EntryKind::File, 30),
    ]);
    assert_eq!(w.newest_mtime(), 30);
    assert_eq!(w.file_total(), 2);
    assert_eq!(w.next_dir(), Some("/root/sub".to_string()));
    w.visit(vec![entry("/root/sub/c", EntryKind::File, 20)]);
    assert_eq!(w.newest_mtime(), 30);
    assert_eq!(w.file_total(), 3);
    assert_eq!(w.next_dir(), None);
    let empty = DirWalk::new("/e".to_string());
    assert_eq!(empty.newest_mtime(), 0);
    assert_eq!(empty.file_total(), 0);
}

#[test]
fn runs_stop_at_the_first_failure() {
    let ex: Vec<String> = vec![];
    let auto = rsync_bidirectional("/l", "h", "/r", &ex, Direction::Auto, false);
    let none: Vec<Result<bool, String>> = vec![];
    assert_eq!(next_run(&auto.calls, &none), Some(0));
    assert_eq!(next_run(&auto.calls, &[Ok::<bool, String>(true)]), Some(1));
    assert_eq!(next_run(&auto.calls, &[Err::<bool, String>("boom".to_string())]), None);
    assert_eq!(next_run(&auto.calls, &[Ok::<bool, String>(false), Ok(true)]), None);

    let failed = auto.settle(vec![Err::<bool, String>("push failed".to_string())]);
    assert_eq!(failed.err(), Some("push failed".to_string()));
    let failed = auto.settle(vec![Ok(true), Err::<bool, String>("pull failed".to_string())]);
    assert_eq!(failed.err(), Some("pull failed".to_string()));
    let done = auto.settle(vec![Ok::<bool, String>(false), Ok(true)]).ok().unwrap();
    assert!(done.transferred);
    assert_eq!(done.direction, "pull");

    assert_eq!(settle_runs(vec![Ok::<bool, String>(true), Ok(false)]), Ok(vec![true, false]));
    assert_eq!(settle_runs(vec![Ok(true), Err::<bool, i32>(3)]), Err(3));
}
