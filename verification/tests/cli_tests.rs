use emusync::cli::{
    banner, bold, direction_from_flags, directory_status, green, reset, save_status_line,
    select_targets, sync_step, sync_summary, target_header, target_kind, yellow, SyncStep,
    TargetKind,
};
use emusync::config::{Config, DetectedConfig, Machine, Target};
use emusync::ryujinx::{SaveState, SaveStatus};
use emusync::sync::Direction;

fn config() -> Config {
    let t = |n: &str, k: &str| Target { name: n.to_string(), target_type: k.to_string(), paths: vec![] };
    Config {
        machines: vec![
            Machine { name: "desk".to_string(), ssh_target: "me@desk".to_string() },
            Machine { name: "lap".to_string(), ssh_target: "me@lap".to_string() },
        ],
        targets: vec![t("duck", "directory"), t("ryujinx", "ryujinx"), t("duck", "other")],
        exclude: vec![],
    }
}

#[test]
fn flags_give_direction() {
    assert_eq!(direction_from_flags(true, false), Direction::Push);
    assert_eq!(direction_from_flags(false, true), Direction::Pull);
    assert_eq!(direction_from_flags(false, false), Direction::Auto);
    assert_eq!(direction_from_flags(true, true), Direction::Push);
}

#[test]
fn colors_only_when_enabled() {
    assert_eq!(green(true), "\x1b[32m");
    assert_eq!(yellow(true), "\x1b[33m");
    assert_eq!(bold(true), "\x1b[1m");
    assert_eq!(reset(true), "\x1b[0m");
    assert_eq!(green(false), "");
    assert_eq!(reset(false), "");
}

#[test]
fn target_selection() {
    let c = config();
    let all = select_targets(&c, None).ok().unwrap();
    assert_eq!(all.len(), 3);
    let one = select_targets(&c, Some("duck")).ok().unwrap();
    assert_eq!(one.len(), 1);
    assert_eq!(one[0].target_type, "directory");
    let e = select_targets(&c, Some("nope")).err().unwrap();
    assert_eq!(e.message(), "unknown target: nope");
}

#[test]
fn target_kinds_and_steps() {
    assert_eq!(target_kind("directory"), TargetKind::Directory);
    assert_eq!(target_kind("ryujinx"), TargetKind::Ryujinx);
    assert_eq!(target_kind("Directory"), TargetKind::Unknown);
    assert_eq!(sync_step("directory", false), SyncStep::Directory);
    assert_eq!(sync_step("directory", true), SyncStep::OnlyUnsupported);
    assert_eq!(sync_step("ryujinx", true), SyncStep::Ryujinx);
    assert_eq!(sync_step("x", false), SyncStep::UnknownType);
}

#[test]
fn directory_status_lines() {
    let s = directory_status(true, 12, 12);
    assert!(s.in_sync);
    assert_eq!(s.text(false), "synced (12 files)");
    assert_eq!(s.text(true), "\x1b[32msynced\x1b[0m (12 files)");
    let s = directory_status(true, 3, 4);
    assert!(!s.in_sync);
    assert_eq!(s.text(false), "out of sync (local: 3, remote: 4)");
    let s = directory_status(false, 0, 0);
    assert!(!s.in_sync);
    assert_eq!(s.text(true), "missing");
}

#[test]
fn save_status_lines() {
    let st = SaveStatus {
        title_id: "0100152000022000".to_string(),
        name: "Mario Kart 8 Deluxe".to_string(),
        local: None,
        remote: None,
        state: SaveState::Push,
    };
    assert_eq!(save_status_line(&st, false), "  Mario Kart 8 Deluxe: push");
    assert_eq!(save_status_line(&st, true), "  Mario Kart 8 Deluxe: \x1b[33mpush\x1b[0m");
    let st = SaveStatus { state: SaveState::LocalOnly, ..st };
    assert_eq!(save_status_line(&st, true), "  Mario Kart 8 Deluxe: local_only\x1b[0m");
    let st = SaveStatus { state: SaveState::Synced, ..st };
    assert_eq!(save_status_line(&st, true), "  Mario Kart 8 Deluxe: \x1b[32msynced\x1b[0m");
}

#[test]
fn headers_and_summaries() {
    let c = config();
    assert_eq!(target_header(&c.targets[1], false), "[ryujinx] (ryujinx)");
    assert_eq!(target_header(&c.targets[1], true), "\x1b[1m[ryujinx]\x1b[0m (ryujinx)");
    let d = DetectedConfig { local: &c.machines[0], remote: &c.machines[1], config: &c };
    assert_eq!(banner(&d, false, " (dry run)"), "emusync — local: desk, remote: lap (dry run)");
    assert_eq!(sync_summary(0, false), "everything up to date");
    assert_eq!(sync_summary(3, false), "synced 3 item(s)");
    assert_eq!(sync_summary(1, true), "\x1b[32msynced 1 item(s)\x1b[0m");
}
