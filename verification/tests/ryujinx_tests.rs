use emusync::config::{Config, DetectedConfig, Machine, Target};
use emusync::ryujinx::{
    account_save_title, hex_to_title_id, parse_extra_data, parse_remote_save_map,
    plan_mods_sync, plan_save_sync, plan_shader_sync, remote_listing_parsable,
    remote_save_script, save_dir, save_status, subtargets, title_hex_sliceable, title_name,
    SaveAction, SaveEntry, SaveMap, SaveState,
};
use emusync::sync::Direction;

fn extra_data(title: u64, save_type: u32) -> Vec<u8> {
    let mut b = vec![0u8; 0x40];
    b[0..8].copy_from_slice(&title.to_le_bytes());
    b[0x20..0x24].copy_from_slice(&save_type.to_le_bytes());
    b
}

fn xxd(bytes: &[u8]) -> String {
    bytes.iter().map(|b| format!("{:02x}", b)).collect()
}

fn config() -> Config {
    Config {
        machines: vec![
            Machine { name: "desk".to_string(), ssh_target: "me@desk".to_string() },
            Machine { name: "lap".to_string(), ssh_target: "me@lap".to_string() },
        ],
        targets: vec![Target {
            name: "ryujinx".to_string(),
            target_type: "ryujinx".to_string(),
            paths: vec![("desk".to_string(), "/d/Ryujinx".to_string())],
        }],
        exclude: vec![".DS_Store".to_string()],
    }
}

fn save_map(entries: &[(&str, &str, u64)]) -> SaveMap {
    let mut m = SaveMap::new();
    for (t, f, mt) in entries {
        m.insert(t.to_string(), SaveEntry { folder: f.to_string(), mtime: *mt });
    }
    m
}

#[test]
fn extra_data_gives_title_and_type() {
    let b = extra_data(0x0100152000022000, 1);
    assert_eq!(parse_extra_data(&b), Some(("0100152000022000".to_string(), 1)));
    assert_eq!(account_save_title(&b), Some("0100152000022000".to_string()));
    let b = extra_data(0x0100F2C0115B6000, 2);
    assert_eq!(parse_extra_data(&b), Some(("0100F2C0115B6000".to_string(), 2)));
    assert_eq!(account_save_title(&b), None);
}

#[test]
fn extra_data_rejects_short_and_zero_title() {
    assert_eq!(parse_extra_data(&[0u8; 0x23]), None);
    assert_eq!(parse_extra_data(&extra_data(0, 1)), None);
    let mut b = extra_data(5, 1);
    b.truncate(0x24);
    assert_eq!(parse_extra_data(&b), Some(("0000000000000005".to_string(), 1)));
}

#[test]
fn hex_dump_reads_back_little_endian() {
    assert_eq!(hex_to_title_id("0020020020150001"), "0100152000022000");
    assert_eq!(hex_to_title_id("00200200201500010a0b"), "0100152000022000");
    assert_eq!(hex_to_title_id("+1+1+1+1+1+1+1+1"), "0101010101010101");
    assert_eq!(hex_to_title_id("abc"), "ABC");
    assert_eq!(hex_to_title_id("abc1ß"), "ABC1SS");
    assert_eq!(hex_to_title_id("zz20020020150001"), "ZZ20020020150001");
}

#[test]
fn hex_dump_slicing_condition() {
    assert!(title_hex_sliceable("abc"));
    assert!(title_hex_sliceable("0020020020150001"));
    assert!(!title_hex_sliceable("00200200201500011"));
    assert!(!title_hex_sliceable("a€bcdefghijklmnopq"));
    assert!(title_hex_sliceable("ééééééééé"));
}

#[test]
fn remote_and_local_title_ids_agree() {
    for title in [0x0100152000022000u64, 0x01007EF00011E000, 1, u64::MAX] {
        let b = extra_data(title, 1);
        let (local, _) = parse_extra_data(&b).unwrap();
        assert_eq!(hex_to_title_id(&xxd(&b[0..8])), local);
        assert_eq!(xxd(&b[0x20..0x24]), "01000000");
    }
    assert_ne!(xxd(&extra_data(1, 2)[0x20..0x24]), "01000000");
}

#[test]
fn title_names() {
    assert_eq!(title_name("0100152000022000"), "Mario Kart 8 Deluxe");
    assert_eq!(title_name("0100F2C0115B6000"), "Zelda: Tears of the Kingdom");
    assert_eq!(title_name("010028600EBDA000"), "SM3D World + Bowser's Fury");
    assert_eq!(title_name("0123456789ABCDEF"), "0123456789ABCDEF");
}

#[test]
fn remote_script_embeds_path() {
    let s = remote_save_script("/r/Ryujinx");
    assert!(s.starts_with("for d in '/r/Ryujinx/bis/user/save'/*/; do\n"));
    assert!(s.contains("tid=$(xxd -p -l 8 \"$f\")"));
    assert!(s.contains(
        "newest=$( (find \"$d\" -type f -exec stat -c %Y {} + 2>/dev/null || find \"$d\" -type f -exec stat -f %m {} + 2>/dev/null) | sort -rn | head -1)"
    ));
    assert!(s.contains("echo \"$(basename \"$d\")|$tid|$stype|${newest:-0}\""));
    assert!(s.ends_with("done"));
}

#[test]
fn remote_listing_is_parsed_by_title() {
    let out = "0000000000000001|0020020020150001|01000000|1700000000\n\
               0000000000000002|00e01100f07e0001|02000000|5\n\
               short|line\n\
               0000000000000003|00e01100f07e0001| 01000000 |junk\n\
               0000000000000004|0020020020150001|01000000|1700000001\n";
    assert!(remote_listing_parsable(out));
    let m = parse_remote_save_map(out);
    assert_eq!(m.len(), 2);
    let mk = m.get("0100152000022000").unwrap();
    assert_eq!(mk.folder, "0000000000000004");
    assert_eq!(mk.mtime, 1700000001);
    let z = m.get("01007EF00011E000").unwrap();
    assert_eq!(z.folder, "0000000000000003");
    assert_eq!(z.mtime, 0);
    assert!(!m.contains_key("0000000000000000"));
}

#[test]
fn unparsable_listing_is_detected() {
    assert!(!remote_listing_parsable("f|00200200201500011|01000000|1\n"));
    assert!(remote_listing_parsable("f|00200200201500011|02000000|1\n"));
}

#[test]
fn save_map_insert_replaces() {
    let mut m = save_map(&[("A", "1", 1), ("B", "2", 2)]);
    m.insert("A".to_string(), SaveEntry { folder: "9".to_string(), mtime: 9 });
    assert_eq!(m.len(), 2);
    assert_eq!(m.get("A").unwrap().folder, "9");
    assert_eq!(m.get("B").unwrap().mtime, 2);
    assert!(m.get("C").is_none());
    assert_eq!(m.find("B"), Some(1));
}

#[test]
fn save_plan_pairs_by_title_and_newest_wins() {
    let cfg = config();
    let d = DetectedConfig { local: &cfg.machines[0], remote: &cfg.machines[1], config: &cfg };
    let local = save_map(&[
        ("0100152000022000", "0000000000000001", 200),
        ("01007EF00011E000", "0000000000000002", 100),
        ("0100000000010000", "0000000000000003", 50),
        ("0100F2C0115B6000", "0000000000000004", 10),
    ]);
    let remote = save_map(&[
        ("0100F2C0115B6000", "0000000000000009", 20),
        ("01007EF00011E000", "0000000000000005", 100),
        ("0100152000022000", "0000000000000007", 100),
        ("01006A800016E000", "0000000000000008", 1),
    ]);
    let p = plan_save_sync(&d, &local, &remote, "/d/Ryujinx", "/l/Ryujinx", Direction::Auto, false);
    assert_eq!(p.items.len(), 4);
    let mk = &p.items[0];
    assert_eq!(mk.name, "Mario Kart 8 Deluxe");
    assert_eq!(mk.remote_folder.as_deref(), Some("0000000000000007"));
    match &mk.action {
        SaveAction::Transfer(dir, call) => {
            assert_eq!(*dir, Direction::Push);
            assert_eq!(
                call.args,
                vec![
                    "-rvltDP",
                    "--no-perms",
                    "--no-owner",
                    "--no-group",
                    "--exclude=.lock",
                    "/d/Ryujinx/bis/user/save/0000000000000001/",
                    "me@lap:/l/Ryujinx/bis/user/save/0000000000000007/"
                ]
            );
        }
        _ => panic!("expected a transfer"),
    }
    assert!(matches!(p.items[1].action, SaveAction::UpToDate));
    assert!(matches!(p.items[2].action, SaveAction::LocalOnly));
    assert!(p.items[2].remote_folder.is_none());
    match &p.items[3].action {
        SaveAction::Transfer(dir, call) => {
            assert_eq!(*dir, Direction::Pull);
            assert_eq!(call.args[4], "--exclude=.lock");
            assert_eq!(call.args[5], "me@lap:/l/Ryujinx/bis/user/save/0000000000000009/");
            assert_eq!(call.args[6], "/d/Ryujinx/bis/user/save/0000000000000004/");
        }
        _ => panic!("expected a transfer"),
    }
    assert_eq!(
        p.remote_only,
        vec![("01006A800016E000".to_string(), "Super Smash Bros Ultimate".to_string())]
    );
}

#[test]
fn forced_direction_copies_even_equal_saves() {
    let cfg = config();
    let d = DetectedConfig { local: &cfg.machines[0], remote: &cfg.machines[1], config: &cfg };
    let local = save_map(&[("T", "1", 5)]);
    let remote = save_map(&[("T", "2", 5)]);
    let p = plan_save_sync(&d, &local, &remote, "/d", "/l", Direction::Pull, true);
    match &p.items[0].action {
        SaveAction::Transfer(dir, call) => {
            assert_eq!(*dir, Direction::Pull);
            assert_eq!(call.args[4], "-n");
        }
        _ => panic!("expected a transfer"),
    }
}

#[test]
fn save_dir_joins() {
    assert_eq!(save_dir("/d/R", "0000000000000001"), "/d/R/bis/user/save/0000000000000001");
    assert_eq!(save_dir("/d/R/", "x"), "/d/R/bis/user/save/x");
}

#[test]
fn status_lists_local_then_remote_only() {
    let local = save_map(&[("A", "1", 5), ("B", "2", 5), ("C", "3", 1), ("D", "4", 9)]);
    let remote = save_map(&[("E", "8", 1), ("A", "5", 4), ("B", "6", 5), ("C", "7", 2)]);
    let st = save_status(&local, &remote);
    assert_eq!(st.len(), 5);
    assert_eq!(st[0].state, SaveState::Push);
    assert_eq!(st[1].state, SaveState::Synced);
    assert_eq!(st[2].state, SaveState::Pull);
    assert_eq!(st[3].state, SaveState::LocalOnly);
    assert!(st[3].remote.is_none());
    assert_eq!(st[4].state, SaveState::RemoteOnly);
    assert_eq!(st[4].title_id, "E");
    assert_eq!(st[4].remote.as_ref().unwrap().folder, "8");
    assert_eq!(st[0].remote.as_ref().unwrap().mtime, 4);
    assert_eq!(SaveState::Synced.label(), "synced");
    assert_eq!(SaveState::RemoteOnly.label(), "remote_only");
}

#[test]
fn only_selects_subtargets() {
    let a = subtargets(None);
    assert!(a.saves && a.mods && a.shaders);
    let m = subtargets(Some("mods"));
    assert!(!m.saves && m.mods && !m.shaders);
    let x = subtargets(Some("nothing"));
    assert!(!x.saves && !x.mods && !x.shaders);
}

#[test]
fn mods_and_shader_plans() {
    let cfg = config();
    let d = DetectedConfig { local: &cfg.machines[0], remote: &cfg.machines[1], config: &cfg };
    let m = plan_mods_sync(&d, "/d/R", "/l/R", Direction::Push, false);
    assert_eq!(m.local_mods, "/d/R/mods/contents");
    assert_eq!(m.sync.calls.len(), 1);
    assert_eq!(m.sync.calls[0].args[4], "--exclude=.DS_Store");
    assert_eq!(m.sync.calls[0].args[6], "/d/R/mods/contents/");
    assert_eq!(m.sync.calls[0].args[7], "me@lap:/l/R/mods/contents/");

    let s = plan_shader_sync(&d, "/d/R", "/l/R", Direction::Auto, false);
    assert_eq!(s.local_games, "/d/R/games");
    assert_eq!(s.direction, "auto");
    assert_eq!(s.calls.len(), 2);
    assert_eq!(
        s.calls[0].args,
        vec![
            "-rvltDP",
            "--no-perms",
            "--no-owner",
            "--no-group",
            "--exclude=.DS_Store",
            "--exclude=vulkan_nvidia.*",
            "--exclude=vulkan_apple.*",
            "--include=*/",
            "--include=guest.*",
            "--include=shared.*",
            "--exclude=*",
            "--update",
            "/d/R/games/",
            "me@lap:/l/R/games/"
        ]
    );
    assert_eq!(s.calls[1].args[12], "me@lap:/l/R/games/");
    let p = plan_shader_sync(&d, "/d/R", "/l/R", Direction::Pull, true);
    assert_eq!(p.direction, "pull");
    assert_eq!(p.calls.len(), 1);
    assert_eq!(p.calls[0].args[4], "-n");
    assert_eq!(p.calls[0].args.last().unwrap(), "/d/R/games/");
}

#[test]
fn status_announces_what_sync_does() {
    let cfg = config();
    let d = DetectedConfig { local: &cfg.machines[0], remote: &cfg.machines[1], config: &cfg };
    let local = save_map(&[("A", "1", 5), ("B", "2", 5), ("C", "3", 1)]);
    let remote = save_map(&[("A", "5", 4), ("B", "6", 5), ("C", "7", 2)]);
    let st = save_status(&local, &remote);
    let p = plan_save_sync(&d, &local, &remote, "/d", "/l", Direction::Auto, false);
    for (s, item) in st.iter().zip(p.items.iter()) {
        match (&s.state, &item.action) {
            (SaveState::Synced, SaveAction::UpToDate) => {}
            (SaveState::Push, SaveAction::Transfer(Direction::Push, _)) => {}
            (SaveState::Pull, SaveAction::Transfer(Direction::Pull, _)) => {}
            _ => panic!("status and sync disagree for {}", s.title_id),
        }
    }
}
