use emusync::config::{
    config_path_for, default_config, Config, DetectError, DetectedConfig, Machine,
    MissingPath, Target,
};

fn machine(name: &str, ssh: &str) -> Machine {
    Machine { name: name.to_string(), ssh_target: ssh.to_string() }
}

fn target(name: &str, kind: &str, paths: &[(&str, &str)]) -> Target {
    Target {
        name: name.to_string(),
        target_type: kind.to_string(),
        paths: paths.iter().map(|(m, p)| (m.to_string(), p.to_string())).collect(),
    }
}

fn two_machine_config(paths: &[(&str, &str)]) -> Config {
    Config {
        machines: vec![machine("desktop", "me@10.0.0.1"), machine("laptop", "me@10.0.0.2")],
        targets: vec![target("saves", "directory", paths)],
        exclude: vec![".DS_Store".to_string()],
    }
}

#[test]
fn local_and_remote_paths_are_looked_up_by_machine_name() {
    let cfg = two_machine_config(&[("laptop", "/l/saves"), ("desktop", "/d/saves")]);
    let d = DetectedConfig { local: &cfg.machines[0], remote: &cfg.machines[1], config: &cfg };
    assert_eq!(d.local_path(&cfg.targets[0]).map(|s| s.as_str()), Some("/d/saves"));
    assert_eq!(d.remote_path(&cfg.targets[0]).map(|s| s.as_str()), Some("/l/saves"));
}

#[test]
fn missing_machine_path_is_none() {
    let cfg = two_machine_config(&[("desktop", "/d/saves")]);
    let d = DetectedConfig { local: &cfg.machines[0], remote: &cfg.machines[1], config: &cfg };
    assert!(d.remote_path(&cfg.targets[0]).is_none());
    assert_eq!(d.configured_paths(&cfg.targets[0]).err(), Some(MissingPath::Remote));
    let d2 = DetectedConfig { local: &cfg.machines[1], remote: &cfg.machines[0], config: &cfg };
    assert_eq!(d2.configured_paths(&cfg.targets[0]).err(), Some(MissingPath::Local));
    assert_eq!(MissingPath::Local.skip_message(), "skipped (no local path configured)");
    assert_eq!(MissingPath::Remote.skip_message(), "skipped (no remote path configured)");
    assert_eq!(MissingPath::Local.status_error(), "no local path");
    assert_eq!(MissingPath::Remote.status_error(), "no remote path");
}

#[test]
fn configured_paths_gives_both() {
    let cfg = two_machine_config(&[("desktop", "/d"), ("laptop", "/l")]);
    let d = DetectedConfig { local: &cfg.machines[1], remote: &cfg.machines[0], config: &cfg };
    let (l, r) = d.configured_paths(&cfg.targets[0]).ok().unwrap();
    assert_eq!(l, "/l");
    assert_eq!(r, "/d");
}

#[test]
fn remote_rsync_path_prefixes_ssh_target() {
    let cfg = two_machine_config(&[]);
    let d = DetectedConfig { local: &cfg.machines[0], remote: &cfg.machines[1], config: &cfg };
    assert_eq!(d.remote_rsync_path("/home/me/x"), "me@10.0.0.2:/home/me/x");
}

#[test]
fn detect_picks_the_machine_whose_path_exists() {
    let cfg = two_machine_config(&[("desktop", "/nonexistent/emusync/test/path"), ("laptop", "/")]);
    let d = cfg.detect().ok().unwrap();
    assert_eq!(d.local.name, "laptop");
    assert_eq!(d.remote.name, "desktop");
}

#[test]
fn detect_first_machine_syncs_with_second() {
    let cfg = two_machine_config(&[("desktop", "/"), ("laptop", "/")]);
    let d = cfg.detect().ok().unwrap();
    assert_eq!(d.local.name, "desktop");
    assert_eq!(d.remote.name, "laptop");
}

#[test]
fn detect_needs_two_machines() {
    let cfg = Config {
        machines: vec![machine("solo", "me@h")],
        targets: vec![target("t", "directory", &[("solo", "/")])],
        exclude: vec![],
    };
    let e = cfg.detect().err().unwrap();
    assert_eq!(e, DetectError::TooFewMachines);
    assert_eq!(e.message(), "need at least 2 machines in config");
}

#[test]
fn detect_without_existing_paths_fails() {
    let cfg = two_machine_config(&[("desktop", "/nonexistent/a"), ("laptop", "/nonexistent/b")]);
    let e = cfg.detect().err().unwrap();
    assert_eq!(e, DetectError::NoLocalMachine);
    assert_eq!(
        e.message(),
        "could not detect local machine — none of the configured paths exist on this system"
    );
}

#[test]
fn detect_from_takes_the_first_flagged_machine() {
    let cfg = Config {
        machines: vec![machine("a", "a@h"), machine("b", "b@h"), machine("c", "c@h")],
        targets: vec![],
        exclude: vec![],
    };
    let d = cfg.detect_from(&[false, true, true]).ok().unwrap();
    assert_eq!(d.local.name, "b");
    assert_eq!(d.remote.name, "a");
    let d = cfg.detect_from(&[true, true, false]).ok().unwrap();
    assert_eq!(d.local.name, "a");
    assert_eq!(d.remote.name, "b");
    assert_eq!(cfg.detect_from(&[false, false, false]).err(), Some(DetectError::NoLocalMachine));
}

#[test]
fn config_path_joins_like_path_join() {
    assert_eq!(config_path_for(Some("/home/me")), "/home/me/.config/emusync/config.json");
    assert_eq!(config_path_for(Some("/home/me/")), "/home/me/.config/emusync/config.json");
    assert_eq!(config_path_for(None), "./.config/emusync/config.json");
    assert_eq!(config_path_for(Some("")), ".config/emusync/config.json");
}

#[test]
fn default_config_is_the_template() {
    let c = default_config();
    assert_eq!(c.machines.len(), 2);
    assert_eq!(c.machines[0].name, "machine-1");
    assert_eq!(c.machines[1].name, "machine-2");
    assert_eq!(c.machines[0].ssh_target, "user@hostname-or-ip");
    assert_eq!(c.targets.len(), 1);
    assert_eq!(c.targets[0].name, "example-saves");
    assert_eq!(c.targets[0].target_type, "directory");
    assert_eq!(
        c.targets[0].paths,
        vec![
            ("machine-1".to_string(), "/path/to/saves".to_string()),
            ("machine-2".to_string(), "/path/to/saves".to_string())
        ]
    );
    assert_eq!(c.exclude, vec![".DS_Store", "Thumbs.db", ".lock"]);
}

#[test]
fn existence_answers_count_only_configured_paths() {
    let cfg = Config {
        machines: vec![machine("desktop", "me@1"), machine("laptop", "me@2")],
        targets: vec![
            target("a", "directory", &[("laptop", "/x")]),
            target("b", "directory", &[("desktop", "/y")]),
        ],
        exclude: vec![],
    };
    let desktop = "desktop".to_string();
    assert!(!cfg.has_existing_path(&desktop, &[true, false]));
    assert!(cfg.has_existing_path(&desktop, &[false, true]));
    assert!(!cfg.has_existing_path(&desktop, &[false, false]));
    let laptop = "laptop".to_string();
    assert!(cfg.has_existing_path(&laptop, &[true, false]));
    assert!(!cfg.has_existing_path(&"nobody".to_string(), &[true, true]));
}

#[test]
fn machine_has_local_path_asks_the_disk() {
    let cfg = two_machine_config(&[("desktop", "/"), ("laptop", "/nonexistent/emusync/x")]);
    assert!(cfg.machine_has_local_path(&"desktop".to_string()));
    assert!(!cfg.machine_has_local_path(&"laptop".to_string()));
    assert!(!cfg.machine_has_local_path(&"other".to_string()));
}
