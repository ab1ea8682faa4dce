//! The command's decisions and report lines: the sync direction from the
//! flags, which targets a sync covers and how each is handled, and the text
//! of the status and summary lines.
use vstd::prelude::*;

use crate::config::{Config, DetectedConfig, Target};
use crate::ryujinx::{state_label_spec, SaveState, SaveStatus};
use crate::sync::Direction;
use crate::text::{
    chars_eq, chars_of, decimal_repr, str_eq, u64_to_decimal,
};
use vstd::string::StringExecFns;

verus! {

/// `--push` wins over `--pull`; with neither, both ways by time.
pub fn direction_from_flags(push: bool, pull: bool) -> (d: Direction)
    ensures
        d == (if push {
            Direction::Push
        } else if pull {
            Direction::Pull
        } else {
            Direction::Auto
        }),
{
    if push {
        Direction::Push
    } else if pull {
        Direction::Pull
    } else {
        Direction::Auto
    }
}

pub open spec fn green_spec(color: bool) -> Seq<char> {
    if color {
        "\x1b[32m"@
    } else {
        ""@
    }
}

pub open spec fn yellow_spec(color: bool) -> Seq<char> {
    if color {
        "\x1b[33m"@
    } else {
        ""@
    }
}

pub open spec fn bold_spec(color: bool) -> Seq<char> {
    if color {
        "\x1b[1m"@
    } else {
        ""@
    }
}

pub open spec fn reset_spec(color: bool) -> Seq<char> {
    if color {
        "\x1b[0m"@
    } else {
        ""@
    }
}

/// The escape that turns text green, when colour is on.
pub fn green(color: bool) -> (s: &'static str)
    ensures
        s@ == green_spec(color),
{
    if color {
        "\x1b[32m"
    } else {
        ""
    }
}

/// The escape that turns text yellow, when colour is on.
pub fn yellow(color: bool) -> (s: &'static str)
    ensures
        s@ == yellow_spec(color),
{
    if color {
        "\x1b[33m"
    } else {
        ""
    }
}

/// The escape that turns text bold, when colour is on.
pub fn bold(color: bool) -> (s: &'static str)
    ensures
        s@ == bold_spec(color),
{
    if color {
        "\x1b[1m"
    } else {
        ""
    }
}

/// The escape that ends colouring, when colour is on.
pub fn reset(color: bool) -> (s: &'static str)
    ensures
        s@ == reset_spec(color),
{
    if color {
        "\x1b[0m"
    } else {
        ""
    }
}

/// Index of the first target named `name`.
pub open spec fn target_index(targets: Seq<Target>, name: Seq<char>) -> Option<int>
    decreases targets.len(),
{
    if targets.len() == 0 {
        None
    } else if targets[0].name@ == name {
        Some(0)
    } else {
        match target_index(targets.drop_first(), name) {
            Some(i) => Some(i + 1),
            None => None,
        }
    }
}

pub proof fn lemma_target_index_at(targets: Seq<Target>, name: Seq<char>, i: int)
    requires
        0 <= i <= targets.len(),
        forall|k: int| 0 <= k < i ==> targets[k].name@ != name,
        i < targets.len() ==> targets[i].name@ == name,
    ensures
        i < targets.len() ==> target_index(targets, name) == Some(i),
        i == targets.len() ==> target_index(targets, name) is None,
    decreases i,
{
    if i > 0 {
        assert forall|k: int| 0 <= k < i - 1 implies targets.drop_first()[k].name@ != name by {
            assert(targets.drop_first()[k] == targets[k + 1]);
        }
        if i < targets.len() {
            assert(targets.drop_first()[i - 1] == targets[i]);
        }
        lemma_target_index_at(targets.drop_first(), name, i - 1);
    }
}

/// No target has the name a sync was asked for.
pub struct UnknownTarget {
    pub name: String,
}

impl UnknownTarget {
    pub fn message(&self) -> (s: String)
        ensures
            s@ == "unknown target: "@ + self.name@,
    {
        let mut s = "unknown target: ".to_owned();
        s.append(self.name.as_str());
        s
    }
}

/// The targets a sync covers: the first one with the given name, or all of
/// them in order.
pub fn select_targets<'a>(config: &'a Config, name: Option<&str>) -> (r: Result<
    Vec<&'a Target>,
    UnknownTarget,
>)
    ensures
        name is None ==> (r matches Ok(v) && v@.len() == config.targets.len() && forall|i: int|
            0 <= i < v@.len() ==> v@[i] == &config.targets@[i]),
        name is Some ==> match target_index(config.targets@, name->0@) {
            Some(i) => (0 <= i < config.targets.len() && (r matches Ok(v) && v@ == seq![
                &config.targets@[i],
            ])),
            None => (r matches Err(e) && e.name@ == name->0@),
        },
{
    match name {
        None => {
            let mut v: Vec<&'a Target> = Vec::new();
            let mut i: usize = 0;
            while i < config.targets.len()
                invariant
                    i <= config.targets.len(),
                    v@.len() == i,
                    forall|k: int| 0 <= k < i ==> v@[k] == &config.targets@[k],
                decreases config.targets.len() - i,
            {
                v.push(&config.targets[i]);
                i += 1;
            }
            Ok(v)
        },
        Some(n) => {
            let nc = chars_of(n);
            let mut i: usize = 0;
            while i < config.targets.len()
                invariant
                    i <= config.targets.len(),
                    name == Some(n),
                    nc@ == n@,
                    forall|k: int| 0 <= k < i ==> config.targets@[k].name@ != n@,
                decreases config.targets.len() - i,
            {
                let tc = chars_of(config.targets[i].name.as_str());
                if chars_eq(&tc, &nc) {
                    proof {
                        lemma_target_index_at(config.targets@, n@, i as int);
                    }
                    let mut v: Vec<&'a Target> = Vec::new();
                    v.push(&config.targets[i]);
                    assert(v@ =~= seq![&config.targets@[i as int]]);
                    return Ok(v);
                }
                i += 1;
            }
            proof {
                lemma_target_index_at(config.targets@, n@, i as int);
            }
            Err(UnknownTarget { name: n.to_owned() })
        },
    }
}

/// The kinds of target.
#[derive(Clone, Copy, Debug, PartialEq, Eq, Structural)]
pub enum TargetKind {
    /// A plain directory synced both ways.
    Directory,
    /// A Ryujinx data directory.
    Ryujinx,
    /// A type this program does not know.
    Unknown,
}

pub open spec fn target_kind_spec(target_type: Seq<char>) -> TargetKind {
    if target_type == "directory"@ {
        TargetKind::Directory
    } else if target_type == "ryujinx"@ {
        TargetKind::Ryujinx
    } else {
        TargetKind::Unknown
    }
}

/// The kind of a target, by its type name.
pub fn target_kind(target_type: &str) -> (k: TargetKind)
    ensures
        k == target_kind_spec(target_type@),
{
    if str_eq(target_type, "directory") {
        TargetKind::Directory
    } else if str_eq(target_type, "ryujinx") {
        TargetKind::Ryujinx
    } else {
        TargetKind::Unknown
    }
}

/// How a sync handles one target.
#[derive(Clone, Copy, Debug, PartialEq, Eq, Structural)]
pub enum SyncStep {
    /// Sync the directory both ways.
    Directory,
    /// Sync the Ryujinx parts chosen by `--only`.
    Ryujinx,
    /// `--only` was given for a directory target: nothing is done.
    OnlyUnsupported,
    /// Unknown target type: nothing is done.
    UnknownType,
}

/// How a sync handles a target of type `target_type`; `only_given` tells
/// whether `--only` was given.
pub fn sync_step(target_type: &str, only_given: bool) -> (s: SyncStep)
    ensures
        s == match target_kind_spec(target_type@) {
            TargetKind::Directory => if only_given {
                SyncStep::OnlyUnsupported
            } else {
                SyncStep::Directory
            },
            TargetKind::Ryujinx => SyncStep::Ryujinx,
            TargetKind::Unknown => SyncStep::UnknownType,
        },
{
    match target_kind(target_type) {
        TargetKind::Directory => if only_given {
            SyncStep::OnlyUnsupported
        } else {
            SyncStep::Directory
        },
        TargetKind::Ryujinx => SyncStep::Ryujinx,
        TargetKind::Unknown => SyncStep::UnknownType,
    }
}

/// The status of a directory target, by file counts.
pub struct DirectoryStatus {
    pub local_exists: bool,
    pub local_files: u64,
    pub remote_files: u64,
    pub in_sync: bool,
}

/// A directory target is in sync when its local path exists and both sides
/// hold as many files.
pub fn directory_status(local_exists: bool, local_files: u64, remote_files: u64) -> (s:
    DirectoryStatus)
    ensures
        s.local_exists == local_exists,
        s.local_files == local_files,
        s.remote_files == remote_files,
        s.in_sync == (local_exists && local_files == remote_files),
{
    DirectoryStatus {
        local_exists,
        local_files,
        remote_files,
        in_sync: local_exists && local_files == remote_files,
    }
}

pub open spec fn directory_status_text(s: DirectoryStatus, color: bool) -> Seq<char> {
    if !s.local_exists {
        "missing"@
    } else if s.in_sync {
        green_spec(color) + "synced"@ + reset_spec(color) + " ("@ + decimal_repr(
            s.local_files as nat,
        ) + " files)"@
    } else {
        yellow_spec(color) + "out of sync"@ + reset_spec(color) + " (local: "@ + decimal_repr(
            s.local_files as nat,
        ) + ", remote: "@ + decimal_repr(s.remote_files as nat) + ")"@
    }
}

impl DirectoryStatus {
    /// The status as reported: missing, synced with the file count, or out
    /// of sync with both counts.
    pub fn text(&self, color: bool) -> (r: String)
        ensures
            r@ == directory_status_text(*self, color),
    {
        if !self.local_exists {
            "missing".to_owned()
        } else if self.in_sync {
            let mut r = green(color).to_owned();
            r.append("synced");
            r.append(reset(color));
            r.append(" (");
            r.append(u64_to_decimal(self.local_files).as_str());
            r.append(" files)");
            r
        } else {
            let mut r = yellow(color).to_owned();
            r.append("out of sync");
            r.append(reset(color));
            r.append(" (local: ");
            r.append(u64_to_decimal(self.local_files).as_str());
            r.append(", remote: ");
            r.append(u64_to_decimal(self.remote_files).as_str());
            r.append(")");
            r
        }
    }
}

/// Synced saves show green, saves to copy yellow, the others uncoloured.
pub open spec fn state_color_spec(s: SaveState, color: bool) -> Seq<char> {
    match s {
        SaveState::Synced => green_spec(color),
        SaveState::Push | SaveState::Pull => yellow_spec(color),
        _ => ""@,
    }
}

/// The status line of one save: `  name: state`.
pub open spec fn save_status_text(st: SaveStatus, color: bool) -> Seq<char> {
    "  "@ + st.name@ + ": "@ + state_color_spec(st.state, color) + state_label_spec(st.state)
        + reset_spec(color)
}

/// The status line of one save.
pub fn save_status_line(st: &SaveStatus, color: bool) -> (r: String)
    ensures
        r@ == save_status_text(*st, color),
{
    let mut r = "  ".to_owned();
    r.append(st.name.as_str());
    r.append(": ");
    let c: &str = match st.state {
        SaveState::Synced => green(color),
        SaveState::Push | SaveState::Pull => yellow(color),
        _ => "",
    };
    r.append(c);
    r.append(st.state.label());
    r.append(reset(color));
    r
}

/// The heading of a target: `[name] (type)`, the name in bold.
pub fn target_header(target: &Target, color: bool) -> (r: String)
    ensures
        r@ == bold_spec(color) + "["@ + target.name@ + "]"@ + reset_spec(color) + " ("@
            + target.target_type@ + ")"@,
{
    let mut r = bold(color).to_owned();
    r.append("[");
    r.append(target.name.as_str());
    r.append("]");
    r.append(reset(color));
    r.append(" (");
    r.append(target.target_type.as_str());
    r.append(")");
    r
}

/// The first line of a run: which machine is which, and `mode` after it.
pub fn banner(detected: &DetectedConfig, color: bool, mode: &str) -> (r: String)
    ensures
        r@ == bold_spec(color) + "emusync"@ + reset_spec(color) + " — local: "@ + green_spec(
            color,
        ) + detected.local.name@ + reset_spec(color) + ", remote: "@ + detected.remote.name@
            + mode@,
{
    let mut r = bold(color).to_owned();
    r.append("emusync");
    r.append(reset(color));
    r.append(" — local: ");
    r.append(green(color));
    r.append(detected.local.name.as_str());
    r.append(reset(color));
    r.append(", remote: ");
    r.append(detected.remote.name.as_str());
    r.append(mode);
    r
}

/// The closing line of a sync that handled `count` items.
pub fn sync_summary(count: u64, color: bool) -> (r: String)
    ensures
        r@ == (if count == 0 {
            green_spec(color) + "everything up to date"@ + reset_spec(color)
        } else {
            green_spec(color) + "synced "@ + decimal_repr(count as nat) + " item(s)"@ + reset_spec(
                color,
            )
        }),
{
    let mut r = green(color).to_owned();
    if count == 0 {
        r.append("everything up to date");
    } else {
        r.append("synced ");
        r.append(u64_to_decimal(count).as_str());
        r.append(" item(s)");
    }
    r.append(reset(color));
    r
}

} // verus!
