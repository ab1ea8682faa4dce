//! Ryujinx saves keyed by game identity: the title ID read from each save
//! folder's `ExtraData0`, locally from its bytes and remotely from the hex
//! dump that `xxd` prints; and the decisions of a Ryujinx sync.
use vstd::prelude::*;
use vstd::utf8::{encode_utf8, is_char_boundary};

use crate::config::DetectedConfig;
use crate::sync::{
    lemma_dry_run_flag, copy_strings, remote_spec, rsync_args, rsync_command, rsync_one_way, rsync_bidirectional,
    bidirectional_calls, run_count, strings_view, strs_view, with_trailing_slash, BidirectionalPlan,
    Direction, RsyncCall,
};
use crate::text::{
    chars_of, chars_eq, concat_str, format_hex16, hex16_upper, join_path, join_path_spec, lines,
    lines_of, parse_u64, parse_u64_chars,
    split_char, split_chars, str_eq, string_from_chars, to_uppercase, trim, trim_chars,
    uppercase, contains_seq, decimal_repr,
};

verus! {

/// A save folder on one machine and the newest modification time in it.
pub struct SaveEntry {
    pub folder: String,
    pub mtime: u64,
}

impl SaveEntry {
    /// A copy of the entry.
    pub fn duplicate(&self) -> (e: SaveEntry)
        ensures
            e.folder@ == self.folder@,
            e.mtime == self.mtime,
    {
        SaveEntry { folder: self.folder.clone(), mtime: self.mtime }
    }
}

/// `u64::from_le_bytes` of the first eight bytes.
pub open spec fn le_u64(b: Seq<u8>) -> u64 {
    (b[0] as u64) | ((b[1] as u64) << 8u64) | ((b[2] as u64) << 16u64) | ((b[3] as u64) << 24u64)
        | ((b[4] as u64) << 32u64) | ((b[5] as u64) << 40u64) | ((b[6] as u64) << 48u64) | ((
    b[7] as u64) << 56u64)
}

/// `u32::from_le_bytes` of the first four bytes.
pub open spec fn le_u32(b: Seq<u8>) -> u32 {
    (b[0] as u32) | ((b[1] as u32) << 8u32) | ((b[2] as u32) << 16u32) | ((b[3] as u32)
        << 24u32)
}

/// The fields of an `ExtraData0` file: the title ID (bytes 0..8, printed as
/// sixteen upper-case hex digits) and the save type (bytes 0x20..0x24). A
/// file shorter than 0x24 bytes, or with title ID 0, has none.
pub open spec fn extra_data_fields(b: Seq<u8>) -> Option<(Seq<char>, u32)> {
    if b.len() < 0x24 {
        None
    } else {
        let tid = le_u64(b);
        if tid == 0 {
            None
        } else {
            Some((hex16_upper(tid), le_u32(b.subrange(0x20, 0x24))))
        }
    }
}

/// The title ID of an account save (save type 1), the only kind synced.
pub open spec fn account_save_title_spec(b: Seq<u8>) -> Option<Seq<char>> {
    match extra_data_fields(b) {
        Some((t, st)) => if st == 1 {
            Some(t)
        } else {
            None
        },
        None => None,
    }
}

/// The value of one hexadecimal digit byte.
pub open spec fn hex_value(b: u8) -> Option<u8> {
    if 48 <= b <= 57 {
        Some((b - 48) as u8)
    } else if 97 <= b <= 102 {
        Some((b - 87) as u8)
    } else if 65 <= b <= 70 {
        Some((b - 55) as u8)
    } else {
        None
    }
}

/// `u8::from_str_radix` in base 16 of a two-byte string: a `+` sign and one
/// digit, or two digits.
pub open spec fn hex_pair(b0: u8, b1: u8) -> Option<u8> {
    if b0 == 43 {
        hex_value(b1)
    } else {
        match (hex_value(b0), hex_value(b1)) {
            (Some(h), Some(l)) => Some((h * 16 + l) as u8),
            _ => None,
        }
    }
}

/// The bytes of the two-byte chunks of `b` that parse as hex, in order.
pub open spec fn hex_pairs(b: Seq<u8>) -> Seq<u8>
    decreases b.len(),
{
    if b.len() < 2 {
        seq![]
    } else {
        let rest = hex_pairs(b.skip(2));
        match hex_pair(b[0], b[1]) {
            Some(v) => seq![v] + rest,
            None => rest,
        }
    }
}

/// The title hex can be cut into two-byte pieces without splitting a
/// character: short, or of even length with a character boundary at every
/// even offset.
pub open spec fn title_hex_ok(s: Seq<char>) -> bool {
    let b = encode_utf8(s);
    b.len() < 16 || (b.len() % 2 == 0 && forall|k: int|
        0 <= k <= b.len() && k % 2 == 0 ==> #[trigger] is_char_boundary(b, k))
}

/// The title ID for a hex dump of an `ExtraData0` file's first bytes: the
/// little-endian value of the first eight bytes that parse, in upper-case
/// hex; the dump itself in upper case when it is short or too few bytes
/// parse.
pub open spec fn title_id_from_hex(s: Seq<char>) -> Seq<char> {
    let b = encode_utf8(s);
    if b.len() < 16 {
        uppercase(s)
    } else {
        let v = hex_pairs(b);
        if v.len() >= 8 {
            hex16_upper(le_u64(v))
        } else {
            uppercase(s)
        }
    }
}

/// Display names of a few well-known games.
pub open spec fn known_title(id: Seq<char>) -> Option<Seq<char>> {
    if id == "0100152000022000"@ {
        Some("Mario Kart 8 Deluxe"@)
    } else if id == "01001F5010DFA000"@ {
        Some("Pokemon Legends Arceus"@)
    } else if id == "0100B3F000BE2000"@ {
        Some("Pokken Tournament DX"@)
    } else if id == "010028600EBDA000"@ {
        Some("SM3D World + Bowser's Fury"@)
    } else if id == "0100000000010000"@ {
        Some("Super Mario Odyssey"@)
    } else if id == "01006A800016E000"@ {
        Some("Super Smash Bros Ultimate"@)
    } else if id == "01007EF00011E000"@ {
        Some("Zelda: Breath of the Wild"@)
    } else if id == "0100F2C0115B6000"@ {
        Some("Zelda: Tears of the Kingdom"@)
    } else {
        None
    }
}

/// The display name of a title: its known name, else the ID itself.
pub open spec fn title_name_spec(id: Seq<char>) -> Seq<char> {
    match known_title(id) {
        Some(n) => n,
        None => id,
    }
}

// ---------------------------------------------------------------------------

fn le_u64_exec(b: &Vec<u8>) -> (v: u64)
    requires
        b.len() >= 8,
    ensures
        v == le_u64(b@),
{
    (b[0] as u64) | ((b[1] as u64) << 8u64) | ((b[2] as u64) << 16u64) | ((b[3] as u64) << 24u64)
        | ((b[4] as u64) << 32u64) | ((b[5] as u64) << 40u64) | ((b[6] as u64) << 48u64) | ((
    b[7] as u64) << 56u64)
}

/// Reads the title ID and save type of an `ExtraData0` file.
pub fn parse_extra_data(bytes: &[u8]) -> (r: Option<(String, u32)>)
    ensures
        match r {
            Some((t, st)) => extra_data_fields(bytes@) == Some((t@, st)),
            None => extra_data_fields(bytes@) is None,
        },
{
    if bytes.len() < 0x24 {
        return None;
    }
    let title_id: u64 = (bytes[0] as u64) | ((bytes[1] as u64) << 8u64) | ((bytes[2] as u64)
        << 16u64) | ((bytes[3] as u64) << 24u64) | ((bytes[4] as u64) << 32u64) | ((
    bytes[5] as u64) << 40u64) | ((bytes[6] as u64) << 48u64) | ((bytes[7] as u64) << 56u64);
    let save_type: u32 = (bytes[0x20] as u32) | ((bytes[0x21] as u32) << 8u32) | ((
    bytes[0x22] as u32) << 16u32) | ((bytes[0x23] as u32) << 24u32);
    assert(save_type == le_u32(bytes@.subrange(0x20, 0x24)));
    if title_id == 0 {
        return None;
    }
    Some((format_hex16(title_id), save_type))
}

/// The title ID of `ExtraData0` contents when they describe an account save.
pub fn account_save_title(bytes: &[u8]) -> (r: Option<String>)
    ensures
        match r {
            Some(t) => account_save_title_spec(bytes@) == Some(t@),
            None => account_save_title_spec(bytes@) is None,
        },
{
    match parse_extra_data(bytes) {
        Some((t, st)) => if st == 1 {
            Some(t)
        } else {
            None
        },
        None => None,
    }
}

fn hex_value_exec(b: u8) -> (r: Option<u8>)
    ensures
        r == hex_value(b),
{
    if 48 <= b && b <= 57 {
        Some(b - 48)
    } else if 97 <= b && b <= 102 {
        Some(b - 87)
    } else if 65 <= b && b <= 70 {
        Some(b - 55)
    } else {
        None
    }
}

fn hex_pair_exec(b0: u8, b1: u8) -> (r: Option<u8>)
    ensures
        r == hex_pair(b0, b1),
{
    if b0 == 43 {
        hex_value_exec(b1)
    } else {
        match (hex_value_exec(b0), hex_value_exec(b1)) {
            (Some(h), Some(l)) => Some(h * 16 + l),
            _ => None,
        }
    }
}

/// Whether `hex_to_title_id` can take `hex` (see `title_hex_ok`).
pub fn title_hex_sliceable(hex: &str) -> (r: bool)
    ensures
        r == title_hex_ok(hex@),
{
    let n = hex.as_bytes().len();
    assert(n == encode_utf8(hex@).len());
    if n < 16 {
        return true;
    }
    if n % 2 != 0 {
        return false;
    }
    let ghost b = encode_utf8(hex@);
    let mut k: usize = 0;
    while k < n
        invariant
            k <= n,
            k % 2 == 0,
            n >= 16,
            n == b.len(),
            n % 2 == 0,
            b == encode_utf8(hex@),
            forall|j: int| 0 <= j < k && j % 2 == 0 ==> #[trigger] is_char_boundary(b, j),
        decreases n - k,
    {
        if !hex.is_char_boundary(k) {
            assert(!is_char_boundary(b, k as int));
            return false;
        }
        k += 2;
    }
    proof {
        assert(is_char_boundary(b, n as int)) by {
            vstd::utf8::encode_utf8_valid_utf8(hex@);
            vstd::utf8::is_char_boundary_start_end_of_seq(b);
        }
    }
    true
}

/// The title ID for a hex dump of the start of an `ExtraData0` file (see
/// `title_id_from_hex`).
pub fn hex_to_title_id(hex: &str) -> (r: String)
    requires
        title_hex_ok(hex@),
    ensures
        r@ == title_id_from_hex(hex@),
{
    let b = hex.as_bytes();
    let n = b.len();
    let ghost bs = b@;
    assert(bs == encode_utf8(hex@));
    if n < 16 {
        return to_uppercase(hex);
    }
    let mut out: Vec<u8> = Vec::new();
    let mut i: usize = 0;
    assert(bs.skip(0) =~= bs);
    while i < n
        invariant
            i <= n,
            i % 2 == 0,
            n % 2 == 0,
            n == bs.len(),
            bs == b@,
            out@ + hex_pairs(bs.skip(i as int)) == hex_pairs(bs),
        decreases n - i,
    {
        let ghost rest = bs.skip(i as int);
        assert(rest.skip(2) =~= bs.skip(i + 2));
        assert(rest[0] == bs[i as int] && rest[1] == bs[i + 1]);
        match hex_pair_exec(b[i], b[i + 1]) {
            Some(v) => {
                let ghost old_out = out@;
                out.push(v);
                assert(out@ + hex_pairs(bs.skip(i + 2)) =~= old_out + (seq![v] + hex_pairs(
                    bs.skip(i + 2),
                )));
            },
            None => {},
        }
        i += 2;
    }
    assert(hex_pairs(bs.skip(n as int)) =~= Seq::<u8>::empty());
    assert(out@ =~= hex_pairs(bs));
    if out.len() >= 8 {
        format_hex16(le_u64_exec(&out))
    } else {
        to_uppercase(hex)
    }
}

/// The display name of a title ID.
pub fn title_name(id: &str) -> (r: &str)
    ensures
        r@ == title_name_spec(id@),
{
    if str_eq(id, "0100152000022000") {
        "Mario Kart 8 Deluxe"
    } else if str_eq(id, "01001F5010DFA000") {
        "Pokemon Legends Arceus"
    } else if str_eq(id, "0100B3F000BE2000") {
        "Pokken Tournament DX"
    } else if str_eq(id, "010028600EBDA000") {
        "SM3D World + Bowser's Fury"
    } else if str_eq(id, "0100000000010000") {
        "Super Mario Odyssey"
    } else if str_eq(id, "01006A800016E000") {
        "Super Smash Bros Ultimate"
    } else if str_eq(id, "01007EF00011E000") {
        "Zelda: Breath of the Wild"
    } else if str_eq(id, "0100F2C0115B6000") {
        "Zelda: Tears of the Kingdom"
    } else {
        id
    }
}

// ---------------------------------------------------------------------------
// Save maps
// ---------------------------------------------------------------------------

/// A save as a map entry: title ID, folder, newest modification time.
pub type SaveRecord = (Seq<char>, Seq<char>, u64);

/// Position of title `t` in `m`.
pub open spec fn title_index(m: Seq<SaveRecord>, t: Seq<char>) -> Option<int>
    decreases m.len(),
{
    if m.len() == 0 {
        None
    } else if m[0].0 == t {
        Some(0)
    } else {
        match title_index(m.drop_first(), t) {
            Some(i) => Some(i + 1),
            None => None,
        }
    }
}

/// `HashMap::insert`: the entry for the title is replaced, or added at the end.
pub open spec fn insert_record(m: Seq<SaveRecord>, r: SaveRecord) -> Seq<SaveRecord> {
    match title_index(m, r.0) {
        Some(i) => m.update(i, r),
        None => m.push(r),
    }
}

/// No title occurs twice.
pub open spec fn titles_distinct(m: Seq<SaveRecord>) -> bool {
    forall|i: int, j: int| 0 <= i < j < m.len() ==> m[i].0 != m[j].0
}

/// The entry stored for title `t`, as folder and time.
pub open spec fn record_for(m: Seq<SaveRecord>, t: Seq<char>) -> Option<(Seq<char>, u64)> {
    match title_index(m, t) {
        Some(i) => Some((m[i].1, m[i].2)),
        None => None,
    }
}

pub proof fn lemma_title_index(m: Seq<SaveRecord>, t: Seq<char>)
    ensures
        match title_index(m, t) {
            Some(i) => 0 <= i < m.len() && m[i].0 == t && forall|k: int|
                0 <= k < i ==> m[k].0 != t,
            None => forall|k: int| 0 <= k < m.len() ==> m[k].0 != t,
        },
    decreases m.len(),
{
    if m.len() > 0 && m[0].0 != t {
        lemma_title_index(m.drop_first(), t);
        assert forall|k: int| 0 < k < m.len() implies m[k] == m.drop_first()[k - 1] by {}
    }
}

pub proof fn lemma_title_index_at(m: Seq<SaveRecord>, t: Seq<char>, i: int)
    requires
        0 <= i <= m.len(),
        forall|k: int| 0 <= k < i ==> m[k].0 != t,
        i < m.len() ==> m[i].0 == t,
    ensures
        i < m.len() ==> title_index(m, t) == Some(i),
        i == m.len() ==> title_index(m, t) is None,
{
    lemma_title_index(m, t);
}

/// Saves by title ID, in the order the titles were first inserted.
pub struct SaveMap {
    pub entries: Vec<(String, SaveEntry)>,
}

impl View for SaveMap {
    type V = Seq<SaveRecord>;

    open spec fn view(&self) -> Seq<SaveRecord> {
        self.entries@.map_values(|e: (String, SaveEntry)| (e.0@, e.1.folder@, e.1.mtime))
    }
}

impl SaveMap {
    /// No title occurs twice, as in a hash map.
    pub open spec fn wf(&self) -> bool {
        titles_distinct(self@)
    }

    pub fn new() -> (m: SaveMap)
        ensures
            m@ == Seq::<SaveRecord>::empty(),
            m.wf(),
    {
        let m = SaveMap { entries: Vec::new() };
        assert(m@ =~= Seq::<SaveRecord>::empty());
        m
    }

    pub fn len(&self) -> (n: usize)
        ensures
            n == self@.len(),
    {
        self.entries.len()
    }

    /// Position of `title` in the map.
    pub fn find(&self, title: &str) -> (r: Option<usize>)
        ensures
            match r {
                Some(i) => i < self@.len() && title_index(self@, title@) == Some(i as int),
                None => title_index(self@, title@) is None,
            },
    {
        let tc = chars_of(title);
        let mut i: usize = 0;
        while i < self.entries.len()
            invariant
                i <= self.entries.len(),
                tc@ == title@,
                forall|k: int| 0 <= k < i ==> self@[k].0 != title@,
            decreases self.entries.len() - i,
        {
            let kc = chars_of(self.entries[i].0.as_str());
            if chars_eq(&kc, &tc) {
                proof {
                    lemma_title_index_at(self@, title@, i as int);
                }
                return Some(i);
            }
            i += 1;
        }
        proof {
            lemma_title_index_at(self@, title@, i as int);
        }
        None
    }

    /// The save of `title`, if there is one.
    pub fn get(&self, title: &str) -> (r: Option<&SaveEntry>)
        ensures
            match title_index(self@, title@) {
                Some(i) => r == Some(&self.entries@[i].1),
                None => r is None,
            },
    {
        match self.find(title) {
            Some(i) => Some(&self.entries[i].1),
            None => None,
        }
    }

    /// Whether there is a save of `title`.
    pub fn contains_key(&self, title: &str) -> (b: bool)
        ensures
            b == (title_index(self@, title@) is Some),
    {
        self.find(title).is_some()
    }

    /// Stores `entry` as the save of `title`, replacing any earlier one.
    pub fn insert(&mut self, title: String, entry: SaveEntry)
        ensures
            final(self)@ == insert_record(old(self)@, (title@, entry.folder@, entry.mtime)),
            old(self).wf() ==> final(self).wf(),
    {
        let ghost r = (title@, entry.folder@, entry.mtime);
        proof {
            if titles_distinct(self@) {
                lemma_insert_record(self@, r);
            }
        }
        match self.find(title.as_str()) {
            Some(i) => {
                let ghost before = self@;
                self.entries.set(i, (title, entry));
                assert(self@ =~= before.update(i as int, r));
            },
            None => {
                let ghost before = self@;
                self.entries.push((title, entry));
                assert(self@ =~= before.push(r));
            },
        }
    }
}

/// Inserting keeps titles distinct, and the inserted save is the one found
/// afterwards under its title while other titles keep their saves.
pub proof fn lemma_insert_record(m: Seq<SaveRecord>, r: SaveRecord)
    requires
        titles_distinct(m),
    ensures
        titles_distinct(insert_record(m, r)),
        record_for(insert_record(m, r), r.0) == Some((r.1, r.2)),
        forall|t: Seq<char>| t != r.0 ==> record_for(insert_record(m, r), t) == record_for(m, t),
{
    lemma_title_index(m, r.0);
    let n = insert_record(m, r);
    lemma_title_index(n, r.0);
    match title_index(m, r.0) {
        Some(i) => {
            lemma_title_index_at(n, r.0, i);
        },
        None => {
            lemma_title_index_at(n, r.0, m.len() as int);
        },
    }
    assert forall|t: Seq<char>| t != r.0 implies record_for(n, t) == record_for(m, t) by {
        lemma_title_index(m, t);
        match title_index(m, t) {
            Some(j) => {
                lemma_title_index_at(n, t, j);
            },
            None => {
                lemma_title_index_at(n, t, n.len() as int);
                lemma_title_index(n, t);
            },
        }
    }
}

// ---------------------------------------------------------------------------
// The remote listing
// ---------------------------------------------------------------------------

/// The shell script run on the remote machine to list its saves: one line
/// `folder|title hex|save type hex|newest mtime` per save folder that has
/// an `ExtraData0`, the time being that of the newest file in the folder, as
/// on the local side.
pub open spec fn remote_save_script_spec(ryujinx_path: Seq<char>) -> Seq<char> {
    "for d in '"@ + ryujinx_path + "/bis/user/save'/*/; do\n  f=\"${d}ExtraData0\"\n  if [ -f \"$f\" ]; then\n    tid=$(xxd -p -l 8 \"$f\")\n    stype=$(xxd -p -s 32 -l 4 \"$f\")\n    newest=$( (find \"$d\" -type f -exec stat -c %Y {} + 2>/dev/null || find \"$d\" -type f -exec stat -f %m {} + 2>/dev/null) | sort -rn | head -1)\n    echo \"$(basename \"$d\")|$tid|$stype|${newest:-0}\"\n  fi\ndone"@
}

/// The script that lists the saves under `ryujinx_path` on the remote machine.
pub fn remote_save_script(ryujinx_path: &str) -> (r: String)
    ensures
        r@ == remote_save_script_spec(ryujinx_path@),
{
    let mut r = crate::text::concat_str("for d in '", ryujinx_path);
    r.append(
        "/bis/user/save'/*/; do\n  f=\"${d}ExtraData0\"\n  if [ -f \"$f\" ]; then\n    tid=$(xxd -p -l 8 \"$f\")\n    stype=$(xxd -p -s 32 -l 4 \"$f\")\n    newest=$( (find \"$d\" -type f -exec stat -c %Y {} + 2>/dev/null || find \"$d\" -type f -exec stat -f %m {} + 2>/dev/null) | sort -rn | head -1)\n    echo \"$(basename \"$d\")|$tid|$stype|${newest:-0}\"\n  fi\ndone",
    );
    r
}

/// The save that one line of the remote listing describes: only account
/// saves (type hex `01000000`) with at least four `|`-separated fields; an
/// unreadable time counts as 0.
pub open spec fn remote_line_record(line: Seq<char>) -> Option<SaveRecord> {
    let parts = split_char(line, '|');
    if parts.len() < 4 {
        None
    } else if trim(parts[2]) != "01000000"@ {
        None
    } else {
        Some(
            (
                title_id_from_hex(trim(parts[1])),
                parts[0],
                match parse_u64(trim(parts[3])) {
                    Some(v) => v,
                    None => 0,
                },
            ),
        )
    }
}

/// A listing line whose title hex would be used can be taken apart.
pub open spec fn remote_line_ok(line: Seq<char>) -> bool {
    let parts = split_char(line, '|');
    parts.len() >= 4 && trim(parts[2]) == "01000000"@ ==> title_hex_ok(trim(parts[1]))
}

pub open spec fn remote_output_ok(out: Seq<char>) -> bool {
    forall|i: int| 0 <= i < lines(out).len() ==> remote_line_ok(#[trigger] lines(out)[i])
}

/// The saves of a listing, line by line; a later line for the same title
/// replaces an earlier one.
pub open spec fn remote_records(ls: Seq<Seq<char>>) -> Seq<SaveRecord>
    decreases ls.len(),
{
    if ls.len() == 0 {
        seq![]
    } else {
        let m = remote_records(ls.drop_last());
        match remote_line_record(ls.last()) {
            Some(r) => insert_record(m, r),
            None => m,
        }
    }
}

/// The listing patterns compared against, as characters.
struct ListingPatterns {
    account: Vec<char>,
}

impl ListingPatterns {
    spec fn wf(&self) -> bool {
        self.account@ == "01000000"@
    }

    fn new() -> (p: Self)
        ensures
            p.wf(),
    {
        ListingPatterns { account: chars_of("01000000") }
    }

    /// Whether the line's title hex can be taken apart, where it is used.
    fn line_ok(&self, line: &Vec<char>) -> (b: bool)
        requires
            self.wf(),
        ensures
            b == remote_line_ok(line@),
    {
        let parts = split_chars(line, '|');
        let ghost pv = parts@.map_values(|v: Vec<char>| v@);
        if parts.len() < 4 {
            return true;
        }
        let stype = trim_chars(&parts[2]);
        assert(stype@ == trim(pv[2]));
        if !chars_eq(&stype, &self.account) {
            return true;
        }
        let tid = trim_chars(&parts[1]);
        assert(tid@ == trim(pv[1]));
        let tid_s = string_from_chars(&tid);
        title_hex_sliceable(tid_s.as_str())
    }

    /// The save that one listing line describes.
    fn line_record(&self, line: &Vec<char>) -> (r: Option<(String, SaveEntry)>)
        requires
            self.wf(),
            remote_line_ok(line@),
        ensures
            match r {
                Some((t, e)) => remote_line_record(line@) == Some((t@, e.folder@, e.mtime)),
                None => remote_line_record(line@) is None,
            },
    {
        let parts = split_chars(line, '|');
        let ghost pv = parts@.map_values(|v: Vec<char>| v@);
        if parts.len() < 4 {
            return None;
        }
        let stype = trim_chars(&parts[2]);
        assert(stype@ == trim(pv[2]));
        if !chars_eq(&stype, &self.account) {
            return None;
        }
        let folder = string_from_chars(&parts[0]);
        assert(folder@ == pv[0]);
        let tid = trim_chars(&parts[1]);
        assert(tid@ == trim(pv[1]));
        let tid_s = string_from_chars(&tid);
        let title_id = hex_to_title_id(tid_s.as_str());
        let mt = trim_chars(&parts[3]);
        assert(mt@ == trim(pv[3]));
        let mtime: u64 = match parse_u64_chars(&mt) {
            Some(v) => v,
            None => 0,
        };
        Some((title_id, SaveEntry { folder, mtime }))
    }
}

/// Whether `parse_remote_save_map` can take `output`.
pub fn remote_listing_parsable(output: &str) -> (b: bool)
    ensures
        b == remote_output_ok(output@),
{
    let pats = ListingPatterns::new();
    let text = chars_of(output);
    let ls = lines_of(&text);
    let ghost lv = ls@.map_values(|v: Vec<char>| v@);
    let mut i: usize = 0;
    while i < ls.len()
        invariant
            pats.wf(),
            i <= ls.len(),
            lv == ls@.map_values(|v: Vec<char>| v@),
            lv == lines(output@),
            forall|k: int| 0 <= k < i ==> remote_line_ok(#[trigger] lv[k]),
        decreases ls.len() - i,
    {
        if !pats.line_ok(&ls[i]) {
            assert(!remote_line_ok(lv[i as int]));
            return false;
        }
        i += 1;
    }
    true
}

/// The saves that the remote listing reports.
pub fn parse_remote_save_map(output: &str) -> (m: SaveMap)
    requires
        remote_output_ok(output@),
    ensures
        m@ == remote_records(lines(output@)),
        m.wf(),
{
    proof {
        law_remote_titles_distinct(lines(output@));
    }
    let pats = ListingPatterns::new();
    let text = chars_of(output);
    let ls = lines_of(&text);
    let ghost lv = ls@.map_values(|v: Vec<char>| v@);
    let mut map = SaveMap::new();
    let mut i: usize = 0;
    assert(lv.take(0) =~= Seq::<Seq<char>>::empty());
    while i < ls.len()
        invariant
            pats.wf(),
            i <= ls.len(),
            lv == ls@.map_values(|v: Vec<char>| v@),
            lv == lines(output@),
            remote_output_ok(output@),
            map@ == remote_records(lv.take(i as int)),
        decreases ls.len() - i,
    {
        assert(remote_line_ok(lv[i as int]));
        assert(lv.take(i + 1).drop_last() =~= lv.take(i as int));
        assert(lv.take(i + 1).last() == lv[i as int]);
        match pats.line_record(&ls[i]) {
            Some((t, e)) => {
                map.insert(t, e);
            },
            None => {},
        }
        i += 1;
    }
    assert(lv.take(ls.len() as int) =~= lv);
    map
}

// ---------------------------------------------------------------------------
// Save sync decisions
// ---------------------------------------------------------------------------

/// Which way a save is copied: as forced, or from the side with the newer
/// save; `None` when both are equally new.
pub open spec fn chosen_direction(direction: Direction, local_mtime: u64, remote_mtime: u64) -> Option<
    Direction,
> {
    match direction {
        Direction::Push => Some(Direction::Push),
        Direction::Pull => Some(Direction::Pull),
        Direction::Auto => if local_mtime > remote_mtime {
            Some(Direction::Push)
        } else if remote_mtime > local_mtime {
            Some(Direction::Pull)
        } else {
            None
        },
    }
}

/// A save folder under a Ryujinx data directory.
pub open spec fn save_dir_spec(root: Seq<char>, folder: Seq<char>) -> Seq<char> {
    join_path_spec(join_path_spec(root, "bis/user/save"@), folder)
}

/// The rsync run that copies one save folder over the other.
pub open spec fn save_call_spec(
    dir: Direction,
    local_root: Seq<char>,
    remote_root: Seq<char>,
    ssh_target: Seq<char>,
    local_folder: Seq<char>,
    remote_folder: Seq<char>,
    dry_run: bool,
) -> Seq<Seq<char>> {
    let l = save_dir_spec(local_root, local_folder);
    let r = remote_spec(ssh_target, save_dir_spec(remote_root, remote_folder));
    let src = if dir == Direction::Push {
        l
    } else {
        r
    };
    let dst = if dir == Direction::Push {
        r
    } else {
        l
    };
    rsync_args(with_trailing_slash(src), with_trailing_slash(dst), seq![], seq![".lock"@], dry_run)
}

/// The titles of `remote` that `local` lacks, in `remote`'s order.
pub open spec fn remote_only_titles(remote: Seq<SaveRecord>, local: Seq<SaveRecord>) -> Seq<
    Seq<char>,
>
    decreases remote.len(),
{
    if remote.len() == 0 {
        seq![]
    } else {
        let p = remote_only_titles(remote.drop_last(), local);
        if title_index(local, remote.last().0) is None {
            p.push(remote.last().0)
        } else {
            p
        }
    }
}

/// No title occurs twice in `ts`.
pub open spec fn distinct_titles(ts: Seq<Seq<char>>) -> bool {
    forall|a: int, b: int| 0 <= a < b < ts.len() ==> ts[a] != ts[b]
}

/// The remote-only titles are titles of `remote` that `local` lacks, each
/// once.
pub proof fn lemma_remote_only_titles(remote: Seq<SaveRecord>, local: Seq<SaveRecord>)
    requires
        titles_distinct(remote),
    ensures
        distinct_titles(remote_only_titles(remote, local)),
        forall|k: int|
            0 <= k < remote_only_titles(remote, local).len() ==> (forall|i: int|
                0 <= i < local.len() ==> local[i].0 != #[trigger] remote_only_titles(
                    remote,
                    local,
                )[k]),
        forall|k: int|
            0 <= k < remote_only_titles(remote, local).len() ==> exists|j: int|
                0 <= j < remote.len() && remote[j].0 == #[trigger] remote_only_titles(
                    remote,
                    local,
                )[k],
    decreases remote.len(),
{
    if remote.len() > 0 {
        let p = remote.drop_last();
        assert(titles_distinct(p)) by {
            assert forall|i: int, j: int| 0 <= i < j < p.len() implies p[i].0 != p[j].0 by {
                assert(p[i] == remote[i] && p[j] == remote[j]);
            }
        }
        lemma_remote_only_titles(p, local);
        let tp = remote_only_titles(p, local);
        let t = remote.last().0;
        lemma_title_index(local, t);
        assert forall|k: int| 0 <= k < tp.len() implies exists|j: int|
            0 <= j < remote.len() && remote[j].0 == #[trigger] tp[k] by {
            let j = choose|j: int| 0 <= j < p.len() && p[j].0 == tp[k];
            assert(remote[j] == p[j]);
        }
        if title_index(local, t) is None {
            assert forall|k: int| 0 <= k < tp.len() implies tp[k] != t by {
                let j = choose|j: int| 0 <= j < p.len() && p[j].0 == tp[k];
                assert(remote[j] == p[j]);
                assert(j < remote.len() - 1);
            }
            let ts = remote_only_titles(remote, local);
            assert(ts == tp.push(t));
            assert forall|k: int| 0 <= k < ts.len() implies exists|j: int|
                0 <= j < remote.len() && remote[j].0 == #[trigger] ts[k] by {
                if k < tp.len() {
                    assert(ts[k] == tp[k]);
                } else {
                    assert(remote[remote.len() - 1].0 == ts[k]);
                }
            }
        }
    }
}

/// What happens to one local save.
pub enum SaveAction {
    /// The other machine has no save of the title.
    LocalOnly,
    /// Both saves are equally new.
    UpToDate,
    /// The save is copied in this direction by this rsync run.
    Transfer(Direction, RsyncCall),
}

/// The decision for one local save.
pub struct SavePlanItem {
    pub title_id: String,
    pub name: String,
    pub local_folder: String,
    pub remote_folder: Option<String>,
    pub action: SaveAction,
}

/// The decisions of a save sync: one item per local save, in the local
/// map's order, then the titles (and names) only the other machine has.
pub struct SavePlan {
    pub items: Vec<SavePlanItem>,
    pub remote_only: Vec<(String, String)>,
}

/// `it` is the decision for the local save `rec`.
pub open spec fn plan_item_ok(
    it: SavePlanItem,
    rec: SaveRecord,
    remote: Seq<SaveRecord>,
    local_root: Seq<char>,
    remote_root: Seq<char>,
    ssh_target: Seq<char>,
    direction: Direction,
    dry_run: bool,
) -> bool {
    &&& it.title_id@ == rec.0
    &&& it.name@ == title_name_spec(rec.0)
    &&& it.local_folder@ == rec.1
    &&& match record_for(remote, rec.0) {
        None => it.remote_folder is None && it.action is LocalOnly,
        Some((rf, rm)) => {
            &&& it.remote_folder matches Some(f) && f@ == rf
            &&& match chosen_direction(direction, rec.2, rm) {
                None => it.action is UpToDate,
                Some(d) => it.action matches SaveAction::Transfer(d2, c) && d2 == d && c@
                    == save_call_spec(d, local_root, remote_root, ssh_target, rec.1, rf, dry_run),
            }
        },
    }
}

/// `rs` holds the titles, with their names, that only the remote map has.
pub open spec fn remote_only_ok(
    rs: Seq<(String, String)>,
    remote: Seq<SaveRecord>,
    local: Seq<SaveRecord>,
) -> bool {
    let ts = remote_only_titles(remote, local);
    &&& rs.len() == ts.len()
    &&& forall|i: int|
        0 <= i < rs.len() ==> (#[trigger] rs[i]).0@ == ts[i] && rs[i].1@ == title_name_spec(ts[i])
}

/// The titles only the remote map has, with their names.
fn remote_only_list(local: &SaveMap, remote: &SaveMap) -> (rs: Vec<(String, String)>)
    ensures
        remote_only_ok(rs@, remote@, local@),
{
    let mut rs: Vec<(String, String)> = Vec::new();
    let mut i: usize = 0;
    assert(remote@.take(0) =~= Seq::<SaveRecord>::empty());
    while i < remote.entries.len()
        invariant
            i <= remote@.len(),
            remote_only_ok(rs@, remote@.take(i as int), local@),
        decreases remote@.len() - i,
    {
        let title = &remote.entries[i].0;
        assert(remote@.take(i + 1).drop_last() =~= remote@.take(i as int));
        assert(remote@.take(i + 1).last() == remote@[i as int]);
        if !local.contains_key(title.as_str()) {
            let name = title_name(title.as_str()).to_owned();
            rs.push((title.clone(), name));
        }
        i += 1;
    }
    assert(remote@.take(remote@.len() as int) =~= remote@);
    rs
}

/// The save folder `folder` under the Ryujinx directory `root`.
pub fn save_dir(root: &str, folder: &str) -> (r: String)
    ensures
        r@ == save_dir_spec(root@, folder@),
{
    let base = join_path(root, "bis/user/save");
    join_path(base.as_str(), folder)
}

/// Decides, title by title, how the saves of the two machines are synced:
/// saves are paired by title ID, whatever their folders; a save only one
/// side has is left alone; otherwise it is copied as forced or, by
/// modification time, from the newer side, and equally new saves are left
/// alone.
pub fn plan_save_sync(
    detected: &DetectedConfig,
    local: &SaveMap,
    remote: &SaveMap,
    ryujinx_path_local: &str,
    ryujinx_path_remote: &str,
    direction: Direction,
    dry_run: bool,
) -> (p: SavePlan)
    requires
        local.wf(),
        remote.wf(),
    ensures
        p.items.len() == local@.len(),
        forall|i: int, j: int|
            0 <= i < j < p.items.len() ==> p.items@[i].title_id@ != p.items@[j].title_id@,
        forall|k: int, i: int|
            0 <= k < p.remote_only.len() && 0 <= i < p.items.len() ==> p.remote_only@[k].0@
                != p.items@[i].title_id@,
        forall|a: int, b: int|
            0 <= a < b < p.remote_only.len() ==> p.remote_only@[a].0@ != p.remote_only@[b].0@,
        forall|i: int|
            0 <= i < local@.len() ==> plan_item_ok(
                #[trigger] p.items@[i],
                local@[i],
                remote@,
                ryujinx_path_local@,
                ryujinx_path_remote@,
                detected.remote.ssh_target@,
                direction,
                dry_run,
            ),
        remote_only_ok(p.remote_only@, remote@, local@),
{
    let mut excludes: Vec<String> = Vec::new();
    excludes.push(".lock".to_owned());
    assert(strings_view(excludes@) =~= seq![".lock"@]);
    let no_args: [&str; 0] = [];
    assert(strs_view(no_args@) =~= Seq::<Seq<char>>::empty());
    let mut items: Vec<SavePlanItem> = Vec::new();
    let mut i: usize = 0;
    while i < local.entries.len()
        invariant
            i <= local@.len(),
            items.len() == i,
            strings_view(excludes@) == seq![".lock"@],
            strs_view(no_args@) == Seq::<Seq<char>>::empty(),
            forall|k: int|
                0 <= k < i ==> plan_item_ok(
                    #[trigger] items@[k],
                    local@[k],
                    remote@,
                    ryujinx_path_local@,
                    ryujinx_path_remote@,
                    detected.remote.ssh_target@,
                    direction,
                    dry_run,
                ),
        decreases local@.len() - i,
    {
        let title = &local.entries[i].0;
        let local_entry = &local.entries[i].1;
        let name = title_name(title.as_str()).to_owned();
        let item = match remote.get(title.as_str()) {
            None => SavePlanItem {
                title_id: title.clone(),
                name,
                local_folder: local_entry.folder.clone(),
                remote_folder: None,
                action: SaveAction::LocalOnly,
            },
            Some(remote_entry) => {
                let chosen = match direction {
                    Direction::Push => Some(Direction::Push),
                    Direction::Pull => Some(Direction::Pull),
                    Direction::Auto => {
                        if local_entry.mtime > remote_entry.mtime {
                            Some(Direction::Push)
                        } else if remote_entry.mtime > local_entry.mtime {
                            Some(Direction::Pull)
                        } else {
                            None
                        }
                    },
                };
                let action = match chosen {
                    None => SaveAction::UpToDate,
                    Some(d) => {
                        let local_save = save_dir(ryujinx_path_local, local_entry.folder.as_str());
                        let remote_save = save_dir(
                            ryujinx_path_remote,
                            remote_entry.folder.as_str(),
                        );
                        let remote_arg = detected.remote_rsync_path(remote_save.as_str());
                        let call = if d == Direction::Push {
                            rsync_one_way(
                                local_save.as_str(),
                                remote_arg.as_str(),
                                excludes.as_slice(),
                                &no_args,
                                dry_run,
                            )
                        } else {
                            rsync_one_way(
                                remote_arg.as_str(),
                                local_save.as_str(),
                                excludes.as_slice(),
                                &no_args,
                                dry_run,
                            )
                        };
                        SaveAction::Transfer(d, call)
                    },
                };
                SavePlanItem {
                    title_id: title.clone(),
                    name,
                    local_folder: local_entry.folder.clone(),
                    remote_folder: Some(remote_entry.folder.clone()),
                    action,
                }
            },
        };
        proof {
            let rec = local@[i as int];
            assert(rec.0 == title@);
            assert(rec.1 == local_entry.folder@);
            assert(item.title_id@ == rec.0);
            assert(item.name@ == title_name_spec(rec.0));
            assert(item.local_folder@ == rec.1);
            lemma_title_index(remote@, title@);
            assert(plan_item_ok(
                item,
                rec,
                remote@,
                ryujinx_path_local@,
                ryujinx_path_remote@,
                detected.remote.ssh_target@,
                direction,
                dry_run,
            ));
        }
        items.push(item);
        i += 1;
    }
    let remote_only = remote_only_list(local, remote);
    proof {
        lemma_remote_only_titles(remote@, local@);
        let ts = remote_only_titles(remote@, local@);
        assert forall|k: int, i: int|
            0 <= k < remote_only.len() && 0 <= i < items.len() implies remote_only@[k].0@
            != items@[i].title_id@ by {
            assert(remote_only@[k].0@ == ts[k]);
            assert(items@[i].title_id@ == local@[i].0);
        }
        assert forall|a: int, b: int| 0 <= a < b < remote_only.len() implies remote_only@[a].0@
            != remote_only@[b].0@ by {
            assert(remote_only@[a].0@ == ts[a]);
            assert(remote_only@[b].0@ == ts[b]);
        }
    }
    SavePlan { items, remote_only }
}

// ---------------------------------------------------------------------------
// Save status
// ---------------------------------------------------------------------------

/// Where a title's saves stand.
#[derive(Clone, Copy, Debug, PartialEq, Eq, Structural)]
pub enum SaveState {
    /// The local save is newer.
    Push,
    /// The remote save is newer.
    Pull,
    /// Both saves are equally new.
    Synced,
    LocalOnly,
    RemoteOnly,
}

pub open spec fn state_label_spec(s: SaveState) -> Seq<char> {
    match s {
        SaveState::Push => "push"@,
        SaveState::Pull => "pull"@,
        SaveState::Synced => "synced"@,
        SaveState::LocalOnly => "local_only"@,
        SaveState::RemoteOnly => "remote_only"@,
    }
}

impl SaveState {
    /// The word reported for the state.
    pub fn label(&self) -> (s: &'static str)
        ensures
            s@ == state_label_spec(*self),
    {
        match self {
            SaveState::Push => "push",
            SaveState::Pull => "pull",
            SaveState::Synced => "synced",
            SaveState::LocalOnly => "local_only",
            SaveState::RemoteOnly => "remote_only",
        }
    }
}

pub open spec fn both_state(local_mtime: u64, remote_mtime: u64) -> SaveState {
    if local_mtime > remote_mtime {
        SaveState::Push
    } else if remote_mtime > local_mtime {
        SaveState::Pull
    } else {
        SaveState::Synced
    }
}

/// The status of one title.
pub struct SaveStatus {
    pub title_id: String,
    pub name: String,
    pub local: Option<SaveEntry>,
    pub remote: Option<SaveEntry>,
    pub state: SaveState,
}

pub open spec fn entry_is(e: Option<SaveEntry>, r: Option<(Seq<char>, u64)>) -> bool {
    match (e, r) {
        (Some(e), Some((f, m))) => e.folder@ == f && e.mtime == m,
        (None, None) => true,
        _ => false,
    }
}

/// `st` is the status of the local save `rec`.
pub open spec fn local_status_ok(st: SaveStatus, rec: SaveRecord, remote: Seq<SaveRecord>) -> bool {
    &&& st.title_id@ == rec.0
    &&& st.name@ == title_name_spec(rec.0)
    &&& entry_is(st.local, Some((rec.1, rec.2)))
    &&& entry_is(st.remote, record_for(remote, rec.0))
    &&& st.state == match record_for(remote, rec.0) {
        Some((_, rm)) => both_state(rec.2, rm),
        None => SaveState::LocalOnly,
    }
}

/// `st` is the status of the title `t` that only the remote map has.
pub open spec fn remote_status_ok(st: SaveStatus, t: Seq<char>, remote: Seq<SaveRecord>) -> bool {
    &&& st.title_id@ == t
    &&& st.name@ == title_name_spec(t)
    &&& st.local is None
    &&& entry_is(st.remote, record_for(remote, t))
    &&& st.state == SaveState::RemoteOnly
}

/// The status of every title: each local save in order, then the titles
/// only the remote machine has.
pub fn save_status(local: &SaveMap, remote: &SaveMap) -> (r: Vec<SaveStatus>)
    requires
        local.wf(),
        remote.wf(),
    ensures
        forall|i: int, j: int| 0 <= i < j < r.len() ==> r@[i].title_id@ != r@[j].title_id@,
        r.len() == local@.len() + remote_only_titles(remote@, local@).len(),
        forall|i: int|
            0 <= i < local@.len() ==> local_status_ok(#[trigger] r@[i], local@[i], remote@),
        forall|i: int|
            local@.len() <= i < r.len() ==> remote_status_ok(
                #[trigger] r@[i],
                remote_only_titles(remote@, local@)[i - local@.len()],
                remote@,
            ),
{
    let mut r: Vec<SaveStatus> = Vec::new();
    let mut i: usize = 0;
    while i < local.entries.len()
        invariant
            i <= local@.len(),
            r.len() == i,
            forall|k: int| 0 <= k < i ==> local_status_ok(#[trigger] r@[k], local@[k], remote@),
        decreases local@.len() - i,
    {
        let title = &local.entries[i].0;
        let local_entry = &local.entries[i].1;
        let name = title_name(title.as_str()).to_owned();
        let st = match remote.get(title.as_str()) {
            Some(remote_entry) => {
                let state = if local_entry.mtime > remote_entry.mtime {
                    SaveState::Push
                } else if remote_entry.mtime > local_entry.mtime {
                    SaveState::Pull
                } else {
                    SaveState::Synced
                };
                SaveStatus {
                    title_id: title.clone(),
                    name,
                    local: Some(local_entry.duplicate()),
                    remote: Some(remote_entry.duplicate()),
                    state,
                }
            },
            None => SaveStatus {
                title_id: title.clone(),
                name,
                local: Some(local_entry.duplicate()),
                remote: None,
                state: SaveState::LocalOnly,
            },
        };
        proof {
            let rec = local@[i as int];
            assert(rec.0 == title@);
            lemma_title_index(remote@, title@);
            assert(local_status_ok(st, rec, remote@));
        }
        r.push(st);
        i += 1;
    }
    let mut j: usize = 0;
    assert(remote@.take(0) =~= Seq::<SaveRecord>::empty());
    while j < remote.entries.len()
        invariant
            j <= remote@.len(),
            r.len() == local@.len() + remote_only_titles(remote@.take(j as int), local@).len(),
            forall|k: int| 0 <= k < local@.len() ==> local_status_ok(#[trigger] r@[k], local@[k], remote@),
            forall|k: int|
                local@.len() <= k < r.len() ==> remote_status_ok(
                    #[trigger] r@[k],
                    remote_only_titles(remote@.take(j as int), local@)[k - local@.len()],
                    remote@,
                ),
        decreases remote@.len() - j,
    {
        let title = &remote.entries[j].0;
        let ghost pre = remote@.take(j as int);
        assert(remote@.take(j + 1).drop_last() =~= pre);
        assert(remote@.take(j + 1).last() == remote@[j as int]);
        if !local.contains_key(title.as_str()) {
            let name = title_name(title.as_str()).to_owned();
            let found = remote.get(title.as_str());
            let rem = match found {
                Some(e) => Some(e.duplicate()),
                None => None,
            };
            proof {
                lemma_title_index(remote@, title@);
            }
            r.push(
                SaveStatus {
                    title_id: title.clone(),
                    name,
                    local: None,
                    remote: rem,
                    state: SaveState::RemoteOnly,
                },
            );
        }
        j += 1;
    }
    assert(remote@.take(remote@.len() as int) =~= remote@);
    proof {
        lemma_remote_only_titles(remote@, local@);
        let ts = remote_only_titles(remote@, local@);
        let n = local@.len() as int;
        assert forall|i: int, j: int| 0 <= i < j < r.len() implies r@[i].title_id@
            != r@[j].title_id@ by {
            if j < n {
                assert(r@[i].title_id@ == local@[i].0);
                assert(r@[j].title_id@ == local@[j].0);
            } else if i < n {
                assert(r@[i].title_id@ == local@[i].0);
                assert(r@[j].title_id@ == ts[j - n]);
            } else {
                assert(r@[i].title_id@ == ts[i - n]);
                assert(r@[j].title_id@ == ts[j - n]);
            }
        }
    }
    r
}

// ---------------------------------------------------------------------------
// Mods and shader caches
// ---------------------------------------------------------------------------

/// Which parts of a Ryujinx target a sync covers.
pub struct Subtargets {
    pub saves: bool,
    pub mods: bool,
    pub shaders: bool,
}

/// All parts, or just the one that `--only` names.
pub fn subtargets(only: Option<&str>) -> (s: Subtargets)
    ensures
        s.saves == (only is None || (only matches Some(o) && o@ == "saves"@)),
        s.mods == (only is None || (only matches Some(o) && o@ == "mods"@)),
        s.shaders == (only is None || (only matches Some(o) && o@ == "shaders"@)),
{
    match only {
        None => Subtargets { saves: true, mods: true, shaders: true },
        Some(o) => Subtargets {
            saves: str_eq(o, "saves"),
            mods: str_eq(o, "mods"),
            shaders: str_eq(o, "shaders"),
        },
    }
}

/// The mods directory under a Ryujinx data directory.
pub open spec fn mods_dir_spec(root: Seq<char>) -> Seq<char> {
    root + "/mods/contents"@
}

/// The two-way sync of the mods directories.
pub struct ModsPlan {
    /// Only synced when it exists.
    pub local_mods: String,
    pub sync: BidirectionalPlan,
}

/// The mods sync: a two-way sync of `mods/contents` with the target's
/// excludes.
pub fn plan_mods_sync(
    detected: &DetectedConfig,
    ryujinx_path_local: &str,
    ryujinx_path_remote: &str,
    direction: Direction,
    dry_run: bool,
) -> (p: ModsPlan)
    ensures
        p.local_mods@ == mods_dir_spec(ryujinx_path_local@),
        p.sync.direction == direction,
        p.sync.calls.len() == run_count(direction),
        p.sync@ == bidirectional_calls(
            mods_dir_spec(ryujinx_path_local@),
            detected.remote.ssh_target@,
            mods_dir_spec(ryujinx_path_remote@),
            strings_view(detected.config.exclude@),
            direction,
            dry_run,
        ),
{
    let local_mods = concat_str(ryujinx_path_local, "/mods/contents");
    let remote_mods = concat_str(ryujinx_path_remote, "/mods/contents");
    let sync = rsync_bidirectional(
        local_mods.as_str(),
        detected.remote.ssh_target.as_str(),
        remote_mods.as_str(),
        detected.config.exclude.as_slice(),
        direction,
        dry_run,
    );
    ModsPlan { local_mods, sync }
}

/// Only the portable shader caches are copied.
pub open spec fn shader_filter() -> Seq<Seq<char>> {
    seq!["--include=*/"@, "--include=guest.*"@, "--include=shared.*"@, "--exclude=*"@]
}

/// GPU-specific compiled caches are rebuilt from the portable ones, so they
/// stay out.
pub open spec fn shader_excludes(ex: Seq<Seq<char>>) -> Seq<Seq<char>> {
    ex + seq!["vulkan_nvidia.*"@, "vulkan_apple.*"@]
}

/// The rsync runs of a shader cache sync of the `games` directories.
pub open spec fn shader_calls(
    local_root: Seq<char>,
    remote_root: Seq<char>,
    ssh_target: Seq<char>,
    ex: Seq<Seq<char>>,
    direction: Direction,
    dry_run: bool,
) -> Seq<Seq<Seq<char>>> {
    let l = (local_root + "/games"@).push('/');
    let r = remote_spec(ssh_target, remote_root + "/games"@).push('/');
    let x = shader_excludes(ex);
    let f = shader_filter();
    let fu = shader_filter() + seq!["--update"@];
    match direction {
        Direction::Push => seq![rsync_args(l, r, f, x, dry_run)],
        Direction::Pull => seq![rsync_args(r, l, f, x, dry_run)],
        Direction::Auto => seq![rsync_args(l, r, fu, x, dry_run), rsync_args(r, l, fu, x, dry_run)],
    }
}

pub open spec fn shader_label(direction: Direction) -> Seq<char> {
    match direction {
        Direction::Push => "push"@,
        Direction::Pull => "pull"@,
        Direction::Auto => "auto"@,
    }
}

/// The shader cache sync.
pub struct ShaderPlan {
    /// Only synced when it exists.
    pub local_games: String,
    /// Run in order until one fails; something was transferred when any
    /// run says so.
    pub calls: Vec<RsyncCall>,
    pub direction: &'static str,
}

impl ShaderPlan {
    pub open spec fn calls_view(&self) -> Seq<Seq<Seq<char>>> {
        self.calls@.map_values(|c: RsyncCall| c@)
    }
}

/// The shader cache sync of the `games` directories.
pub fn plan_shader_sync(
    detected: &DetectedConfig,
    ryujinx_path_local: &str,
    ryujinx_path_remote: &str,
    direction: Direction,
    dry_run: bool,
) -> (p: ShaderPlan)
    ensures
        p.local_games@ == ryujinx_path_local@ + "/games"@,
        p.calls.len() == run_count(direction),
        p.calls_view() == shader_calls(
            ryujinx_path_local@,
            ryujinx_path_remote@,
            detected.remote.ssh_target@,
            strings_view(detected.config.exclude@),
            direction,
            dry_run,
        ),
        p.direction@ == shader_label(direction),
{
    let local_games = concat_str(ryujinx_path_local, "/games");
    let remote_games = concat_str(ryujinx_path_remote, "/games");
    let filter: [&str; 4] = ["--include=*/", "--include=guest.*", "--include=shared.*", "--exclude=*"];
    let filter_update: [&str; 5] = [
        "--include=*/",
        "--include=guest.*",
        "--include=shared.*",
        "--exclude=*",
        "--update",
    ];
    assert(strs_view(filter@) =~= shader_filter());
    assert(strs_view(filter_update@) =~= shader_filter() + seq!["--update"@]);
    let ex = &detected.config.exclude;
    let mut excludes = copy_strings(ex.as_slice());
    excludes.push("vulkan_nvidia.*".to_owned());
    excludes.push("vulkan_apple.*".to_owned());
    assert(strings_view(excludes@) =~= shader_excludes(strings_view(ex@)));
    let remote_target = detected.remote_rsync_path(remote_games.as_str());
    let mut l = local_games.clone();
    crate::text::push_char(&mut l, '/');
    let mut r = remote_target;
    crate::text::push_char(&mut r, '/');
    let mut calls: Vec<RsyncCall> = Vec::new();
    let label = match direction {
        Direction::Push => {
            calls.push(rsync_command(l.as_str(), r.as_str(), &filter, excludes.as_slice(), dry_run));
            "push"
        },
        Direction::Pull => {
            calls.push(rsync_command(r.as_str(), l.as_str(), &filter, excludes.as_slice(), dry_run));
            "pull"
        },
        Direction::Auto => {
            calls.push(
                rsync_command(l.as_str(), r.as_str(), &filter_update, excludes.as_slice(), dry_run),
            );
            calls.push(
                rsync_command(r.as_str(), l.as_str(), &filter_update, excludes.as_slice(), dry_run),
            );
            "auto"
        },
    };
    let p = ShaderPlan { local_games, calls, direction: label };
    assert(p.calls_view() =~= shader_calls(
        ryujinx_path_local@,
        ryujinx_path_remote@,
        detected.remote.ssh_target@,
        strings_view(detected.config.exclude@),
        direction,
        dry_run,
    ));
    p
}

// ---------------------------------------------------------------------------
// Laws
// ---------------------------------------------------------------------------

/// The lower-case hex digit of a nibble.
pub open spec fn hex_digit_lower(d: u8) -> char {
    if d < 10 {
        ((d + 48) as u8) as char
    } else {
        ((d + 87) as u8) as char
    }
}

/// What `xxd -p` prints for some bytes (before its line break): two
/// lower-case hex digits per byte.
pub open spec fn xxd_hex(bs: Seq<u8>) -> Seq<char>
    decreases bs.len(),
{
    if bs.len() == 0 {
        seq![]
    } else {
        seq![hex_digit_lower(bs[0] / 16), hex_digit_lower(bs[0] % 16)] + xxd_hex(bs.drop_first())
    }
}

proof fn lemma_hex_digit_lower(d: u8)
    requires
        d < 16,
    ensures
        hex_value(hex_digit_lower(d) as u8) == Some(d),
        '\0' <= hex_digit_lower(d) <= '\u{7f}',
        hex_digit_lower(d) as u8 != 43,
{
}

proof fn lemma_xxd_hex_ascii(bs: Seq<u8>)
    ensures
        xxd_hex(bs).len() == 2 * bs.len(),
        vstd::utf8::is_ascii_chars(xxd_hex(bs)),
    decreases bs.len(),
{
    if bs.len() > 0 {
        lemma_xxd_hex_ascii(bs.drop_first());
        lemma_hex_digit_lower(bs[0] / 16);
        lemma_hex_digit_lower(bs[0] % 16);
        let h = xxd_hex(bs);
        let t = xxd_hex(bs.drop_first());
        assert forall|i: int| 0 <= i < h.len() implies '\0' <= #[trigger] h[i] <= '\u{7f}' by {
            if i >= 2 {
                assert(h[i] == t[i - 2]);
            }
        }
    }
}

/// The bytes of an ASCII hex dump read back, two digits at a time, give the
/// dumped bytes.
proof fn lemma_hex_pairs_of_dump(bs: Seq<u8>)
    ensures
        hex_pairs(xxd_hex(bs).map_values(|c: char| c as u8)) == bs,
    decreases bs.len(),
{
    let x = xxd_hex(bs).map_values(|c: char| c as u8);
    if bs.len() == 0 {
        assert(x.len() == 0);
        assert(hex_pairs(x) =~= bs);
    } else {
        lemma_xxd_hex_ascii(bs);
        lemma_hex_pairs_of_dump(bs.drop_first());
        let hi = bs[0] / 16;
        let lo = bs[0] % 16;
        lemma_hex_digit_lower(hi);
        lemma_hex_digit_lower(lo);
        assert(x[0] == hex_digit_lower(hi) as u8);
        assert(x[1] == hex_digit_lower(lo) as u8);
        assert(x.skip(2) =~= xxd_hex(bs.drop_first()).map_values(|c: char| c as u8));
        assert(hex_pair(x[0], x[1]) == Some(bs[0])) by {
            assert((hi * 16 + lo) as u8 == bs[0]);
        }
        assert(hex_pairs(x) =~= seq![bs[0]] + bs.drop_first());
        assert(seq![bs[0]] + bs.drop_first() =~= bs);
    }
}

/// The same save, keyed the same way on both machines: for an `ExtraData0`
/// file with a non-zero title ID, the title ID read remotely from the `xxd`
/// dump of its first eight bytes equals the one read locally from its bytes;
/// and such a dump can always be taken apart.
pub proof fn law_remote_title_matches_local(b: Seq<u8>)
    requires
        b.len() >= 0x24,
        le_u64(b) != 0,
    ensures
        title_hex_ok(xxd_hex(b.take(8))),
        extra_data_fields(b) matches Some((t, _)) && title_id_from_hex(xxd_hex(b.take(8))) == t,
{
    let h = xxd_hex(b.take(8));
    lemma_xxd_hex_ascii(b.take(8));
    vstd::utf8::is_ascii_chars_encode_utf8(h);
    let e = encode_utf8(h);
    assert(e =~= h.map_values(|c: char| c as u8));
    assert(e.len() == 16);
    lemma_hex_pairs_of_dump(b.take(8));
    assert(hex_pairs(e) == b.take(8));
    assert(le_u64(b.take(8)) == le_u64(b));
    assert forall|k: int| 0 <= k <= e.len() && k % 2 == 0 implies #[trigger] is_char_boundary(
        e,
        k,
    ) by {
        lemma_ascii_char_boundary(h, k);
    }
}

/// In the encoding of ASCII text every position is a character boundary.
proof fn lemma_ascii_char_boundary(h: Seq<char>, k: int)
    requires
        vstd::utf8::is_ascii_chars(h),
        0 <= k <= h.len(),
    ensures
        is_char_boundary(encode_utf8(h), k),
    decreases h.len(),
{
    vstd::utf8::is_ascii_chars_encode_utf8(h);
    vstd::utf8::encode_utf8_valid_utf8(h);
    let e = encode_utf8(h);
    if k == e.len() {
        vstd::utf8::is_char_boundary_start_end_of_seq(e);
    } else {
        vstd::utf8::is_char_boundary_iff_not_is_continuation_byte(e, k);
        assert(e[k] == h[k] as u8);
        assert('\0' <= h[k] <= '\u{7f}');
    }
}

/// The remote side keeps exactly the account saves, as the local side does:
/// the `xxd` dump of an `ExtraData0` file's save type bytes reads
/// `01000000` exactly when the save type is 1.
pub proof fn law_account_save_type_dump(b: Seq<u8>)
    requires
        b.len() >= 0x24,
    ensures
        (xxd_hex(b.subrange(0x20, 0x24)) == "01000000"@) <==> (le_u32(b.subrange(0x20, 0x24))
            == 1),
{
    reveal_strlit("01000000");
    let s = b.subrange(0x20, 0x24);
    let h = xxd_hex(s);
    let (b0, b1, b2, b3) = (s[0], s[1], s[2], s[3]);
    reveal_with_fuel(xxd_hex, 5);
    assert(s.drop_first()[0] == b1);
    assert(s.drop_first().drop_first()[0] == b2);
    assert(s.drop_first().drop_first().drop_first()[0] == b3);
    assert(s.drop_first().drop_first().drop_first().drop_first().len() == 0);
    assert(h =~= seq![
        hex_digit_lower(b0 / 16),
        hex_digit_lower(b0 % 16),
        hex_digit_lower(b1 / 16),
        hex_digit_lower(b1 % 16),
        hex_digit_lower(b2 / 16),
        hex_digit_lower(b2 % 16),
        hex_digit_lower(b3 / 16),
        hex_digit_lower(b3 % 16),
    ]);
    let lit = "01000000"@;
    assert(lit =~= seq!['0', '1', '0', '0', '0', '0', '0', '0']);
    let v: u32 = le_u32(s);
    assert(v == (b0 as u32) | ((b1 as u32) << 8u32) | ((b2 as u32) << 16u32) | ((b3 as u32)
        << 24u32));
    assert(v == 1 <==> (b0 == 1 && b1 == 0 && b2 == 0 && b3 == 0)) by (bit_vector)
        requires
            v == (b0 as u32) | ((b1 as u32) << 8u32) | ((b2 as u32) << 16u32) | ((b3 as u32)
                << 24u32),
    ;
    if h == lit {
        lemma_digit_lower_injective(b0 / 16, 0);
        lemma_digit_lower_injective(b0 % 16, 1);
        lemma_digit_lower_injective(b1 / 16, 0);
        lemma_digit_lower_injective(b1 % 16, 0);
        lemma_digit_lower_injective(b2 / 16, 0);
        lemma_digit_lower_injective(b2 % 16, 0);
        lemma_digit_lower_injective(b3 / 16, 0);
        lemma_digit_lower_injective(b3 % 16, 0);
    }
}

proof fn lemma_digit_lower_injective(d: u8, e: u8)
    requires
        d < 16,
        e < 16,
        hex_digit_lower(d) == hex_digit_lower(e),
    ensures
        d == e,
{
    lemma_hex_digit_lower(d);
    lemma_hex_digit_lower(e);
}

/// Newest save wins: by modification time a save is pushed only when the
/// local one is newer, pulled only when the remote one is newer, and left
/// alone when they are equally new.
pub proof fn law_newest_save_wins(local_mtime: u64, remote_mtime: u64)
    ensures
        chosen_direction(Direction::Auto, local_mtime, remote_mtime) == Some(Direction::Push)
            <==> local_mtime > remote_mtime,
        chosen_direction(Direction::Auto, local_mtime, remote_mtime) == Some(Direction::Pull)
            <==> remote_mtime > local_mtime,
        chosen_direction(Direction::Auto, local_mtime, remote_mtime) is None <==> local_mtime
            == remote_mtime,
{
}

/// The status of a title present on both machines announces what a sync by
/// modification time does with it: `push`, `pull`, or nothing when synced.
pub proof fn law_status_matches_sync(local_mtime: u64, remote_mtime: u64)
    ensures
        both_state(local_mtime, remote_mtime) == SaveState::Synced <==> chosen_direction(
            Direction::Auto,
            local_mtime,
            remote_mtime,
        ) is None,
        both_state(local_mtime, remote_mtime) == SaveState::Push <==> chosen_direction(
            Direction::Auto,
            local_mtime,
            remote_mtime,
        ) == Some(Direction::Push),
        both_state(local_mtime, remote_mtime) == SaveState::Pull <==> chosen_direction(
            Direction::Auto,
            local_mtime,
            remote_mtime,
        ) == Some(Direction::Pull),
{
}

/// A forced direction copies every save present on both machines that way.
pub proof fn law_forced_direction(direction: Direction, local_mtime: u64, remote_mtime: u64)
    requires
        direction != Direction::Auto,
    ensures
        chosen_direction(direction, local_mtime, remote_mtime) == Some(direction),
{
}

/// A save map never holds a title twice, whatever the listing.
pub proof fn law_remote_titles_distinct(ls: Seq<Seq<char>>)
    ensures
        titles_distinct(remote_records(ls)),
    decreases ls.len(),
{
    if ls.len() > 0 {
        law_remote_titles_distinct(ls.drop_last());
        match remote_line_record(ls.last()) {
            Some(r) => {
                lemma_insert_record(remote_records(ls.drop_last()), r);
            },
            None => {},
        }
    }
}

/// A later listing line for a title replaces what earlier lines said about
/// it, and leaves the other titles alone.
pub proof fn law_later_listing_line_wins(ls: Seq<Seq<char>>, line: Seq<char>)
    requires
        remote_line_record(line) is Some,
    ensures
        ({
            let r = remote_line_record(line)->0;
            &&& record_for(remote_records(ls.push(line)), r.0) == Some((r.1, r.2))
            &&& forall|t: Seq<char>|
                t != r.0 ==> record_for(remote_records(ls.push(line)), t) == record_for(
                    remote_records(ls),
                    t,
                )
        }),
{
    law_remote_titles_distinct(ls);
    assert(ls.push(line).drop_last() =~= ls);
    lemma_insert_record(remote_records(ls), remote_line_record(line)->0);
}


/// A shader cache sync copies the `games` directories the way it is told:
/// a forced push has the local directory as the source and the remote one as
/// the destination of its one run, a forced pull the reverse, and a sync by
/// time pushes and then pulls.
pub proof fn law_shader_sync_direction(
    local_root: Seq<char>,
    remote_root: Seq<char>,
    ssh_target: Seq<char>,
    ex: Seq<Seq<char>>,
    dry_run: bool,
)
    ensures
        ({
            let local_games = (local_root + "/games"@).push('/');
            let remote_games = (ssh_target.push(':') + remote_root + "/games"@).push('/');
            let push = shader_calls(local_root, remote_root, ssh_target, ex, Direction::Push, dry_run);
            let pull = shader_calls(local_root, remote_root, ssh_target, ex, Direction::Pull, dry_run);
            let auto = shader_calls(local_root, remote_root, ssh_target, ex, Direction::Auto, dry_run);
            &&& push.len() == 1
            &&& push[0][push[0].len() - 2] == local_games && push[0].last() == remote_games
            &&& pull.len() == 1
            &&& pull[0][pull[0].len() - 2] == remote_games && pull[0].last() == local_games
            &&& auto.len() == 2
            &&& auto[0][auto[0].len() - 2] == local_games && auto[0].last() == remote_games
            &&& auto[1][auto[1].len() - 2] == remote_games && auto[1].last() == local_games
        }),
{
}

/// The fixed rsync options and an exclude option are never `-n`.
proof fn lemma_not_dry_flag(e: Seq<char>)
    ensures
        "-rvltDP"@ != "-n"@,
        "--no-perms"@ != "-n"@,
        "--no-owner"@ != "-n"@,
        "--no-group"@ != "-n"@,
        "--exclude="@ + e != "-n"@,
{
    reveal_strlit("-rvltDP");
    reveal_strlit("--no-perms");
    reveal_strlit("--no-owner");
    reveal_strlit("--no-group");
    reveal_strlit("--exclude=");
    reveal_strlit("-n");
    assert(("--exclude="@ + e).len() != 2);
    assert("-rvltDP"@.len() != 2);
    assert("--no-perms"@.len() != 2);
    assert("--no-owner"@.len() != 2);
    assert("--no-group"@.len() != 2);
}

/// A dry run never transfers a save: a save copy planned for a dry run passes
/// rsync `-n`, and one planned for a real run does not, whichever way it
/// goes.
pub proof fn law_save_dry_run(it: SavePlanItem, rec: SaveRecord, remote: Seq<SaveRecord>, local_root: Seq<
    char,
>, remote_root: Seq<char>, ssh_target: Seq<char>, direction: Direction, dry_run: bool)
    requires
        plan_item_ok(it, rec, remote, local_root, remote_root, ssh_target, direction, dry_run),
    ensures
        it.action matches SaveAction::Transfer(_, c) ==> (c@.contains("-n"@) <==> dry_run),
{
    if let SaveAction::Transfer(d, c) = it.action {
        let a = c@;
        lemma_not_dry_flag(".lock"@);
        reveal_strlit("-n");
        let n = if dry_run {
            5int
        } else {
            4int
        };
        assert(a.len() == n + 3);
        if dry_run {
            assert(a[4] == "-n"@);
        } else {
            assert forall|k: int| 0 <= k < a.len() implies a[k] != "-n"@ by {
                if k == a.len() - 1 || k == a.len() - 2 {
                    assert(a[k].last() == '/');
                    assert("-n"@.last() == 'n');
                }
            }
        }
    }
}

/// Only account saves are taken: the title of an `ExtraData0` file is taken
/// exactly when the file has its 0x24 bytes, a non-zero title ID, and save
/// type bytes `01 00 00 00` at 0x20..0x24; the title is then the title ID
/// (bytes 0..8, little-endian) in upper-case hex.
pub proof fn law_account_saves_only(b: Seq<u8>)
    ensures
        account_save_title_spec(b) is Some <==> (b.len() >= 0x24 && le_u64(b) != 0 && b[0x20] == 1
            && b[0x21] == 0 && b[0x22] == 0 && b[0x23] == 0),
        account_save_title_spec(b) is Some ==> account_save_title_spec(b) == Some(
            hex16_upper(le_u64(b)),
        ),
{
    if b.len() >= 0x24 {
        let s = b.subrange(0x20, 0x24);
        let (b0, b1, b2, b3) = (s[0], s[1], s[2], s[3]);
        let v: u32 = le_u32(s);
        assert(v == (b0 as u32) | ((b1 as u32) << 8u32) | ((b2 as u32) << 16u32) | ((b3 as u32)
            << 24u32));
        assert(v == 1 <==> (b0 == 1 && b1 == 0 && b2 == 0 && b3 == 0)) by (bit_vector)
            requires
                v == (b0 as u32) | ((b1 as u32) << 8u32) | ((b2 as u32) << 16u32) | ((b3 as u32)
                    << 24u32),
        ;
    }
}

/// The listing script dumps the title ID from the first 8 bytes of
/// `ExtraData0`, and the save type from the 4 bytes at offset 0x20, the bytes
/// that `extra_data_fields` reads; so with `law_account_save_type_dump` a
/// remote line shows `01000000` exactly when the folder holds an account
/// save.
pub proof fn law_listing_reads_the_save_type(ryujinx_path: Seq<char>)
    ensures
        contains_seq(
            remote_save_script_spec(ryujinx_path),
            "tid=$(xxd -p -l "@ + decimal_repr(8) + " \"$f\")"@,
        ),
        contains_seq(
            remote_save_script_spec(ryujinx_path),
            "stype=$(xxd -p -s "@ + decimal_repr(0x20) + " -l "@ + decimal_repr(4) + " \"$f\")"@,
        ),
{
    let head = "for d in '"@ + ryujinx_path;
    let tail = "/bis/user/save'/*/; do\n  f=\"${d}ExtraData0\"\n  if [ -f \"$f\" ]; then\n    tid=$(xxd -p -l 8 \"$f\")\n    stype=$(xxd -p -s 32 -l 4 \"$f\")\n    newest=$( (find \"$d\" -type f -exec stat -c %Y {} + 2>/dev/null || find \"$d\" -type f -exec stat -f %m {} + 2>/dev/null) | sort -rn | head -1)\n    echo \"$(basename \"$d\")|$tid|$stype|${newest:-0}\"\n  fi\ndone"@;
    assert(remote_save_script_spec(ryujinx_path) == head + tail);
    reveal_strlit("/bis/user/save'/*/; do\n  f=\"${d}ExtraData0\"\n  if [ -f \"$f\" ]; then\n    tid=$(xxd -p -l 8 \"$f\")\n    stype=$(xxd -p -s 32 -l 4 \"$f\")\n    newest=$( (find \"$d\" -type f -exec stat -c %Y {} + 2>/dev/null || find \"$d\" -type f -exec stat -f %m {} + 2>/dev/null) | sort -rn | head -1)\n    echo \"$(basename \"$d\")|$tid|$stype|${newest:-0}\"\n  fi\ndone");
    reveal_strlit("tid=$(xxd -p -l ");
    reveal_strlit(" \"$f\")");
    reveal_strlit("stype=$(xxd -p -s ");
    reveal_strlit(" -l ");
    reveal_with_fuel(decimal_repr, 2);
    let t = "tid=$(xxd -p -l "@ + decimal_repr(8) + " \"$f\")"@;
    let u = "stype=$(xxd -p -s "@ + decimal_repr(0x20) + " -l "@ + decimal_repr(4) + " \"$f\")"@;
    assert(tail.subrange(71, 71 + t.len() as int) =~= t);
    assert(tail.subrange(99, 99 + u.len() as int) =~= u);
    lemma_contains_in_tail(head, tail, t, 71);
    lemma_contains_in_tail(head, tail, u, 99);
}

proof fn lemma_contains_in_tail(head: Seq<char>, tail: Seq<char>, p: Seq<char>, k: int)
    requires
        0 <= k && k + p.len() <= tail.len(),
        tail.subrange(k, k + p.len()) == p,
    ensures
        contains_seq(head + tail, p),
{
    let i = head.len() + k;
    assert((head + tail).subrange(i, i + p.len()) =~= p);
}

/// A dry run never transfers shader caches: every run passes `-n` exactly
/// when the sync is a dry run.
pub proof fn law_shader_dry_run(
    local_root: Seq<char>,
    remote_root: Seq<char>,
    ssh_target: Seq<char>,
    ex: Seq<Seq<char>>,
    direction: Direction,
    dry_run: bool,
)
    ensures
        forall|i: int|
            0 <= i < shader_calls(local_root, remote_root, ssh_target, ex, direction, dry_run).len()
                ==> (#[trigger] shader_calls(
                local_root,
                remote_root,
                ssh_target,
                ex,
                direction,
                dry_run,
            )[i]).contains("-n"@) == dry_run,
{
    let l = (local_root + "/games"@).push('/');
    let r = remote_spec(ssh_target, remote_root + "/games"@).push('/');
    let x = shader_excludes(ex);
    let f = shader_filter();
    let fu = shader_filter() + seq!["--update"@];
    reveal_strlit("--include=*/");
    reveal_strlit("--include=guest.*");
    reveal_strlit("--include=shared.*");
    reveal_strlit("--exclude=*");
    reveal_strlit("--update");
    reveal_strlit("-n");
    assert(!f.contains("-n"@)) by {
        if f.contains("-n"@) {
            let k = choose|k: int| 0 <= k < f.len() && f[k] == "-n"@;
            assert(f[k].len() != 2);
        }
    }
    assert(!fu.contains("-n"@)) by {
        if fu.contains("-n"@) {
            let k = choose|k: int| 0 <= k < fu.len() && fu[k] == "-n"@;
            assert(fu[k].len() != 2);
        }
    }
    lemma_dry_run_flag(l, r, f, x, dry_run);
    lemma_dry_run_flag(r, l, f, x, dry_run);
    lemma_dry_run_flag(l, r, fu, x, dry_run);
    lemma_dry_run_flag(r, l, fu, x, dry_run);
}

} // verus!
