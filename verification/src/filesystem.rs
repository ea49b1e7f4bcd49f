//! The filesystem table component: turns a configured list of mounts and the
//! machine's mount statistics into display rows and bar widths. Gathering the
//! statistics and printing stay with the caller; everything that computes is
//! here.

use vstd::prelude::*;

verus! {

/// Width of one indentation step in display columns.
pub const INDENT_WIDTH: usize = 2;

/// Why the filesystem component cannot render.
#[derive(Debug, PartialEq)]
pub enum FilesystemsError {
    /// The filesystems configuration block is present but empty.
    ConfigEmtpy,
    /// A configured mount point is not among the machine's mounts.
    MountNotFound { mount_point: String },
    /// Reading the machine's mounts failed; the message says how.
    IO(String),
}

/// The mathematical model of a [`FilesystemsError`].
pub ghost enum FsErrorV {
    ConfigEmtpy,
    MountNotFound { mount_point: Seq<char> },
    IO(Seq<char>),
}

impl View for FilesystemsError {
    type V = FsErrorV;

    open spec fn view(&self) -> FsErrorV {
        match self {
            FilesystemsError::ConfigEmtpy => FsErrorV::ConfigEmtpy,
            FilesystemsError::MountNotFound { mount_point } => FsErrorV::MountNotFound {
                mount_point: mount_point@,
            },
            FilesystemsError::IO(m) => FsErrorV::IO(m@),
        }
    }
}

/// The filesystems configuration: display name and mount point pairs, in
/// configuration order.
pub type FilesystemsCfg = Vec<(String, String)>;

/// One mounted filesystem's statistics, as plain values.
#[derive(Debug, PartialEq)]
pub struct MountInfo {
    pub fs_mounted_from: String,
    pub fs_mounted_on: String,
    pub fs_type: String,
    pub total: u64,
    pub avail: u64,
}

/// The mathematical model of a [`MountInfo`].
pub ghost struct MountV {
    pub fs_mounted_from: Seq<char>,
    pub fs_mounted_on: Seq<char>,
    pub fs_type: Seq<char>,
    pub total: u64,
    pub avail: u64,
}

impl View for MountInfo {
    type V = MountV;

    open spec fn view(&self) -> MountV {
        MountV {
            fs_mounted_from: self.fs_mounted_from@,
            fs_mounted_on: self.fs_mounted_on@,
            fs_type: self.fs_type@,
            total: self.total,
            avail: self.avail,
        }
    }
}

/// One display row of the filesystem table.
#[derive(Debug, PartialEq)]
pub struct Entry {
    pub filesystem_name: String,
    pub dev: String,
    pub mount_point: String,
    pub fs_type: String,
    pub used: String,
    pub total: String,
    pub used_bytes: u64,
    pub total_bytes: u64,
}

/// The mathematical model of an [`Entry`].
pub ghost struct EntryV {
    pub filesystem_name: Seq<char>,
    pub dev: Seq<char>,
    pub mount_point: Seq<char>,
    pub fs_type: Seq<char>,
    pub used: Seq<char>,
    pub total: Seq<char>,
    pub used_bytes: u64,
    pub total_bytes: u64,
}

impl View for Entry {
    type V = EntryV;

    open spec fn view(&self) -> EntryV {
        EntryV {
            filesystem_name: self.filesystem_name@,
            dev: self.dev@,
            mount_point: self.mount_point@,
            fs_type: self.fs_type@,
            used: self.used@,
            total: self.total@,
            used_bytes: self.used_bytes,
            total_bytes: self.total_bytes,
        }
    }
}

/// How a byte count reads when humanized, e.g. with a binary unit suffix.
pub uninterp spec fn bytesize_display(n: u64) -> Seq<char>;

/// Relies on bytesize's `ByteSize` display: the rendering is a function of
/// the byte count alone.
#[verifier::external_body]
fn display_bytes(n: u64) -> (r: String)
    ensures
        r@ == bytesize_display(n),
{
    bytesize::ByteSize::b(n).to_string()
}

/// What the row built from a name and one mount's statistics holds.
pub open spec fn spec_entry(name: Seq<char>, m: MountV) -> EntryV {
    EntryV {
        filesystem_name: name,
        dev: m.fs_mounted_from,
        mount_point: m.fs_mounted_on,
        fs_type: m.fs_type,
        used: bytesize_display((m.total - m.avail) as u64),
        total: bytesize_display(m.total),
        used_bytes: (m.total - m.avail) as u64,
        total_bytes: m.total,
    }
}

/// Builds one display row from a mount's statistics: the used amount is what
/// is not available, and the used and total columns show it humanized.
pub fn parse_into_entry(filesystem_name: String, mount: &MountInfo) -> (e: Entry)
    requires
        mount.avail <= mount.total,
    ensures
        e@ == spec_entry(filesystem_name@, mount@),
{
    let used = mount.total - mount.avail;
    Entry {
        filesystem_name,
        dev: mount.fs_mounted_from.clone(),
        mount_point: mount.fs_mounted_on.clone(),
        fs_type: mount.fs_type.clone(),
        used: display_bytes(used),
        total: display_bytes(mount.total),
        used_bytes: used,
        total_bytes: mount.total,
    }
}

/// The mount whose mount point is `mp`, the last one when several match,
/// mirroring a map built from the mounts in order; `None` when none matches.
pub open spec fn spec_find_mount(ms: Seq<MountInfo>, mp: Seq<char>) -> Option<MountInfo>
    decreases ms.len(),
{
    if ms.len() == 0 {
        None
    } else if ms.last().fs_mounted_on@ == mp {
        Some(ms.last())
    } else {
        spec_find_mount(ms.drop_last(), mp)
    }
}

/// What building all rows yields: the first configured mount point with no
/// matching mount fails the whole table.
pub open spec fn spec_build_entries(cfg: Seq<(String, String)>, ms: Seq<MountInfo>) -> Result<
    Seq<EntryV>,
    FsErrorV,
>
    decreases cfg.len(),
{
    if cfg.len() == 0 {
        Ok(Seq::empty())
    } else {
        match spec_build_entries(cfg.drop_last(), ms) {
            Err(e) => Err(e),
            Ok(s) => match spec_find_mount(ms, cfg.last().1@) {
                None => Err(FsErrorV::MountNotFound { mount_point: cfg.last().1@ }),
                Some(m) => Ok(s.push(spec_entry(cfg.last().0@, m@))),
            },
        }
    }
}

proof fn lemma_build_err_extends(cfg: Seq<(String, String)>, ms: Seq<MountInfo>, i: int)
    requires
        0 <= i <= cfg.len(),
        spec_build_entries(cfg.take(i), ms) is Err,
    ensures
        spec_build_entries(cfg, ms) == spec_build_entries(cfg.take(i), ms),
    decreases cfg.len() - i,
{
    if i == cfg.len() {
        assert(cfg.take(i) =~= cfg);
    } else {
        assert(cfg.take(i + 1).drop_last() =~= cfg.take(i));
        lemma_build_err_extends(cfg, ms, i + 1);
    }
}

/// Finds the mount with the given mount point, the last one when several
/// match.
pub fn find_mount<'a>(mounts: &'a Vec<MountInfo>, mount_point: &str) -> (r: Option<&'a MountInfo>)
    ensures
        r matches Some(m) ==> spec_find_mount(mounts@, mount_point@) == Some(*m),
        r is None ==> spec_find_mount(mounts@, mount_point@) is None,
{
    let mut found: Option<&MountInfo> = None;
    let mut i: usize = 0;
    proof {
        assert(mounts@.take(0) =~= Seq::<MountInfo>::empty());
    }
    while i < mounts.len()
        invariant
            i <= mounts@.len(),
            found matches Some(m) ==> spec_find_mount(mounts@.take(i as int), mount_point@)
                == Some(*m),
            found is None ==> spec_find_mount(mounts@.take(i as int), mount_point@) is None,
        decreases mounts@.len() - i,
    {
        proof {
            assert(mounts@.take(i + 1).drop_last() =~= mounts@.take(i as int));
            assert(mounts@.take(i + 1).last() == mounts@[i as int]);
        }
        if crate::document::str_eq(mounts[i].fs_mounted_on.as_str(), mount_point) {
            found = Some(&mounts[i]);
        }
        i += 1;
    }
    proof {
        assert(mounts@.take(mounts@.len() as int) =~= mounts@);
    }
    found
}

/// The views of a sequence of rows.
pub open spec fn entries_view(s: Seq<Entry>) -> Seq<EntryV> {
    s.map_values(|e: Entry| e@)
}

/// Builds the display rows for a filesystems configuration: one row per
/// configured name, in configuration order, each from the last mount whose
/// mount point matches. An empty configuration is refused; a missing mount
/// fails the whole table with its mount point named.
pub fn build_entries(config: &FilesystemsCfg, mounts: &Vec<MountInfo>) -> (r: Result<
    Vec<Entry>,
    FilesystemsError,
>)
    requires
        forall|i: int| 0 <= i < mounts@.len() ==> mounts@[i].avail <= mounts@[i].total,
    ensures
        config@.len() == 0 ==> (r matches Err(e) && e@ == FsErrorV::ConfigEmtpy),
        config@.len() > 0 ==> {
            &&& (r is Ok) == (spec_build_entries(config@, mounts@) is Ok)
            &&& (r matches Ok(es) ==> entries_view(es@) == spec_build_entries(
                config@,
                mounts@,
            )->Ok_0)
            &&& (r matches Err(e) ==> e@ == spec_build_entries(config@, mounts@)->Err_0)
        },
{
    if config.len() == 0 {
        return Err(FilesystemsError::ConfigEmtpy);
    }
    let mut out: Vec<Entry> = Vec::new();
    let mut i: usize = 0;
    proof {
        assert(config@.take(0) =~= Seq::<(String, String)>::empty());
        assert(entries_view(out@) =~= Seq::<EntryV>::empty());
    }
    while i < config.len()
        invariant
            i <= config@.len(),
            forall|j: int| 0 <= j < mounts@.len() ==> mounts@[j].avail <= mounts@[j].total,
            spec_build_entries(config@.take(i as int), mounts@) == Ok::<_, FsErrorV>(
                entries_view(out@),
            ),
        decreases config@.len() - i,
    {
        proof {
            assert(config@.take(i + 1).drop_last() =~= config@.take(i as int));
            assert(config@.take(i + 1).last() == config@[i as int]);
        }
        match find_mount(mounts, config[i].1.as_str()) {
            None => {
                let mount_point = config[i].1.clone();
                proof {
                    lemma_build_err_extends(config@, mounts@, i + 1);
                }
                return Err(FilesystemsError::MountNotFound { mount_point });
            },
            Some(m) => {
                proof {
                    lemma_find_mount_member(mounts@, config@[i as int].1@);
                    let j = choose|j: int|
                        0 <= j < mounts@.len() && mounts@[j] == spec_find_mount(
                            mounts@,
                            config@[i as int].1@,
                        )->Some_0;
                    assert(mounts@[j].avail <= mounts@[j].total);
                }
                let name = config[i].0.clone();
                let ghost prev = out@;
                let entry = parse_into_entry(name, m);
                out.push(entry);
                proof {
                    assert(entries_view(out@) =~= entries_view(prev).push(out@.last()@));
                }
            },
        }
        i += 1;
    }
    proof {
        assert(config@.take(config@.len() as int) =~= config@);
    }
    Ok(out)
}

/// The header width of column `j` of the table, in characters.
pub open spec fn header_width(j: int) -> int {
    if j == 0 {
        11  // "Filesystems"
    } else if j == 1 {
        6  // "Device"
    } else if j == 2 {
        5  // "Mount"
    } else if j == 3 {
        4  // "Type"
    } else if j == 4 {
        4  // "Used"
    } else {
        5  // "Total"
    }
}

/// The width row `e` asks of column `j`: the field's length, plus one
/// indentation step for the name column.
pub open spec fn col_width(e: EntryV, j: int) -> int {
    if j == 0 {
        e.filesystem_name.len() + INDENT_WIDTH
    } else if j == 1 {
        e.dev.len() as int
    } else if j == 2 {
        e.mount_point.len() as int
    } else if j == 3 {
        e.fs_type.len() as int
    } else if j == 4 {
        e.used.len() as int
    } else {
        e.total.len() as int
    }
}

/// The width of column `j` over all rows: the largest of the header's width
/// and every row's.
pub open spec fn col_max(es: Seq<EntryV>, j: int) -> int
    decreases es.len(),
{
    if es.len() == 0 {
        header_width(j)
    } else {
        let rest = col_max(es.drop_last(), j);
        if col_width(es.last(), j) > rest {
            col_width(es.last(), j)
        } else {
            rest
        }
    }
}

/// Computes the six column widths of the table: for each column, the largest
/// of the header's width and every row's.
pub fn column_sizes(entries: &Vec<Entry>) -> (r: Vec<usize>)
    requires
        forall|i: int|
            0 <= i < entries@.len() ==> entries@[i].filesystem_name@.len() + INDENT_WIDTH
                <= usize::MAX,
    ensures
        r@.len() == 6,
        forall|j: int| 0 <= j < 6 ==> r@[j] == col_max(entries_view(entries@), j),
{
    let mut r: Vec<usize> = Vec::new();
    let mut j: usize = 0;
    while j < 6
        invariant
            j <= 6,
            r@.len() == j,
            forall|i: int|
                0 <= i < entries@.len() ==> entries@[i].filesystem_name@.len() + INDENT_WIDTH
                    <= usize::MAX,
            forall|jj: int| 0 <= jj < j ==> r@[jj] == col_max(entries_view(entries@), jj),
        decreases 6 - j,
    {
        let mut cur: usize = match j {
            0 => 11,
            1 => 6,
            2 => 5,
            3 => 4,
            4 => 4,
            _ => 5,
        };
        let mut i: usize = 0;
        proof {
            assert(entries_view(entries@.take(0)) =~= Seq::<EntryV>::empty());
        }
        while i < entries.len()
            invariant
                i <= entries@.len(),
                j < 6,
                forall|ii: int|
                    0 <= ii < entries@.len() ==> entries@[ii].filesystem_name@.len() + INDENT_WIDTH
                        <= usize::MAX,
                cur == col_max(entries_view(entries@.take(i as int)), j as int),
            decreases entries@.len() - i,
        {
            proof {
                assert(entries_view(entries@.take(i + 1)).drop_last() =~= entries_view(
                    entries@.take(i as int),
                ));
                assert(entries_view(entries@.take(i + 1)).last() == entries@[i as int]@);
            }
            let e = &entries[i];
            let w: usize = match j {
                0 => e.filesystem_name.unicode_len() + INDENT_WIDTH,
                1 => e.dev.unicode_len(),
                2 => e.mount_point.unicode_len(),
                3 => e.fs_type.unicode_len(),
                4 => e.used.unicode_len(),
                _ => e.total.unicode_len(),
            };
            if w > cur {
                cur = w;
            }
            i += 1;
        }
        proof {
            assert(entries@.take(entries@.len() as int) =~= entries@);
        }
        r.push(cur);
        j += 1;
    }
    r
}

/// A run of `n` spaces.
pub open spec fn spaces(n: int) -> Seq<char> {
    Seq::new(n as nat, |i: int| ' ')
}

/// `s` padded on the right with spaces to width `w`; a longer `s` is kept.
pub open spec fn pad_to(s: Seq<char>, w: int) -> Seq<char> {
    if s.len() >= w {
        s
    } else {
        s + spaces(w - s.len())
    }
}

/// Pads a string on the right with spaces to the given width.
pub fn pad_to_width(s: &str, w: usize) -> (r: String)
    ensures
        r@ == pad_to(s@, w as int),
{
    let mut r = String::from_str(s);
    let mut n = s.unicode_len();
    if n >= w {
        return r;
    }
    while n < w
        invariant
            s@.len() <= n <= w,
            r@ == s@ + spaces(n - s@.len()),
        decreases w - n,
    {
        let ghost prev = r@;
        r.append(" ");
        n += 1;
        proof {
            reveal_strlit(" ");
            assert(r@ =~= s@ + spaces(n - s@.len()));
        }
    }
    proof {
        assert(s@ + spaces(0) =~= s@);
    }
    r
}

/// The separator between two columns: one indentation step of spaces.
pub open spec fn column_sep() -> Seq<char> {
    spaces(INDENT_WIDTH as int)
}

/// What one formatted row reads from position `i` on: each item padded to its
/// column's width, with the separator between neighbours.
pub open spec fn spec_row(items: Seq<String>, sizes: Seq<usize>, i: int) -> Seq<char>
    decreases items.len() - i,
{
    if i < 0 || i >= items.len() {
        Seq::empty()
    } else {
        let piece = pad_to(items[i]@, sizes[i] as int);
        if i + 1 < items.len() {
            piece + column_sep() + spec_row(items, sizes, i + 1)
        } else {
            piece
        }
    }
}

/// Formats one row of the table: each item padded to its column's width,
/// with one indentation step of spaces between columns.
pub fn format_row(items: &Vec<String>, sizes: &Vec<usize>) -> (r: String)
    requires
        items@.len() == sizes@.len(),
    ensures
        r@ == spec_row(items@, sizes@, 0),
{
    let mut r = String::new();
    let mut i: usize = 0;
    proof {
        assert(r@ + spec_row(items@, sizes@, 0) =~= spec_row(items@, sizes@, 0));
    }
    while i < items.len()
        invariant
            i <= items@.len(),
            items@.len() == sizes@.len(),
            spec_row(items@, sizes@, 0) == r@ + spec_row(items@, sizes@, i as int),
        decreases items@.len() - i,
    {
        let piece = pad_to_width(items[i].as_str(), sizes[i]);
        let ghost prev = r@;
        r.append(piece.as_str());
        if i + 1 < items.len() {
            r.append("  ");
            proof {
                reveal_strlit("  ");
                assert("  "@ =~= column_sep());
                assert(r@ + spec_row(items@, sizes@, i + 1) =~= prev + spec_row(
                    items@,
                    sizes@,
                    i as int,
                ));
            }
        } else {
            proof {
                assert(r@ + spec_row(items@, sizes@, i + 1) =~= prev + spec_row(
                    items@,
                    sizes@,
                    i as int,
                ));
            }
        }
        i += 1;
    }
    proof {
        assert(r@ + spec_row(items@, sizes@, items@.len() as int) =~= r@);
    }
    r
}

/// The sum of all column widths.
pub open spec fn sum_widths(s: Seq<usize>) -> int
    decreases s.len(),
{
    if s.len() == 0 {
        0
    } else {
        sum_widths(s.drop_last()) + s.last()
    }
}

/// The width of the usage bar between its prefix and suffix: the row width
/// (all six columns and the separators between the five indented ones) minus
/// the prefix and suffix, or `None` when that is no representable width.
pub fn bar_width(sizes: &Vec<usize>, prefix_len: usize, suffix_len: usize) -> (r: Option<usize>)
    requires
        sizes@.len() == 6,
    ensures
        ({
            let total = sum_widths(sizes@) + 4 * (INDENT_WIDTH as int) - prefix_len - suffix_len;
            &&& (r matches Some(w) ==> w == total)
            &&& (r is Some) == (0 <= total <= usize::MAX)
        }),
{
    let mut acc: u128 = 0;
    let mut i: usize = 0;
    proof {
        assert(sizes@.take(0) =~= Seq::<usize>::empty());
    }
    while i < 6
        invariant
            i <= 6,
            sizes@.len() == 6,
            acc == sum_widths(sizes@.take(i as int)),
            acc <= (i as int) * (usize::MAX as int),
        decreases 6 - i,
    {
        proof {
            assert(sizes@.take(i + 1).drop_last() =~= sizes@.take(i as int));
            assert(sizes@.take(i + 1).last() == sizes@[i as int]);
        }
        acc = acc + (sizes[i] as u128);
        i += 1;
    }
    proof {
        assert(sizes@.take(6) =~= sizes@);
    }
    let total: i128 = (acc as i128) + 4 * (INDENT_WIDTH as i128) - (prefix_len as i128) - (
    suffix_len as i128);
    if total >= 0 && total <= (usize::MAX as i128) {
        Some(total as usize)
    } else {
        None
    }
}

proof fn lemma_find_mount_member(ms: Seq<MountInfo>, mp: Seq<char>)
    requires
        spec_find_mount(ms, mp) is Some,
    ensures
        exists|j: int| 0 <= j < ms.len() && ms[j] == spec_find_mount(ms, mp)->Some_0,
    decreases ms.len(),
{
    if ms.len() > 0 {
        if ms.last().fs_mounted_on@ == mp {
            assert(ms[ms.len() - 1] == spec_find_mount(ms, mp)->Some_0);
        } else {
            lemma_find_mount_member(ms.drop_last(), mp);
            let j = choose|j: int|
                0 <= j < ms.drop_last().len() && ms.drop_last()[j] == spec_find_mount(
                    ms.drop_last(),
                    mp,
                )->Some_0;
            assert(ms[j] == spec_find_mount(ms, mp)->Some_0);
        }
    }
}

} // verus!
