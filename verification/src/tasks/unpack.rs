//! Unpacking a downloaded archive: what is removed, created and written, and
//! in which order. The archive formats are read by the `zip`, `bzip2` and
//! `tar` crates; the library decides what becomes of each entry.
use vstd::prelude::*;
use crate::path::{join, join_spec, parent, path_parent};
use crate::tasks::file_task::{zip_entry_skipped_spec, zip_root_name_spec, FileTask};
use crate::text::{str_eq, trim, trim_spec};

verus! {

/// One entry of a zip archive: its name, whether it is a directory, its Unix
/// mode where the archive records one, and its content (`None` where the
/// content could not be read).
pub struct ZipEntry {
    pub name: String,
    pub is_dir: bool,
    pub unix_mode: Option<u32>,
    pub data: Option<Vec<u8>>,
}

/// A zip entry as plain values.
pub open spec fn zip_entry_view(e: ZipEntry) -> (Seq<char>, bool, Option<u32>, Option<Seq<u8>>) {
    (
        e.name@,
        e.is_dir,
        e.unix_mode,
        match e.data {
            Some(d) => Some(d@),
            None => None,
        },
    )
}

/// The entries of a zip archive, `None` when the archive or one of its
/// entry headers cannot be read.
pub uninterp spec fn zip_entries_of(archive: Seq<u8>) -> Option<
    Seq<(Seq<char>, bool, Option<u32>, Option<Seq<u8>>)>,
>;

/// Trusted: reads `archive` with `zip::ZipArchive::new`, then each entry in
/// order with `by_index`, taking `name`, `is_dir`, `unix_mode` and the
/// content (`read_to_end`). The result is only named: it depends on the
/// archive's bytes alone.
#[verifier::external_body]
fn zip_entries(archive: &[u8]) -> (r: Option<Vec<ZipEntry>>)
    ensures
        r is None <==> zip_entries_of(archive@) is None,
        r matches Some(v) ==> v@.map_values(|e: ZipEntry| zip_entry_view(e)) == zip_entries_of(
            archive@,
        )->0,
{
    let mut zip = zip::ZipArchive::new(std::io::Cursor::new(archive)).ok()?;
    (0..zip.len()).map(|i| {
        let mut f = zip.by_index(i).ok()?;
        let mut data: Vec<u8> = Vec::new();
        let read = std::io::Read::read_to_end(&mut f, &mut data).is_ok();
        let data = if read { Some(data) } else { None };
        Some(ZipEntry { name: f.name().to_string(), is_dir: f.is_dir(), unix_mode: f.unix_mode(), data })
    }).collect()
}

/// One entry of a tar archive: its path and the link name its header holds.
pub struct TarEntry {
    pub path: String,
    pub link_name: Option<String>,
}

/// A tar entry as plain values.
pub open spec fn tar_entry_view(e: TarEntry) -> (Seq<char>, Option<Seq<char>>) {
    (
        e.path@,
        match e.link_name {
            Some(l) => Some(l@),
            None => None,
        },
    )
}

/// The entries of a bzip2-compressed tar archive that could be read, in
/// order, and whether the whole archive could be read.
pub uninterp spec fn tar_bz2_entries_of(archive: Seq<u8>) -> (
    Seq<(Seq<char>, Option<Seq<char>>)>,
    bool,
);

/// Trusted: decompresses `archive` with `bzip2::read::BzDecoder` and walks
/// it with `tar::Archive::entries`, taking each entry's `path` and its
/// `link_name` (none where that cannot be read), up to the first entry or
/// path that cannot be read. The result is only named. Paths and link names
/// are held as text: bytes that are not UTF-8 are replaced
/// (`to_string_lossy`), so such a name is written differently from the
/// bytes the archive holds.
#[verifier::external_body]
fn tar_bz2_entries(archive: &[u8]) -> (r: (Vec<TarEntry>, bool))
    ensures
        (r.0@.map_values(|e: TarEntry| tar_entry_view(e)), r.1) == tar_bz2_entries_of(archive@),
{
    let mut tar = tar::Archive::new(bzip2::read::BzDecoder::new(archive));
    let mut out: Vec<TarEntry> = Vec::new();
    let entries = match tar.entries() { Ok(e) => e, Err(_) => return (out, false) };
    for entry in entries {
        let e = match entry { Ok(e) => e, Err(_) => return (out, false) };
        let path = match e.path() { Ok(p) => p.to_string_lossy().into_owned(), Err(_) => return (out, false) };
        let link_name = e.link_name().ok().flatten().map(|l| l.to_string_lossy().into_owned());
        out.push(TarEntry { path, link_name });
    }
    (out, true)
}

/// The text that UTF-8 bytes encode, `None` when they are not UTF-8.
pub uninterp spec fn utf8_text_of(bytes: Seq<u8>) -> Option<Seq<char>>;

/// Trusted: `std::str::from_utf8`. The result is named; bytes that are all
/// ASCII are documented to be valid UTF-8, one character per byte.
#[verifier::external_body]
fn utf8_text(bytes: &[u8]) -> (r: Option<String>)
    ensures
        crate::path::opt_view(r) == utf8_text_of(bytes@),
        (forall|k: int| 0 <= k < bytes@.len() ==> bytes@[k] < 128) ==> crate::path::opt_view(r)
            == Some(bytes@.map_values(|b: u8| b as char)),
{
    match std::str::from_utf8(bytes) {
        Ok(s) => Some(s.to_string()),
        Err(_) => None,
    }
}

/// One thing unpacking does, in order; the first failing step ends it.
pub enum UnpackStep {
    /// Remove this file or directory tree; failing to is no error.
    Remove(String),
    /// Create this directory and its missing parents.
    CreateDir(String),
    /// Put a symbolic link to `target` at `path`, replacing a file there.
    Symlink { path: String, target: String },
    /// Write this content to the file at `path`.
    WriteFile { path: String, data: Vec<u8> },
    /// Unpack entry `index` of the archive to `path`, with its permissions,
    /// times and extended attributes.
    Unpack { index: usize, path: String },
    /// Stop: the entry for this path cannot be unpacked.
    Fail(String),
}

/// An unpacking step as plain values.
pub enum StepView {
    Remove(Seq<char>),
    CreateDir(Seq<char>),
    Symlink(Seq<char>, Seq<char>),
    WriteFile(Seq<char>, Seq<u8>),
    Unpack(int, Seq<char>),
    Fail(Seq<char>),
}

pub open spec fn step_view(s: UnpackStep) -> StepView {
    match s {
        UnpackStep::Remove(p) => StepView::Remove(p@),
        UnpackStep::CreateDir(p) => StepView::CreateDir(p@),
        UnpackStep::Symlink { path, target } => StepView::Symlink(path@, target@),
        UnpackStep::WriteFile { path, data } => StepView::WriteFile(path@, data@),
        UnpackStep::Unpack { index, path } => StepView::Unpack(index as int, path@),
        UnpackStep::Fail(p) => StepView::Fail(p@),
    }
}

pub open spec fn steps_view(s: Seq<UnpackStep>) -> Seq<StepView> {
    s.map_values(|x: UnpackStep| step_view(x))
}

/// Creating the parent directory of `path`, where it has one.
pub open spec fn parent_step(path: Seq<char>) -> Seq<StepView> {
    match path_parent(path) {
        Some(p) => seq![StepView::CreateDir(p)],
        None => Seq::<StepView>::empty(),
    }
}

// ---------------------------------------------------------------------------
// Zip
// ---------------------------------------------------------------------------

/// The distinct top-level names the entries unpack into, in the order they
/// first occur.
pub open spec fn zip_roots(entries: Seq<(Seq<char>, bool, Option<u32>, Option<Seq<u8>>)>) -> Seq<
    Seq<char>,
>
    decreases entries.len(),
{
    if entries.len() == 0 {
        Seq::<Seq<char>>::empty()
    } else {
        let prev = zip_roots(entries.drop_last());
        match zip_root_name_spec(entries.last().0) {
            Some(r) => if prev.contains(r) {
                prev
            } else {
                prev.push(r)
            },
            None => prev,
        }
    }
}

/// The Unix mode marks a symbolic link.
pub open spec fn is_link_mode(mode: Option<u32>) -> bool {
    match mode {
        Some(m) => m & 0o170000u32 == 0o120000u32,
        None => false,
    }
}

/// What unpacking one zip entry into `dir` does: nothing for macOS metadata;
/// a directory for a directory entry; otherwise its parent directory, then
/// (on Unix, for an entry whose mode marks a link) a link to its trimmed
/// text content, or else a file with its content. Content that cannot be
/// read, or a link target that is not UTF-8 text, stops the unpacking.
pub open spec fn zip_entry_steps(
    dir: Seq<char>,
    e: (Seq<char>, bool, Option<u32>, Option<Seq<u8>>),
    unix: bool,
) -> Seq<StepView> {
    let target = join_spec(dir, e.0);
    if zip_entry_skipped_spec(e.0) {
        Seq::<StepView>::empty()
    } else if e.1 {
        seq![StepView::CreateDir(target)]
    } else {
        parent_step(target) + match e.3 {
            None => seq![StepView::Fail(target)],
            Some(data) => if unix && is_link_mode(e.2) {
                match utf8_text_of(data) {
                    Some(t) => seq![StepView::Symlink(target, trim_spec(t))],
                    None => seq![StepView::Fail(target)],
                }
            } else {
                seq![StepView::WriteFile(target, data)]
            },
        }
    }
}

/// The steps of every zip entry, in archive order.
pub open spec fn zip_writes(
    dir: Seq<char>,
    entries: Seq<(Seq<char>, bool, Option<u32>, Option<Seq<u8>>)>,
    unix: bool,
) -> Seq<StepView>
    decreases entries.len(),
{
    if entries.len() == 0 {
        Seq::<StepView>::empty()
    } else {
        zip_writes(dir, entries.drop_last(), unix) + zip_entry_steps(dir, entries.last(), unix)
    }
}

/// Unpacking a zip archive into `dir`: first every top-level name it
/// unpacks into is removed, then each entry is unpacked in order.
pub open spec fn zip_plan_spec(
    dir: Seq<char>,
    entries: Seq<(Seq<char>, bool, Option<u32>, Option<Seq<u8>>)>,
    unix: bool,
) -> Seq<StepView> {
    zip_roots(entries).map_values(|r: Seq<char>| StepView::Remove(join_spec(dir, r))) + zip_writes(
        dir,
        entries,
        unix,
    )
}

proof fn lemma_zip_writes_remove_nothing(
    dir: Seq<char>,
    entries: Seq<(Seq<char>, bool, Option<u32>, Option<Seq<u8>>)>,
    unix: bool,
)
    ensures
        forall|k: int|
            0 <= k < zip_writes(dir, entries, unix).len() ==> !(#[trigger] zip_writes(dir, entries, unix)[k] is Remove),
    decreases entries.len(),
{
    if entries.len() > 0 {
        lemma_zip_writes_remove_nothing(dir, entries.drop_last(), unix);
        let prev = zip_writes(dir, entries.drop_last(), unix);
        let e = zip_entry_steps(dir, entries.last(), unix);
        assert forall|k: int| 0 <= k < e.len() implies !(#[trigger] e[k] is Remove) by {
            let target = join_spec(dir, entries.last().0);
            if !zip_entry_skipped_spec(entries.last().0) && !entries.last().1 {
                let ps = parent_step(target);
                if k >= ps.len() {
                } else {
                    assert(e[k] == ps[k]);
                }
            }
        }
        assert forall|k: int| 0 <= k < zip_writes(dir, entries, unix).len() implies !(
        #[trigger] zip_writes(dir, entries, unix)[k] is Remove) by {
            if k >= prev.len() {
                assert(zip_writes(dir, entries, unix)[k] == e[k - prev.len()]);
            } else {
                assert(zip_writes(dir, entries, unix)[k] == prev[k]);
            }
        }
    }
}

proof fn lemma_zip_roots_distinct(entries: Seq<(Seq<char>, bool, Option<u32>, Option<Seq<u8>>)>)
    ensures
        zip_roots(entries).no_duplicates(),
        forall|k: int|
            0 <= k < entries.len() && (#[trigger] zip_root_name_spec(entries[k].0)) is Some
                ==> zip_roots(entries).contains(zip_root_name_spec(entries[k].0)->0),
    decreases entries.len(),
{
    if entries.len() > 0 {
        let init = entries.drop_last();
        lemma_zip_roots_distinct(init);
        assert forall|k: int|
            0 <= k < entries.len() && (#[trigger] zip_root_name_spec(entries[k].0)) is Some
                implies zip_roots(entries).contains(zip_root_name_spec(entries[k].0)->0) by {
            let r = zip_root_name_spec(entries[k].0)->0;
            if k < init.len() {
                assert(entries[k] == init[k]);
                assert(zip_root_name_spec(init[k].0) is Some);
                let j = choose|j: int| 0 <= j < zip_roots(init).len() && zip_roots(init)[j] == r;
                match zip_root_name_spec(entries.last().0) {
                    Some(q) => if !zip_roots(init).contains(q) {
                        assert(zip_roots(entries)[j] == r);
                    },
                    None => {},
                }
            } else {
                match zip_root_name_spec(entries.last().0) {
                    Some(q) => if !zip_roots(init).contains(q) {
                        assert(zip_roots(entries)[zip_roots(init).len() as int] == q);
                    },
                    None => {},
                }
            }
        }
    }
}

/// Unpacking a zip archive first removes each top-level name its entries
/// unpack into, each exactly once, and removes nothing afterwards.
pub proof fn law_zip_removes_roots_first(
    dir: Seq<char>,
    entries: Seq<(Seq<char>, bool, Option<u32>, Option<Seq<u8>>)>,
    unix: bool,
)
    ensures
        zip_roots(entries).no_duplicates(),
        forall|k: int|
            0 <= k < entries.len() && (#[trigger] zip_root_name_spec(entries[k].0)) is Some
                ==> zip_roots(entries).contains(zip_root_name_spec(entries[k].0)->0),
        forall|k: int|
            0 <= k < zip_plan_spec(dir, entries, unix).len() ==> ((#[trigger] zip_plan_spec(
                dir,
                entries,
                unix,
            )[k] is Remove) <==> k < zip_roots(entries).len()),
{
    lemma_zip_roots_distinct(entries);
    lemma_zip_writes_remove_nothing(dir, entries, unix);
    let removes = zip_roots(entries).map_values(|r: Seq<char>| StepView::Remove(join_spec(dir, r)));
    let writes = zip_writes(dir, entries, unix);
    assert forall|k: int| 0 <= k < zip_plan_spec(dir, entries, unix).len() implies ((#[trigger] zip_plan_spec(
        dir,
        entries,
        unix,
    )[k] is Remove) <==> k < zip_roots(entries).len()) by {
        if k < removes.len() {
            assert(zip_plan_spec(dir, entries, unix)[k] == removes[k]);
        } else {
            assert(zip_plan_spec(dir, entries, unix)[k] == writes[k - removes.len()]);
        }
    }
}

fn contains_str(v: &Vec<String>, s: &str) -> (r: bool)
    ensures
        r == v@.map_values(|x: String| x@).contains(s@),
{
    let ghost names = v@.map_values(|x: String| x@);
    let mut i: usize = 0;
    while i < v.len()
        invariant
            i <= v.len(),
            names == v@.map_values(|x: String| x@),
            forall|k: int| 0 <= k < i ==> names[k] != s@,
        decreases v.len() - i,
    {
        if str_eq(v[i].as_str(), s) {
            assert(names[i as int] == s@);
            return true;
        }
        i += 1;
    }
    false
}

fn zip_root_list(entries: &Vec<ZipEntry>) -> (r: Vec<String>)
    ensures
        r@.map_values(|x: String| x@) == zip_roots(entries@.map_values(|e: ZipEntry| zip_entry_view(e))),
{
    let ghost ev = entries@.map_values(|e: ZipEntry| zip_entry_view(e));
    let mut roots: Vec<String> = Vec::new();
    let mut i: usize = 0;
    while i < entries.len()
        invariant
            i <= entries.len(),
            ev == entries@.map_values(|e: ZipEntry| zip_entry_view(e)),
            roots@.map_values(|x: String| x@) == zip_roots(ev.take(i as int)),
        decreases entries.len() - i,
    {
        assert(ev.take(i + 1).drop_last() == ev.take(i as int));
        assert(ev.take(i + 1).last() == zip_entry_view(entries@[i as int]));
        match FileTask::zip_root_name(entries[i].name.as_str()) {
            Some(r) => {
                if !contains_str(&roots, r.as_str()) {
                    roots.push(r);
                    assert(roots@.map_values(|x: String| x@) == zip_roots(ev.take(i as int)).push(r@));
                }
            },
            None => {},
        }
        i += 1;
    }
    assert(ev.take(entries.len() as int) == ev);
    roots
}

fn push_parent_step(steps: &mut Vec<UnpackStep>, path: &str)
    ensures
        steps_view(final(steps)@) == steps_view(old(steps)@) + parent_step(path@),
{
    let ghost before = steps@;
    match parent(path) {
        Some(p) => {
            steps.push(UnpackStep::CreateDir(p));
        },
        None => {},
    }
    assert(steps_view(steps@) == steps_view(before) + parent_step(path@));
}

fn zip_entry_plan(steps: &mut Vec<UnpackStep>, dir: &str, e: ZipEntry, unix: bool)
    ensures
        steps_view(final(steps)@) == steps_view(old(steps)@) + zip_entry_steps(
            dir@,
            zip_entry_view(e),
            unix,
        ),
{
    let ghost before = steps@;
    let ghost ev = zip_entry_view(e);
    let ZipEntry { name, is_dir, unix_mode, data } = e;
    if FileTask::zip_entry_skipped(name.as_str()) {
        assert(steps_view(steps@) == steps_view(before) + zip_entry_steps(dir@, ev, unix));
        return;
    }
    let target = join(dir, name.as_str());
    if is_dir {
        steps.push(UnpackStep::CreateDir(target));
        assert(steps_view(steps@) == steps_view(before) + zip_entry_steps(dir@, ev, unix));
        return;
    }
    push_parent_step(steps, target.as_str());
    let ghost mid = steps@;
    let link = unix && match unix_mode {
        Some(m) => FileTask::is_symlink_mode(m),
        None => false,
    };
    match data {
        None => {
            steps.push(UnpackStep::Fail(target));
        },
        Some(d) => {
            if link {
                match utf8_text(d.as_slice()) {
                    Some(t) => {
                        let text = trim(t.as_str());
                        steps.push(UnpackStep::Symlink { path: target, target: text });
                    },
                    None => {
                        steps.push(UnpackStep::Fail(target));
                    },
                }
            } else {
                steps.push(UnpackStep::WriteFile { path: target, data: d });
            }
        },
    }
    assert(steps_view(steps@) == steps_view(mid) + steps_view(seq![steps@.last()]));
    assert(steps_view(steps@) == steps_view(before) + zip_entry_steps(dir@, ev, unix));
}

/// The steps that unpack the given zip entries into `dir`.
pub fn zip_extraction_plan(dir: &str, entries: Vec<ZipEntry>, unix: bool) -> (r: Vec<UnpackStep>)
    ensures
        steps_view(r@) == zip_plan_spec(
            dir@,
            entries@.map_values(|e: ZipEntry| zip_entry_view(e)),
            unix,
        ),
{
    let ghost ev = entries@.map_values(|e: ZipEntry| zip_entry_view(e));
    let roots = zip_root_list(&entries);
    let ghost rv = roots@.map_values(|x: String| x@);
    let mut steps: Vec<UnpackStep> = Vec::new();
    let mut j: usize = 0;
    while j < roots.len()
        invariant
            j <= roots.len(),
            rv == roots@.map_values(|x: String| x@),
            steps_view(steps@) == rv.take(j as int).map_values(
                |r: Seq<char>| StepView::Remove(join_spec(dir@, r)),
            ),
        decreases roots.len() - j,
    {
        let ghost before = steps@;
        steps.push(UnpackStep::Remove(join(dir, roots[j].as_str())));
        assert(rv[j as int] == roots@[j as int]@);
        assert(steps_view(steps@) =~= steps_view(before).push(
            StepView::Remove(join_spec(dir@, rv[j as int])),
        ));
        assert(rv.take(j + 1) == rv.take(j as int).push(rv[j as int]));
        assert(rv.take(j + 1).map_values(|r: Seq<char>| StepView::Remove(join_spec(dir@, r)))
            =~= rv.take(j as int).map_values(|r: Seq<char>| StepView::Remove(join_spec(dir@, r))).push(
            StepView::Remove(join_spec(dir@, rv[j as int])),
        ));
        j += 1;
    }
    assert(rv.take(roots.len() as int) == rv);
    let ghost removes = steps_view(steps@);
    let mut rest = entries;
    let n = rest.len();
    let mut i: usize = 0;
    while i < n
        invariant
            i <= n,
            n == ev.len(),
            rest@.len() == n - i,
            rest@.map_values(|e: ZipEntry| zip_entry_view(e)) == ev.skip(i as int),
            steps_view(steps@) == removes + zip_writes(dir@, ev.take(i as int), unix),
        decreases n - i,
    {
        let ghost rest_before = rest@;
        let e = rest.remove(0);
        assert(rest_before.map_values(|e: ZipEntry| zip_entry_view(e))[0] == zip_entry_view(e));
        assert(ev.skip(i as int)[0] == zip_entry_view(e));
        assert(rest@.map_values(|e: ZipEntry| zip_entry_view(e)) =~= rest_before.map_values(
            |e: ZipEntry| zip_entry_view(e),
        ).drop_first());
        assert(ev.skip(i as int).drop_first() == ev.skip(i + 1));
        assert(ev.take(i + 1).drop_last() == ev.take(i as int));
        assert(ev.take(i + 1).last() == zip_entry_view(e));
        zip_entry_plan(&mut steps, dir, e, unix);
        i += 1;
    }
    assert(ev.take(n as int) == ev);
    steps
}

// ---------------------------------------------------------------------------
// Tar
// ---------------------------------------------------------------------------

/// What unpacking tar entry `index` into `dir` does: its parent directory,
/// then a link to its link name where it has one (on Unix), or else the
/// entry unpacked.
pub open spec fn tar_entry_steps(
    dir: Seq<char>,
    index: int,
    e: (Seq<char>, Option<Seq<char>>),
    unix: bool,
) -> Seq<StepView> {
    let target = join_spec(dir, e.0);
    parent_step(target) + match e.1 {
        Some(l) => if unix {
            seq![StepView::Symlink(target, l)]
        } else {
            seq![StepView::Unpack(index, target)]
        },
        None => seq![StepView::Unpack(index, target)],
    }
}

/// The steps of every tar entry, in archive order.
pub open spec fn tar_writes(dir: Seq<char>, entries: Seq<(Seq<char>, Option<Seq<char>>)>, unix: bool) -> Seq<
    StepView,
>
    decreases entries.len(),
{
    if entries.len() == 0 {
        Seq::<StepView>::empty()
    } else {
        tar_writes(dir, entries.drop_last(), unix) + tar_entry_steps(
            dir,
            entries.len() - 1,
            entries.last(),
            unix,
        )
    }
}

/// Unpacking a tar archive into `dir`: each entry that could be read, in
/// order, then a failure when the rest of the archive could not be read.
pub open spec fn tar_plan_spec(
    dir: Seq<char>,
    entries: Seq<(Seq<char>, Option<Seq<char>>)>,
    complete: bool,
    unix: bool,
) -> Seq<StepView> {
    tar_writes(dir, entries, unix) + if complete {
        Seq::<StepView>::empty()
    } else {
        seq![StepView::Fail(dir)]
    }
}

/// The steps that unpack the given tar entries into `dir`; `complete` says
/// whether the archive could be read to its end.
pub fn tar_extraction_plan(dir: &str, entries: &Vec<TarEntry>, complete: bool, unix: bool) -> (r: Vec<
    UnpackStep,
>)
    ensures
        steps_view(r@) == tar_plan_spec(
            dir@,
            entries@.map_values(|e: TarEntry| tar_entry_view(e)),
            complete,
            unix,
        ),
{
    let ghost ev = entries@.map_values(|e: TarEntry| tar_entry_view(e));
    let mut steps: Vec<UnpackStep> = Vec::new();
    let mut i: usize = 0;
    while i < entries.len()
        invariant
            i <= entries.len(),
            ev == entries@.map_values(|e: TarEntry| tar_entry_view(e)),
            steps_view(steps@) == tar_writes(dir@, ev.take(i as int), unix),
        decreases entries.len() - i,
    {
        let e = &entries[i];
        assert(ev.take(i + 1).drop_last() == ev.take(i as int));
        assert(ev.take(i + 1).last() == tar_entry_view(*e));
        let ghost before = steps@;
        let target = join(dir, e.path.as_str());
        push_parent_step(&mut steps, target.as_str());
        let ghost mid = steps@;
        match &e.link_name {
            Some(l) => {
                if unix {
                    steps.push(UnpackStep::Symlink { path: target, target: l.clone() });
                } else {
                    steps.push(UnpackStep::Unpack { index: i, path: target });
                }
            },
            None => {
                steps.push(UnpackStep::Unpack { index: i, path: target });
            },
        }
        assert(steps_view(steps@) == steps_view(mid) + steps_view(seq![steps@.last()]));
        assert(steps_view(steps@) == steps_view(before) + tar_entry_steps(
            dir@,
            i as int,
            tar_entry_view(*e),
            unix,
        ));
        i += 1;
    }
    assert(ev.take(entries.len() as int) == ev);
    if !complete {
        let ghost before = steps@;
        steps.push(UnpackStep::Fail(crate::text::to_owned(dir)));
        assert(steps_view(steps@) == steps_view(before).push(StepView::Fail(dir@)));
    }
    steps
}

impl FileTask {
    /// How the zip archive with these bytes is unpacked into `dir` (`unix`
    /// says whether links can be made): `None` when the archive cannot be
    /// read.
    pub fn unzip_zip(archive: &[u8], dir: &str, unix: bool) -> (r: Option<Vec<UnpackStep>>)
        ensures
            r is None <==> zip_entries_of(archive@) is None,
            r matches Some(s) ==> steps_view(s@) == zip_plan_spec(dir@, zip_entries_of(archive@)->0, unix),
    {
        match zip_entries(archive) {
            Some(entries) => Some(zip_extraction_plan(dir, entries, unix)),
            None => None,
        }
    }

    /// How the bzip2-compressed tar archive with these bytes is unpacked
    /// into `dir`.
    pub fn decompress_tar_bz2(archive: &[u8], dir: &str, unix: bool) -> (r: Vec<UnpackStep>)
        ensures
            steps_view(r@) == tar_plan_spec(
                dir@,
                tar_bz2_entries_of(archive@).0,
                tar_bz2_entries_of(archive@).1,
                unix,
            ),
    {
        let (entries, complete) = tar_bz2_entries(archive);
        tar_extraction_plan(dir, &entries, complete, unix)
    }
}

} // verus!
