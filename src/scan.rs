//! The bounded directory walk, as a state machine that asks its driver for
//! one directory listing at a time.
use vstd::prelude::*;
use crate::filter::{ext_passes, extension_passes, file_passes, opt_view, wanted_ext, wanted_extension};

verus! {

/// Directories are listed down to this depth; the root has depth 0.
pub const MAX_DEPTH: usize = 5;

/// No directory is listed once the result holds more entries than this.
pub const MAX_ENTRIES: usize = 10000;

/// One file or directory found by a scan. Directories have size 0.
#[derive(Debug, Clone, PartialEq, Eq)]
pub struct FileInfo {
    pub path: String,
    pub size: u64,
    pub is_dir: bool,
}

pub struct FileInfoView {
    pub path: Seq<char>,
    pub size: u64,
    pub is_dir: bool,
}

impl View for FileInfo {
    type V = FileInfoView;

    open spec fn view(&self) -> FileInfoView {
        FileInfoView { path: self.path@, size: self.size, is_dir: self.is_dir }
    }
}

/// What a successful metadata read tells of an entry.
#[derive(Debug, Clone, Copy, PartialEq, Eq, Structural)]
pub struct EntryMeta {
    pub is_dir: bool,
    pub len: u64,
}

/// One entry of a directory listing: its path, its metadata (`None` when the
/// read failed) and the extension of its file name.
#[derive(Debug, Clone)]
pub struct DirChild {
    pub path: String,
    pub meta: Option<EntryMeta>,
    pub extension: Option<String>,
}

pub struct ChildView {
    pub path: Seq<char>,
    pub meta: Option<EntryMeta>,
    pub extension: Option<Seq<char>>,
}

impl View for DirChild {
    type V = ChildView;

    open spec fn view(&self) -> ChildView {
        ChildView { path: self.path@, meta: self.meta, extension: opt_view(self.extension) }
    }
}

pub open spec fn files_view(v: Seq<FileInfo>) -> Seq<FileInfoView> {
    v.map_values(|f: FileInfo| f@)
}

pub open spec fn children_view(v: Seq<DirChild>) -> Seq<ChildView> {
    v.map_values(|c: DirChild| c@)
}

/// A snapshot of a file system: for each directory whose listing succeeds,
/// the entries that the listing yields, in order. A path that is not a key
/// is one whose listing fails.
pub type FsModel = Map<Seq<char>, Seq<ChildView>>;

pub open spec fn dir_entry(path: Seq<char>) -> FileInfoView {
    FileInfoView { path, size: 0, is_dir: true }
}

pub open spec fn file_entry(path: Seq<char>, size: u64) -> FileInfoView {
    FileInfoView { path, size, is_dir: false }
}

/// The walk of directory `path` at `depth`, appending to `acc`. With
/// `count_cap`, a directory is not listed once `acc` holds more than
/// `MAX_ENTRIES` entries; without it only the depth bounds the walk.
pub open spec fn walk_dir(
    fs: FsModel,
    want: Option<Seq<char>>,
    path: Seq<char>,
    depth: int,
    acc: Seq<FileInfoView>,
    count_cap: bool,
) -> Seq<FileInfoView>
    decreases MAX_DEPTH + 1 - depth, 1int, 0int,
{
    if depth > MAX_DEPTH || (count_cap && acc.len() > MAX_ENTRIES) {
        acc
    } else if fs.contains_key(path) {
        walk_children(fs, want, fs[path], depth, acc, count_cap)
    } else {
        acc
    }
}

/// The walk of the entries `cs` of a directory at `depth`, in order.
pub open spec fn walk_children(
    fs: FsModel,
    want: Option<Seq<char>>,
    cs: Seq<ChildView>,
    depth: int,
    acc: Seq<FileInfoView>,
    count_cap: bool,
) -> Seq<FileInfoView>
    decreases MAX_DEPTH + 1 - depth, 0int, cs.len(),
{
    if cs.len() == 0 {
        acc
    } else {
        let next = visit(fs, want, cs[0], depth, acc, count_cap);
        walk_children(fs, want, cs.drop_first(), depth, next, count_cap)
    }
}

/// One entry of a directory at `depth`: a directory is reported and then
/// walked, a file is reported when it passes the filter, an entry whose
/// metadata could not be read is skipped.
pub open spec fn visit(
    fs: FsModel,
    want: Option<Seq<char>>,
    c: ChildView,
    depth: int,
    acc: Seq<FileInfoView>,
    count_cap: bool,
) -> Seq<FileInfoView>
    decreases MAX_DEPTH + 1 - depth, 0int, 0int,
{
    match c.meta {
        None => acc,
        Some(m) => if m.is_dir {
            let a1 = acc.push(dir_entry(c.path));
            if depth <= MAX_DEPTH {
                walk_dir(fs, want, c.path, depth + 1, a1, count_cap)
            } else {
                a1
            }
        } else if ext_passes(want, c.extension) {
            acc.push(file_entry(c.path, m.len))
        } else {
            acc
        },
    }
}

/// An upper bound on the work left in the walk of directory `path` at
/// `depth`: two for the directory, one for each entry of its listing, and
/// the work in each subdirectory within the depth cap.
pub open spec fn dir_steps(fs: FsModel, path: Seq<char>, depth: int) -> nat
    decreases MAX_DEPTH + 1 - depth, 1int, 0int,
{
    if depth > MAX_DEPTH {
        0
    } else {
        2 + if fs.contains_key(path) { children_steps(fs, fs[path], depth) } else { 0 }
    }
}

pub open spec fn children_steps(fs: FsModel, cs: Seq<ChildView>, depth: int) -> nat
    decreases MAX_DEPTH + 1 - depth, 0int, cs.len(),
{
    if cs.len() == 0 {
        0
    } else {
        child_steps(fs, cs[0], depth) + children_steps(fs, cs.drop_first(), depth)
    }
}

pub open spec fn child_steps(fs: FsModel, c: ChildView, depth: int) -> nat
    decreases MAX_DEPTH + 1 - depth, 0int, 0int,
{
    1 + match c.meta {
        Some(m) => if m.is_dir && depth <= MAX_DEPTH { dir_steps(fs, c.path, depth + 1) } else { 0 },
        None => 0,
    }
}

/// What a scan of `root` with `filter` reports on the file system `fs`.
pub open spec fn scan_result(fs: FsModel, filter: Seq<char>, root: Seq<char>) -> Seq<FileInfoView> {
    walk_dir(fs, wanted_ext(filter), root, 0, Seq::empty(), true)
}

/// The same walk with the count cap left out.
pub open spec fn depth_bounded_walk(fs: FsModel, filter: Seq<char>, root: Seq<char>) -> Seq<FileInfoView> {
    walk_dir(fs, wanted_ext(filter), root, 0, Seq::empty(), false)
}

/// Whether `listing` is what `fs` says the listing of `path` yields.
pub open spec fn listing_agrees(fs: FsModel, path: Seq<char>, listing: Option<Vec<DirChild>>) -> bool {
    match listing {
        Some(v) => fs.contains_key(path) && fs[path] == children_view(v@),
        None => !fs.contains_key(path),
    }
}

proof fn lemma_dir_grows(fs: FsModel, want: Option<Seq<char>>, path: Seq<char>, depth: int, acc: Seq<FileInfoView>, count_cap: bool)
    ensures
        walk_dir(fs, want, path, depth, acc, count_cap).len() >= acc.len(),
    decreases MAX_DEPTH + 1 - depth, 1int, 0int,
{
    if !(depth > MAX_DEPTH || (count_cap && acc.len() > MAX_ENTRIES)) && fs.contains_key(path) {
        lemma_children_grow(fs, want, fs[path], depth, acc, count_cap);
    }
}

proof fn lemma_children_grow(fs: FsModel, want: Option<Seq<char>>, cs: Seq<ChildView>, depth: int, acc: Seq<FileInfoView>, count_cap: bool)
    ensures
        walk_children(fs, want, cs, depth, acc, count_cap).len() >= acc.len(),
    decreases MAX_DEPTH + 1 - depth, 0int, cs.len(),
{
    if cs.len() > 0 {
        let next = visit(fs, want, cs[0], depth, acc, count_cap);
        lemma_visit_grows(fs, want, cs[0], depth, acc, count_cap);
        lemma_children_grow(fs, want, cs.drop_first(), depth, next, count_cap);
    }
}

proof fn lemma_visit_grows(fs: FsModel, want: Option<Seq<char>>, c: ChildView, depth: int, acc: Seq<FileInfoView>, count_cap: bool)
    ensures
        visit(fs, want, c, depth, acc, count_cap).len() >= acc.len(),
    decreases MAX_DEPTH + 1 - depth, 0int, 0int,
{
    if let Some(m) = c.meta {
        if m.is_dir && depth <= MAX_DEPTH {
            lemma_dir_grows(fs, want, c.path, depth + 1, acc.push(dir_entry(c.path)), count_cap);
        }
    }
}

proof fn lemma_dir_uncut(fs: FsModel, want: Option<Seq<char>>, path: Seq<char>, depth: int, acc: Seq<FileInfoView>)
    requires
        walk_dir(fs, want, path, depth, acc, false).len() <= MAX_ENTRIES,
    ensures
        walk_dir(fs, want, path, depth, acc, true) == walk_dir(fs, want, path, depth, acc, false),
    decreases MAX_DEPTH + 1 - depth, 1int, 0int,
{
    lemma_dir_grows(fs, want, path, depth, acc, false);
    if depth <= MAX_DEPTH && fs.contains_key(path) {
        lemma_children_uncut(fs, want, fs[path], depth, acc);
    }
}

proof fn lemma_children_uncut(fs: FsModel, want: Option<Seq<char>>, cs: Seq<ChildView>, depth: int, acc: Seq<FileInfoView>)
    requires
        walk_children(fs, want, cs, depth, acc, false).len() <= MAX_ENTRIES,
    ensures
        walk_children(fs, want, cs, depth, acc, true) == walk_children(fs, want, cs, depth, acc, false),
    decreases MAX_DEPTH + 1 - depth, 0int, cs.len(),
{
    if cs.len() > 0 {
        let next = visit(fs, want, cs[0], depth, acc, false);
        lemma_children_grow(fs, want, cs.drop_first(), depth, next, false);
        lemma_visit_uncut(fs, want, cs[0], depth, acc);
        lemma_children_uncut(fs, want, cs.drop_first(), depth, next);
    }
}

proof fn lemma_visit_uncut(fs: FsModel, want: Option<Seq<char>>, c: ChildView, depth: int, acc: Seq<FileInfoView>)
    requires
        visit(fs, want, c, depth, acc, false).len() <= MAX_ENTRIES,
    ensures
        visit(fs, want, c, depth, acc, true) == visit(fs, want, c, depth, acc, false),
    decreases MAX_DEPTH + 1 - depth, 0int, 0int,
{
    if let Some(m) = c.meta {
        if m.is_dir && depth <= MAX_DEPTH {
            lemma_dir_uncut(fs, want, c.path, depth + 1, acc.push(dir_entry(c.path)));
        }
    }
}

/// When the walk bounded by depth alone finds at most `MAX_ENTRIES`
/// entries, the count cap never stops it: the scan reports every entry
/// within the depth cap, in depth-first pre-order, directories always and
/// files when they pass the filter.
pub proof fn lemma_small_tree_scanned_whole(fs: FsModel, filter: Seq<char>, root: Seq<char>)
    requires
        depth_bounded_walk(fs, filter, root).len() <= MAX_ENTRIES,
    ensures
        scan_result(fs, filter, root) == depth_bounded_walk(fs, filter, root),
{
    lemma_dir_uncut(fs, wanted_ext(filter), root, 0, Seq::empty());
}

/// Two scans of one unchanged tree with one filter report the same entries
/// in the same order: once every listing it was given agrees with `fs`, a
/// finished scan holds exactly `scan_result(fs, filter, root)`.
pub proof fn lemma_rescan_same_result(fs: FsModel, filter: Seq<char>, root: Seq<char>, first: Scanner, second: Scanner)
    requires
        forall|g: FsModel| #[trigger] first.outcome(g) == first.found(),
        forall|g: FsModel| #[trigger] second.outcome(g) == second.found(),
        first.outcome(fs) == scan_result(fs, filter, root),
        second.outcome(fs) == scan_result(fs, filter, root),
    ensures
        first.found() == second.found(),
        first.found() == scan_result(fs, filter, root),
{
    assert(first.outcome(fs) == first.found());
    assert(second.outcome(fs) == second.found());
}

proof fn lemma_filtered_files_add_nothing(fs: FsModel, want: Option<Seq<char>>, cs: Seq<ChildView>, depth: int, acc: Seq<FileInfoView>)
    requires
        forall|i: int| 0 <= i < cs.len() ==> {
            let c = #[trigger] cs[i];
            c.meta is Some && !c.meta->0.is_dir && !ext_passes(want, c.extension)
        },
    ensures
        walk_children(fs, want, cs, depth, acc, true) == acc,
    decreases cs.len(),
{
    if cs.len() > 0 {
        let c0 = cs[0];
        assert(c0.meta is Some && !c0.meta->0.is_dir && !ext_passes(want, c0.extension));
        assert(visit(fs, want, c0, depth, acc, true) == acc);
        assert forall|i: int| 0 <= i < cs.drop_first().len() implies {
            let c = #[trigger] cs.drop_first()[i];
            c.meta is Some && !c.meta->0.is_dir && !ext_passes(want, c.extension)
        } by {
            assert(cs.drop_first()[i] == cs[i + 1]);
        }
        lemma_filtered_files_add_nothing(fs, want, cs.drop_first(), depth, acc);
    }
}

/// A directory, met within both caps, whose entries are all files that fail
/// the filter is reported on its own: its entry is added and none of its
/// files.
pub proof fn lemma_filtered_dir_reports_itself(fs: FsModel, filter: Seq<char>, c: ChildView, depth: int, acc: Seq<FileInfoView>)
    requires
        0 <= depth < MAX_DEPTH,
        acc.len() < MAX_ENTRIES,
        c.meta is Some,
        c.meta->0.is_dir,
        fs.contains_key(c.path),
        forall|i: int| 0 <= i < fs[c.path].len() ==> {
            let f = #[trigger] fs[c.path][i];
            f.meta is Some && !f.meta->0.is_dir && !file_passes(filter, f.extension)
        },
    ensures
        visit(fs, wanted_ext(filter), c, depth, acc, true) == acc.push(dir_entry(c.path)),
{
    lemma_filtered_files_add_nothing(fs, wanted_ext(filter), fs[c.path], depth + 1, acc.push(dir_entry(c.path)));
}

/// A directory found in a listing at the depth cap is reported but not
/// walked: whatever it holds, nothing below it appears in the result.
pub proof fn lemma_cap_depth_dir_not_walked(fs: FsModel, filter: Seq<char>, c: ChildView, acc: Seq<FileInfoView>)
    requires
        c.meta is Some,
        c.meta->0.is_dir,
    ensures
        visit(fs, wanted_ext(filter), c, MAX_DEPTH as int, acc, true) == acc.push(dir_entry(c.path)),
{
}

/// What the driver of a [`Scanner`] must do next.
#[derive(Debug)]
pub enum ScanStep {
    /// List this directory and hand the listing to `supply_listing`.
    ListDir(String),
    /// The walk is over; the entries are in `into_files`.
    Finished,
}

struct Frame {
    depth: usize,
    children: Vec<DirChild>,
    next: usize,
}

spec fn frame_rest(f: Frame) -> Seq<ChildView> {
    children_view(f.children@).skip(f.next as int)
}

spec fn resume(fs: FsModel, want: Option<Seq<char>>, frames: Seq<Frame>, acc: Seq<FileInfoView>) -> Seq<FileInfoView>
    decreases frames.len(),
{
    if frames.len() == 0 {
        acc
    } else {
        let top = frames.last();
        resume(fs, want, frames.drop_last(), walk_children(fs, want, frame_rest(top), top.depth as int, acc, true))
    }
}

spec fn frames_steps(fs: FsModel, frames: Seq<Frame>) -> nat
    decreases frames.len(),
{
    if frames.len() == 0 {
        0
    } else {
        let top = frames.last();
        frames_steps(fs, frames.drop_last()) + children_steps(fs, frame_rest(top), top.depth as int) + 1
    }
}

spec fn listed(fs: FsModel, want: Option<Seq<char>>, path: Seq<char>, depth: int, acc: Seq<FileInfoView>) -> Seq<FileInfoView> {
    if fs.contains_key(path) {
        walk_children(fs, want, fs[path], depth, acc, true)
    } else {
        acc
    }
}

/// A scan in progress: the entries found so far, the listings still being
/// walked, and the directory whose listing it waits for, if any.
pub struct Scanner {
    want: Option<String>,
    files: Vec<FileInfo>,
    frames: Vec<Frame>,
    pending: Option<(String, usize)>,
}

impl Scanner {
    pub closed spec fn wf(&self) -> bool {
        &&& forall|k: int| 0 <= k < self.frames@.len() ==> {
            let f = #[trigger] self.frames@[k];
            f.depth <= MAX_DEPTH && f.next <= f.children@.len()
        }
        &&& match self.pending {
            Some((_, d)) => d <= MAX_DEPTH,
            None => true,
        }
    }

    /// The directory whose listing the scanner waits for.
    pub closed spec fn pending_dir(&self) -> Option<Seq<char>> {
        match self.pending {
            Some((p, _)) => Some(p@),
            None => None,
        }
    }

    /// The entries found so far.
    pub closed spec fn found(&self) -> Seq<FileInfoView> {
        files_view(self.files@)
    }

    /// The work left before the walk ends, when every listing still to come
    /// is read from `fs`. Each listing handed in lowers it, and a finished
    /// scan has none left.
    pub closed spec fn remaining(&self, fs: FsModel) -> nat {
        frames_steps(fs, self.frames@) + match self.pending {
            Some((p, d)) => dir_steps(fs, p@, d as int),
            None => 0,
        }
    }

    /// What the scan reports in the end when every listing still to come is
    /// read from `fs`.
    pub closed spec fn outcome(&self, fs: FsModel) -> Seq<FileInfoView> {
        let want = opt_view(self.want);
        match self.pending {
            Some((p, d)) => resume(fs, want, self.frames@, listed(fs, want, p@, d as int, files_view(self.files@))),
            None => resume(fs, want, self.frames@, files_view(self.files@)),
        }
    }

    /// Starts a scan of `root` with `filter`; its first step lists `root`.
    pub fn new(root: String, filter: &str) -> (s: Scanner)
        ensures
            s.wf(),
            s.pending_dir() == Some(root@),
            forall|fs: FsModel| #[trigger] s.outcome(fs) == scan_result(fs, filter@, root@),
    {
        let want = wanted_extension(filter);
        let s = Scanner { want, files: Vec::new(), frames: Vec::new(), pending: Some((root, 0)) };
        assert(files_view(s.files@) =~= Seq::empty());
        s
    }


    /// Hands the scanner the listing of the directory it waits for: `None`
    /// when the listing failed, which the walk treats as an empty directory.
    pub fn supply_listing(&mut self, listing: Option<Vec<DirChild>>)
        requires
            old(self).wf(),
            old(self).pending_dir() is Some,
        ensures
            final(self).wf(),
            final(self).pending_dir() is None,
            final(self).found() == old(self).found(),
            forall|fs: FsModel|
                listing_agrees(fs, old(self).pending_dir()->0, listing)
                    ==> #[trigger] final(self).outcome(fs) == old(self).outcome(fs),
            forall|fs: FsModel|
                listing_agrees(fs, old(self).pending_dir()->0, listing)
                    ==> #[trigger] final(self).remaining(fs) < old(self).remaining(fs),
    {
        let ghost listing0 = listing;
        let pending = self.pending.take();
        match pending {
            Some((_, depth)) => match listing {
                Some(children) => {
                    self.frames.push(Frame { depth, children, next: 0 });
                },
                None => {},
            },
            None => {},
        }
        proof {
            assert forall|fs: FsModel|
                listing_agrees(fs, old(self).pending_dir()->0, listing0)
                    implies #[trigger] self.outcome(fs) == old(self).outcome(fs) by {
                if let Some(v) = listing0 {
                    let top = self.frames@.last();
                    assert(self.frames@.drop_last() =~= old(self).frames@);
                    assert(frame_rest(top) =~= children_view(v@));
                }
            }
            assert forall|fs: FsModel|
                listing_agrees(fs, old(self).pending_dir()->0, listing0)
                    implies #[trigger] self.remaining(fs) < old(self).remaining(fs) by {
                if let Some(v) = listing0 {
                    let top = self.frames@.last();
                    assert(self.frames@.drop_last() =~= old(self).frames@);
                    assert(frame_rest(top) =~= children_view(v@));
                }
            }
        }
    }

    /// Runs the walk until it needs a directory listing, or to its end.
    pub fn next_step(&mut self) -> (r: ScanStep)
        requires
            old(self).wf(),
        ensures
            final(self).wf(),
            forall|fs: FsModel| #[trigger] final(self).outcome(fs) == old(self).outcome(fs),
            forall|fs: FsModel| #[trigger] final(self).remaining(fs) <= old(self).remaining(fs),
            old(self).found().is_prefix_of(final(self).found()),
            match r {
                ScanStep::ListDir(p) => final(self).pending_dir() == Some(p@),
                ScanStep::Finished => final(self).pending_dir() is None
                    && (forall|fs: FsModel| #[trigger] final(self).outcome(fs) == final(self).found())
                    && (forall|fs: FsModel| #[trigger] final(self).remaining(fs) == 0),
            },
    {
        if let Some((p, _)) = &self.pending {
            return ScanStep::ListDir(p.clone());
        }
        loop
            invariant
                self.wf(),
                self.pending is None,
                self.want == old(self).want,
                forall|fs: FsModel| #[trigger] self.outcome(fs) == old(self).outcome(fs),
                forall|fs: FsModel| #[trigger] self.remaining(fs) <= old(self).remaining(fs),
                old(self).found().is_prefix_of(self.found()),
            decreases
                self.frames@.len(),
                if self.frames@.len() == 0 { 0int } else {
                    self.frames@.last().children@.len() - self.frames@.last().next
                },
        {
            let ghost frames0 = self.frames@;
            let ghost acc0 = files_view(self.files@);
            let ghost want = opt_view(self.want);
            let ghost s0 = *self;
            match self.frames.pop() {
                None => {
                    proof {
                        assert forall|fs: FsModel| #[trigger] self.outcome(fs) == self.found() by {
                            assert(self.frames@.len() == 0);
                        }
                        assert forall|fs: FsModel| #[trigger] self.outcome(fs) == old(self).outcome(fs) by {
                            assert(self.outcome(fs) == s0.outcome(fs));
                        }
                        assert forall|fs: FsModel| #[trigger] self.remaining(fs) <= old(self).remaining(fs) by {
                            assert(self.remaining(fs) == s0.remaining(fs));
                        }
                        assert forall|fs: FsModel| #[trigger] self.remaining(fs) == 0 by {
                            assert(self.frames@.len() == 0);
                        }
                        assert(self.found() == s0.found());
                    }
                    return ScanStep::Finished;
                },
                Some(mut top) => {
                    proof {
                        assert(self.frames@ =~= frames0.drop_last());
                        assert(top == frames0[frames0.len() - 1]);
                    }
                    if top.next >= top.children.len() {
                        proof {
                            assert(frame_rest(top) =~= Seq::<ChildView>::empty());
                            assert forall|fs: FsModel| #[trigger] self.outcome(fs) == old(self).outcome(fs) by {
                                assert(s0.outcome(fs) == resume(fs, want, frames0, acc0));
                                assert(walk_children(fs, want, frame_rest(top), top.depth as int, acc0, true) == acc0);
                                assert(self.outcome(fs) == s0.outcome(fs));
                            }
                            assert forall|fs: FsModel| #[trigger] self.remaining(fs) <= old(self).remaining(fs) by {
                                assert(s0.remaining(fs) == frames_steps(fs, frames0));
                                assert(children_steps(fs, frame_rest(top), top.depth as int) == 0);
                                assert(self.remaining(fs) == frames_steps(fs, frames0.drop_last()));
                            }
                        }
                        continue;
                    }
                    let i = top.next;
                    let depth = top.depth;
                    let ghost rest0 = frame_rest(top);
                    let ghost c0 = top.children@[i as int]@;
                    let mut descend: Option<String> = None;
                    match top.children[i].meta {
                        None => {},
                        Some(m) => {
                            if m.is_dir {
                                let path = top.children[i].path.clone();
                                self.files.push(FileInfo { path: path.clone(), size: 0, is_dir: true });
                                if !(depth + 1 > MAX_DEPTH || self.files.len() > MAX_ENTRIES) {
                                    descend = Some(path);
                                }
                            } else if extension_passes(&self.want, &top.children[i].extension) {
                                let path = top.children[i].path.clone();
                                self.files.push(FileInfo { path, size: m.len, is_dir: false });
                            }
                        },
                    }
                    top.next = i + 1;
                    let ghost acc1 = files_view(self.files@);
                    self.frames.push(top);
                    proof {
                        assert(rest0[0] == c0);
                        assert(frame_rest(top) =~= rest0.drop_first());
                        assert(self.frames@.drop_last() =~= frames0.drop_last());
                        assert(self.frames@.last() == top);
                        if acc1.len() != acc0.len() {
                            assert(acc1 =~= acc0.push(self.files@.last()@));
                        } else {
                            assert(acc1 =~= acc0);
                        }
                        assert forall|fs: FsModel| #[trigger] s0.outcome(fs) == resume(fs, want, self.frames@, visit(fs, want, c0, depth as int, acc0, true)) by {
                            assert(s0.outcome(fs) == resume(fs, want, frames0, acc0));
                        }
                        assert forall|fs: FsModel| #[trigger] s0.remaining(fs) == frames_steps(fs, self.frames@) + child_steps(fs, c0, depth as int) by {
                            assert(s0.remaining(fs) == frames_steps(fs, frames0));
                            assert(children_steps(fs, rest0, depth as int) == child_steps(fs, c0, depth as int) + children_steps(fs, rest0.drop_first(), depth as int));
                        }
                        assert(acc0.is_prefix_of(acc1));
                    }
                    match descend {
                        Some(path) => {
                            let shown = path.clone();
                            self.pending = Some((path, depth + 1));
                            proof {
                                assert forall|fs: FsModel| #[trigger] self.outcome(fs) == old(self).outcome(fs) by {
                                    assert(s0.outcome(fs) == resume(fs, want, self.frames@, visit(fs, want, c0, depth as int, acc0, true)));
                                    assert(visit(fs, want, c0, depth as int, acc0, true) == listed(fs, want, c0.path, depth + 1, acc1));
                                }
                                assert forall|fs: FsModel| #[trigger] self.remaining(fs) <= old(self).remaining(fs) by {
                                    assert(s0.remaining(fs) == frames_steps(fs, self.frames@) + child_steps(fs, c0, depth as int));
                                    assert(self.remaining(fs) == frames_steps(fs, self.frames@) + dir_steps(fs, c0.path, depth + 1));
                                }
                            }
                            return ScanStep::ListDir(shown);
                        },
                        None => {
                            proof {
                                assert forall|fs: FsModel| #[trigger] self.outcome(fs) == old(self).outcome(fs) by {
                                    assert(s0.outcome(fs) == resume(fs, want, self.frames@, visit(fs, want, c0, depth as int, acc0, true)));
                                    assert(visit(fs, want, c0, depth as int, acc0, true) == acc1);
                                }
                                assert forall|fs: FsModel| #[trigger] self.remaining(fs) <= old(self).remaining(fs) by {
                                    assert(s0.remaining(fs) == frames_steps(fs, self.frames@) + child_steps(fs, c0, depth as int));
                                    assert(self.remaining(fs) == frames_steps(fs, self.frames@));
                                }
                            }
                        },
                    }
                },
            }
        }
    }

    /// The entries that the scan found, in the order it found them.
    pub fn into_files(self) -> (r: Vec<FileInfo>)
        ensures
            files_view(r@) == self.found(),
    {
        self.files
    }

} // impl Scanner

} // verus!
