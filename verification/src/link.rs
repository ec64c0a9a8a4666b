//! Link planning and materialization semantics. Planning turns a directory
//! listing into the exact set of links to create; materialization processes
//! that set in order against a model of the destination filesystem, failing
//! fast on the first destination that already exists. Links created before a
//! failure stay in place: there is no rollback.

use vstd::prelude::*;
use vstd::string::*;
use crate::text::{join_path, join_path_exec};

verus! {

/// The kind of an immediate child of a source directory.
#[derive(Clone, Copy, PartialEq, Eq, Structural, Debug)]
pub enum EntryKind {
    File,
    Directory,
    /// Anything else (special files, existing links): skipped, never linked.
    Other,
}

/// One immediate child of a source directory, as the host reports it.
pub struct DirEntry {
    pub name: String,
    pub kind: EntryKind,
}

/// Mathematical image of a `DirEntry`.
pub ghost struct DirEntryView {
    pub name: Seq<char>,
    pub kind: EntryKind,
}

impl View for DirEntry {
    type V = DirEntryView;

    open spec fn view(&self) -> DirEntryView {
        DirEntryView { name: self.name@, kind: self.kind }
    }
}

/// One link to create: a source path, a destination path expected not to
/// exist yet, and the kind of link.
pub struct LinkEntry {
    pub source: String,
    pub dest: String,
    pub kind: EntryKind,
}

/// Mathematical image of a `LinkEntry`.
pub ghost struct LinkEntryView {
    pub source: Seq<char>,
    pub dest: Seq<char>,
    pub kind: EntryKind,
}

impl View for LinkEntry {
    type V = LinkEntryView;

    open spec fn view(&self) -> LinkEntryView {
        LinkEntryView { source: self.source@, dest: self.dest@, kind: self.kind }
    }
}

/// The views of a sequence of directory entries.
pub open spec fn entry_views(entries: Seq<DirEntry>) -> Seq<DirEntryView> {
    entries.map_values(|e: DirEntry| e@)
}

/// The views of a sequence of link entries.
pub open spec fn link_views(plan: Seq<LinkEntry>) -> Seq<LinkEntryView> {
    plan.map_values(|e: LinkEntry| e@)
}

/// The destination paths of a plan, in order.
pub open spec fn dests_of(plan: Seq<LinkEntryView>) -> Seq<Seq<char>> {
    plan.map_values(|e: LinkEntryView| e.dest)
}

/// The plan for a directory listing: one link per file or directory child,
/// named after the child on both ends, in listing order; other kinds of
/// children are skipped.
pub open spec fn plan_links_spec(
    src_dir: Seq<char>,
    dst_dir: Seq<char>,
    entries: Seq<DirEntryView>,
) -> Seq<LinkEntryView>
    decreases entries.len(),
{
    if entries.len() == 0 {
        Seq::<LinkEntryView>::empty()
    } else {
        let rest = plan_links_spec(src_dir, dst_dir, entries.drop_last());
        let e = entries.last();
        if e.kind is Other {
            rest
        } else {
            rest.push(
                LinkEntryView {
                    source: join_path(src_dir, e.name),
                    dest: join_path(dst_dir, e.name),
                    kind: e.kind,
                },
            )
        }
    }
}

/// Turns the immediate children of `src_dir` into the links to create in
/// `dst_dir`: each file or directory child yields one link entry whose paths
/// are `<src_dir>/<name>` and `<dst_dir>/<name>`; other children are skipped.
pub fn plan_links(src_dir: &str, dst_dir: &str, entries: &Vec<DirEntry>) -> (plan: Vec<LinkEntry>)
    ensures
        link_views(plan@) == plan_links_spec(src_dir@, dst_dir@, entry_views(entries@)),
{
    let ghost entriesv = entry_views(entries@);
    let mut plan: Vec<LinkEntry> = Vec::new();
    proof {
        assert(link_views(plan@) =~= plan_links_spec(src_dir@, dst_dir@, entriesv.take(0)));
    }
    let mut i: usize = 0;
    while i < entries.len()
        invariant
            i <= entries@.len(),
            entriesv == entry_views(entries@),
            link_views(plan@) == plan_links_spec(src_dir@, dst_dir@, entriesv.take(i as int)),
        decreases entries@.len() - i,
    {
        let entry = &entries[i];
        proof {
            assert(entriesv.take(i + 1).drop_last() =~= entriesv.take(i as int));
            assert(entriesv.take(i + 1).last() == entriesv[i as int]);
        }
        match entry.kind {
            EntryKind::Other => {},
            _ => {
                let ghost prev = plan@;
                let le = LinkEntry {
                    source: join_path_exec(src_dir, entry.name.as_str()),
                    dest: join_path_exec(dst_dir, entry.name.as_str()),
                    kind: entry.kind,
                };
                let ghost lev = le@;
                plan.push(le);
                proof {
                    assert(link_views(plan@) =~= link_views(prev).push(lev));
                }
            },
        }
        i += 1;
    }
    proof {
        assert(entriesv.take(entries@.len() as int) =~= entriesv);
    }
    plan
}

/// A model of the destination filesystem: the paths that exist, in the order
/// they came to exist.
pub struct FsModel {
    pub existing: Vec<String>,
}

impl FsModel {
    /// The existing paths, as character sequences.
    pub open spec fn paths(&self) -> Seq<Seq<char>> {
        self.existing@.map_values(|s: String| s@)
    }

    /// Whether `p` names an existing path in the model.
    pub fn has_path(&self, p: &String) -> (b: bool)
        ensures
            b == self.paths().contains(p@),
    {
        let mut i: usize = 0;
        while i < self.existing.len()
            invariant
                i <= self.existing@.len(),
                forall|j: int| 0 <= j < i ==> self.existing@[j]@ != p@,
            decreases self.existing@.len() - i,
        {
            if self.existing[i] == *p {
                proof {
                    assert(self.paths()[i as int] == p@);
                }
                return true;
            }
            i += 1;
        }
        proof {
            if self.paths().contains(p@) {
                let j = choose|j: int| 0 <= j < self.paths().len() && self.paths()[j] == p@;
                assert(self.existing@[j]@ == p@);
                assert(false);
            }
        }
        false
    }
}

/// What materialization does from entry `i` on: the index it stops at
/// (`plan.len()` on full success, the first colliding entry otherwise) and
/// the final existing paths. A link is created by appending its destination.
pub open spec fn run_from(plan: Seq<LinkEntryView>, fs: Seq<Seq<char>>, i: int) -> (
    int,
    Seq<Seq<char>>,
)
    decreases plan.len() - i,
{
    if i < 0 || i >= plan.len() {
        (plan.len() as int, fs)
    } else if fs.contains(plan[i].dest) {
        (i, fs)
    } else {
        run_from(plan, fs.push(plan[i].dest), i + 1)
    }
}

/// The whole materialization of a plan against initial paths `fs`.
pub open spec fn materialize_spec(plan: Seq<LinkEntryView>, fs: Seq<Seq<char>>) -> (
    int,
    Seq<Seq<char>>,
) {
    run_from(plan, fs, 0)
}

/// Creates the planned links against a model filesystem, in order, failing
/// fast: `Ok(n)` when all `n == plan.len()` links were created, `Err(k)`
/// when entry `k`'s destination already existed. Entries after `k` are not
/// processed; links created before `k` stay in place.
pub fn materialize(plan: &Vec<LinkEntry>, fs: &mut FsModel) -> (r: Result<usize, usize>)
    ensures
        final(fs).paths() == materialize_spec(link_views(plan@), old(fs).paths()).1,
        (match r {
            Ok(n) => n == plan@.len() && materialize_spec(link_views(plan@), old(fs).paths()).0
                == plan@.len(),
            Err(k) => k == materialize_spec(link_views(plan@), old(fs).paths()).0 && k
                < plan@.len(),
        }),
{
    let ghost planv = link_views(plan@);
    let ghost fs0 = fs.paths();
    let mut i: usize = 0;
    while i < plan.len()
        invariant
            i <= plan@.len(),
            planv == link_views(plan@),
            fs0 == old(fs).paths(),
            run_from(planv, fs0, 0) == run_from(planv, fs.paths(), i as int),
        decreases plan@.len() - i,
    {
        let entry = &plan[i];
        proof {
            assert(planv[i as int].dest == entry.dest@);
        }
        if fs.has_path(&entry.dest) {
            proof {
                assert(run_from(planv, fs.paths(), i as int) == (i as int, fs.paths()));
            }
            return Err(i);
        }
        let ghost prev = fs.paths();
        fs.existing.push(entry.dest.clone());
        proof {
            assert(fs.paths() =~= prev.push(planv[i as int].dest));
        }
        i += 1;
    }
    Ok(plan.len())
}

proof fn lemma_run_shape_from(plan: Seq<LinkEntryView>, fs0: Seq<Seq<char>>, i: int)
    requires
        0 <= i <= plan.len(),
    ensures
        ({
            let r = run_from(plan, fs0 + dests_of(plan.take(i)), i);
            &&& i <= r.0 <= plan.len()
            &&& r.1 == fs0 + dests_of(plan.take(r.0))
            &&& (r.0 < plan.len() ==> (fs0 + dests_of(plan.take(r.0))).contains(plan[r.0].dest))
            &&& (forall|j: int|
                i <= j < r.0 ==> !(fs0 + dests_of(plan.take(j))).contains(#[trigger] plan[j].dest))
        }),
    decreases plan.len() - i,
{
    let fsi = fs0 + dests_of(plan.take(i));
    if i == plan.len() {
    } else if fsi.contains(plan[i].dest) {
    } else {
        assert(dests_of(plan.take(i + 1)) =~= dests_of(plan.take(i)).push(plan[i].dest));
        assert(fsi.push(plan[i].dest) =~= fs0 + dests_of(plan.take(i + 1)));
        lemma_run_shape_from(plan, fs0, i + 1);
    }
}

/// Characterizes a materializer run: it stops at the first entry whose
/// destination already exists (whether present initially or created by an
/// earlier entry of the same plan), creates exactly the links before that
/// point in order, and touches nothing at or after it.
pub proof fn lemma_run_shape(plan: Seq<LinkEntryView>, fs: Seq<Seq<char>>)
    ensures
        ({
            let r = materialize_spec(plan, fs);
            &&& 0 <= r.0 <= plan.len()
            &&& r.1 == fs + dests_of(plan.take(r.0))
            &&& (r.0 < plan.len() ==> (fs + dests_of(plan.take(r.0))).contains(plan[r.0].dest))
            &&& (forall|j: int|
                0 <= j < r.0 ==> !(fs + dests_of(plan.take(j))).contains(#[trigger] plan[j].dest))
        }),
{
    assert(fs + dests_of(plan.take(0)) =~= fs);
    lemma_run_shape_from(plan, fs, 0);
}

/// If a destination already exists before the run, the materializer fails at
/// or before that entry: no entry at or past the first collision is
/// processed.
pub proof fn lemma_materialize_stops_at_collision(
    plan: Seq<LinkEntryView>,
    fs: Seq<Seq<char>>,
    k: int,
)
    requires
        0 <= k < plan.len(),
        fs.contains(plan[k].dest),
    ensures
        materialize_spec(plan, fs).0 <= k,
{
    lemma_run_shape(plan, fs);
    if materialize_spec(plan, fs).0 > k {
        let j = choose|j: int| 0 <= j < fs.len() && fs[j] == plan[k].dest;
        assert((fs + dests_of(plan.take(k)))[j] == plan[k].dest);
        assert((fs + dests_of(plan.take(k))).contains(plan[k].dest));
        assert(false);
    }
}

/// A plan whose destinations are all fresh and pairwise distinct
/// materializes completely: every link is created, in order.
pub proof fn lemma_materialize_all_fresh(plan: Seq<LinkEntryView>, fs: Seq<Seq<char>>)
    requires
        forall|i: int| 0 <= i < plan.len() ==> !fs.contains(#[trigger] plan[i].dest),
        forall|i: int, j: int| 0 <= i < j < plan.len() ==> plan[i].dest != plan[j].dest,
    ensures
        materialize_spec(plan, fs).0 == plan.len(),
        materialize_spec(plan, fs).1 == fs + dests_of(plan),
{
    lemma_run_shape(plan, fs);
    let stop = materialize_spec(plan, fs).0;
    if stop < plan.len() {
        let combined = fs + dests_of(plan.take(stop));
        assert(combined.contains(plan[stop].dest));
        let j = choose|j: int| 0 <= j < combined.len() && combined[j] == plan[stop].dest;
        if j < fs.len() {
            assert(fs[j] == plan[stop].dest);
            assert(fs.contains(plan[stop].dest));
            assert(false);
        } else {
            let jj = j - fs.len();
            assert(dests_of(plan.take(stop))[jj] == plan[stop].dest);
            assert(plan[jj].dest == plan[stop].dest);
            assert(false);
        }
    }
    assert(plan.take(plan.len() as int) =~= plan);
}

} // verus!
