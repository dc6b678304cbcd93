//! The cache of the macro scan: for each scanned source file, the marked
//! items found in it and the modification time they were found at.
use vstd::prelude::*;

use crate::macros::RseqMacro;
use crate::magic::{contains_bytes, occurs_somewhere};
use crate::text_order::{name_key, names_equal};

verus! {

/// The marked items found in one source file: for each, its source text,
/// its macro and its name.
pub struct CacheEntry {
    pub path: String,
    pub mtime: u64,
    pub found: Vec<(String, RseqMacro, String)>,
}

/// The index of the first entry for `path` that is at least as recent as
/// `mtime`.
pub open spec fn first_fresh(cache: Seq<CacheEntry>, path: Seq<char>, mtime: u64) -> Option<int>
    decreases cache.len(),
{
    if cache.len() == 0 {
        None
    } else if cache[0].path@ == path && cache[0].mtime >= mtime {
        Some(0)
    } else {
        match first_fresh(cache.drop_first(), path, mtime) {
            Some(i) => Some(i + 1),
            None => None,
        }
    }
}

/// The entries of `cache` that are not for `path`, in order.
pub open spec fn without_path(cache: Seq<CacheEntry>, path: Seq<char>) -> Seq<CacheEntry>
    decreases cache.len(),
{
    if cache.len() == 0 {
        Seq::empty()
    } else if cache.last().path@ == path {
        without_path(cache.drop_last(), path)
    } else {
        without_path(cache.drop_last(), path).push(cache.last())
    }
}

/// The entries of `cache` whose flag in `keep` is set, in order.
pub open spec fn kept(cache: Seq<CacheEntry>, keep: Seq<bool>) -> Seq<CacheEntry>
    decreases cache.len(),
{
    if cache.len() == 0 {
        Seq::empty()
    } else if keep[cache.len() - 1] {
        kept(cache.drop_last(), keep).push(cache.last())
    } else {
        kept(cache.drop_last(), keep)
    }
}

/// The cached entry that still describes the file `path` modified at
/// `mtime`, if any.
pub fn find_fresh_entry(cache: &[CacheEntry], path: &str, mtime: u64) -> (res: Option<usize>)
    ensures
        match first_fresh(cache@, path@, mtime) {
            Some(i) => res == Some(i as usize),
            None => res is None,
        },
{
    let mut i: usize = 0;
    assert(cache@.skip(0) =~= cache@);
    while i < cache.len()
        invariant
            i <= cache@.len(),
            first_fresh(cache@, path@, mtime) == match first_fresh(cache@.skip(i as int), path@, mtime) {
                Some(k) => Some(k + i),
                None => None::<int>,
            },
        decreases cache@.len() - i,
    {
        assert(cache@.skip(i as int).drop_first() =~= cache@.skip(i + 1));
        assert(cache@.skip(i as int)[0] == cache@[i as int]);
        if names_equal(cache[i].path.as_str(), path) && cache[i].mtime >= mtime {
            return Some(i);
        }
        i = i + 1;
    }
    assert(cache@.skip(i as int) =~= Seq::<CacheEntry>::empty());
    None
}

/// Replaces the entries for the file of `entry` by `entry`, which goes last.
pub fn replace_entry(cache: &mut Vec<CacheEntry>, entry: CacheEntry)
    ensures
        final(cache)@ == without_path(old(cache)@, entry.path@).push(entry),
{
    let mut rest: Vec<CacheEntry> = Vec::new();
    std::mem::swap(cache, &mut rest);
    let ghost old_cache = rest@;
    let mut out: Vec<CacheEntry> = Vec::new();
    assert(old_cache.take(0) =~= Seq::<CacheEntry>::empty());
    while rest.len() > 0
        invariant
            old_cache.take(old_cache.len() - rest@.len() as int) + rest@ == old_cache,
            rest@.len() <= old_cache.len(),
            out@ == without_path(old_cache.take(old_cache.len() - rest@.len() as int), entry.path@),
        decreases rest@.len(),
    {
        let ghost done = old_cache.len() - rest@.len();
        let ghost prev = rest@;
        let e = rest.remove(0);
        proof {
            assert(old_cache.take(done + 1).drop_last() =~= old_cache.take(done));
            assert(old_cache[done] == e) by {
                assert((old_cache.take(done) + prev)[done] == prev[0]);
            }
            assert(old_cache.take(done + 1) + rest@ =~= old_cache) by {
                assert(old_cache.take(done) + prev == old_cache);
                assert(old_cache.take(done + 1) =~= old_cache.take(done).push(e));
            }
        }
        if !names_equal(e.path.as_str(), entry.path.as_str()) {
            out.push(e);
        }
    }
    assert(old_cache.take(old_cache.len() as int) =~= old_cache);
    out.push(entry);
    *cache = out;
}

/// Keeps the entries whose flag in `keep` is set: the scan drops the
/// entries of files that no longer exist.
pub fn retain_flagged(cache: &mut Vec<CacheEntry>, keep: &[bool])
    requires
        keep@.len() == old(cache)@.len(),
    ensures
        final(cache)@ == kept(old(cache)@, keep@),
        paths_unique(old(cache)@) ==> paths_unique(final(cache)@),
{
    proof {
        if paths_unique(old(cache)@) {
            lemma_kept_paths_unique(old(cache)@, keep@);
        }
    }
    let mut rest: Vec<CacheEntry> = Vec::new();
    std::mem::swap(cache, &mut rest);
    let ghost old_cache = rest@;
    let mut out: Vec<CacheEntry> = Vec::new();
    let mut i: usize = 0;
    assert(old_cache.take(0) =~= Seq::<CacheEntry>::empty());
    while rest.len() > 0
        invariant
            i + rest@.len() == old_cache.len(),
            keep@.len() == old_cache.len(),
            old_cache.take(i as int) + rest@ == old_cache,
            out@ == kept(old_cache.take(i as int), keep@),
        decreases rest@.len(),
    {
        let ghost prev = rest@;
        let e = rest.remove(0);
        proof {
            assert(old_cache.take(i + 1).drop_last() =~= old_cache.take(i as int));
            assert(old_cache[i as int] == e) by {
                assert((old_cache.take(i as int) + prev)[i as int] == prev[0]);
            }
            assert(old_cache.take(i + 1) + rest@ =~= old_cache) by {
                assert(old_cache.take(i as int) + prev == old_cache);
                assert(old_cache.take(i + 1) =~= old_cache.take(i as int).push(e));
            }
        }
        if keep[i] {
            out.push(e);
        }
        i = i + 1;
    }
    assert(old_cache.take(old_cache.len() as int) =~= old_cache);
    *cache = out;
}

/// The text every source file with marked items contains.
pub const RSEQ_MARK: &'static str = "rseq_";

/// The file's text mentions `rseq_`, so the scan parses it.
pub fn mentions_rseq(content: &str) -> (res: bool)
    ensures
        res == occurs_somewhere(name_key(content@), name_key(RSEQ_MARK@)),
{
    contains_bytes(content.as_bytes(), RSEQ_MARK.as_bytes())
}

/// The entries left after a replacement are not for the replaced file.
proof fn lemma_without_path_excludes(cache: Seq<CacheEntry>, path: Seq<char>)
    ensures
        forall|k: int| 0 <= k < without_path(cache, path).len() ==> (#[trigger] without_path(cache, path)[k]).path@ != path,
    decreases cache.len(),
{
    if cache.len() > 0 {
        lemma_without_path_excludes(cache.drop_last(), path);
        let prev = without_path(cache.drop_last(), path);
        if cache.last().path@ != path {
            assert forall|k: int| 0 <= k < prev.push(cache.last()).len() implies (#[trigger] prev.push(cache.last())[k]).path@ != path by {
                if k < prev.len() {
                    assert(prev.push(cache.last())[k] == prev[k]);
                }
            }
        }
    }
}

/// `first_fresh` of a list that ends in `e`, when no earlier entry is for
/// the path.
proof fn lemma_first_fresh_last(cache: Seq<CacheEntry>, e: CacheEntry, mtime: u64)
    requires
        forall|k: int| 0 <= k < cache.len() ==> (#[trigger] cache[k]).path@ != e.path@,
    ensures
        first_fresh(cache.push(e), e.path@, mtime) == if e.mtime >= mtime { Some(cache.len() as int) } else { None::<int> },
    decreases cache.len(),
{
    if cache.len() == 0 {
        assert(cache.push(e).drop_first() =~= Seq::<CacheEntry>::empty());
        assert(cache.push(e)[0] == e);
        assert(first_fresh(Seq::<CacheEntry>::empty(), e.path@, mtime) is None);
    } else {
        assert(cache.push(e).drop_first() =~= cache.drop_first().push(e));
        assert(cache.push(e)[0] == cache[0]);
        assert forall|k: int| 0 <= k < cache.drop_first().len() implies (#[trigger] cache.drop_first()[k]).path@ != e.path@ by {
            assert(cache.drop_first()[k] == cache[k + 1]);
        }
        lemma_first_fresh_last(cache.drop_first(), e, mtime);
    }
}

/// After a file's entry is replaced, the cache holds exactly one entry for
/// that file, the new one: a lookup at a time no later than the entry's
/// finds it, and a lookup at a later time finds nothing.
pub proof fn lemma_replaced_entry_is_found(cache: Seq<CacheEntry>, entry: CacheEntry, mtime: u64)
    ensures
        ({
            let updated = without_path(cache, entry.path@).push(entry);
            &&& first_fresh(updated, entry.path@, mtime) == if entry.mtime >= mtime {
                Some(updated.len() - 1)
            } else {
                None::<int>
            }
            &&& forall|k: int| 0 <= k < updated.len() - 1 ==> (#[trigger] updated[k]).path@ != entry.path@
        }),
{
    let rest = without_path(cache, entry.path@);
    lemma_without_path_excludes(cache, entry.path@);
    lemma_first_fresh_last(rest, entry, mtime);
    assert forall|k: int| 0 <= k < rest.push(entry).len() - 1 implies (#[trigger] rest.push(entry)[k]).path@ != entry.path@ by {
        assert(rest.push(entry)[k] == rest[k]);
    }
}

/// What the scan does with one file of the workspace.
pub enum ScanDecision {
    /// Not a Rust source file: passed over.
    Skip,
    /// The cache entry at this index still describes the file: its items
    /// are taken from the cache and the file is not read.
    UseCached(usize),
    /// The file is read and scanned again.
    Rescan,
}

/// The scan's decision for the file `path`, modified at `mtime`: a source
/// file with a fresh cache entry is taken from the cache, any other source
/// file is scanned again.
pub open spec fn scan_decision_of(cache: Seq<CacheEntry>, path: Seq<char>, is_source: bool, mtime: u64) -> ScanDecision {
    if !is_source {
        ScanDecision::Skip
    } else {
        match first_fresh(cache, path, mtime) {
            Some(i) => ScanDecision::UseCached(i as usize),
            None => ScanDecision::Rescan,
        }
    }
}

/// The entry `first_fresh` finds is for the path and at least as recent.
pub proof fn lemma_first_fresh_is_fresh(cache: Seq<CacheEntry>, path: Seq<char>, mtime: u64)
    ensures
        first_fresh(cache, path, mtime) matches Some(i) ==> 0 <= i < cache.len() && cache[i].path@ == path && cache[i].mtime >= mtime,
    decreases cache.len(),
{
    if cache.len() > 0 {
        lemma_first_fresh_is_fresh(cache.drop_first(), path, mtime);
    }
}

/// Decides what the scan does with the file `path`, modified at `mtime`;
/// `is_source` tells whether it is a Rust source file.
pub fn scan_decision(cache: &[CacheEntry], path: &str, is_source: bool, mtime: u64) -> (res: ScanDecision)
    ensures
        res == scan_decision_of(cache@, path@, is_source, mtime),
        res matches ScanDecision::UseCached(i) ==> i < cache@.len() && cache@[i as int].path@ == path@ && cache@[i as int].mtime >= mtime,
{
    if !is_source {
        return ScanDecision::Skip;
    }
    proof { lemma_first_fresh_is_fresh(cache@, path@, mtime); }
    let n: usize = cache.len();
    match find_fresh_entry(cache, path, mtime) {
        Some(i) => {
            proof {
                let k = first_fresh(cache@, path@, mtime)->Some_0;
                assert(0 <= k < n);
                assert(i == k as usize);
                assert(i as int == k);
            }
            ScanDecision::UseCached(i)
        },
        None => ScanDecision::Rescan,
    }
}

/// Records what the scan of a read file found: the items of a file that
/// mentions `rseq_` and parses replace its entry; otherwise (`None`) the
/// cache stays as it is.
pub fn record_scan(cache: &mut Vec<CacheEntry>, path: String, mtime: u64, found: Option<Vec<(String, RseqMacro, String)>>)
    ensures
        match found {
            Some(items) => final(cache)@ == without_path(old(cache)@, path@).push((CacheEntry { path: path, mtime: mtime, found: items })),
            None => final(cache)@ == old(cache)@,
        },
        paths_unique(old(cache)@) ==> paths_unique(final(cache)@),
{
    match found {
        Some(items) => {
            let entry = CacheEntry { path, mtime, found: items };
            proof {
                if paths_unique(cache@) {
                    lemma_recording_keeps_one_entry_per_file(cache@, entry);
                }
            }
            replace_entry(cache, entry);
        },
        None => {},
    }
}

/// A file that was scanned and recorded is not scanned again while it
/// stays unmodified: the scan takes it from its new entry, the last of the
/// cache, until the file is modified after the recorded time.
pub proof fn lemma_recorded_file_is_not_rescanned(cache: Seq<CacheEntry>, entry: CacheEntry, mtime: u64)
    ensures
        ({
            let updated = without_path(cache, entry.path@).push(entry);
            scan_decision_of(updated, entry.path@, true, mtime) == if entry.mtime >= mtime {
                ScanDecision::UseCached((updated.len() - 1) as usize)
            } else {
                ScanDecision::Rescan
            }
        }),
{
    lemma_replaced_entry_is_found(cache, entry, mtime);
}

/// No two entries of the cache are for the same file.
pub open spec fn paths_unique(cache: Seq<CacheEntry>) -> bool {
    forall|i: int, j: int| 0 <= i < j < cache.len() ==> (#[trigger] cache[i]).path@ != (#[trigger] cache[j]).path@
}

/// Dropping the entries for one path keeps out a path that was not there.
proof fn lemma_without_path_keeps_out(cache: Seq<CacheEntry>, path: Seq<char>, q: Seq<char>)
    requires
        forall|j: int| 0 <= j < cache.len() ==> (#[trigger] cache[j]).path@ != q,
    ensures
        forall|k: int| 0 <= k < without_path(cache, path).len() ==> (#[trigger] without_path(cache, path)[k]).path@ != q,
    decreases cache.len(),
{
    if cache.len() > 0 {
        let c = cache.drop_last();
        assert forall|j: int| 0 <= j < c.len() implies (#[trigger] c[j]).path@ != q by {
            assert(c[j] == cache[j]);
        }
        lemma_without_path_keeps_out(c, path, q);
        let prev = without_path(c, path);
        if cache.last().path@ != path {
            assert(cache.last() == cache[cache.len() - 1]);
            assert forall|k: int| 0 <= k < prev.push(cache.last()).len() implies (#[trigger] prev.push(cache.last())[k]).path@ != q by {
                if k < prev.len() {
                    assert(prev.push(cache.last())[k] == prev[k]);
                }
            }
        }
    }
}

/// Dropping the entries for one path keeps the paths unique.
proof fn lemma_without_path_unique(cache: Seq<CacheEntry>, path: Seq<char>)
    requires
        paths_unique(cache),
    ensures
        paths_unique(without_path(cache, path)),
    decreases cache.len(),
{
    if cache.len() > 0 {
        let c = cache.drop_last();
        assert forall|i: int, j: int| 0 <= i < j < c.len() implies (#[trigger] c[i]).path@ != (#[trigger] c[j]).path@ by {
            assert(c[i] == cache[i] && c[j] == cache[j]);
        }
        lemma_without_path_unique(c, path);
        let prev = without_path(c, path);
        if cache.last().path@ != path {
            let e = cache.last();
            assert forall|j: int| 0 <= j < c.len() implies (#[trigger] c[j]).path@ != e.path@ by {
                assert(c[j] == cache[j]);
                assert(e == cache[cache.len() - 1]);
            }
            lemma_without_path_keeps_out(c, path, e.path@);
            let updated = prev.push(e);
            assert forall|i: int, j: int| 0 <= i < j < updated.len() implies (#[trigger] updated[i]).path@ != (#[trigger] updated[j]).path@ by {
                assert(updated[i] == prev[i]);
                if j < prev.len() {
                    assert(updated[j] == prev[j]);
                } else {
                    assert(updated[j] == e);
                }
            }
        }
    }
}

/// Recording a scanned file keeps one entry per file: the cache's paths
/// stay unique, and the file's one entry is the new one, the last.
pub proof fn lemma_recording_keeps_one_entry_per_file(cache: Seq<CacheEntry>, entry: CacheEntry)
    requires
        paths_unique(cache),
    ensures
        paths_unique(without_path(cache, entry.path@).push(entry)),
        forall|k: int| 0 <= k < without_path(cache, entry.path@).len()
            ==> (#[trigger] without_path(cache, entry.path@)[k]).path@ != entry.path@,
{
    let prev = without_path(cache, entry.path@);
    lemma_without_path_unique(cache, entry.path@);
    lemma_without_path_excludes(cache, entry.path@);
    let updated = prev.push(entry);
    assert forall|i: int, j: int| 0 <= i < j < updated.len() implies (#[trigger] updated[i]).path@ != (#[trigger] updated[j]).path@ by {
        assert(updated[i] == prev[i]);
        if j < prev.len() {
            assert(updated[j] == prev[j]);
        } else {
            assert(updated[j] == entry);
        }
    }
}

/// Dropping the entries of files that no longer exist keeps the paths
/// unique: every kept entry is an entry of the cache.
pub proof fn lemma_kept_paths_unique(cache: Seq<CacheEntry>, keep: Seq<bool>)
    requires
        paths_unique(cache),
        keep.len() >= cache.len(),
    ensures
        paths_unique(kept(cache, keep)),
        forall|k: int| #![trigger kept(cache, keep)[k]] 0 <= k < kept(cache, keep).len()
            ==> exists|j: int| 0 <= j < cache.len() && kept(cache, keep)[k] == #[trigger] cache[j],
    decreases cache.len(),
{
    if cache.len() > 0 {
        let c = cache.drop_last();
        let e = cache.last();
        assert(e == cache[cache.len() - 1]);
        assert forall|i: int, j: int| 0 <= i < j < c.len() implies (#[trigger] c[i]).path@ != (#[trigger] c[j]).path@ by {
            assert(c[i] == cache[i] && c[j] == cache[j]);
        }
        lemma_kept_paths_unique(c, keep);
        let prev = kept(c, keep);
        assert forall|k: int| #![trigger prev[k]] 0 <= k < prev.len()
            implies exists|j: int| 0 <= j < cache.len() && prev[k] == #[trigger] cache[j] by {
            let j = choose|j: int| 0 <= j < c.len() && prev[k] == #[trigger] c[j];
            assert(c[j] == cache[j]);
        }
        if keep[cache.len() - 1] {
            let updated = prev.push(e);
            assert forall|i: int, j: int| 0 <= i < j < updated.len() implies (#[trigger] updated[i]).path@ != (#[trigger] updated[j]).path@ by {
                assert(updated[i] == prev[i]);
                if j < prev.len() {
                    assert(updated[j] == prev[j]);
                } else {
                    assert(updated[j] == e);
                    let m = choose|m: int| 0 <= m < c.len() && prev[i] == #[trigger] c[m];
                    assert(c[m] == cache[m]);
                }
            }
            assert forall|k: int| #![trigger updated[k]] 0 <= k < updated.len()
                implies exists|j: int| 0 <= j < cache.len() && updated[k] == #[trigger] cache[j] by {
                if k < prev.len() {
                    assert(updated[k] == prev[k]);
                } else {
                    assert(updated[k] == cache[cache.len() - 1]);
                }
            }
        }
    }
}

/// The entry at `k` still describes the file `path` modified at `mtime`.
pub open spec fn fresh_at(cache: Seq<CacheEntry>, path: Seq<char>, mtime: u64, k: int) -> bool {
    cache[k].path@ == path && cache[k].mtime >= mtime
}

/// `first_fresh` finds the first entry that still describes the file, and
/// finds none exactly when no entry does.
proof fn lemma_first_fresh_is_first(cache: Seq<CacheEntry>, path: Seq<char>, mtime: u64)
    ensures
        first_fresh(cache, path, mtime) is None <==> forall|k: int| 0 <= k < cache.len() ==> !fresh_at(cache, path, mtime, k),
        first_fresh(cache, path, mtime) matches Some(i) ==> 0 <= i < cache.len() && fresh_at(cache, path, mtime, i)
            && forall|k: int| 0 <= k < i ==> !fresh_at(cache, path, mtime, k),
    decreases cache.len(),
{
    if cache.len() > 0 {
        let rest = cache.drop_first();
        lemma_first_fresh_is_first(rest, path, mtime);
        assert forall|k: int| 0 <= k < rest.len() implies (fresh_at(rest, path, mtime, k) <==> fresh_at(cache, path, mtime, k + 1)) by {
            assert(rest[k] == cache[k + 1]);
        }
        if first_fresh(cache, path, mtime) is None {
            assert forall|k: int| 0 <= k < cache.len() implies !fresh_at(cache, path, mtime, k) by {
                if k > 0 {
                    assert(!fresh_at(rest, path, mtime, k - 1));
                }
            }
        } else if !fresh_at(cache, path, mtime, 0) {
            let i = first_fresh(cache, path, mtime)->Some_0;
            assert(fresh_at(rest, path, mtime, i - 1));
            assert forall|k: int| 0 <= k < i implies !fresh_at(cache, path, mtime, k) by {
                if k > 0 {
                    assert(!fresh_at(rest, path, mtime, k - 1));
                }
            }
        }
        if forall|k: int| 0 <= k < cache.len() ==> !fresh_at(cache, path, mtime, k) {
            assert(!fresh_at(cache, path, mtime, 0));
            assert forall|k: int| 0 <= k < rest.len() implies !fresh_at(rest, path, mtime, k) by {
                assert(!fresh_at(cache, path, mtime, k + 1));
            }
        }
    }
}

/// The scan never passes over a source file: it takes the file from the
/// first entry that still describes it (same path, recorded no earlier than
/// the file's modification), and reads the file again when no entry does,
/// stale entries for the path notwithstanding. Only files that are not
/// sources are passed over.
pub proof fn lemma_scan_decision_law(cache: Seq<CacheEntry>, path: Seq<char>, is_source: bool, mtime: u64)
    requires
        cache.len() <= usize::MAX,
    ensures
        !is_source ==> scan_decision_of(cache, path, is_source, mtime) is Skip,
        is_source ==> scan_decision_of(cache, path, is_source, mtime) !is Skip,
        is_source && (forall|k: int| 0 <= k < cache.len() ==> !(cache[k].path@ == path && cache[k].mtime >= mtime))
            ==> scan_decision_of(cache, path, is_source, mtime) is Rescan,
        scan_decision_of(cache, path, is_source, mtime) matches ScanDecision::UseCached(i) ==> {
            &&& is_source
            &&& i < cache.len()
            &&& cache[i as int].path@ == path
            &&& cache[i as int].mtime >= mtime
            &&& forall|k: int| 0 <= k < i ==> !(cache[k].path@ == path && cache[k].mtime >= mtime)
        },
        scan_decision_of(cache, path, is_source, mtime) is Rescan ==> is_source
            && forall|k: int| 0 <= k < cache.len() ==> !(cache[k].path@ == path && cache[k].mtime >= mtime),
{
    lemma_first_fresh_is_first(cache, path, mtime);
    if is_source {
        if let Some(i) = first_fresh(cache, path, mtime) {
            assert(fresh_at(cache, path, mtime, i));
            assert forall|k: int| 0 <= k < i implies !(cache[k].path@ == path && cache[k].mtime >= mtime) by {
                assert(!fresh_at(cache, path, mtime, k));
            }
        } else {
            assert forall|k: int| 0 <= k < cache.len() implies !(cache[k].path@ == path && cache[k].mtime >= mtime) by {
                assert(!fresh_at(cache, path, mtime, k));
            }
        }
        if forall|k: int| 0 <= k < cache.len() ==> !(cache[k].path@ == path && cache[k].mtime >= mtime) {
            assert forall|k: int| 0 <= k < cache.len() implies !fresh_at(cache, path, mtime, k) by {}
        }
    }
}

} // verus!
