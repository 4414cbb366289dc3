//! The decisions of the on-disk parse cache: when a stored entry still
//! describes a source file, what the cache holds in sum, which entries a
//! collection under a size cap keeps (the most recently used first), and the
//! cap that a setting asks for. Reading and writing the cache is left to
//! the caller, which hands these functions what it found.

use vstd::prelude::*;
use crate::eu4_builtin::string_views;
use crate::ordered::lemma_seq_lt_transitive;
use crate::scope_rules::{parse_u64, parse_u64_text};
use crate::text::{chars_lt, chars_of, lemma_seq_lt_trichotomy, seq_lt, str_eq, trim_bounds, trimmed};

verus! {

/// The format version of cache entries; an entry of another version is stale.
pub const PARSE_CACHE_VERSION: u32 = 6;

/// The directory, below the cache's base, that holds entries of this version.
pub const CACHE_VERSION_DIR: &'static str = "v6";

/// The cap on the cache's size when no setting gives one: 1 GiB.
pub const DEFAULT_CACHE_CAP_BYTES: u64 = 1073741824;

/// What the cache holds: its base directory, the number and total size of
/// its files, and the oldest and newest modification times among them, in
/// nanoseconds from the Unix epoch (negative before it).
#[derive(Clone, Debug, PartialEq, Eq)]
pub struct CacheStats {
    pub root: String,
    pub file_count: u64,
    pub total_bytes: u64,
    pub oldest_mtime: Option<i128>,
    pub newest_mtime: Option<i128>,
}

/// What a collection did: files seen, kept and removed, and the bytes held
/// before and after.
#[derive(Clone, Copy, Debug, PartialEq, Eq, Default)]
pub struct GcStats {
    pub scanned: u64,
    pub kept: u64,
    pub evicted: u64,
    pub bytes_before: u64,
    pub bytes_after: u64,
}

/// A file found below the cache's base: its path, the components of its path
/// below the base, its size, its modification time in nanoseconds from the
/// Unix epoch (negative before it), and whether it lies in the directory of
/// the current version.
#[derive(Clone, Debug)]
pub struct CacheFileInfo {
    pub path: String,
    pub components: Vec<String>,
    pub size: u64,
    pub mtime_nanos: i128,
    pub is_current_version: bool,
}

/// A stored entry describes the source file when it has the current version
/// and the file's length and modification time.
pub fn cache_entry_is_fresh(
    entry_version: u32,
    entry_file_len: u64,
    entry_modified_nanos: u128,
    file_len: u64,
    modified_nanos: u128,
) -> (r: bool)
    ensures
        r == (entry_version == PARSE_CACHE_VERSION && entry_file_len == file_len
            && entry_modified_nanos == modified_nanos),
{
    entry_version == PARSE_CACHE_VERSION && entry_file_len == file_len && entry_modified_nanos
        == modified_nanos
}

/// The total size of the files.
pub open spec fn sizes_total(files: Seq<CacheFileInfo>) -> nat
    decreases files.len(),
{
    if files.len() == 0 {
        0
    } else {
        sizes_total(files.drop_last()) + files.last().size as nat
    }
}

/// The earliest modification time among the files; none for no file.
pub open spec fn oldest_mtime(files: Seq<CacheFileInfo>) -> Option<i128>
    decreases files.len(),
{
    if files.len() == 0 {
        None
    } else {
        let t = files.last().mtime_nanos;
        match oldest_mtime(files.drop_last()) {
            Some(cur) => if cur <= t {
                Some(cur)
            } else {
                Some(t)
            },
            None => Some(t),
        }
    }
}

/// The latest modification time among the files; none for no file.
pub open spec fn newest_mtime(files: Seq<CacheFileInfo>) -> Option<i128>
    decreases files.len(),
{
    if files.len() == 0 {
        None
    } else {
        let t = files.last().mtime_nanos;
        match newest_mtime(files.drop_last()) {
            Some(cur) => if cur >= t {
                Some(cur)
            } else {
                Some(t)
            },
            None => Some(t),
        }
    }
}

proof fn lemma_sizes_total_prefix(files: Seq<CacheFileInfo>, i: int)
    requires
        0 <= i <= files.len(),
    ensures
        sizes_total(files.take(i)) <= sizes_total(files),
    decreases files.len() - i,
{
    if i < files.len() {
        lemma_sizes_total_prefix(files, i + 1);
        assert(files.take(i + 1).drop_last() =~= files.take(i));
    } else {
        assert(files.take(i) =~= files);
    }
}

/// The total size of the files, which must fit in 64 bits.
pub fn total_size(files: &Vec<CacheFileInfo>) -> (r: u64)
    requires
        sizes_total(files@) <= u64::MAX,
    ensures
        r == sizes_total(files@),
{
    let mut total: u64 = 0;
    let mut i: usize = 0;
    while i < files.len()
        invariant
            i <= files.len(),
            sizes_total(files@) <= u64::MAX,
            total == sizes_total(files@.take(i as int)),
        decreases files.len() - i,
    {
        assert(files@.take(i + 1).drop_last() =~= files@.take(i as int));
        proof {
            lemma_sizes_total_prefix(files@, i + 1);
        }
        total = total + files[i].size;
        i = i + 1;
    }
    assert(files@.take(files.len() as int) =~= files@);
    total
}

/// The statistics of a cache whose base is `root` and which holds `files`.
pub fn summarize_cache_files(root: String, files: &Vec<CacheFileInfo>) -> (r: CacheStats)
    requires
        sizes_total(files@) <= u64::MAX,
    ensures
        r.root == root,
        r.file_count == files@.len(),
        r.total_bytes == sizes_total(files@),
        r.oldest_mtime == oldest_mtime(files@),
        r.newest_mtime == newest_mtime(files@),
{
    let total = total_size(files);
    let mut oldest: Option<i128> = None;
    let mut newest: Option<i128> = None;
    let mut i: usize = 0;
    while i < files.len()
        invariant
            i <= files.len(),
            oldest == oldest_mtime(files@.take(i as int)),
            newest == newest_mtime(files@.take(i as int)),
        decreases files.len() - i,
    {
        assert(files@.take(i + 1).drop_last() =~= files@.take(i as int));
        let t = files[i].mtime_nanos;
        oldest = match oldest {
            Some(current) => if current <= t {
                Some(current)
            } else {
                Some(t)
            },
            None => Some(t),
        };
        newest = match newest {
            Some(current) => if current >= t {
                Some(current)
            } else {
                Some(t)
            },
            None => Some(t),
        };
        i = i + 1;
    }
    assert(files@.take(files.len() as int) =~= files@);
    CacheStats {
        root,
        file_count: files.len() as u64,
        total_bytes: total,
        oldest_mtime: oldest,
        newest_mtime: newest,
    }
}

/// The statistics of a collection, from what it saw before, what it
/// removed, and what remained.
pub fn gc_stats(scanned: u64, bytes_before: u64, evicted: u64, remaining: &Vec<CacheFileInfo>) -> (r:
    GcStats)
    requires
        sizes_total(remaining@) <= u64::MAX,
    ensures
        r.scanned == scanned,
        r.kept == remaining@.len(),
        r.evicted == evicted,
        r.bytes_before == bytes_before,
        r.bytes_after == sizes_total(remaining@),
{
    GcStats {
        scanned,
        kept: remaining.len() as u64,
        evicted,
        bytes_before,
        bytes_after: total_size(remaining),
    }
}

/// The cap that a setting asks for: the setting's number after trimming,
/// or the default where there is no setting or it is no number.
pub fn cache_cap_from_setting(setting: Option<&str>) -> (r: u64)
    ensures
        r == (match setting {
            Some(s) => match parse_u64(trimmed(s@, 0, s@.len() as int)) {
                Some(v) => v,
                None => DEFAULT_CACHE_CAP_BYTES,
            },
            None => DEFAULT_CACHE_CAP_BYTES,
        }),
{
    match setting {
        Some(s) => {
            let cs = chars_of(s);
            let (a, b) = trim_bounds(&cs, 0, cs.len());
            let mut t: Vec<char> = Vec::new();
            let mut i: usize = a;
            while i < b
                invariant
                    a <= i <= b <= cs.len(),
                    cs@ == s@,
                    t@ == cs@.subrange(a as int, i as int),
                decreases b - i,
            {
                t.push(cs[i]);
                i = i + 1;
                assert(t@ =~= cs@.subrange(a as int, i as int));
            }
            let text = crate::text::string_from_chars(t.as_slice());
            match parse_u64_text(text.as_str()) {
                Some(v) => v,
                None => DEFAULT_CACHE_CAP_BYTES,
            }
        },
        None => DEFAULT_CACHE_CAP_BYTES,
    }
}

/// Lexicographic order on paths given by their components, each component
/// compared by its characters.
pub open spec fn components_lt(x: Seq<Seq<char>>, y: Seq<Seq<char>>) -> bool
    decreases x.len(),
{
    if x.len() == 0 {
        y.len() > 0
    } else if y.len() == 0 {
        false
    } else if x[0] != y[0] {
        seq_lt(x[0], y[0])
    } else {
        components_lt(x.drop_first(), y.drop_first())
    }
}

pub proof fn lemma_components_trichotomy(x: Seq<Seq<char>>, y: Seq<Seq<char>>)
    ensures
        x == y || components_lt(x, y) || components_lt(y, x),
        !(components_lt(x, y) && components_lt(y, x)),
        !components_lt(x, x),
    decreases x.len(),
{
    if x.len() > 0 && y.len() > 0 {
        if x[0] == y[0] {
            lemma_components_trichotomy(x.drop_first(), y.drop_first());
            if x.drop_first() == y.drop_first() {
                assert(x =~= seq![x[0]] + x.drop_first());
                assert(y =~= seq![y[0]] + y.drop_first());
            }
        } else {
            lemma_seq_lt_trichotomy(x[0], y[0]);
        }
    }
    if x.len() > 0 {
        lemma_components_trichotomy(x.drop_first(), x.drop_first());
    }
    if x.len() == 0 && y.len() == 0 {
        assert(x =~= y);
    }
}

pub proof fn lemma_components_transitive(x: Seq<Seq<char>>, y: Seq<Seq<char>>, z: Seq<Seq<char>>)
    requires
        components_lt(x, y),
        components_lt(y, z),
    ensures
        components_lt(x, z),
    decreases x.len(),
{
    if x.len() > 0 && y.len() > 0 && z.len() > 0 {
        if x[0] == y[0] && y[0] == z[0] {
            lemma_components_transitive(x.drop_first(), y.drop_first(), z.drop_first());
        } else if x[0] == y[0] {
            // the first difference is between y and z
        } else if y[0] == z[0] {
            // the first difference is between x and y
        } else {
            lemma_seq_lt_transitive(x[0], y[0], z[0]);
            lemma_seq_lt_trichotomy(x[0], z[0]);
            if x[0] == z[0] {
                lemma_seq_lt_trichotomy(x[0], y[0]);
            }
        }
    }
}

/// The components of a cache file's path, as character sequences.
pub open spec fn path_components(f: CacheFileInfo) -> Seq<Seq<char>> {
    string_views(f.components@)
}

/// A collection considers `a` before `b`: `a` was used more recently, or at
/// the same time and its path comes first.
pub open spec fn used_before(a: CacheFileInfo, b: CacheFileInfo) -> bool {
    a.mtime_nanos > b.mtime_nanos || (a.mtime_nanos == b.mtime_nanos && components_lt(
        path_components(a),
        path_components(b),
    ))
}

/// Neither goes before the other: same time and same path.
pub open spec fn same_rank(a: CacheFileInfo, b: CacheFileInfo) -> bool {
    a.mtime_nanos == b.mtime_nanos && path_components(a) == path_components(b)
}

/// The order in which a collection considers the files at positions `x`
/// and `y`: by [`used_before`], and files of the same rank in the order given.
pub open spec fn gc_precedes(files: Seq<CacheFileInfo>, x: int, y: int) -> bool {
    used_before(files[x], files[y]) || (same_rank(files[x], files[y]) && x < y)
}

pub proof fn lemma_used_before_total(a: CacheFileInfo, b: CacheFileInfo)
    ensures
        used_before(a, b) || used_before(b, a) || same_rank(a, b),
        !(used_before(a, b) && used_before(b, a)),
        !(used_before(a, b) && same_rank(a, b)),
        !(used_before(b, a) && same_rank(a, b)),
{
    lemma_components_trichotomy(path_components(a), path_components(b));
}

pub proof fn lemma_gc_precedes_total(files: Seq<CacheFileInfo>, x: int, y: int)
    requires
        0 <= x < files.len(),
        0 <= y < files.len(),
        x != y,
    ensures
        gc_precedes(files, x, y) != gc_precedes(files, y, x),
{
    lemma_used_before_total(files[x], files[y]);
    lemma_used_before_total(files[y], files[x]);
}

pub proof fn lemma_gc_precedes_transitive(files: Seq<CacheFileInfo>, x: int, y: int, z: int)
    requires
        0 <= x < files.len(),
        0 <= y < files.len(),
        0 <= z < files.len(),
        gc_precedes(files, x, y),
        gc_precedes(files, y, z),
    ensures
        gc_precedes(files, x, z),
{
    let (a, b, c) = (files[x], files[y], files[z]);
    lemma_used_before_total(a, b);
    lemma_used_before_total(b, c);
    lemma_used_before_total(a, c);
    if a.mtime_nanos == b.mtime_nanos && b.mtime_nanos == c.mtime_nanos {
        let (pa, pb, pc) = (path_components(a), path_components(b), path_components(c));
        if components_lt(pa, pb) && components_lt(pb, pc) {
            lemma_components_transitive(pa, pb, pc);
        }
    }
}

fn components_before(x: &Vec<String>, y: &Vec<String>) -> (r: bool)
    ensures
        r == components_lt(string_views(x@), string_views(y@)),
{
    let ghost sx = string_views(x@);
    let ghost sy = string_views(y@);
    let mut i: usize = 0;
    assert(sx.skip(0) =~= sx);
    assert(sy.skip(0) =~= sy);
    while i < x.len() && i < y.len()
        invariant
            i <= x.len(),
            i <= y.len(),
            sx == string_views(x@),
            sy == string_views(y@),
            sx.len() == x.len(),
            sy.len() == y.len(),
            components_lt(sx, sy) == components_lt(sx.skip(i as int), sy.skip(i as int)),
        decreases x.len() - i,
    {
        let ghost tx = sx.skip(i as int);
        let ghost ty = sy.skip(i as int);
        assert(tx[0] == x@[i as int]@);
        assert(ty[0] == y@[i as int]@);
        if !str_eq(x[i].as_str(), y[i].as_str()) {
            let a = chars_of(x[i].as_str());
            let b = chars_of(y[i].as_str());
            return chars_lt(&a, &b);
        }
        assert(tx.drop_first() =~= sx.skip(i + 1));
        assert(ty.drop_first() =~= sy.skip(i + 1));
        i = i + 1;
    }
    i == x.len() && i < y.len()
}

/// Whether a collection considers `a` before `b`.
pub fn goes_before(a: &CacheFileInfo, b: &CacheFileInfo) -> (r: bool)
    ensures
        r == used_before(*a, *b),
{
    a.mtime_nanos > b.mtime_nanos || (a.mtime_nanos == b.mtime_nanos && components_before(
        &a.components,
        &b.components,
    ))
}

/// The positions of the files of the current version, in the order in which
/// a collection considers them: most recently used first, then by path.
pub fn gc_order(files: &Vec<CacheFileInfo>) -> (order: Vec<usize>)
    ensures
        forall|k: int| 0 <= k < order@.len() ==> #[trigger] order@[k] < files@.len()
            && files@[order@[k] as int].is_current_version,
        forall|x: int|
            0 <= x < files@.len() && #[trigger] files@[x].is_current_version ==> order@.contains(
                x as usize,
            ),
        forall|a: int, b: int|
            0 <= a < b < order@.len() ==> gc_precedes(
                files@,
                #[trigger] order@[a] as int,
                #[trigger] order@[b] as int,
            ),
{
    let mut order: Vec<usize> = Vec::new();
    let mut i: usize = 0;
    while i < files.len()
        invariant
            i <= files.len(),
            forall|k: int| 0 <= k < order@.len() ==> #[trigger] order@[k] < i
                && files@[order@[k] as int].is_current_version,
            forall|x: int|
                0 <= x < i && #[trigger] files@[x].is_current_version ==> order@.contains(
                    x as usize,
                ),
            forall|a: int, b: int|
                0 <= a < b < order@.len() ==> gc_precedes(
                    files@,
                    #[trigger] order@[a] as int,
                    #[trigger] order@[b] as int,
                ),
        decreases files.len() - i,
    {
        if files[i].is_current_version {
            let mut p: usize = 0;
            while p < order.len() && !goes_before(&files[i], &files[order[p]])
                invariant
                    p <= order@.len(),
                    i < files.len(),
                    forall|k: int| 0 <= k < order@.len() ==> #[trigger] order@[k] < i,
                    forall|q: int| 0 <= q < p ==> gc_precedes(files@, #[trigger] order@[q] as int, i as int),
                decreases order@.len() - p,
            {
                proof {
                    let o = order@[p as int] as int;
                    lemma_used_before_total(files@[i as int], files@[o]);
                }
                p = p + 1;
            }
            proof {
                if p < order@.len() {
                    let o = order@[p as int] as int;
                    lemma_used_before_total(files@[i as int], files@[o]);
                    assert(gc_precedes(files@, i as int, o));
                }
            }
            let ghost old_order = order@;
            order.insert(p, i);
            proof {
                assert forall|a: int, b: int|
                    0 <= a < b < order@.len() implies gc_precedes(
                    files@,
                    #[trigger] order@[a] as int,
                    #[trigger] order@[b] as int,
                ) by {
                    if a < p as int && b < p as int {
                        assert(order@[a] == old_order[a] && order@[b] == old_order[b]);
                    } else if a < p as int && b == p as int {
                        assert(order@[a] == old_order[a]);
                    } else if a < p as int {
                        assert(order@[a] == old_order[a] && order@[b] == old_order[b - 1]);
                    } else if a == p as int {
                        assert(order@[b] == old_order[b - 1]);
                        let o = old_order[p as int] as int;
                        if b - 1 > p {
                            lemma_gc_precedes_transitive(files@, i as int, o, old_order[b - 1] as int);
                        }
                    } else {
                        assert(order@[a] == old_order[a - 1] && order@[b] == old_order[b - 1]);
                    }
                }
                assert forall|x: int|
                    0 <= x < i + 1 && #[trigger] files@[x].is_current_version implies order@.contains(
                    x as usize,
                ) by {
                    if x == i {
                        assert(order@[p as int] == i);
                    } else {
                        let k = choose|k: int| 0 <= k < old_order.len() && old_order[k] == x as usize;
                        if k < p {
                            assert(order@[k] == x as usize);
                        } else {
                            assert(order@[k + 1] == x as usize);
                        }
                    }
                }
            }
        }
        i = i + 1;
    }
    order
}

/// `a + b`, or the largest 64-bit number where the sum is larger.
pub open spec fn saturating_sum(a: nat, b: nat) -> nat {
    if a + b > u64::MAX {
        u64::MAX as nat
    } else {
        a + b
    }
}

/// Going through the files at the positions `order`, a collection under
/// `cap` keeps a file when the cap is not zero and the bytes kept so far and
/// the file's size together (stopping at the largest 64-bit number) stay
/// within the cap. Gives the decision for each position of `order` and the
/// bytes counted as kept.
pub open spec fn greedy_keep(files: Seq<CacheFileInfo>, order: Seq<usize>, cap: u64) -> (Seq<
    bool,
>, nat)
    decreases order.len(),
{
    if order.len() == 0 {
        (Seq::empty(), 0)
    } else {
        let prev = greedy_keep(files, order.drop_last(), cap);
        let size = files[order.last() as int].size as nat;
        let sum = saturating_sum(prev.1, size);
        if cap > 0 && sum <= cap {
            (prev.0.push(true), sum)
        } else {
            (prev.0.push(false), prev.1)
        }
    }
}

/// A collection keeps within its cap: the bytes counted as kept never pass
/// the cap, a cap of zero keeps nothing, and there is one decision for each
/// file considered.
pub proof fn lemma_greedy_keep_within_cap(files: Seq<CacheFileInfo>, order: Seq<usize>, cap: u64)
    ensures
        greedy_keep(files, order, cap).0.len() == order.len(),
        greedy_keep(files, order, cap).1 <= cap,
        cap == 0 ==> forall|k: int| 0 <= k < order.len() ==> !#[trigger] greedy_keep(files, order, cap).0[k],
    decreases order.len(),
{
    if order.len() > 0 {
        lemma_greedy_keep_within_cap(files, order.drop_last(), cap);
        let prev = greedy_keep(files, order.drop_last(), cap);
        let next = greedy_keep(files, order, cap);
        if cap == 0 {
            assert forall|k: int| 0 <= k < order.len() implies !#[trigger] next.0[k] by {
                if k < order.len() - 1 {
                    assert(next.0[k] == prev.0[k]);
                }
            }
        }
    }
}

/// What a collection does: the order in which it considers the files of the
/// current version, and for every file whether it is removed.
pub struct GcPlan {
    pub order: Vec<usize>,
    pub evict: Vec<bool>,
}

/// The plan of a collection under `cap_bytes`: files of other versions are
/// removed; those of the current version are considered most recently used
/// first, and each is kept while it fits under the cap.
pub fn plan_gc(files: &Vec<CacheFileInfo>, cap_bytes: u64) -> (r: GcPlan)
    ensures
        forall|k: int| 0 <= k < r.order@.len() ==> #[trigger] r.order@[k] < files@.len()
            && files@[r.order@[k] as int].is_current_version,
        forall|x: int|
            0 <= x < files@.len() && #[trigger] files@[x].is_current_version ==> r.order@.contains(
                x as usize,
            ),
        forall|a: int, b: int|
            0 <= a < b < r.order@.len() ==> gc_precedes(
                files@,
                #[trigger] r.order@[a] as int,
                #[trigger] r.order@[b] as int,
            ),
        r.evict@.len() == files@.len(),
        forall|x: int|
            0 <= x < files@.len() && !files@[x].is_current_version ==> #[trigger] r.evict@[x],
        forall|k: int|
            0 <= k < r.order@.len() ==> r.evict@[#[trigger] r.order@[k] as int] == !greedy_keep(
                files@,
                r.order@,
                cap_bytes,
            ).0[k],
{
    let order = gc_order(files);
    let mut evict: Vec<bool> = Vec::new();
    let mut i: usize = 0;
    while i < files.len()
        invariant
            i <= files.len(),
            evict@.len() == i,
            forall|x: int| 0 <= x < i ==> #[trigger] evict@[x] == !files@[x].is_current_version,
        decreases files.len() - i,
    {
        evict.push(!files[i].is_current_version);
        i = i + 1;
    }
    let mut kept: u64 = 0;
    let mut k: usize = 0;
    while k < order.len()
        invariant
            k <= order@.len(),
            evict@.len() == files@.len(),
            forall|j: int| 0 <= j < order@.len() ==> #[trigger] order@[j] < files@.len()
                && files@[order@[j] as int].is_current_version,
            forall|a: int, b: int|
                0 <= a < b < order@.len() ==> gc_precedes(
                    files@,
                    #[trigger] order@[a] as int,
                    #[trigger] order@[b] as int,
                ),
            kept == greedy_keep(files@, order@.take(k as int), cap_bytes).1,
            greedy_keep(files@, order@.take(k as int), cap_bytes).0.len() == k,
            forall|x: int|
                0 <= x < files@.len() && !files@[x].is_current_version ==> #[trigger] evict@[x],
            forall|j: int|
                0 <= j < k ==> evict@[#[trigger] order@[j] as int] == !greedy_keep(
                    files@,
                    order@.take(k as int),
                    cap_bytes,
                ).0[j],
        decreases order@.len() - k,
    {
        let ghost before = evict@;
        let ghost prev = greedy_keep(files@, order@.take(k as int), cap_bytes);
        assert(order@.take(k + 1).drop_last() =~= order@.take(k as int));
        assert(order@.take(k + 1).last() == order@[k as int]);
        let index = order[k];
        let sum = kept.saturating_add(files[index].size);
        let fits = cap_bytes > 0 && sum <= cap_bytes;
        if fits {
            kept = sum;
        }
        evict.set(index, !fits);
        proof {
            let next = greedy_keep(files@, order@.take(k + 1), cap_bytes);
            assert(next.0 == prev.0.push(fits));
            assert forall|j: int| 0 <= j < k + 1 implies evict@[#[trigger] order@[j] as int] == !next.0[j] by {
                if j < k {
                    lemma_used_before_total(files@[index as int], files@[index as int]);
                    assert(gc_precedes(files@, order@[j] as int, order@[k as int] as int));
                    assert(order@[j] != index);
                    assert(evict@[order@[j] as int] == before[order@[j] as int]);
                }
            }
        }
        k = k + 1;
    }
    assert(order@.take(order@.len() as int) =~= order@);
    GcPlan { order, evict }
}

/// A collection under a cap of zero removes every file.
pub proof fn lemma_zero_cap_evicts_everything(files: Seq<CacheFileInfo>, order: Seq<usize>, k: int)
    requires
        0 <= k < order.len(),
    ensures
        !greedy_keep(files, order, 0).0[k],
        greedy_keep(files, order, 0).0.len() == order.len(),
    decreases order.len(),
{
    lemma_greedy_keep_len(files, order, 0);
    if k < order.len() - 1 {
        lemma_zero_cap_evicts_everything(files, order.drop_last(), k);
    }
}

proof fn lemma_greedy_keep_len(files: Seq<CacheFileInfo>, order: Seq<usize>, cap: u64)
    ensures
        greedy_keep(files, order, cap).0.len() == order.len(),
    decreases order.len(),
{
    if order.len() > 0 {
        lemma_greedy_keep_len(files, order.drop_last(), cap);
    }
}

/// The bytes a collection counts as kept never exceed its cap, and every
/// file it keeps fits within the cap by itself.
pub proof fn lemma_kept_bytes_within_cap(files: Seq<CacheFileInfo>, order: Seq<usize>, cap: u64, k: int)
    requires
        0 <= k < order.len(),
        0 <= order[k] < files.len(),
    ensures
        greedy_keep(files, order, cap).1 <= cap,
        greedy_keep(files, order, cap).0[k] ==> files[order[k] as int].size <= cap,
    decreases order.len(),
{
    lemma_greedy_keep_len(files, order, cap);
    lemma_greedy_keep_bound(files, order, cap);
    if k < order.len() - 1 {
        lemma_kept_bytes_within_cap(files, order.drop_last(), cap, k);
    }
}

proof fn lemma_greedy_keep_bound(files: Seq<CacheFileInfo>, order: Seq<usize>, cap: u64)
    ensures
        greedy_keep(files, order, cap).1 <= cap,
    decreases order.len(),
{
    if order.len() > 0 {
        lemma_greedy_keep_bound(files, order.drop_last(), cap);
    }
}


/// The `n` low hexadecimal digits of `h`, most significant first.
pub open spec fn low_hex_digits(h: nat, n: nat) -> Seq<char>
    decreases n,
{
    if n == 0 {
        Seq::empty()
    } else {
        low_hex_digits(h / 16, (n - 1) as nat).push(crate::eu4_builtin::hex_digit((h % 16) as u8))
    }
}

/// Where the cache keeps the entry of a file whose key hashes to `h`:
/// the hash as sixteen hexadecimal digits, in a directory named by its
/// first two digits and a subdirectory named by the next two.
pub open spec fn shard_path(h: u64) -> Seq<char> {
    let key = low_hex_digits(h as nat, 16);
    key.subrange(0, 2) + "/"@ + key.subrange(2, 4) + "/"@ + key + ".json"@
}

fn hex_digits(x: u64, n: usize) -> (r: Vec<char>)
    ensures
        r@ == low_hex_digits(x as nat, n as nat),
        r@.len() == n,
    decreases n,
{
    if n == 0 {
        return Vec::new();
    }
    let mut v = hex_digits(x / 16, n - 1);
    let d = (x % 16) as u8;
    let c = if d < 10 {
        (48 + d) as char
    } else {
        (87 + d) as char
    };
    v.push(c);
    v
}

/// The path of a cache entry below the cache root, from the hash of the
/// file's key.
pub fn cache_shard_path(h: u64) -> (r: String)
    ensures
        r@ == shard_path(h),
{
    let key = hex_digits(h, 16);
    let mut out: Vec<char> = Vec::new();
    out.push(key[0]);
    out.push(key[1]);
    out.push('/');
    out.push(key[2]);
    out.push(key[3]);
    out.push('/');
    let mut k = key.clone();
    out.append(&mut k);
    out.push('.');
    out.push('j');
    out.push('s');
    out.push('o');
    out.push('n');
    proof {
        reveal_strlit("/");
        reveal_strlit(".json");
        assert(out@ =~= shard_path(h));
    }
    crate::text::string_from_chars(out.as_slice())
}

} // verus!
