//! The summary of a payload: its header, manifest parameters and partitions.

use vstd::prelude::*;
use vstd::string::StringExecFns;
use crate::error::PayloadError;
use crate::header::PayloadHeader;
use crate::manifest::{DeltaArchiveManifest, PartitionUpdate, PartitionView, opt_str_view};
use crate::properties::PayloadProperties;
use crate::text::{format_size, human_bytes};

verus! {

/// Refuses an empty path.
pub fn validate_path(path: &str) -> (r: Result<(), PayloadError>)
    ensures
        path@.len() == 0 <==> r matches Err(PayloadError::EmptyPath),
        path@.len() > 0 <==> r is Ok,
{
    if path.is_empty() {
        Err(PayloadError::EmptyPath)
    } else {
        Ok(())
    }
}

/// Summary of one partition.
#[derive(Clone, Debug)]
pub struct PartitionInfo {
    /// Name of the partition ("system", "vendor", "boot", ...).
    pub name: String,
    /// Size of the finished image in bytes.
    pub size: u64,
    /// Number of install operations.
    pub operations_count: usize,
    /// The size for a reader.
    pub size_human: String,
}

pub ghost struct PartitionInfoView {
    pub name: Seq<char>,
    pub size: u64,
    pub operations_count: nat,
    pub size_human: Seq<char>,
}

impl View for PartitionInfo {
    type V = PartitionInfoView;

    open spec fn view(&self) -> PartitionInfoView {
        PartitionInfoView {
            name: self.name@,
            size: self.size,
            operations_count: self.operations_count as nat,
            size_human: self.size_human@,
        }
    }
}

/// Everything that inspection learns of a payload.
#[derive(Clone, Debug)]
pub struct PayloadInspection {
    pub header: PayloadHeader,
    /// Block size; 4096 where the manifest gives none.
    pub block_size: u32,
    /// Whether this is a partial update; false where the manifest does not say.
    pub partial_update: bool,
    pub security_patch_level: Option<String>,
    /// The partitions, sorted by name.
    pub partitions: Vec<PartitionInfo>,
    /// Sum of the partition sizes.
    pub total_size: u64,
    pub total_size_human: String,
    /// The path that was inspected.
    pub file_path: String,
    /// What the properties file beside the payload gives, if there is one.
    pub properties: Option<PayloadProperties>,
}

/// The size of a partition's finished image; 0 where the manifest gives none.
pub open spec fn partition_size(p: PartitionView) -> u64 {
    match p.size {
        Some(s) => s,
        None => 0,
    }
}

pub open spec fn summary_of(p: PartitionView) -> PartitionInfoView {
    PartitionInfoView {
        name: p.name,
        size: partition_size(p),
        operations_count: p.operations.len(),
        size_human: human_bytes(partition_size(p)),
    }
}

pub open spec fn summaries(ps: Seq<PartitionView>) -> Seq<PartitionInfoView> {
    ps.map_values(|p: PartitionView| summary_of(p))
}

pub open spec fn info_views(v: Seq<PartitionInfo>) -> Seq<PartitionInfoView> {
    v.map_values(|p: PartitionInfo| p@)
}

/// Sum of the sizes of the partitions.
pub open spec fn total_of(ps: Seq<PartitionView>) -> nat
    decreases ps.len(),
{
    if ps.len() == 0 {
        0
    } else {
        total_of(ps.drop_last()) + partition_size(ps.last()) as nat
    }
}

/// Sum of the sizes in the summaries.
pub open spec fn total_of_infos(s: Seq<PartitionInfoView>) -> nat
    decreases s.len(),
{
    if s.len() == 0 {
        0
    } else {
        total_of_infos(s.drop_last()) + s.last().size as nat
    }
}

/// `a` comes no later than `b` in lexicographic order of code points.
pub open spec fn name_le(a: Seq<char>, b: Seq<char>) -> bool
    decreases a.len(),
{
    if a.len() == 0 {
        true
    } else if b.len() == 0 {
        false
    } else if a[0] != b[0] {
        (a[0] as u32) < (b[0] as u32)
    } else {
        name_le(a.skip(1), b.skip(1))
    }
}

/// `r` is `s` sorted by name, equal names keeping their order; `idx` gives
/// for each place of `r` the place in `s` it came from.
pub open spec fn stable_sort_of(r: Seq<PartitionInfoView>, s: Seq<PartitionInfoView>, idx: Seq<int>) -> bool {
    &&& r.len() == s.len()
    &&& idx.len() == r.len()
    &&& forall|k: int| 0 <= k < r.len() ==> 0 <= #[trigger] idx[k] < s.len() && r[k] == s[idx[k]]
    &&& forall|k: int, l: int| 0 <= k < l < r.len() ==> idx[k] != idx[l]
    &&& forall|k: int, l: int| 0 <= k < l < r.len() ==> name_le(r[k].name, r[l].name)
    &&& forall|k: int, l: int|
        0 <= k < l < r.len() && r[k].name == r[l].name ==> idx[k] < idx[l]
}

proof fn lemma_name_le_total(a: Seq<char>, b: Seq<char>)
    ensures
        name_le(a, b) || name_le(b, a),
        name_le(a, b) && name_le(b, a) ==> a == b,
    decreases a.len(),
{
    if a.len() > 0 && b.len() > 0 && a[0] == b[0] {
        lemma_name_le_total(a.skip(1), b.skip(1));
        if name_le(a, b) && name_le(b, a) {
            assert(a =~= seq![a[0]] + a.skip(1));
            assert(b =~= seq![b[0]] + b.skip(1));
        }
    }
    if a.len() > 0 && b.len() > 0 && a[0] != b[0] {
        let (ca, cb) = (a[0], b[0]);
        vstd::utf8::char_u32_cast(ca, ca as u32);
        vstd::utf8::char_u32_cast(cb, cb as u32);
        assert((ca as u32) != (cb as u32));
    }
    if a.len() == 0 && b.len() == 0 {
        assert(a =~= b);
    }
}

proof fn lemma_name_le_transitive(a: Seq<char>, b: Seq<char>, c: Seq<char>)
    requires
        name_le(a, b),
        name_le(b, c),
    ensures
        name_le(a, c),
    decreases a.len(),
{
    if a.len() > 0 && b.len() > 0 && c.len() > 0 && a[0] == b[0] && b[0] == c[0] {
        lemma_name_le_transitive(a.skip(1), b.skip(1), c.skip(1));
    }
}

/// Whether `a` comes no later than `b` in lexicographic order of code points.
pub fn name_le_exec(a: &str, b: &str) -> (r: bool)
    ensures
        r == name_le(a@, b@),
{
    let na = a.unicode_len();
    let nb = b.unicode_len();
    let mut i: usize = 0;
    assert(a@.skip(0) =~= a@);
    assert(b@.skip(0) =~= b@);
    while i < na && i < nb
        invariant
            na == a@.len(),
            nb == b@.len(),
            i <= na,
            i <= nb,
            name_le(a@, b@) == name_le(a@.skip(i as int), b@.skip(i as int)),
        decreases na - i,
    {
        let ca = a.get_char(i);
        let cb = b.get_char(i);
        if ca != cb {
            return (ca as u32) < (cb as u32);
        }
        assert(a@.skip(i as int).skip(1) =~= a@.skip(i + 1));
        assert(b@.skip(i as int).skip(1) =~= b@.skip(i + 1));
        i = i + 1;
    }
    i == na
}

proof fn lemma_total_of_infos_insert(s: Seq<PartitionInfoView>, k: int, x: PartitionInfoView)
    requires
        0 <= k <= s.len(),
    ensures
        total_of_infos(s.insert(k, x)) == total_of_infos(s) + x.size,
    decreases s.len(),
{
    if k == s.len() {
        assert(s.insert(k, x).drop_last() =~= s);
    } else {
        lemma_total_of_infos_insert(s.drop_last(), k, x);
        assert(s.insert(k, x).drop_last() =~= s.drop_last().insert(k, x));
    }
}

/// Inserts `x` into the sorted `v` after every summary whose name is not
/// above its own.
fn insert_sorted(v: &mut Vec<PartitionInfo>, x: PartitionInfo) -> (k: usize)
    requires
        forall|a: int, b: int|
            0 <= a < b < old(v)@.len() ==> name_le(#[trigger] old(v)@[a].name@, #[trigger] old(v)@[b].name@),
    ensures
        k <= old(v)@.len(),
        final(v)@ == old(v)@.insert(k as int, x),
        forall|a: int| 0 <= a < k ==> name_le(#[trigger] old(v)@[a].name@, x.name@),
        forall|a: int| k <= a < old(v)@.len() ==> !name_le(#[trigger] old(v)@[a].name@, x.name@),
{
    let mut k: usize = 0;
    while k < v.len() && name_le_exec(v[k].name.as_str(), x.name.as_str())
        invariant
            v@ == old(v)@,
            k <= v@.len(),
            forall|a: int| 0 <= a < k ==> name_le(#[trigger] v@[a].name@, x.name@),
        decreases v@.len() - k,
    {
        k = k + 1;
    }
    proof {
        assert forall|a: int| k <= a < old(v)@.len() implies !name_le(
            #[trigger] old(v)@[a].name@,
            x.name@,
        ) by {
            if name_le(old(v)@[a].name@, x.name@) {
                if a > k {
                    // v[k] <= v[a] <= x
                    lemma_name_le_transitive(v@[k as int].name@, v@[a].name@, x.name@);
                }
            }
        }
    }
    v.insert(k, x);
    k
}

/// The summary of a payload whose header and manifest have been read.  It
/// fails only where the partition sizes add up to more than 64 bits hold.
/// The partitions come sorted by name, equal names in manifest order; the
/// total is the sum of their sizes.
pub fn inspect_manifest(
    header: PayloadHeader,
    manifest: &DeltaArchiveManifest,
    file_path: &str,
    properties: Option<PayloadProperties>,
) -> (r: Result<PayloadInspection, PayloadError>)
    ensures
        r is Ok <==> total_of(manifest@.partitions) <= u64::MAX,
        r is Err ==> r matches Err(PayloadError::InvalidInput(_)),
        r matches Ok(i) ==> {
            &&& i.header == header
            &&& i.block_size == (match manifest.block_size {
                Some(b) => b,
                None => 4096,
            })
            &&& i.partial_update == (manifest.partial_update == Some(true))
            &&& opt_str_view(i.security_patch_level) == manifest@.security_patch_level
            &&& i.total_size == total_of(manifest@.partitions)
            &&& i.total_size == total_of_infos(info_views(i.partitions@))
            &&& i.total_size_human@ == human_bytes(i.total_size)
            &&& i.file_path@ == file_path@
            &&& i.properties == properties
            &&& exists|idx: Seq<int>|
                stable_sort_of(info_views(i.partitions@), summaries(manifest@.partitions), idx)
        },
{
    let ghost src = summaries(manifest@.partitions);
    let mut sorted: Vec<PartitionInfo> = Vec::new();
    let ghost mut idx: Seq<int> = Seq::empty();
    let mut total: u64 = 0;
    let n = manifest.partitions.len();
    let mut i: usize = 0;
    while i < n
        invariant
            n == manifest.partitions@.len(),
            src == summaries(manifest@.partitions),
            i <= n,
            total as nat == total_of(manifest@.partitions.subrange(0, i as int)),
            total as nat == total_of_infos(info_views(sorted@)),
            stable_sort_of(info_views(sorted@), src.subrange(0, i as int), idx),
        decreases n - i,
    {
        let p: &PartitionUpdate = &manifest.partitions[i];
        let size: u64 = match p.new_partition_size {
            Some(s) => s,
            None => 0,
        };
        proof {
            assert(manifest@.partitions.subrange(0, i + 1).drop_last() =~= manifest@.partitions.subrange(0, i as int));
            assert(manifest@.partitions[i as int] == p@);
        }
        if size > u64::MAX - total {
            proof {
                lemma_total_monotone(manifest@.partitions, (i + 1) as nat);
            }
            return Err(PayloadError::InvalidInput(String::from_str("partition sizes overflow")));
        }
        total = total + size;
        let info = PartitionInfo {
            name: p.partition_name.clone(),
            size,
            operations_count: p.operations.len(),
            size_human: format_size(size),
        };
        assert(info@ == src[i as int]);
        assert(src.subrange(0, i + 1) =~= src.subrange(0, i as int).push(info@));
        assert forall|a: int, b: int| 0 <= a < b < sorted@.len() implies name_le(
            #[trigger] sorted@[a].name@,
            #[trigger] sorted@[b].name@,
        ) by {
            assert(info_views(sorted@)[a].name == sorted@[a].name@);
            assert(info_views(sorted@)[b].name == sorted@[b].name@);
        }
        let ghost old_sorted = sorted@;
        let ghost old_idx = idx;
        let k = insert_sorted(&mut sorted, info);
        proof {
            lemma_total_of_infos_insert(info_views(old_sorted), k as int, info@);
            assert(info_views(sorted@) =~= info_views(old_sorted).insert(k as int, info@));
            idx = old_idx.insert(k as int, i as int);
            lemma_insert_keeps_sort(info_views(old_sorted), src.subrange(0, i as int), old_idx, k as int, info@, src.subrange(0, i + 1));
        }
        i = i + 1;
    }
    proof {
        assert(manifest@.partitions.subrange(0, n as int) =~= manifest@.partitions);
        assert(src.subrange(0, n as int) =~= src);
    }
    let block_size = match manifest.block_size {
        Some(b) => b,
        None => 4096,
    };
    let partial_update = match manifest.partial_update {
        Some(b) => b,
        None => false,
    };
    let security_patch_level = match &manifest.security_patch_level {
        Some(s) => Some(s.clone()),
        None => None,
    };
    Ok(PayloadInspection {
        header,
        block_size,
        partial_update,
        security_patch_level,
        partitions: sorted,
        total_size: total,
        total_size_human: format_size(total),
        file_path: String::from_str(file_path),
        properties,
    })
}

pub proof fn lemma_total_monotone(ps: Seq<PartitionView>, i: nat)
    requires
        i <= ps.len(),
    ensures
        total_of(ps.subrange(0, i as int)) <= total_of(ps),
    decreases ps.len(),
{
    if i < ps.len() {
        lemma_total_monotone(ps.drop_last(), i);
        assert(ps.drop_last().subrange(0, i as int) =~= ps.subrange(0, i as int));
    } else {
        assert(ps.subrange(0, i as int) =~= ps);
    }
}

proof fn lemma_insert_keeps_sort(
    r: Seq<PartitionInfoView>,
    s: Seq<PartitionInfoView>,
    idx: Seq<int>,
    k: int,
    x: PartitionInfoView,
    s2: Seq<PartitionInfoView>,
)
    requires
        stable_sort_of(r, s, idx),
        0 <= k <= r.len(),
        s2 == s.push(x),
        forall|a: int| 0 <= a < k ==> name_le(#[trigger] r[a].name, x.name),
        forall|a: int| k <= a < r.len() ==> !name_le(#[trigger] r[a].name, x.name),
    ensures
        stable_sort_of(r.insert(k, x), s2, idx.insert(k, s.len() as int)),
{
    let r2 = r.insert(k, x);
    let idx2 = idx.insert(k, s.len() as int);
    assert forall|a: int| 0 <= a < r2.len() implies 0 <= #[trigger] idx2[a] < s2.len() && r2[a]
        == s2[idx2[a]] by {
        if a < k {
            assert(r2[a] == r[a] && idx2[a] == idx[a]);
        } else if a > k {
            assert(r2[a] == r[a - 1] && idx2[a] == idx[a - 1]);
        }
    }
    assert forall|a: int, b: int| 0 <= a < b < r2.len() implies idx2[a] != idx2[b] by {
        if a < k && b > k {
            assert(idx2[b] == idx[b - 1]);
        } else if a > k {
            assert(idx2[a] == idx[a - 1] && idx2[b] == idx[b - 1]);
        }
    }
    assert forall|a: int, b: int| 0 <= a < b < r2.len() implies name_le(r2[a].name, r2[b].name) by {
        if a < k && b == k {
        } else if a < k && b > k {
            assert(r2[b] == r[b - 1]);
        } else if a == k {
            assert(r2[b] == r[b - 1]);
            lemma_name_le_total(r[b - 1].name, x.name);
        } else if a > k {
            assert(r2[a] == r[a - 1] && r2[b] == r[b - 1]);
        }
    }
    assert forall|a: int, b: int|
        0 <= a < b < r2.len() && r2[a].name == r2[b].name implies idx2[a] < idx2[b] by {
        if a < k && b == k {
        } else if a < k && b > k {
            assert(r2[b] == r[b - 1] && idx2[b] == idx[b - 1]);
        } else if a == k {
            assert(r2[b] == r[b - 1]);
            lemma_name_le_total(r[b - 1].name, x.name);
        } else if a > k {
            assert(r2[a] == r[a - 1] && r2[b] == r[b - 1]);
        }
    }
}

} // verus!
