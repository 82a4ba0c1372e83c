//! Planning an extraction: for each partition, in manifest order, where its
//! image goes, which data segments make it up, and the progress to report
//! before and after it.  Reading, decoding and writing follow the plan.

use vstd::prelude::*;
use vstd::string::StringExecFns;
use crate::error::PayloadError;
use crate::inspect::{lemma_total_monotone, partition_size, total_of};
use crate::manifest::{DeltaArchiveManifest, InstallOperation, PartitionView};
use crate::text::{decimal, push_char, push_decimal, push_str};

verus! {

/// One data segment to read from the payload: its absolute offset and length,
/// the type of the operation it belongs to, and that operation's index.
#[derive(Clone, Copy, Debug, PartialEq, Eq)]
pub struct SegmentRead {
    pub offset: u64,
    pub length: u64,
    pub op_type: u32,
    pub op_index: usize,
}

/// A progress report: percent done, bytes done and bytes in all.
#[derive(Clone, Copy, Debug, PartialEq, Eq)]
pub struct ProgressEvent {
    pub percent: u32,
    pub bytes_processed: u64,
    pub total_bytes: u64,
}

/// The extraction of one partition.
#[derive(Clone, Debug)]
pub struct PartitionPlan {
    pub name: String,
    pub output_path: String,
    /// The size the manifest gives the finished image.
    pub size: u64,
    /// The data segments, in operation order.
    pub reads: Vec<SegmentRead>,
    /// Reported before the partition is written.
    pub start: ProgressEvent,
    /// Reported once it is written.
    pub end: ProgressEvent,
}

pub ghost struct PartitionPlanView {
    pub name: Seq<char>,
    pub output_path: Seq<char>,
    pub size: u64,
    pub reads: Seq<SegmentRead>,
    pub start: ProgressEvent,
    pub end: ProgressEvent,
}

impl View for PartitionPlan {
    type V = PartitionPlanView;

    open spec fn view(&self) -> PartitionPlanView {
        PartitionPlanView {
            name: self.name@,
            output_path: self.output_path@,
            size: self.size,
            reads: self.reads@,
            start: self.start,
            end: self.end,
        }
    }
}

/// The plan of a whole extraction: the partitions that can be extracted, in
/// manifest order, up to the first that cannot, and then why it cannot.
#[derive(Clone, Debug)]
pub struct ExtractionPlan {
    pub total_bytes: u64,
    pub partitions: Vec<PartitionPlan>,
    pub stop: Option<PayloadError>,
}

/// A partition name that stays inside the output directory: not empty, not
/// "..", and without path separators or NUL.
pub open spec fn is_safe_name(n: Seq<char>) -> bool {
    &&& n.len() > 0
    &&& n != seq!['.', '.']
    &&& forall|i: int| 0 <= i < n.len() ==> #[trigger] n[i] != '/' && n[i] != '\\' && n[i] != '\0'
}

/// Where the image of partition `name` goes in directory `dir`.
pub open spec fn image_path(dir: Seq<char>, name: Seq<char>) -> Seq<char> {
    (if dir.len() == 0 || dir.last() == '/' {
        dir
    } else {
        dir.push('/')
    }) + name + seq!['.', 'i', 'm', 'g']
}

pub open spec fn has_data(op: InstallOperation) -> bool {
    op.data_length matches Some(l) && l > 0
}

pub open spec fn offset_of(op: InstallOperation) -> u64 {
    match op.data_offset {
        Some(o) => o,
        None => 0,
    }
}

pub open spec fn length_of(op: InstallOperation) -> u64 {
    match op.data_length {
        Some(l) => l,
        None => 0,
    }
}

/// The operation's data segment, if it has one, lies within a payload of `n`
/// bytes whose data blob starts at `d`.
pub open spec fn segment_fits(op: InstallOperation, d: u64, n: u64) -> bool {
    has_data(op) ==> d + offset_of(op) + length_of(op) <= n
}

/// The message of the error for operation `j` of partition `name`, whose data
/// segment lies beyond the end of the payload.
pub open spec fn segment_error_message(name: Seq<char>, j: nat) -> Seq<char> {
    "read data segment: operation "@ + decimal(j) + " of partition "@ + name
        + " lies beyond the end of the payload"@
}

/// `j` is the first operation of `ops` whose segment does not fit.
pub open spec fn first_unfit(ops: Seq<InstallOperation>, d: u64, n: u64, j: int) -> bool {
    &&& 0 <= j < ops.len()
    &&& !segment_fits(ops[j], d, n)
    &&& forall|i: int| 0 <= i < j ==> segment_fits(#[trigger] ops[i], d, n)
}

pub open spec fn segment_of(op: InstallOperation, j: int, d: u64) -> SegmentRead {
    SegmentRead {
        offset: (d + offset_of(op)) as u64,
        length: length_of(op),
        op_type: op.op_type,
        op_index: j as usize,
    }
}

/// The data segments of the operations, in order; an operation without data
/// has none.
pub open spec fn segments(ops: Seq<InstallOperation>, d: u64) -> Seq<SegmentRead>
    decreases ops.len(),
{
    if ops.len() == 0 {
        Seq::empty()
    } else {
        let prev = segments(ops.drop_last(), d);
        if has_data(ops.last()) {
            prev.push(segment_of(ops.last(), ops.len() - 1, d))
        } else {
            prev
        }
    }
}

pub open spec fn plannable(p: PartitionView, d: u64, n: u64) -> bool {
    is_safe_name(p.name) && forall|j: int|
        0 <= j < p.operations.len() ==> segment_fits(#[trigger] p.operations[j], d, n)
}

/// Percent done: the floor of processed * 100 / total, at most 100; with
/// nothing to do, 0 before a partition and 100 after it.
pub open spec fn percent_of(processed: nat, total: nat, after: bool) -> u32 {
    if total == 0 {
        if after {
            100
        } else {
            0
        }
    } else if processed * 100 / total > 100 {
        100
    } else {
        (processed * 100 / total) as u32
    }
}

pub open spec fn event_at(ps: Seq<PartitionView>, i: int, after: bool) -> ProgressEvent {
    let processed = total_of(ps.take(if after { i + 1 } else { i }));
    ProgressEvent {
        percent: percent_of(processed, total_of(ps), after),
        bytes_processed: processed as u64,
        total_bytes: total_of(ps) as u64,
    }
}

/// The plan of partition `i` of `ps`.
pub open spec fn plan_for(ps: Seq<PartitionView>, i: int, d: u64, dir: Seq<char>) -> PartitionPlanView {
    PartitionPlanView {
        name: ps[i].name,
        output_path: image_path(dir, ps[i].name),
        size: partition_size(ps[i]),
        reads: segments(ps[i].operations, d),
        start: event_at(ps, i, false),
        end: event_at(ps, i, true),
    }
}

/// Whether the name stays inside the output directory.
pub fn is_safe_partition_name(name: &str) -> (r: bool)
    ensures
        r == is_safe_name(name@),
{
    let n = name.unicode_len();
    if n == 0 {
        return false;
    }
    if n == 2 && name.get_char(0) == '.' && name.get_char(1) == '.' {
        assert(name@ =~= seq!['.', '.']);
        return false;
    }
    let mut i: usize = 0;
    while i < n
        invariant
            n == name@.len(),
            i <= n,
            forall|k: int| 0 <= k < i ==> #[trigger] name@[k] != '/' && name@[k] != '\\' && name@[k] != '\0',
        decreases n - i,
    {
        let c = name.get_char(i);
        if c == '/' || c == '\\' || c == '\0' {
            return false;
        }
        i = i + 1;
    }
    if n == 2 {
        assert(name@ != seq!['.', '.']) by {
            if name@ == seq!['.', '.'] {
                assert(name@[0] == '.' && name@[1] == '.');
            }
        }
    }
    true
}

/// Where the image of partition `name` goes in directory `dir`.
pub fn image_path_of(dir: &str, name: &str) -> (r: String)
    ensures
        r@ == image_path(dir@, name@),
{
    let mut s = String::from_str(dir);
    let n = dir.unicode_len();
    if n > 0 && dir.get_char(n - 1) != '/' {
        push_char(&mut s, '/');
    }
    push_str(&mut s, name);
    push_str(&mut s, ".img");
    proof {
        reveal_strlit(".img");
    }
    assert(s@ =~= image_path(dir@, name@));
    s
}

/// Percent done, as `percent_of` gives it.
pub fn progress_percent(processed: u64, total: u64, after: bool) -> (r: u32)
    ensures
        r == percent_of(processed as nat, total as nat, after),
{
    if total == 0 {
        if after {
            100
        } else {
            0
        }
    } else {
        let p = (processed as u128) * 100 / (total as u128);
        if p > 100 {
            100
        } else {
            p as u32
        }
    }
}

/// The data segments of a partition's operations, or the index of the first
/// operation whose segment lies beyond the end of the payload.
fn plan_segments(ops: &Vec<InstallOperation>, d: u64, n: u64) -> (r: Result<Vec<SegmentRead>, usize>)
    ensures
        match r {
            Ok(v) => v@ == segments(ops@, d) && forall|j: int|
                0 <= j < ops@.len() ==> segment_fits(#[trigger] ops@[j], d, n),
            Err(j) => first_unfit(ops@, d, n, j as int),
        },
{
    let mut v: Vec<SegmentRead> = Vec::new();
    let mut j: usize = 0;
    while j < ops.len()
        invariant
            j <= ops@.len(),
            v@ == segments(ops@.subrange(0, j as int), d),
            forall|k: int| 0 <= k < j ==> segment_fits(#[trigger] ops@[k], d, n),
        decreases ops@.len() - j,
    {
        let op = ops[j];
        proof {
            assert(ops@.subrange(0, j + 1).drop_last() =~= ops@.subrange(0, j as int));
        }
        match op.data_length {
            Some(l) => {
                if l > 0 {
                    let off = match op.data_offset {
                        Some(o) => o,
                        None => 0,
                    };
                    if d > n || off > n - d || l > n - d - off {
                        return Err(j);
                    }
                    v.push(SegmentRead { offset: d + off, length: l, op_type: op.op_type, op_index: j });
                }
            },
            None => {},
        }
        j = j + 1;
    }
    proof {
        assert(ops@.subrange(0, j as int) =~= ops@);
    }
    Ok(v)
}

/// The error for operation `j` of partition `name`, whose data segment lies
/// beyond the end of the payload.
fn segment_error(name: &str, j: usize) -> (r: PayloadError)
    ensures
        r matches PayloadError::Io(s) && s@ == segment_error_message(name@, j as nat),
{
    let mut s = String::new();
    push_str(&mut s, "read data segment: operation ");
    push_decimal(&mut s, j as u64);
    push_str(&mut s, " of partition ");
    push_str(&mut s, name);
    push_str(&mut s, " lies beyond the end of the payload");
    assert(s@ =~= segment_error_message(name@, j as nat));
    PayloadError::Io(s)
}

proof fn lemma_total_take_step(ps: Seq<PartitionView>, i: int)
    requires
        0 <= i < ps.len(),
    ensures
        total_of(ps.take(i + 1)) == total_of(ps.take(i)) + partition_size(ps[i]),
{
    assert(ps.take(i + 1).drop_last() =~= ps.take(i));
}

/// Plans the extraction of the manifest's partitions into `output_dir`, from a
/// payload of `payload_len` bytes whose data blob starts at `data_offset`.  It
/// fails only where the partition sizes add up to more than 64 bits hold.
/// Otherwise the plan holds the partitions in manifest order up to the first
/// whose name would leave the directory (stopping with an invalid-input
/// error) or one of whose segments lies beyond the end of the payload
/// (stopping with an I/O error that names the partition and the operation).
pub fn plan_extraction(
    manifest: &DeltaArchiveManifest,
    data_offset: u64,
    payload_len: u64,
    output_dir: &str,
) -> (r: Result<ExtractionPlan, PayloadError>)
    ensures
        r is Ok <==> total_of(manifest@.partitions) <= u64::MAX,
        r is Err ==> r matches Err(PayloadError::InvalidInput(_)),
        r matches Ok(plan) ==> {
            let ps = manifest@.partitions;
            let k = plan.partitions@.len();
            &&& plan.total_bytes == total_of(ps)
            &&& k <= ps.len()
            &&& forall|i: int| 0 <= i < k ==> plannable(#[trigger] ps[i], data_offset, payload_len)
            &&& forall|i: int| 0 <= i < k ==> #[trigger] plan.partitions@[i]@ == plan_for(ps, i, data_offset, output_dir@)
            &&& (k == ps.len() <==> plan.stop is None)
            &&& k < ps.len() ==> !plannable(ps[k as int], data_offset, payload_len)
            &&& k < ps.len() && !is_safe_name(ps[k as int].name) ==> (plan.stop matches Some(
                PayloadError::InvalidInput(s),
            ) && s@ == "unsafe partition name"@)
            &&& k < ps.len() && is_safe_name(ps[k as int].name) ==> (plan.stop matches Some(
                PayloadError::Io(s),
            ) && exists|j: int|
                first_unfit(ps[k as int].operations, data_offset, payload_len, j) && s@
                    == segment_error_message(ps[k as int].name, j as nat))
        },
{
    let ghost ps = manifest@.partitions;
    let n = manifest.partitions.len();
    let mut total: u64 = 0;
    let mut i: usize = 0;
    while i < n
        invariant
            n == ps.len(),
            ps == manifest@.partitions,
            i <= n,
            total as nat == total_of(ps.take(i as int)),
        decreases n - i,
    {
        let size = match manifest.partitions[i].new_partition_size {
            Some(s) => s,
            None => 0,
        };
        proof {
            lemma_total_take_step(ps, i as int);
            assert(manifest.partitions@[i as int]@ == ps[i as int]);
        }
        if size > u64::MAX - total {
            proof {
                lemma_total_monotone(ps, (i + 1) as nat);
                assert(ps.subrange(0, i + 1) == ps.take(i + 1));
            }
            return Err(PayloadError::InvalidInput(String::from_str("partition sizes overflow")));
        }
        total = total + size;
        i = i + 1;
    }
    assert(ps.take(n as int) =~= ps);
    let mut plans: Vec<PartitionPlan> = Vec::new();
    let mut processed: u64 = 0;
    let mut i: usize = 0;
    while i < n
        invariant
            n == ps.len(),
            ps == manifest@.partitions,
            total as nat == total_of(ps),
            i <= n,
            plans@.len() == i,
            processed as nat == total_of(ps.take(i as int)),
            forall|k: int| 0 <= k < i ==> plannable(#[trigger] ps[k], data_offset, payload_len),
            forall|k: int| 0 <= k < i ==> #[trigger] plans@[k]@ == plan_for(ps, k, data_offset, output_dir@),
        decreases n - i,
    {
        let p = &manifest.partitions[i];
        proof {
            assert(manifest.partitions@[i as int]@ == ps[i as int]);
            lemma_total_take_step(ps, i as int);
            lemma_total_monotone(ps, (i + 1) as nat);
            assert(ps.subrange(0, i + 1) == ps.take(i + 1));
        }
        if !is_safe_partition_name(p.partition_name.as_str()) {
            return Ok(ExtractionPlan {
                total_bytes: total,
                partitions: plans,
                stop: Some(PayloadError::InvalidInput(String::from_str("unsafe partition name"))),
            });
        }
        let reads = match plan_segments(&p.operations, data_offset, payload_len) {
            Ok(v) => v,
            Err(j) => {
                let e = segment_error(p.partition_name.as_str(), j);
                assert(first_unfit(ps[i as int].operations, data_offset, payload_len, j as int));
                return Ok(ExtractionPlan { total_bytes: total, partitions: plans, stop: Some(e) });
            },
        };
        let size = match p.new_partition_size {
            Some(s) => s,
            None => 0,
        };
        let start = ProgressEvent {
            percent: progress_percent(processed, total, false),
            bytes_processed: processed,
            total_bytes: total,
        };
        processed = processed + size;
        let end = ProgressEvent {
            percent: progress_percent(processed, total, true),
            bytes_processed: processed,
            total_bytes: total,
        };
        let plan = PartitionPlan {
            name: p.partition_name.clone(),
            output_path: image_path_of(output_dir, p.partition_name.as_str()),
            size,
            reads,
            start,
            end,
        };
        assert(plan@ == plan_for(ps, i as int, data_offset, output_dir@));
        plans.push(plan);
        i = i + 1;
    }
    Ok(ExtractionPlan { total_bytes: total, partitions: plans, stop: None })
}

/// One extracted partition: its name, the size of the written image, and
/// where it was written.
#[derive(Clone, Debug)]
pub struct ExtractedPartition {
    pub name: String,
    pub size: u64,
    pub path: String,
}

/// The outcome of an extraction.
#[derive(Clone, Debug)]
pub struct ExtractionResult {
    pub status: String,
    pub extracted: Vec<ExtractedPartition>,
}

impl ExtractionResult {
    /// A successful extraction of the given partitions.
    pub fn success(extracted: Vec<ExtractedPartition>) -> (r: ExtractionResult)
        ensures
            r.status@ == "success"@,
            r.extracted == extracted,
    {
        ExtractionResult { status: String::from_str("success"), extracted }
    }
}

proof fn lemma_total_take_monotone(ps: Seq<PartitionView>, a: int, b: int)
    requires
        0 <= a <= b <= ps.len(),
    ensures
        total_of(ps.take(a)) <= total_of(ps.take(b)),
    decreases b - a,
{
    if a < b {
        lemma_total_take_monotone(ps, a, b - 1);
        lemma_total_take_step(ps, b - 1);
    }
}

proof fn lemma_percent_monotone(x: nat, y: nat, total: nat)
    requires
        x <= y <= total,
        total > 0,
    ensures
        percent_of(x, total, false) <= percent_of(y, total, true),
        percent_of(x, total, true) <= percent_of(y, total, false),
{
    vstd::arithmetic::div_mod::lemma_div_is_ordered((x * 100) as int, (y * 100) as int, total as int);
    vstd::arithmetic::div_mod::lemma_div_is_ordered((y * 100) as int, (total * 100) as int, total as int);
    vstd::arithmetic::div_mod::lemma_div_multiples_vanish(100, total as int);
}

/// Progress never goes back while there are bytes to extract: each
/// partition's report after it is no lower than its report before, and no
/// higher than the report before any later partition.  The report after the
/// last partition is always 100.
pub proof fn law_progress_monotone(ps: Seq<PartitionView>, i: int, j: int)
    requires
        0 <= i < j < ps.len(),
        total_of(ps) > 0,
    ensures
        event_at(ps, i, false).percent <= event_at(ps, i, true).percent,
        event_at(ps, i, true).percent <= event_at(ps, j, false).percent,
        event_at(ps, ps.len() - 1, true).percent == 100,
{
    lemma_total_take_monotone(ps, i, i + 1);
    lemma_total_take_monotone(ps, i + 1, j);
    lemma_total_take_monotone(ps, j, ps.len() as int);
    assert(ps.take(ps.len() as int) =~= ps);
    let t = total_of(ps);
    lemma_percent_monotone(total_of(ps.take(i)), total_of(ps.take(i + 1)), t);
    lemma_percent_monotone(total_of(ps.take(i + 1)), total_of(ps.take(j)), t);
    vstd::arithmetic::div_mod::lemma_div_multiples_vanish(100, t as int);
    assert(t * 100 == 100 * t) by (nonlinear_arith);
}

} // verus!
