//! Cleaner engine: folds scan results into summaries and folds per-path
//! deletion outcomes into batch reports with per-item failure isolation.

use vstd::prelude::*;

use crate::models::CacheFileModel;
use crate::models::LargeFileModel;
use crate::models::LogFileModel;
use crate::models::ScanSummaryModel;
use crate::models::TrashFileModel;
use crate::response::DataValue;
use crate::response::DataView;
use crate::response::ResponseModel;
use crate::response::ResponseStatus;
use crate::response::data_view;
use crate::response::field_views;
use crate::response::lemma_data_views_map;
use crate::response::lemma_field_views_map;

verus! {

/// Mathematical sum of a sequence of byte sizes.
pub open spec fn sum_sizes(sizes: Seq<u64>) -> int
    decreases sizes.len(),
{
    if sizes.len() == 0 {
        0
    } else {
        sum_sizes(sizes.drop_last()) + sizes.last()
    }
}

/// Folds a list of sizes into a summary. The count is exact; the total
/// saturates at `u64::MAX` if the mathematical sum does not fit.
pub fn summarize_sizes(sizes: &Vec<u64>) -> (s: ScanSummaryModel)
    ensures
        s.fileCount == sizes@.len(),
        s.totalSize == if sum_sizes(sizes@) <= u64::MAX { sum_sizes(sizes@) } else {
            u64::MAX as int
        },
{
    let mut total: u64 = 0;
    let n = sizes.len();
    for i in 0..n
        invariant
            n == sizes@.len(),
            total == if sum_sizes(sizes@.subrange(0, i as int)) <= u64::MAX {
                sum_sizes(sizes@.subrange(0, i as int))
            } else {
                u64::MAX as int
            },
    {
        let x = sizes[i];
        proof {
            assert(sizes@.subrange(0, i + 1).drop_last() =~= sizes@.subrange(0, i as int));
            assert(sizes@.subrange(0, i + 1).last() == sizes@[i as int]);
        }
        if x <= u64::MAX - total {
            total = total + x;
        } else {
            total = u64::MAX;
        }
    }
    proof {
        assert(sizes@.subrange(0, n as int) =~= sizes@);
    }
    ScanSummaryModel { totalSize: total, fileCount: n }
}

/// Outcome of the access layer's attempt to delete one path. Deleting an
/// already-absent path is a no-op success: the end state (absence)
/// matches intent.
#[derive(Clone, PartialEq, Debug)]
pub enum DeleteOutcome {
    /// The file existed and was removed.
    Deleted,
    /// The path did not exist; nothing to do.
    AlreadyAbsent,
    /// The caller lacks privilege to remove this path.
    Denied,
    /// Some other I/O failure, with the access layer's message.
    Io(String),
}

/// Whether a per-path outcome counts as success under the no-op policy.
pub open spec fn outcome_ok(o: DeleteOutcome) -> bool {
    o is Deleted || o is AlreadyAbsent
}

/// Human-readable reason reported for a failing outcome.
pub open spec fn spec_reason(o: DeleteOutcome) -> Seq<char> {
    match o {
        DeleteOutcome::Denied => "permission denied"@,
        DeleteOutcome::Io(m) => m@,
        _ => Seq::empty(),
    }
}

/// Renders the reason for one outcome; empty for successful outcomes.
pub fn reason_of(o: &DeleteOutcome) -> (r: String)
    ensures
        r@ == spec_reason(*o),
{
    match o {
        DeleteOutcome::Denied => "permission denied".to_owned(),
        DeleteOutcome::Io(m) => m.clone(),
        DeleteOutcome::Deleted | DeleteOutcome::AlreadyAbsent => {
            let r = String::new();
            proof {
                assert(r@ =~= spec_reason(*o));
            }
            r
        },
    }
}

/// How many of the per-path outcomes actually removed a file.
pub open spec fn count_deleted(s: Seq<(String, DeleteOutcome)>) -> int
    decreases s.len(),
{
    if s.len() == 0 {
        0
    } else {
        count_deleted(s.drop_last()) + if s.last().1 is Deleted {
            1int
        } else {
            0int
        }
    }
}

/// The failing entries, in order: each failing path with its reason.
pub open spec fn spec_failures(s: Seq<(String, DeleteOutcome)>) -> Seq<(Seq<char>, Seq<char>)>
    decreases s.len(),
{
    if s.len() == 0 {
        Seq::empty()
    } else {
        spec_failures(s.drop_last()) + if !outcome_ok(s.last().1) {
            seq![(s.last().0@, spec_reason(s.last().1))]
        } else {
            Seq::empty()
        }
    }
}

/// One path's deletion failure, as reported to the caller.
#[derive(PartialEq, Debug)]
pub struct ClearFailure {
    pub path: String,
    pub reason: String,
}

/// Aggregate result of one batch deletion: how many files were removed,
/// and which paths failed with which reason.
#[derive(PartialEq, Debug)]
pub struct ClearReport {
    pub deleted: usize,
    pub failed: Vec<ClearFailure>,
}

/// View of a failure list: each entry as (path, reason).
pub open spec fn failure_pairs(s: Seq<ClearFailure>) -> Seq<(Seq<char>, Seq<char>)> {
    s.map_values(|f: ClearFailure| (f.path@, f.reason@))
}

/// Folds per-path outcomes into the batch report. Each path's outcome is
/// independent: a failing path is recorded and does not disturb the
/// accounting of any other path.
pub fn clear_report(outcomes: &Vec<(String, DeleteOutcome)>) -> (r: ClearReport)
    ensures
        r.deleted == count_deleted(outcomes@),
        failure_pairs(r.failed@) == spec_failures(outcomes@),
{
    let mut deleted: usize = 0;
    let mut failed: Vec<ClearFailure> = Vec::new();
    let n = outcomes.len();
    for i in 0..n
        invariant
            n == outcomes@.len(),
            deleted <= i,
            deleted == count_deleted(outcomes@.subrange(0, i as int)),
            failure_pairs(failed@) == spec_failures(outcomes@.subrange(0, i as int)),
    {
        proof {
            assert(outcomes@.subrange(0, i + 1).drop_last() =~= outcomes@.subrange(0, i as int));
            assert(outcomes@.subrange(0, i + 1).last() == outcomes@[i as int]);
        }
        let entry = &outcomes[i];
        match &entry.1 {
            DeleteOutcome::Deleted => {
                deleted = deleted + 1;
            },
            DeleteOutcome::AlreadyAbsent => {
                proof {
                    assert(failure_pairs(failed@) =~= spec_failures(
                        outcomes@.subrange(0, i + 1),
                    ));
                }
            },
            DeleteOutcome::Denied | DeleteOutcome::Io(_) => {
                let reason = reason_of(&entry.1);
                failed.push(ClearFailure { path: entry.0.clone(), reason });
                proof {
                    assert(failure_pairs(failed@) =~= spec_failures(
                        outcomes@.subrange(0, i + 1),
                    ));
                }
            },
        }
    }
    proof {
        assert(outcomes@.subrange(0, n as int) =~= outcomes@);
    }
    ClearReport { deleted, failed }
}

/// If every requested path was already absent, the batch is a pure no-op
/// success: nothing deleted, nothing failed. Running the same deletion
/// twice therefore reports `deleted == 0` the second time, never an
/// error.
pub proof fn lemma_clear_absent_noop(s: Seq<(String, DeleteOutcome)>)
    requires
        forall|i: int| 0 <= i < s.len() ==> (#[trigger] s[i]).1 is AlreadyAbsent,
    ensures
        count_deleted(s) == 0,
        spec_failures(s) == Seq::<(Seq<char>, Seq<char>)>::empty(),
    decreases s.len(),
{
    if s.len() > 0 {
        assert(s.drop_last() =~= s.subrange(0, s.len() - 1));
        lemma_clear_absent_noop(s.drop_last());
        assert(spec_failures(s) =~= Seq::<(Seq<char>, Seq<char>)>::empty());
    } else {
        assert(spec_failures(s) =~= Seq::<(Seq<char>, Seq<char>)>::empty());
    }
}

/// If every outcome succeeded, the report counts every deletion and no
/// failure.
pub proof fn lemma_clear_all_deleted(s: Seq<(String, DeleteOutcome)>)
    requires
        forall|i: int| 0 <= i < s.len() ==> (#[trigger] s[i]).1 is Deleted,
    ensures
        count_deleted(s) == s.len(),
        spec_failures(s) == Seq::<(Seq<char>, Seq<char>)>::empty(),
    decreases s.len(),
{
    if s.len() > 0 {
        assert(s.drop_last() =~= s.subrange(0, s.len() - 1));
        lemma_clear_all_deleted(s.drop_last());
        assert(spec_failures(s) =~= Seq::<(Seq<char>, Seq<char>)>::empty());
    } else {
        assert(spec_failures(s) =~= Seq::<(Seq<char>, Seq<char>)>::empty());
    }
}

/// Batch deletions preserve partial progress: if exactly one of the
/// outcomes failed and every other path was deleted, the report counts
/// all the other deletions and names exactly the failing path with its
/// reason.
pub proof fn lemma_clear_partial_progress(s: Seq<(String, DeleteOutcome)>, k: int)
    requires
        0 <= k < s.len(),
        !outcome_ok(s[k].1),
        forall|i: int| 0 <= i < s.len() && i != k ==> (#[trigger] s[i]).1 is Deleted,
    ensures
        count_deleted(s) == s.len() - 1,
        spec_failures(s) == seq![(s[k].0@, spec_reason(s[k].1))],
    decreases s.len(),
{
    assert(s.drop_last() =~= s.subrange(0, s.len() - 1));
    if k == s.len() - 1 {
        lemma_clear_all_deleted(s.drop_last());
        assert(spec_failures(s) =~= seq![(s[k].0@, spec_reason(s[k].1))]);
    } else {
        lemma_clear_partial_progress(s.drop_last(), k);
        assert(spec_failures(s) =~= seq![(s[k].0@, spec_reason(s[k].1))]);
    }
}

/// Shape of one reported failure: `{path, reason}`.
pub open spec fn failure_view(path: Seq<char>, reason: Seq<char>) -> DataView {
    DataView::Object(
        seq![("path"@, DataView::Str(path)), ("reason"@, DataView::Str(reason))],
    )
}

/// Shape of a whole batch-deletion payload: `{deleted, failed}`.
pub open spec fn clear_data_view(deleted: u64, failures: Seq<(Seq<char>, Seq<char>)>) -> DataView {
    DataView::Object(
        seq![
            ("deleted"@, DataView::Number(deleted)),
            (
                "failed"@,
                DataView::Array(
                    failures.map_values(|pr: (Seq<char>, Seq<char>)| failure_view(pr.0, pr.1)),
                ),
            ),
        ],
    )
}

/// Encodes one failure as a `{path, reason}` object.
fn failure_value(f: ClearFailure) -> (d: DataValue)
    ensures
        d@ == failure_view(f.path@, f.reason@),
{
    let ghost gf = f;
    let mut fields: Vec<(String, DataValue)> = Vec::new();
    fields.push(("path".to_owned(), DataValue::Str(f.path)));
    fields.push(("reason".to_owned(), DataValue::Str(f.reason)));
    let d = DataValue::Object(fields);
    proof {
        lemma_field_views_map(fields@);
        assert(field_views(fields@) =~= seq![
            ("path"@, DataView::Str(gf.path@)),
            ("reason"@, DataView::Str(gf.reason@)),
        ]);
        assert(d@ =~~= failure_view(gf.path@, gf.reason@));
    }
    d
}

/// Encodes a failure list as an array of `{path, reason}` objects.
fn failures_value(failed: Vec<ClearFailure>) -> (d: DataValue)
    ensures
        d@ == DataView::Array(
            failure_pairs(failed@).map_values(|pr: (Seq<char>, Seq<char>)| failure_view(pr.0, pr.1)),
        ),
{
    let ghost orig = failed@;
    let mut rest = failed;
    let mut items: Vec<DataValue> = Vec::new();
    while rest.len() > 0
        invariant
            items@.len() + rest@.len() == orig.len(),
            rest@ == orig.subrange(items@.len() as int, orig.len() as int),
            items@.map_values(|x: DataValue| data_view(x)) == failure_pairs(
                orig.subrange(0, items@.len() as int),
            ).map_values(|pr: (Seq<char>, Seq<char>)| failure_view(pr.0, pr.1)),
        decreases rest@.len(),
    {
        let ghost k = items@.len() as int;
        let ghost prev = items@;
        proof {
            assert(rest@[0] == orig[k]);
        }
        let f = rest.remove(0);
        let v = failure_value(f);
        items.push(v);
        proof {
            assert(rest@ =~= orig.subrange(k + 1, orig.len() as int));
            assert(orig.subrange(0, k + 1) =~= orig.subrange(0, k).push(orig[k]));
            assert(failure_pairs(orig.subrange(0, k).push(orig[k])) =~= failure_pairs(
                orig.subrange(0, k),
            ).push((orig[k].path@, orig[k].reason@)));
            assert(items@.map_values(|x: DataValue| data_view(x)) =~= prev.map_values(
                |x: DataValue| data_view(x),
            ).push(data_view(v)));
            assert(failure_pairs(orig.subrange(0, k)).push(
                (orig[k].path@, orig[k].reason@),
            ).map_values(|pr: (Seq<char>, Seq<char>)| failure_view(pr.0, pr.1)) =~= failure_pairs(
                orig.subrange(0, k),
            ).map_values(|pr: (Seq<char>, Seq<char>)| failure_view(pr.0, pr.1)).push(
                failure_view(orig[k].path@, orig[k].reason@),
            ));
            assert(items@.map_values(|x: DataValue| data_view(x)) =~= failure_pairs(
                orig.subrange(0, k + 1),
            ).map_values(|pr: (Seq<char>, Seq<char>)| failure_view(pr.0, pr.1)));
        }
    }
    let d = DataValue::Array(items);
    proof {
        assert(orig.subrange(0, orig.len() as int) =~= orig);
        lemma_data_views_map(items@);
        assert(d@ =~~= DataView::Array(
            failure_pairs(orig).map_values(|pr: (Seq<char>, Seq<char>)| failure_view(pr.0, pr.1)),
        ));
    }
    d
}

/// Renders a batch-deletion report into the uniform envelope. A batch
/// where every path was processed is a success; one where some paths
/// failed is a warning carrying the per-path reasons; in neither case is
/// it an error envelope — only a systemic failure that prevents the whole
/// batch from running produces one, and that never happens once a report
/// exists.
pub fn clear_response(report: ClearReport) -> (r: ResponseModel)
    ensures
        r.status == (if report.failed@.len() == 0 {
            ResponseStatus::Success
        } else {
            ResponseStatus::Warning
        }),
        r.message@ == (if report.failed@.len() == 0 {
            "selected items cleared"@
        } else {
            "some items could not be cleared"@
        }),
        r.data@ == clear_data_view(report.deleted as u64, failure_pairs(report.failed@)),
{
    let ghost grep = report;
    let some_failed = report.failed.len() > 0;
    let deleted_count: u64 = report.deleted as u64;
    let failed_items = failures_value(report.failed);
    let mut fields: Vec<(String, DataValue)> = Vec::new();
    fields.push(("deleted".to_owned(), DataValue::Number(deleted_count)));
    fields.push(("failed".to_owned(), failed_items));
    let data = DataValue::Object(fields);
    proof {
        lemma_field_views_map(fields@);
        assert(field_views(fields@) =~= seq![
            ("deleted"@, DataView::Number(grep.deleted as u64)),
            (
                "failed"@,
                DataView::Array(
                    failure_pairs(grep.failed@).map_values(
                        |pr: (Seq<char>, Seq<char>)| failure_view(pr.0, pr.1),
                    ),
                ),
            ),
        ]);
        assert(data@ =~~= clear_data_view(grep.deleted as u64, failure_pairs(grep.failed@)));
    }
    if some_failed {
        ResponseModel::warning("some items could not be cleared".to_owned(), data)
    } else {
        ResponseModel::success("selected items cleared".to_owned(), data)
    }
}

/// Sizes of a cache-file list, in order.
pub open spec fn cache_sizes(s: Seq<CacheFileModel>) -> Seq<u64> {
    s.map_values(|f: CacheFileModel| f.size)
}

/// Sizes of a trash-file list, in order.
pub open spec fn trash_sizes(s: Seq<TrashFileModel>) -> Seq<u64> {
    s.map_values(|f: TrashFileModel| f.size)
}

/// Sizes of a log-file list, in order.
pub open spec fn log_sizes(s: Seq<LogFileModel>) -> Seq<u64> {
    s.map_values(|f: LogFileModel| f.size)
}

/// Sizes of a large-file list, in order.
pub open spec fn large_sizes(s: Seq<LargeFileModel>) -> Seq<u64> {
    s.map_values(|f: LargeFileModel| f.size)
}

/// Summary of a cache scan: the count is the list's length, the total is
/// the sum of its sizes (saturating at `u64::MAX`).
pub fn cache_summary(files: &Vec<CacheFileModel>) -> (s: ScanSummaryModel)
    ensures
        s.fileCount == files@.len(),
        s.totalSize == if sum_sizes(cache_sizes(files@)) <= u64::MAX {
            sum_sizes(cache_sizes(files@))
        } else {
            u64::MAX as int
        },
{
    let mut sizes: Vec<u64> = Vec::new();
    let n = files.len();
    for i in 0..n
        invariant
            n == files@.len(),
            sizes@ == cache_sizes(files@.subrange(0, i as int)),
    {
        sizes.push(files[i].size);
        proof {
            assert(cache_sizes(files@.subrange(0, i + 1)) =~= cache_sizes(
                files@.subrange(0, i as int),
            ).push(files@[i as int].size));
        }
    }
    proof {
        assert(files@.subrange(0, n as int) =~= files@);
    }
    summarize_sizes(&sizes)
}

/// Summary of a trash scan; see [`cache_summary`].
pub fn trash_summary(files: &Vec<TrashFileModel>) -> (s: ScanSummaryModel)
    ensures
        s.fileCount == files@.len(),
        s.totalSize == if sum_sizes(trash_sizes(files@)) <= u64::MAX {
            sum_sizes(trash_sizes(files@))
        } else {
            u64::MAX as int
        },
{
    let mut sizes: Vec<u64> = Vec::new();
    let n = files.len();
    for i in 0..n
        invariant
            n == files@.len(),
            sizes@ == trash_sizes(files@.subrange(0, i as int)),
    {
        sizes.push(files[i].size);
        proof {
            assert(trash_sizes(files@.subrange(0, i + 1)) =~= trash_sizes(
                files@.subrange(0, i as int),
            ).push(files@[i as int].size));
        }
    }
    proof {
        assert(files@.subrange(0, n as int) =~= files@);
    }
    summarize_sizes(&sizes)
}

/// Summary of a log scan; see [`cache_summary`].
pub fn log_summary(files: &Vec<LogFileModel>) -> (s: ScanSummaryModel)
    ensures
        s.fileCount == files@.len(),
        s.totalSize == if sum_sizes(log_sizes(files@)) <= u64::MAX {
            sum_sizes(log_sizes(files@))
        } else {
            u64::MAX as int
        },
{
    let mut sizes: Vec<u64> = Vec::new();
    let n = files.len();
    for i in 0..n
        invariant
            n == files@.len(),
            sizes@ == log_sizes(files@.subrange(0, i as int)),
    {
        sizes.push(files[i].size);
        proof {
            assert(log_sizes(files@.subrange(0, i + 1)) =~= log_sizes(
                files@.subrange(0, i as int),
            ).push(files@[i as int].size));
        }
    }
    proof {
        assert(files@.subrange(0, n as int) =~= files@);
    }
    summarize_sizes(&sizes)
}

/// Summary of a large-file sweep; see [`cache_summary`].
pub fn large_files_summary(files: &Vec<LargeFileModel>) -> (s: ScanSummaryModel)
    ensures
        s.fileCount == files@.len(),
        s.totalSize == if sum_sizes(large_sizes(files@)) <= u64::MAX {
            sum_sizes(large_sizes(files@))
        } else {
            u64::MAX as int
        },
{
    let mut sizes: Vec<u64> = Vec::new();
    let n = files.len();
    for i in 0..n
        invariant
            n == files@.len(),
            sizes@ == large_sizes(files@.subrange(0, i as int)),
    {
        sizes.push(files[i].size);
        proof {
            assert(large_sizes(files@.subrange(0, i + 1)) =~= large_sizes(
                files@.subrange(0, i as int),
            ).push(files@[i as int].size));
        }
    }
    proof {
        assert(files@.subrange(0, n as int) =~= files@);
    }
    summarize_sizes(&sizes)
}

/// Shape of a summary payload: `{totalSize, fileCount}`.
pub open spec fn summary_view(s: ScanSummaryModel) -> DataView {
    DataView::Object(
        seq![
            ("totalSize"@, DataView::Number(s.totalSize)),
            ("fileCount"@, DataView::Number(s.fileCount as u64)),
        ],
    )
}

/// Renders a scan summary into the uniform envelope. The detailed file
/// list is already gone by the time this runs: summaries carry only the
/// two derived numbers.
pub fn summary_response(s: ScanSummaryModel) -> (r: ResponseModel)
    ensures
        r.status == ResponseStatus::Success,
        r.message@ == "summary computed"@,
        r.data@ == summary_view(s),
{
    let mut fields: Vec<(String, DataValue)> = Vec::new();
    fields.push(("totalSize".to_owned(), DataValue::Number(s.totalSize)));
    fields.push(("fileCount".to_owned(), DataValue::Number(s.fileCount as u64)));
    let data = DataValue::Object(fields);
    proof {
        lemma_field_views_map(fields@);
        assert(field_views(fields@) =~= seq![
            ("totalSize"@, DataView::Number(s.totalSize)),
            ("fileCount"@, DataView::Number(s.fileCount as u64)),
        ]);
        assert(data@ =~~= summary_view(s));
    }
    ResponseModel::success("summary computed".to_owned(), data)
}

/// Shape of one cache-file record: `{path, size, modified}`.
pub open spec fn cache_file_view(f: CacheFileModel) -> DataView {
    DataView::Object(
        seq![
            ("path"@, DataView::Str(f.path@)),
            ("size"@, DataView::Number(f.size)),
            ("modified"@, DataView::Str(f.modified@)),
        ],
    )
}

/// Shape of one trash-file record: `{name, path, size, deletedDate}`.
pub open spec fn trash_file_view(f: TrashFileModel) -> DataView {
    DataView::Object(
        seq![
            ("name"@, DataView::Str(f.name@)),
            ("path"@, DataView::Str(f.path@)),
            ("size"@, DataView::Number(f.size)),
            ("deletedDate"@, DataView::Str(f.deletedDate@)),
        ],
    )
}

/// Shape of one log-file record: `{path, size, modified}`.
pub open spec fn log_file_view(f: LogFileModel) -> DataView {
    DataView::Object(
        seq![
            ("path"@, DataView::Str(f.path@)),
            ("size"@, DataView::Number(f.size)),
            ("modified"@, DataView::Str(f.modified@)),
        ],
    )
}

/// Shape of one large-file record: `{name, path, size, modified}`.
pub open spec fn large_file_view(f: LargeFileModel) -> DataView {
    DataView::Object(
        seq![
            ("name"@, DataView::Str(f.name@)),
            ("path"@, DataView::Str(f.path@)),
            ("size"@, DataView::Number(f.size)),
            ("modified"@, DataView::Str(f.modified@)),
        ],
    )
}

fn cache_file_value(f: CacheFileModel) -> (d: DataValue)
    ensures
        d@ == cache_file_view(f),
{
    let ghost gf = f;
    let mut fields: Vec<(String, DataValue)> = Vec::new();
    fields.push(("path".to_owned(), DataValue::Str(f.path)));
    fields.push(("size".to_owned(), DataValue::Number(f.size)));
    fields.push(("modified".to_owned(), DataValue::Str(f.modified)));
    let d = DataValue::Object(fields);
    proof {
        lemma_field_views_map(fields@);
        assert(field_views(fields@) =~= seq![
            ("path"@, DataView::Str(gf.path@)),
            ("size"@, DataView::Number(gf.size)),
            ("modified"@, DataView::Str(gf.modified@)),
        ]);
        assert(d@ =~~= cache_file_view(gf));
    }
    d
}

fn trash_file_value(f: TrashFileModel) -> (d: DataValue)
    ensures
        d@ == trash_file_view(f),
{
    let ghost gf = f;
    let mut fields: Vec<(String, DataValue)> = Vec::new();
    fields.push(("name".to_owned(), DataValue::Str(f.name)));
    fields.push(("path".to_owned(), DataValue::Str(f.path)));
    fields.push(("size".to_owned(), DataValue::Number(f.size)));
    fields.push(("deletedDate".to_owned(), DataValue::Str(f.deletedDate)));
    let d = DataValue::Object(fields);
    proof {
        lemma_field_views_map(fields@);
        assert(field_views(fields@) =~= seq![
            ("name"@, DataView::Str(gf.name@)),
            ("path"@, DataView::Str(gf.path@)),
            ("size"@, DataView::Number(gf.size)),
            ("deletedDate"@, DataView::Str(gf.deletedDate@)),
        ]);
        assert(d@ =~~= trash_file_view(gf));
    }
    d
}

fn log_file_value(f: LogFileModel) -> (d: DataValue)
    ensures
        d@ == log_file_view(f),
{
    let ghost gf = f;
    let mut fields: Vec<(String, DataValue)> = Vec::new();
    fields.push(("path".to_owned(), DataValue::Str(f.path)));
    fields.push(("size".to_owned(), DataValue::Number(f.size)));
    fields.push(("modified".to_owned(), DataValue::Str(f.modified)));
    let d = DataValue::Object(fields);
    proof {
        lemma_field_views_map(fields@);
        assert(field_views(fields@) =~= seq![
            ("path"@, DataView::Str(gf.path@)),
            ("size"@, DataView::Number(gf.size)),
            ("modified"@, DataView::Str(gf.modified@)),
        ]);
        assert(d@ =~~= log_file_view(gf));
    }
    d
}

fn large_file_value(f: LargeFileModel) -> (d: DataValue)
    ensures
        d@ == large_file_view(f),
{
    let ghost gf = f;
    let mut fields: Vec<(String, DataValue)> = Vec::new();
    fields.push(("name".to_owned(), DataValue::Str(f.name)));
    fields.push(("path".to_owned(), DataValue::Str(f.path)));
    fields.push(("size".to_owned(), DataValue::Number(f.size)));
    fields.push(("modified".to_owned(), DataValue::Str(f.modified)));
    let d = DataValue::Object(fields);
    proof {
        lemma_field_views_map(fields@);
        assert(field_views(fields@) =~= seq![
            ("name"@, DataView::Str(gf.name@)),
            ("path"@, DataView::Str(gf.path@)),
            ("size"@, DataView::Number(gf.size)),
            ("modified"@, DataView::Str(gf.modified@)),
        ]);
        assert(d@ =~~= large_file_view(gf));
    }
    d
}

/// Renders a cache scan's record list into the uniform envelope. A scan
/// of an empty directory yields an empty array, not an error.
pub fn cache_files_response(files: Vec<CacheFileModel>) -> (r: ResponseModel)
    ensures
        r.status == ResponseStatus::Success,
        r.message@ == "cache files scanned"@,
        r.data@ == DataView::Array(files@.map_values(|f: CacheFileModel| cache_file_view(f))),
{
    let ghost orig = files@;
    let ghost viewseq = files@.map_values(|f: CacheFileModel| cache_file_view(f));
    let mut rest = files;
    let mut items: Vec<DataValue> = Vec::new();
    while rest.len() > 0
        invariant
            items@.len() + rest@.len() == orig.len(),
            rest@ == orig.subrange(items@.len() as int, orig.len() as int),
            viewseq == orig.map_values(|f: CacheFileModel| cache_file_view(f)),
            items@.map_values(|x: DataValue| data_view(x)) == viewseq.subrange(
                0,
                items@.len() as int,
            ),
        decreases rest@.len(),
    {
        let ghost k = items@.len() as int;
        let ghost prev = items@;
        proof {
            assert(rest@[0] == orig[k]);
        }
        let f = rest.remove(0);
        let v = cache_file_value(f);
        items.push(v);
        proof {
            assert(rest@ =~= orig.subrange(k + 1, orig.len() as int));
            assert(items@.map_values(|x: DataValue| data_view(x)) =~= prev.map_values(
                |x: DataValue| data_view(x),
            ).push(data_view(v)));
            assert(viewseq.subrange(0, k + 1) =~= viewseq.subrange(0, k).push(viewseq[k]));
        }
    }
    let data = DataValue::Array(items);
    proof {
        assert(viewseq.subrange(0, orig.len() as int) =~= viewseq);
        lemma_data_views_map(items@);
    }
    ResponseModel::success("cache files scanned".to_owned(), data)
}

/// Renders a trash scan's record list into the uniform envelope.
pub fn trash_files_response(files: Vec<TrashFileModel>) -> (r: ResponseModel)
    ensures
        r.status == ResponseStatus::Success,
        r.message@ == "trash files scanned"@,
        r.data@ == DataView::Array(files@.map_values(|f: TrashFileModel| trash_file_view(f))),
{
    let ghost orig = files@;
    let ghost viewseq = files@.map_values(|f: TrashFileModel| trash_file_view(f));
    let mut rest = files;
    let mut items: Vec<DataValue> = Vec::new();
    while rest.len() > 0
        invariant
            items@.len() + rest@.len() == orig.len(),
            rest@ == orig.subrange(items@.len() as int, orig.len() as int),
            viewseq == orig.map_values(|f: TrashFileModel| trash_file_view(f)),
            items@.map_values(|x: DataValue| data_view(x)) == viewseq.subrange(
                0,
                items@.len() as int,
            ),
        decreases rest@.len(),
    {
        let ghost k = items@.len() as int;
        let ghost prev = items@;
        proof {
            assert(rest@[0] == orig[k]);
        }
        let f = rest.remove(0);
        let v = trash_file_value(f);
        items.push(v);
        proof {
            assert(rest@ =~= orig.subrange(k + 1, orig.len() as int));
            assert(items@.map_values(|x: DataValue| data_view(x)) =~= prev.map_values(
                |x: DataValue| data_view(x),
            ).push(data_view(v)));
            assert(viewseq.subrange(0, k + 1) =~= viewseq.subrange(0, k).push(viewseq[k]));
        }
    }
    let data = DataValue::Array(items);
    proof {
        assert(viewseq.subrange(0, orig.len() as int) =~= viewseq);
        lemma_data_views_map(items@);
    }
    ResponseModel::success("trash files scanned".to_owned(), data)
}

/// Renders a log scan's record list into the uniform envelope.
pub fn log_files_response(files: Vec<LogFileModel>) -> (r: ResponseModel)
    ensures
        r.status == ResponseStatus::Success,
        r.message@ == "log files scanned"@,
        r.data@ == DataView::Array(files@.map_values(|f: LogFileModel| log_file_view(f))),
{
    let ghost orig = files@;
    let ghost viewseq = files@.map_values(|f: LogFileModel| log_file_view(f));
    let mut rest = files;
    let mut items: Vec<DataValue> = Vec::new();
    while rest.len() > 0
        invariant
            items@.len() + rest@.len() == orig.len(),
            rest@ == orig.subrange(items@.len() as int, orig.len() as int),
            viewseq == orig.map_values(|f: LogFileModel| log_file_view(f)),
            items@.map_values(|x: DataValue| data_view(x)) == viewseq.subrange(
                0,
                items@.len() as int,
            ),
        decreases rest@.len(),
    {
        let ghost k = items@.len() as int;
        let ghost prev = items@;
        proof {
            assert(rest@[0] == orig[k]);
        }
        let f = rest.remove(0);
        let v = log_file_value(f);
        items.push(v);
        proof {
            assert(rest@ =~= orig.subrange(k + 1, orig.len() as int));
            assert(items@.map_values(|x: DataValue| data_view(x)) =~= prev.map_values(
                |x: DataValue| data_view(x),
            ).push(data_view(v)));
            assert(viewseq.subrange(0, k + 1) =~= viewseq.subrange(0, k).push(viewseq[k]));
        }
    }
    let data = DataValue::Array(items);
    proof {
        assert(viewseq.subrange(0, orig.len() as int) =~= viewseq);
        lemma_data_views_map(items@);
    }
    ResponseModel::success("log files scanned".to_owned(), data)
}

/// Renders a large-file sweep's record list into the uniform envelope.
pub fn large_files_response(files: Vec<LargeFileModel>) -> (r: ResponseModel)
    ensures
        r.status == ResponseStatus::Success,
        r.message@ == "large files scanned"@,
        r.data@ == DataView::Array(files@.map_values(|f: LargeFileModel| large_file_view(f))),
{
    let ghost orig = files@;
    let ghost viewseq = files@.map_values(|f: LargeFileModel| large_file_view(f));
    let mut rest = files;
    let mut items: Vec<DataValue> = Vec::new();
    while rest.len() > 0
        invariant
            items@.len() + rest@.len() == orig.len(),
            rest@ == orig.subrange(items@.len() as int, orig.len() as int),
            viewseq == orig.map_values(|f: LargeFileModel| large_file_view(f)),
            items@.map_values(|x: DataValue| data_view(x)) == viewseq.subrange(
                0,
                items@.len() as int,
            ),
        decreases rest@.len(),
    {
        let ghost k = items@.len() as int;
        let ghost prev = items@;
        proof {
            assert(rest@[0] == orig[k]);
        }
        let f = rest.remove(0);
        let v = large_file_value(f);
        items.push(v);
        proof {
            assert(rest@ =~= orig.subrange(k + 1, orig.len() as int));
            assert(items@.map_values(|x: DataValue| data_view(x)) =~= prev.map_values(
                |x: DataValue| data_view(x),
            ).push(data_view(v)));
            assert(viewseq.subrange(0, k + 1) =~= viewseq.subrange(0, k).push(viewseq[k]));
        }
    }
    let data = DataValue::Array(items);
    proof {
        assert(viewseq.subrange(0, orig.len() as int) =~= viewseq);
        lemma_data_views_map(items@);
    }
    ResponseModel::success("large files scanned".to_owned(), data)
}

/// Byte cap on file previews: no preview ever carries more than this
/// many characters, whatever the underlying file's size.
pub const PREVIEW_BYTE_CAP: usize = 65536;

/// Bytes accepted in a text preview: tab, newline, carriage return, and
/// printable ASCII. Anything else marks the file as binary.
pub open spec fn is_text_byte(b: u8) -> bool {
    b == 9 || b == 10 || b == 13 || (32 <= b && b <= 126)
}

/// Whether every byte of a sequence is previewable text.
pub open spec fn all_text(s: Seq<u8>) -> bool {
    forall|i: int| 0 <= i < s.len() ==> is_text_byte(#[trigger] s[i])
}

/// The examined prefix of a file's content: everything up to the cap.
pub open spec fn preview_prefix(bytes: Seq<u8>, cap: int) -> Seq<u8> {
    if bytes.len() <= cap {
        bytes
    } else {
        bytes.take(cap)
    }
}

/// Text bytes decoded one character per byte.
pub open spec fn decoded(s: Seq<u8>) -> Seq<char> {
    s.map_values(|b: u8| b as char)
}

/// Relies on String::from_utf8: a byte vector that is valid UTF-8 — here
/// all ASCII, one character per byte — decodes to exactly those
/// characters.
#[verifier::external_body]
fn ascii_string(bytes: &Vec<u8>) -> (r: String)
    requires
        all_text(bytes@),
    ensures
        r@ == decoded(bytes@),
{
    String::from_utf8(bytes.clone()).unwrap_or_default()
}

/// Extracts the bounded text preview of a file's content, or `None` for
/// a binary file. Only the capped prefix is ever examined or returned,
/// so a multi-gigabyte file costs no more than the cap.
pub fn preview_text(bytes: &Vec<u8>, cap: usize) -> (r: Option<String>)
    ensures
        r matches Some(t) ==> all_text(preview_prefix(bytes@, cap as int)) && t@ == decoded(
            preview_prefix(bytes@, cap as int),
        ) && t@.len() <= cap,
        r is None ==> !all_text(preview_prefix(bytes@, cap as int)),
{
    let end = if bytes.len() <= cap {
        bytes.len()
    } else {
        cap
    };
    proof {
        assert(preview_prefix(bytes@, cap as int) =~= bytes@.subrange(0, end as int));
    }
    let mut prefix: Vec<u8> = Vec::new();
    for i in 0..end
        invariant
            end as int == preview_prefix(bytes@, cap as int).len(),
            end <= bytes@.len(),
            preview_prefix(bytes@, cap as int) =~= bytes@.subrange(0, end as int),
            prefix@ == bytes@.subrange(0, i as int),
            all_text(prefix@),
    {
        let b = bytes[i];
        if !(b == 9 || b == 10 || b == 13 || (32 <= b && b <= 126)) {
            proof {
                assert(preview_prefix(bytes@, cap as int)[i as int] == bytes@[i as int]);
            }
            return None;
        }
        prefix.push(b);
        proof {
            assert(prefix@ =~= bytes@.subrange(0, i + 1));
        }
    }
    let t = ascii_string(&prefix);
    Some(t)
}

/// Shape of a preview payload: `{previewable, content}`.
pub open spec fn preview_view(previewable: bool, content: Seq<char>) -> DataView {
    DataView::Object(
        seq![("previewable"@, DataView::Bool(previewable)), ("content"@, DataView::Str(content))],
    )
}

/// Renders a file's content into the preview envelope: the capped text
/// prefix for a text file, the structured not-previewable marker for a
/// binary one — never garbled text, and never more than
/// [`PREVIEW_BYTE_CAP`] characters.
pub fn preview_response(bytes: &Vec<u8>) -> (r: ResponseModel)
    ensures
        r.status == ResponseStatus::Success,
        all_text(preview_prefix(bytes@, PREVIEW_BYTE_CAP as int)) ==> r.data@ == preview_view(
            true,
            decoded(preview_prefix(bytes@, PREVIEW_BYTE_CAP as int)),
        ) && r.message@ == "file preview"@,
        !all_text(preview_prefix(bytes@, PREVIEW_BYTE_CAP as int)) ==> r.data@ == preview_view(
            false,
            Seq::<char>::empty(),
        ) && r.message@ == "file is not previewable"@,
        r.data@ matches DataView::Object(fs) && fs[1].1 matches DataView::Str(c) && c.len()
            <= PREVIEW_BYTE_CAP,
{
    let text = preview_text(bytes, PREVIEW_BYTE_CAP);
    let mut fields: Vec<(String, DataValue)> = Vec::new();
    match text {
        Some(t) => {
            let ghost gt = t@;
            fields.push(("previewable".to_owned(), DataValue::Bool(true)));
            fields.push(("content".to_owned(), DataValue::Str(t)));
            let data = DataValue::Object(fields);
            proof {
                lemma_field_views_map(fields@);
                assert(field_views(fields@) =~= seq![
                    ("previewable"@, DataView::Bool(true)),
                    ("content"@, DataView::Str(gt)),
                ]);
                assert(data@ =~~= preview_view(
                    true,
                    decoded(preview_prefix(bytes@, PREVIEW_BYTE_CAP as int)),
                ));
            }
            ResponseModel::success("file preview".to_owned(), data)
        },
        None => {
            fields.push(("previewable".to_owned(), DataValue::Bool(false)));
            fields.push(("content".to_owned(), DataValue::Str(String::new())));
            let data = DataValue::Object(fields);
            proof {
                lemma_field_views_map(fields@);
                assert(field_views(fields@) =~= seq![
                    ("previewable"@, DataView::Bool(false)),
                    ("content"@, DataView::Str(Seq::<char>::empty())),
                ]);
                assert(data@ =~~= preview_view(false, Seq::<char>::empty()));
            }
            ResponseModel::success("file is not previewable".to_owned(), data)
        },
    }
}

/// Error envelope for a path that no longer exists. A vanished file is
/// expected (a race with concurrent deletion), so the caller receives a
/// structured error, never a crash.
pub fn not_found_response(path: &str) -> (r: ResponseModel)
    ensures
        r.status == ResponseStatus::Error,
        r.message@ == "file not found: "@ + path@,
        r.data@ matches DataView::Str(s) && s.len() == 0,
{
    ResponseModel::error("file not found: ".to_owned().concat(path))
}

/// Error envelope for a category root that could not be read at all —
/// the systemic case where no partial result exists. A single unreadable
/// subdirectory inside a readable root is instead skipped by the access
/// layer and never reaches this.
pub fn scan_error_response(detail: &str) -> (r: ResponseModel)
    ensures
        r.status == ResponseStatus::Error,
        r.message@ == "could not read location: "@ + detail@,
        r.data@ matches DataView::Str(s) && s.len() == 0,
{
    ResponseModel::error("could not read location: ".to_owned().concat(detail))
}

} // verus!
