//! Service controller core: the coarse lifecycle state model for OS
//! services and the pure transition decisions over it.

use vstd::prelude::*;

use crate::models::SystemServiceModel;
use crate::response::DataValue;
use crate::response::DataView;
use crate::response::ResponseModel;
use crate::response::ResponseStatus;
use crate::response::data_view;
use crate::response::field_views;
use crate::response::lemma_data_views_map;
use crate::response::lemma_field_views_map;

verus! {

/// Whether a service is currently running.
#[derive(Clone, Copy, PartialEq, Eq, Structural, Debug)]
pub enum RunState {
    Stopped,
    Running,
}

/// Whether a service autostarts at boot.
#[derive(Clone, Copy, PartialEq, Eq, Structural, Debug)]
pub enum BootState {
    Disabled,
    Enabled,
}

/// The four reachable state combinations of one service. The state is
/// external — queried from the service manager, never owned here.
#[derive(Clone, Copy, PartialEq, Eq, Structural, Debug)]
pub struct ServiceState {
    pub run: RunState,
    pub boot: BootState,
}

/// State after a start request: running, boot flag untouched.
pub open spec fn start_target(s: ServiceState) -> ServiceState {
    ServiceState { run: RunState::Running, boot: s.boot }
}

/// State after a stop request: stopped, boot flag untouched.
pub open spec fn stop_target(s: ServiceState) -> ServiceState {
    ServiceState { run: RunState::Stopped, boot: s.boot }
}

/// State after an enable request: autostart enabled, run state untouched.
pub open spec fn enable_target(s: ServiceState) -> ServiceState {
    ServiceState { run: s.run, boot: BootState::Enabled }
}

/// Applies a start request to a queried state.
pub fn apply_start(s: ServiceState) -> (r: ServiceState)
    ensures
        r == start_target(s),
{
    ServiceState { run: RunState::Running, boot: s.boot }
}

/// Applies a stop request to a queried state.
pub fn apply_stop(s: ServiceState) -> (r: ServiceState)
    ensures
        r == stop_target(s),
{
    ServiceState { run: RunState::Stopped, boot: s.boot }
}

/// Applies an enable request to a queried state.
pub fn apply_enable(s: ServiceState) -> (r: ServiceState)
    ensures
        r == enable_target(s),
{
    ServiceState { run: s.run, boot: BootState::Enabled }
}

/// Service state transitions are idempotent: applying the same request
/// twice lands in the same state, and a request whose target is already
/// reached leaves the state unchanged — a no-op success, not an error.
pub proof fn lemma_transitions_idempotent(s: ServiceState)
    ensures
        start_target(start_target(s)) == start_target(s),
        stop_target(stop_target(s)) == stop_target(s),
        enable_target(enable_target(s)) == enable_target(s),
        s.run == RunState::Running ==> start_target(s) == s,
        s.run == RunState::Stopped ==> stop_target(s) == s,
        s.boot == BootState::Enabled ==> enable_target(s) == s,
{
}

/// The three coarse requests the controller accepts for one service.
#[derive(Clone, Copy, PartialEq, Eq, Structural, Debug)]
pub enum ServiceOp {
    Start,
    Stop,
    Enable,
}

/// Target state of a request against a queried state.
pub open spec fn op_target(op: ServiceOp, s: ServiceState) -> ServiceState {
    match op {
        ServiceOp::Start => start_target(s),
        ServiceOp::Stop => stop_target(s),
        ServiceOp::Enable => enable_target(s),
    }
}

/// Whether the service manager must actually be asked to act, or the
/// service already is in the requested state (a no-op success).
pub fn op_needed(op: ServiceOp, s: ServiceState) -> (need: bool)
    ensures
        need == (op_target(op, s) != s),
{
    let t = match op {
        ServiceOp::Start => apply_start(s),
        ServiceOp::Stop => apply_stop(s),
        ServiceOp::Enable => apply_enable(s),
    };
    t != s
}

/// State label reported after a request of each kind succeeded.
pub open spec fn op_label(op: ServiceOp) -> Seq<char> {
    match op {
        ServiceOp::Start => "running"@,
        ServiceOp::Stop => "stopped"@,
        ServiceOp::Enable => "enabled"@,
    }
}

/// Outcome of the service manager's attempt to apply one request, as
/// the access layer reports it.
#[derive(Clone, PartialEq, Debug)]
pub enum ServiceOutcome {
    /// The request was applied, or the service already was in the
    /// requested state.
    Done,
    /// The caller lacks privilege over this service.
    Denied,
    /// No service of that name exists.
    Unknown,
    /// Some other failure, with the service manager's message.
    Failed(String),
}

/// Whether an outcome counts as success.
pub open spec fn service_ok(o: ServiceOutcome) -> bool {
    o is Done
}

/// Human-readable reason reported for a failing outcome.
pub open spec fn service_reason(o: ServiceOutcome) -> Seq<char> {
    match o {
        ServiceOutcome::Denied => "PermissionDenied"@,
        ServiceOutcome::Unknown => "NotFound"@,
        ServiceOutcome::Failed(m) => m@,
        ServiceOutcome::Done => Seq::empty(),
    }
}

/// Renders the reason for one outcome; empty for success.
pub fn service_reason_of(o: &ServiceOutcome) -> (r: String)
    ensures
        r@ == service_reason(*o),
{
    match o {
        ServiceOutcome::Denied => "PermissionDenied".to_owned(),
        ServiceOutcome::Unknown => "NotFound".to_owned(),
        ServiceOutcome::Failed(m) => m.clone(),
        ServiceOutcome::Done => {
            let r = String::new();
            proof {
                assert(r@ =~= service_reason(*o));
            }
            r
        },
    }
}

/// Shape of a single-service payload: `{name, newState}`.
pub open spec fn service_op_view(name: Seq<char>, label: Seq<char>) -> DataView {
    DataView::Object(
        seq![("name"@, DataView::Str(name)), ("newState"@, DataView::Str(label))],
    )
}

/// Renders one service request's outcome. Success — including the
/// idempotent no-op on a service already in the requested state — is a
/// success envelope naming the service and its new state; a failure is a
/// direct error envelope whose message is the reason.
pub fn single_service_response(name: &str, op: ServiceOp, outcome: &ServiceOutcome) -> (r: Result<
    ResponseModel,
    ResponseModel,
>)
    ensures
        outcome is Done <==> r is Ok,
        r matches Ok(env) ==> env.status == ResponseStatus::Success && env.message@
            == "service request applied"@ && env.data@ == service_op_view(name@, op_label(op)),
        r matches Err(env) ==> env.status == ResponseStatus::Error && env.message@
            == service_reason(*outcome) && (env.data@ matches DataView::Str(s) && s.len() == 0),
{
    match outcome {
        ServiceOutcome::Done => {
            let label: String = match op {
                ServiceOp::Start => "running".to_owned(),
                ServiceOp::Stop => "stopped".to_owned(),
                ServiceOp::Enable => "enabled".to_owned(),
            };
            let ghost glabel = label@;
            let mut fields: Vec<(String, DataValue)> = Vec::new();
            fields.push(("name".to_owned(), DataValue::Str(name.to_owned())));
            fields.push(("newState".to_owned(), DataValue::Str(label)));
            let data = DataValue::Object(fields);
            proof {
                lemma_field_views_map(fields@);
                assert(field_views(fields@) =~= seq![
                    ("name"@, DataView::Str(name@)),
                    ("newState"@, DataView::Str(glabel)),
                ]);
                assert(data@ =~~= service_op_view(name@, op_label(op)));
            }
            Ok(ResponseModel::success("service request applied".to_owned(), data))
        },
        _ => {
            let reason = service_reason_of(outcome);
            Err(ResponseModel::error(reason))
        },
    }
}

/// One service's failure inside a batch, as reported to the caller.
#[derive(PartialEq, Debug)]
pub struct ServiceFailure {
    pub name: String,
    pub reason: String,
}

/// Aggregate result of one batch service operation.
#[derive(PartialEq, Debug)]
pub struct ServiceBatchReport {
    pub succeeded: Vec<String>,
    pub failed: Vec<ServiceFailure>,
}

/// Names of the successful entries, in order.
pub open spec fn spec_succeeded(s: Seq<(String, ServiceOutcome)>) -> Seq<Seq<char>>
    decreases s.len(),
{
    if s.len() == 0 {
        Seq::empty()
    } else {
        spec_succeeded(s.drop_last()) + if service_ok(s.last().1) {
            seq![s.last().0@]
        } else {
            Seq::empty()
        }
    }
}

/// The failing entries, in order: each name with its reason.
pub open spec fn spec_service_failures(s: Seq<(String, ServiceOutcome)>) -> Seq<
    (Seq<char>, Seq<char>),
>
    decreases s.len(),
{
    if s.len() == 0 {
        Seq::empty()
    } else {
        spec_service_failures(s.drop_last()) + if !service_ok(s.last().1) {
            seq![(s.last().0@, service_reason(s.last().1))]
        } else {
            Seq::empty()
        }
    }
}

/// View of a batch report's failure list: each entry as (name, reason).
pub open spec fn service_failure_pairs(s: Seq<ServiceFailure>) -> Seq<(Seq<char>, Seq<char>)> {
    s.map_values(|f: ServiceFailure| (f.name@, f.reason@))
}

/// View of a name list.
pub open spec fn name_views(s: Seq<String>) -> Seq<Seq<char>> {
    s.map_values(|n: String| n@)
}

/// Folds per-service outcomes into the batch report. Each service's
/// outcome is independent: one protected service failing to stop or
/// enable is reported by name and does not block the rest.
pub fn service_batch_report(outcomes: &Vec<(String, ServiceOutcome)>) -> (r: ServiceBatchReport)
    ensures
        name_views(r.succeeded@) == spec_succeeded(outcomes@),
        service_failure_pairs(r.failed@) == spec_service_failures(outcomes@),
{
    let mut succeeded: Vec<String> = Vec::new();
    let mut failed: Vec<ServiceFailure> = Vec::new();
    let n = outcomes.len();
    for i in 0..n
        invariant
            n == outcomes@.len(),
            name_views(succeeded@) == spec_succeeded(outcomes@.subrange(0, i as int)),
            service_failure_pairs(failed@) == spec_service_failures(
                outcomes@.subrange(0, i as int),
            ),
    {
        proof {
            assert(outcomes@.subrange(0, i + 1).drop_last() =~= outcomes@.subrange(0, i as int));
            assert(outcomes@.subrange(0, i + 1).last() == outcomes@[i as int]);
        }
        let entry = &outcomes[i];
        match &entry.1 {
            ServiceOutcome::Done => {
                succeeded.push(entry.0.clone());
                proof {
                    assert(name_views(succeeded@) =~= spec_succeeded(
                        outcomes@.subrange(0, i + 1),
                    ));
                    assert(service_failure_pairs(failed@) =~= spec_service_failures(
                        outcomes@.subrange(0, i + 1),
                    ));
                }
            },
            _ => {
                let reason = service_reason_of(&entry.1);
                failed.push(ServiceFailure { name: entry.0.clone(), reason });
                proof {
                    assert(name_views(succeeded@) =~= spec_succeeded(
                        outcomes@.subrange(0, i + 1),
                    ));
                    assert(service_failure_pairs(failed@) =~= spec_service_failures(
                        outcomes@.subrange(0, i + 1),
                    ));
                }
            },
        }
    }
    proof {
        assert(outcomes@.subrange(0, n as int) =~= outcomes@);
    }
    ServiceBatchReport { succeeded, failed }
}

/// If every outcome succeeded, the batch report lists every name as
/// succeeded and nothing as failed.
pub proof fn lemma_service_all_ok(s: Seq<(String, ServiceOutcome)>)
    requires
        forall|i: int| 0 <= i < s.len() ==> service_ok((#[trigger] s[i]).1),
    ensures
        spec_succeeded(s).len() == s.len(),
        spec_service_failures(s) == Seq::<(Seq<char>, Seq<char>)>::empty(),
    decreases s.len(),
{
    if s.len() > 0 {
        lemma_service_all_ok(s.drop_last());
        assert(spec_service_failures(s) =~= Seq::<(Seq<char>, Seq<char>)>::empty());
    } else {
        assert(spec_service_failures(s) =~= Seq::<(Seq<char>, Seq<char>)>::empty());
    }
}

/// Batch service operations preserve partial progress: if exactly one
/// outcome failed and every other request was applied, the report lists
/// every other name as succeeded and exactly the failing name with its
/// reason.
pub proof fn lemma_service_partial_progress(s: Seq<(String, ServiceOutcome)>, k: int)
    requires
        0 <= k < s.len(),
        !service_ok(s[k].1),
        forall|i: int| 0 <= i < s.len() && i != k ==> service_ok((#[trigger] s[i]).1),
    ensures
        spec_succeeded(s).len() == s.len() - 1,
        spec_service_failures(s) == seq![(s[k].0@, service_reason(s[k].1))],
    decreases s.len(),
{
    assert(s.drop_last() =~= s.subrange(0, s.len() - 1));
    if k == s.len() - 1 {
        lemma_service_all_ok(s.drop_last());
        assert(spec_service_failures(s) =~= seq![(s[k].0@, service_reason(s[k].1))]);
    } else {
        lemma_service_partial_progress(s.drop_last(), k);
        assert(spec_service_failures(s) =~= seq![(s[k].0@, service_reason(s[k].1))]);
    }
}

/// Shape of one batch failure: `{name, reason}`.
pub open spec fn service_failure_view(name: Seq<char>, reason: Seq<char>) -> DataView {
    DataView::Object(
        seq![("name"@, DataView::Str(name)), ("reason"@, DataView::Str(reason))],
    )
}

/// Shape of a whole batch payload: `{succeeded, failed}`.
pub open spec fn service_batch_view(
    succeeded: Seq<Seq<char>>,
    failed: Seq<(Seq<char>, Seq<char>)>,
) -> DataView {
    DataView::Object(
        seq![
            ("succeeded"@, DataView::Array(succeeded.map_values(|n: Seq<char>| DataView::Str(n)))),
            (
                "failed"@,
                DataView::Array(
                    failed.map_values(
                        |pr: (Seq<char>, Seq<char>)| service_failure_view(pr.0, pr.1),
                    ),
                ),
            ),
        ],
    )
}

/// Encodes a name list as an array of strings.
fn names_value(names: Vec<String>) -> (d: DataValue)
    ensures
        d@ == DataView::Array(name_views(names@).map_values(|n: Seq<char>| DataView::Str(n))),
{
    let ghost orig = names@;
    let ghost viewseq = name_views(names@).map_values(|n: Seq<char>| DataView::Str(n));
    let mut rest = names;
    let mut items: Vec<DataValue> = Vec::new();
    while rest.len() > 0
        invariant
            items@.len() + rest@.len() == orig.len(),
            rest@ == orig.subrange(items@.len() as int, orig.len() as int),
            viewseq == name_views(orig).map_values(|n: Seq<char>| DataView::Str(n)),
            viewseq.len() == orig.len(),
            items@.map_values(|x: DataValue| data_view(x)) == viewseq.subrange(
                0,
                items@.len() as int,
            ),
        decreases rest@.len(),
    {
        let ghost k = items@.len() as int;
        let ghost prev = items@;
        proof {
            assert(rest@[0] == orig[k]);
        }
        let name = rest.remove(0);
        items.push(DataValue::Str(name));
        proof {
            assert(rest@ =~= orig.subrange(k + 1, orig.len() as int));
            assert(items@.map_values(|x: DataValue| data_view(x)) =~= prev.map_values(
                |x: DataValue| data_view(x),
            ).push(DataView::Str(orig[k]@)));
            assert(viewseq.subrange(0, k + 1) =~= viewseq.subrange(0, k).push(viewseq[k]));
        }
    }
    let d = DataValue::Array(items);
    proof {
        assert(viewseq.subrange(0, orig.len() as int) =~= viewseq);
        lemma_data_views_map(items@);
    }
    d
}

/// Encodes one batch failure as a `{name, reason}` object.
fn service_failure_value(f: ServiceFailure) -> (d: DataValue)
    ensures
        d@ == service_failure_view(f.name@, f.reason@),
{
    let ghost gf = f;
    let mut fields: Vec<(String, DataValue)> = Vec::new();
    fields.push(("name".to_owned(), DataValue::Str(f.name)));
    fields.push(("reason".to_owned(), DataValue::Str(f.reason)));
    let d = DataValue::Object(fields);
    proof {
        lemma_field_views_map(fields@);
        assert(field_views(fields@) =~= seq![
            ("name"@, DataView::Str(gf.name@)),
            ("reason"@, DataView::Str(gf.reason@)),
        ]);
        assert(d@ =~~= service_failure_view(gf.name@, gf.reason@));
    }
    d
}

/// Encodes a batch failure list as an array of `{name, reason}` objects.
fn service_failures_value(failed: Vec<ServiceFailure>) -> (d: DataValue)
    ensures
        d@ == DataView::Array(
            service_failure_pairs(failed@).map_values(
                |pr: (Seq<char>, Seq<char>)| service_failure_view(pr.0, pr.1),
            ),
        ),
{
    let ghost orig = failed@;
    let ghost viewseq = service_failure_pairs(failed@).map_values(
        |pr: (Seq<char>, Seq<char>)| service_failure_view(pr.0, pr.1),
    );
    let mut rest = failed;
    let mut items: Vec<DataValue> = Vec::new();
    while rest.len() > 0
        invariant
            items@.len() + rest@.len() == orig.len(),
            rest@ == orig.subrange(items@.len() as int, orig.len() as int),
            viewseq == service_failure_pairs(orig).map_values(
                |pr: (Seq<char>, Seq<char>)| service_failure_view(pr.0, pr.1),
            ),
            viewseq.len() == orig.len(),
            items@.map_values(|x: DataValue| data_view(x)) == viewseq.subrange(
                0,
                items@.len() as int,
            ),
        decreases rest@.len(),
    {
        let ghost k = items@.len() as int;
        let ghost prev = items@;
        proof {
            assert(rest@[0] == orig[k]);
        }
        let f = rest.remove(0);
        let v = service_failure_value(f);
        items.push(v);
        proof {
            assert(rest@ =~= orig.subrange(k + 1, orig.len() as int));
            assert(items@.map_values(|x: DataValue| data_view(x)) =~= prev.map_values(
                |x: DataValue| data_view(x),
            ).push(data_view(v)));
            assert(viewseq.subrange(0, k + 1) =~= viewseq.subrange(0, k).push(viewseq[k]));
        }
    }
    let d = DataValue::Array(items);
    proof {
        assert(viewseq.subrange(0, orig.len() as int) =~= viewseq);
        lemma_data_views_map(items@);
    }
    d
}

/// Renders a batch report into the uniform envelope: a success when
/// every service was handled, a warning carrying per-name reasons when
/// some were not — never an error envelope once a report exists.
pub fn service_batch_response(report: ServiceBatchReport) -> (r: ResponseModel)
    ensures
        r.status == (if report.failed@.len() == 0 {
            ResponseStatus::Success
        } else {
            ResponseStatus::Warning
        }),
        r.message@ == (if report.failed@.len() == 0 {
            "all service requests applied"@
        } else {
            "some service requests failed"@
        }),
        r.data@ == service_batch_view(
            name_views(report.succeeded@),
            service_failure_pairs(report.failed@),
        ),
{
    let ghost grep = report;
    let some_failed = report.failed.len() > 0;
    let succeeded_items = names_value(report.succeeded);
    let failed_items = service_failures_value(report.failed);
    let mut fields: Vec<(String, DataValue)> = Vec::new();
    fields.push(("succeeded".to_owned(), succeeded_items));
    fields.push(("failed".to_owned(), failed_items));
    let data = DataValue::Object(fields);
    proof {
        lemma_field_views_map(fields@);
        assert(field_views(fields@) =~= seq![
            (
                "succeeded"@,
                DataView::Array(
                    name_views(grep.succeeded@).map_values(|n: Seq<char>| DataView::Str(n)),
                ),
            ),
            (
                "failed"@,
                DataView::Array(
                    service_failure_pairs(grep.failed@).map_values(
                        |pr: (Seq<char>, Seq<char>)| service_failure_view(pr.0, pr.1),
                    ),
                ),
            ),
        ]);
        assert(data@ =~~= service_batch_view(
            name_views(grep.succeeded@),
            service_failure_pairs(grep.failed@),
        ));
    }
    if some_failed {
        ResponseModel::warning("some service requests failed".to_owned(), data)
    } else {
        ResponseModel::success("all service requests applied".to_owned(), data)
    }
}

/// The services that are currently running, in listing order.
pub open spec fn running_only(s: Seq<SystemServiceModel>) -> Seq<SystemServiceModel>
    decreases s.len(),
{
    if s.len() == 0 {
        Seq::empty()
    } else {
        running_only(s.drop_last()) + if s.last().isRunning {
            seq![s.last()]
        } else {
            Seq::empty()
        }
    }
}

/// Keeps only the running services, preserving the listing order. No
/// service is mutated: this is a pure selection over the queried list.
pub fn filter_running(services: &Vec<SystemServiceModel>) -> (r: Vec<SystemServiceModel>)
    ensures
        r@ == running_only(services@),
{
    let mut r: Vec<SystemServiceModel> = Vec::new();
    let n = services.len();
    for i in 0..n
        invariant
            n == services@.len(),
            r@ == running_only(services@.subrange(0, i as int)),
    {
        proof {
            assert(services@.subrange(0, i + 1).drop_last() =~= services@.subrange(0, i as int));
            assert(services@.subrange(0, i + 1).last() == services@[i as int]);
        }
        if services[i].isRunning {
            r.push(services[i].clone());
            proof {
                assert(r@ =~= running_only(services@.subrange(0, i + 1)));
            }
        } else {
            proof {
                assert(r@ =~= running_only(services@.subrange(0, i + 1)));
            }
        }
    }
    proof {
        assert(services@.subrange(0, n as int) =~= services@);
    }
    r
}

/// Shape of one service record: `{name, description, status, isRunning}`.
pub open spec fn service_view(s: SystemServiceModel) -> DataView {
    DataView::Object(
        seq![
            ("name"@, DataView::Str(s.name@)),
            ("description"@, DataView::Str(s.description@)),
            ("status"@, DataView::Str(s.status@)),
            ("isRunning"@, DataView::Bool(s.isRunning)),
        ],
    )
}

fn service_value(s: SystemServiceModel) -> (d: DataValue)
    ensures
        d@ == service_view(s),
{
    let ghost gs = s;
    let mut fields: Vec<(String, DataValue)> = Vec::new();
    fields.push(("name".to_owned(), DataValue::Str(s.name)));
    fields.push(("description".to_owned(), DataValue::Str(s.description)));
    fields.push(("status".to_owned(), DataValue::Str(s.status)));
    fields.push(("isRunning".to_owned(), DataValue::Bool(s.isRunning)));
    let d = DataValue::Object(fields);
    proof {
        lemma_field_views_map(fields@);
        assert(field_views(fields@) =~= seq![
            ("name"@, DataView::Str(gs.name@)),
            ("description"@, DataView::Str(gs.description@)),
            ("status"@, DataView::Str(gs.status@)),
            ("isRunning"@, DataView::Bool(gs.isRunning)),
        ]);
        assert(d@ =~~= service_view(gs));
    }
    d
}

/// Renders a service listing into the uniform envelope, one record per
/// service, in listing order. Nothing is mutated by a listing.
pub fn services_response(services: Vec<SystemServiceModel>) -> (r: ResponseModel)
    ensures
        r.status == ResponseStatus::Success,
        r.message@ == "services listed"@,
        r.data@ == DataView::Array(services@.map_values(|s: SystemServiceModel| service_view(s))),
{
    let ghost orig = services@;
    let ghost viewseq = services@.map_values(|s: SystemServiceModel| service_view(s));
    let mut rest = services;
    let mut items: Vec<DataValue> = Vec::new();
    while rest.len() > 0
        invariant
            items@.len() + rest@.len() == orig.len(),
            rest@ == orig.subrange(items@.len() as int, orig.len() as int),
            viewseq == orig.map_values(|s: SystemServiceModel| service_view(s)),
            items@.map_values(|x: DataValue| data_view(x)) == viewseq.subrange(
                0,
                items@.len() as int,
            ),
        decreases rest@.len(),
    {
        let ghost k = items@.len() as int;
        let ghost prev = items@;
        proof {
            assert(rest@[0] == orig[k]);
        }
        let s = rest.remove(0);
        let v = service_value(s);
        items.push(v);
        proof {
            assert(rest@ =~= orig.subrange(k + 1, orig.len() as int));
            assert(items@.map_values(|x: DataValue| data_view(x)) =~= prev.map_values(
                |x: DataValue| data_view(x),
            ).push(data_view(v)));
            assert(viewseq.subrange(0, k + 1) =~= viewseq.subrange(0, k).push(viewseq[k]));
        }
    }
    let data = DataValue::Array(items);
    proof {
        assert(viewseq.subrange(0, orig.len() as int) =~= viewseq);
        lemma_data_views_map(items@);
    }
    ResponseModel::success("services listed".to_owned(), data)
}

/// Outcome of asking the OS to open a path with its default handler or
/// an explicitly supplied command.
#[derive(Clone, PartialEq, Debug)]
pub enum OpenOutcome {
    /// The handler was launched.
    Opened,
    /// The path does not exist.
    Missing,
    /// The handler or command could not be invoked.
    LaunchFailed(String),
}

/// Renders an open-file attempt. Opening has no payload — it is a side
/// effect only — so success carries an empty data slot; a missing path
/// and a failed launch each produce a direct error envelope.
pub fn open_file_response(path: &str, outcome: &OpenOutcome) -> (r: Result<
    ResponseModel,
    ResponseModel,
>)
    ensures
        outcome is Opened <==> r is Ok,
        r matches Ok(env) ==> env.status == ResponseStatus::Success && env.message@
            == "file opened"@ && (env.data@ matches DataView::Str(s) && s.len() == 0),
        r matches Err(env) ==> env.status == ResponseStatus::Error && env.message@ == (
        match *outcome {
            OpenOutcome::Missing => "file not found: "@ + path@,
            OpenOutcome::LaunchFailed(m) => "could not open file: "@ + m@,
            OpenOutcome::Opened => Seq::<char>::empty(),
        }) && (env.data@ matches DataView::Str(s) && s.len() == 0),
{
    match outcome {
        OpenOutcome::Opened => Ok(
            ResponseModel::success("file opened".to_owned(), DataValue::Str(String::new())),
        ),
        OpenOutcome::Missing => Err(
            ResponseModel::error("file not found: ".to_owned().concat(path)),
        ),
        OpenOutcome::LaunchFailed(m) => Err(
            ResponseModel::error("could not open file: ".to_owned().concat(m.as_str())),
        ),
    }
}

} // verus!
