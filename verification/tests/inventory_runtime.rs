use rss_mdm::error::{Error, Failure};
use rss_mdm::inventory_runtime::{
    begin_delivery, cutoff, deliver, inspect, next_report, projection_event, unavailable,
    worker_result, Access, BatchFacts, Delivery, DurableReport, JournalAuthority, Pass,
    ProjectionStatus, ReadAuthority, Readiness, Receipt, Scope, WorkerFailure,
};

const A: &str = "11111111-1111-4111-8111-111111111111";
const B: &str = "22222222-2222-4222-8222-222222222222";

fn scope(tenant: &str, registration: &str) -> Scope {
    Scope {
        tenant: tenant.into(),
        registration: registration.into(),
        source: "mdm.windows".into(),
        epoch: "33333333-3333-4333-8333-333333333333".into(),
    }
}

#[test]
fn journal_permission_is_independent_and_readiness_requires_a_running_worker() {
    let mut authority = JournalAuthority { tenant: A.into(), cancelled: false };
    let own = scope(A, "r");
    assert!(authority.authorize(&Access::ReadJournal { tenant: A }));
    assert!(!authority.authorize(&Access::ReadJournal { tenant: B }));
    assert!(!authority.authorize(&Access::Activate { scope: &own }));
    assert!(!authority.authorize(&Access::Read { scope: &own }));
    authority.cancelled = true;
    assert!(!authority.authorize(&Access::ReadJournal { tenant: A }));
    let mut readiness = Readiness::default();
    readiness.initialize();
    assert!(!readiness.ready());
}

#[test]
fn readiness_follows_the_worker() {
    let mut readiness = Readiness { initialized: false, stopping: false, running: Some(true) };
    assert!(!readiness.ready());
    readiness.initialize();
    assert!(readiness.ready());
    readiness.running = Some(false);
    assert!(!readiness.ready());
    readiness.running = Some(true);
    readiness.stop();
    assert!(!readiness.ready());
    readiness.initialize();
    assert!(!readiness.ready());
    readiness.end();
    assert!(!readiness.initialized);
}

#[test]
fn reports_and_readers_have_their_own_authority() {
    let report = DurableReport { scope: scope(A, "r"), coverage: "full".into() };
    let other = scope(A, "s");
    assert!(report.authorize(&Access::Activate { scope: &report.scope }));
    assert!(report.authorize(&Access::Submit { scope: &report.scope, coverage: "full" }));
    assert!(!report.authorize(&Access::Submit { scope: &report.scope, coverage: "part" }));
    assert!(!report.authorize(&Access::Submit { scope: &other, coverage: "full" }));
    assert!(!report.authorize(&Access::Activate { scope: &other }));
    assert!(!report.authorize(&Access::Read { scope: &report.scope }));
    assert!(!report.authorize(&Access::ReadJournal { tenant: A }));
    let reader = ReadAuthority { scope: &other };
    assert!(reader.authorize(&Access::Read { scope: &scope(A, "s") }));
    assert!(!reader.authorize(&Access::Read { scope: &report.scope }));
    assert!(!reader.authorize(&Access::Activate { scope: &other }));
}

#[test]
fn a_report_is_delivered_step_by_step() {
    let report = DurableReport { scope: scope(A, "r"), coverage: "full".into() };
    assert_eq!(begin_delivery(A, &report), Ok(Delivery::Activate));
    assert_eq!(begin_delivery(B, &report), Err(WorkerFailure::ReportAuthority));
    assert_eq!(deliver(Delivery::Activate, true), Ok(Delivery::Receive));
    assert_eq!(deliver(Delivery::Receive, true), Ok(Delivery::Record));
    assert_eq!(deliver(Delivery::Record, true), Ok(Delivery::Delivered));
    assert_eq!(deliver(Delivery::Delivered, false), Ok(Delivery::Delivered));
    assert_eq!(deliver(Delivery::Activate, false), Err(WorkerFailure::ObservationActivate));
    assert_eq!(deliver(Delivery::Receive, false), Err(WorkerFailure::ObservationReceive));
    assert_eq!(deliver(Delivery::Record, false), Err(WorkerFailure::DeliveryProgress));
}

#[test]
fn a_pass_ends_with_its_time_or_its_reports() {
    assert_eq!(next_report(true, true, false), Pass::Deliver);
    assert_eq!(next_report(true, true, true), Pass::Stop);
    assert_eq!(next_report(true, false, true), Pass::Project);
    assert_eq!(next_report(false, true, false), Pass::Project);
    assert_eq!(worker_result(Err(WorkerFailure::ProjectionRun), true), Ok(()));
    assert_eq!(
        worker_result(Err(WorkerFailure::ProjectionRun), false),
        Err(WorkerFailure::ProjectionRun)
    );
    assert_eq!(worker_result(Ok(()), false), Ok(()));
    assert_eq!(cutoff(10), Some(15));
    assert_eq!(cutoff(u64::MAX), None);
    assert_eq!(unavailable(), Error::Unavailable(Failure::InventoryRuntime));
}

#[test]
fn worker_failures_are_named() {
    for (failure, name) in [
        (WorkerFailure::JournalAuthority, "journal_authority"),
        (WorkerFailure::ReportAuthority, "report_authority"),
        (WorkerFailure::ObservationActivate, "observation_activate"),
        (WorkerFailure::ObservationReceive, "observation_receive"),
        (WorkerFailure::DeliveryProgress, "delivery_progress"),
        (WorkerFailure::PendingReports, "pending_reports"),
        (WorkerFailure::ProjectionInitialize, "projection_initialize"),
        (WorkerFailure::ProjectionTakeover, "projection_takeover"),
        (WorkerFailure::ProjectionCompose, "projection_compose"),
        (WorkerFailure::ProjectionRun, "projection_run"),
    ] {
        assert_eq!(failure.phase(), name);
    }
}

#[test]
fn a_run_is_inspected_in_its_own_tenant() {
    let own = scope(A, "r");
    assert_eq!(inspect(B, &own, None).unwrap_err(), Error::Forbidden);
    let nothing = inspect(A, &own, None).unwrap();
    assert!(nothing.receipt.is_none());
    assert_eq!(nothing.projection, ProjectionStatus::NotApplicable);
    for (snapshot, applicable, projected, status) in [
        (true, Some(true), true, ProjectionStatus::Projected),
        (true, Some(true), false, ProjectionStatus::Pending),
        (true, None, false, ProjectionStatus::PendingReceipt),
        (true, Some(false), false, ProjectionStatus::PendingReceipt),
        (false, Some(true), false, ProjectionStatus::Pending),
        (false, Some(false), false, ProjectionStatus::NotApplicable),
        (false, None, false, ProjectionStatus::NotApplicable),
    ] {
        let receipt = applicable.map(|applicable| Receipt {
            batch_id: "batch".into(),
            received_at: 7,
            decision: "accepted".into(),
            applicable,
        });
        let batch = BatchFacts { snapshot, receipt, projected };
        let found = inspect(A, &own, Some(batch)).unwrap();
        assert_eq!(found.projection, status);
        assert_eq!(found.receipt.is_some(), applicable.is_some());
        if let Some(receipt) = found.receipt {
            assert_eq!((receipt.batch_id.as_str(), receipt.received_at), ("batch", 7));
            assert_eq!(receipt.decision, "accepted");
        }
    }
    assert_eq!(projection_event(&[0x0f; 32]), "0f".repeat(32));
}
