//! Pages of a policy's result.
use crate::encoding::{hex, hex_of};
use crate::error::Error;
use crate::id::Id;
use crate::management::model::{CancelReason, Missing, RetainReason};
use crate::management::pages::{
    continues, Cursor, PolicyPageKind, ResultBinding, ResultBindingView,
};
use crate::text::same;
use vstd::prelude::*;

verus! {

/// How far the execution of a version on a device has come.
#[derive(Clone, Copy, Debug, PartialEq, Eq, Structural)]
pub enum Progress {
    Planned,
    Running,
    Unknown,
    Succeeded,
    Failed,
    Cancelled,
}

/// What is known of the effect of a version on a device.
#[derive(Clone, Copy, Debug, PartialEq, Eq, Structural)]
pub enum Effect {
    Unverified,
    Unknown,
    VerifiedPresent,
    VerifiedAbsent,
}

/// The name of a progress.
pub open spec fn progress_of(progress: Progress) -> Seq<char> {
    match progress {
        Progress::Planned => "planned"@,
        Progress::Running => "running"@,
        Progress::Unknown => "unknown"@,
        Progress::Succeeded => "succeeded"@,
        Progress::Failed => "failed"@,
        Progress::Cancelled => "cancelled"@,
    }
}

/// The name of an effect.
pub open spec fn effect_of(effect: Effect) -> Seq<char> {
    match effect {
        Effect::Unverified => "unverified"@,
        Effect::Unknown => "unknown"@,
        Effect::VerifiedPresent => "verified_present"@,
        Effect::VerifiedAbsent => "verified_absent"@,
    }
}

/// The name of a reason to keep an execution.
pub open spec fn retain_reason_of(reason: RetainReason) -> Seq<char> {
    match reason {
        RetainReason::Current => "current"@,
        RetainReason::Paused => "paused"@,
        RetainReason::Historical => "historical"@,
    }
}

/// The name of a reason to cancel an execution.
pub open spec fn cancel_reason_of(reason: CancelReason) -> Seq<char> {
    match reason {
        CancelReason::ScopeExit => "scope_exit"@,
        CancelReason::Archived => "archived"@,
        CancelReason::Superseded => "superseded"@,
    }
}

/// The execution of a version on a device, as it was recorded.
#[derive(Debug)]
pub struct ExecutionRecord {
    pub device: String,
    pub version: u64,
    pub progress: Progress,
    pub effect: Effect,
}

/// The execution of a version on a device, as it is shown.
#[derive(Debug)]
pub struct Execution {
    pub device: String,
    pub version: u64,
    pub progress: &'static str,
    pub effect: &'static str,
}

/// Whether `shown` shows `record`.
pub open spec fn shows(shown: Execution, record: ExecutionRecord) -> bool {
    &&& shown.device == record.device
    &&& shown.version == record.version
    &&& shown.progress@ == progress_of(record.progress)
    &&& shown.effect@ == effect_of(record.effect)
}

/// Shows a recorded execution.
pub fn execution(record: ExecutionRecord) -> (shown: Execution)
    ensures
        shows(shown, record),
{
    Execution {
        progress: match record.progress {
            Progress::Planned => "planned",
            Progress::Running => "running",
            Progress::Unknown => "unknown",
            Progress::Succeeded => "succeeded",
            Progress::Failed => "failed",
            Progress::Cancelled => "cancelled",
        },
        effect: match record.effect {
            Effect::Unverified => "unverified",
            Effect::Unknown => "unknown",
            Effect::VerifiedPresent => "verified_present",
            Effect::VerifiedAbsent => "verified_absent",
        },
        device: record.device,
        version: record.version,
    }
}

/// What a candidate plan does, as it was computed.
#[allow(inconsistent_fields)]
#[derive(Debug)]
pub enum CandidateIntent {
    Predecessor { execution: ExecutionRecord, successor_version: u64 },
    Desired { device: String, version: u64, supersedes: bool, previous_versions: Vec<u64> },
    Retain { execution: ExecutionRecord, reason: RetainReason },
    Cancel { execution: ExecutionRecord, reason: CancelReason },
}

/// What a candidate plan does, as it is shown.
#[derive(Debug)]
pub enum Intent {
    Predecessor { execution: Execution, successor_version: u64 },
    Add { device: String, version: u64 },
    Supersede { device: String, version: u64 },
    Retain { execution: Execution, reason: &'static str },
    Cancel { execution: Execution, reason: &'static str },
}

/// Whether `shown` shows `intent`.
pub open spec fn shows_intent(shown: Intent, intent: CandidateIntent) -> bool {
    match intent {
        CandidateIntent::Predecessor { execution, successor_version } => shown matches Intent::Predecessor {
            execution: seen,
            successor_version: successor,
        } && shows(seen, execution) && successor == successor_version,
        CandidateIntent::Desired { device, version, supersedes, .. } => if supersedes {
            shown == (Intent::Supersede { device, version })
        } else {
            shown == (Intent::Add { device, version })
        },
        CandidateIntent::Retain { execution, reason } => shown matches Intent::Retain {
            execution: seen,
            reason: name,
        } && shows(seen, execution) && name@ == retain_reason_of(reason),
        CandidateIntent::Cancel { execution, reason } => shown matches Intent::Cancel {
            execution: seen,
            reason: name,
        } && shows(seen, execution) && name@ == cancel_reason_of(reason),
    }
}

/// Shows what a candidate plan does.
pub fn show_intent(candidate: CandidateIntent) -> (shown: Intent)
    ensures
        shows_intent(shown, candidate),
{
    match candidate {
        CandidateIntent::Predecessor { execution: record, successor_version } => Intent::Predecessor {
            execution: execution(record),
            successor_version,
        },
        CandidateIntent::Desired { device, version, supersedes, .. } => if supersedes {
            Intent::Supersede { device, version }
        } else {
            Intent::Add { device, version }
        },
        CandidateIntent::Retain { execution: record, reason } => Intent::Retain {
            execution: execution(record),
            reason: match reason {
                RetainReason::Current => "current",
                RetainReason::Paused => "paused",
                RetainReason::Historical => "historical",
            },
        },
        CandidateIntent::Cancel { execution: record, reason } => Intent::Cancel {
            execution: execution(record),
            reason: match reason {
                CancelReason::ScopeExit => "scope_exit",
                CancelReason::Archived => "archived",
                CancelReason::Superseded => "superseded",
            },
        },
    }
}

/// A row of a candidate plan: what it does and where it stands.
#[derive(Debug)]
pub struct IntentRow {
    pub position: String,
    pub intent: CandidateIntent,
}

/// Which part of a candidate plan holds a projection, where it is not its targets.
#[derive(Clone, Copy, Debug, PartialEq, Eq, Structural)]
pub enum IntentKind {
    Add,
    Supersede,
    Retain,
    Cancel,
    Predecessors,
}

/// The part of a candidate plan that holds a projection.
pub fn partition(kind: PolicyPageKind) -> (part: Option<IntentKind>)
    ensures
        part == (match kind {
            PolicyPageKind::Targets => None,
            PolicyPageKind::Add => Some(IntentKind::Add),
            PolicyPageKind::Supersede => Some(IntentKind::Supersede),
            PolicyPageKind::Retain => Some(IntentKind::Retain),
            PolicyPageKind::Cancel => Some(IntentKind::Cancel),
            PolicyPageKind::Predecessors => Some(IntentKind::Predecessors),
        }),
{
    match kind {
        PolicyPageKind::Targets => None,
        PolicyPageKind::Add => Some(IntentKind::Add),
        PolicyPageKind::Supersede => Some(IntentKind::Supersede),
        PolicyPageKind::Retain => Some(IntentKind::Retain),
        PolicyPageKind::Cancel => Some(IntentKind::Cancel),
        PolicyPageKind::Predecessors => Some(IntentKind::Predecessors),
    }
}

/// Why a candidate plan was not handed out.
#[derive(Clone, Copy, Debug, PartialEq, Eq, Structural)]
pub enum CandidateRejection {
    NotFound,
    Other,
}

/// What is known of a candidate plan.
#[derive(Debug)]
pub struct Candidate {
    pub policy: String,
    pub plan: Option<[u8; 32]>,
    pub target_count: u64,
    pub fact_count: u64,
}

/// Accepts a candidate plan for reading by the owner of `policy`: it has to
/// exist, to be of that policy and to be complete. The plan's digest comes back.
pub fn admit_candidate(
    candidate: &Result<Candidate, CandidateRejection>,
    policy: &str,
) -> (admitted: Result<[u8; 32], Error>)
    ensures
        admitted == (match *candidate {
            Err(CandidateRejection::NotFound) => Err(Error::ManagementNotFound(Missing::Preview)),
            Err(CandidateRejection::Other) => Err(Error::Conflict),
            Ok(candidate) => if candidate.policy@ != policy@ {
                Err(Error::NotFound)
            } else {
                match candidate.plan {
                    Some(plan) => Ok(plan),
                    None => Err(Error::Conflict),
                }
            },
        }),
{
    match candidate {
        Err(CandidateRejection::NotFound) => Err(Error::ManagementNotFound(Missing::Preview)),
        Err(CandidateRejection::Other) => Err(Error::Conflict),
        Ok(candidate) => {
            if !same(candidate.policy.as_str(), policy) {
                return Err(Error::NotFound);
            }
            match candidate.plan {
                Some(plan) => Ok(plan),
                None => Err(Error::Conflict),
            }
        },
    }
}

/// What a page of a policy's result holds.
#[allow(inconsistent_fields)]
#[derive(Debug)]
pub enum PolicyItems {
    Targets { items: Vec<String> },
    Intents { items: Vec<Intent> },
}

/// A page of a policy's result.
#[derive(Debug)]
pub struct PolicyPage {
    pub result: Id,
    pub policy: String,
    pub plan: String,
    pub total_targets: u64,
    pub total_executions: u64,
    pub page: PolicyItems,
    pub next: Option<Cursor>,
}

/// The rows of a candidate plan that were read for a page.
#[derive(Debug)]
pub enum PolicyRows {
    Targets(Vec<String>),
    Intents(Vec<IntentRow>),
}

/// Where reading goes on behind rows: behind the last one.
pub open spec fn policy_after(rows: PolicyRows) -> Option<Seq<char>> {
    match rows {
        PolicyRows::Targets(items) => if items@.len() > 0 {
            Some(items@.last()@)
        } else {
            None
        },
        PolicyRows::Intents(items) => if items@.len() > 0 {
            Some(items@.last().position@)
        } else {
            None
        },
    }
}

/// Whether a page shows rows, one item for each and in their order.
pub open spec fn shows_rows(page: PolicyItems, rows: PolicyRows) -> bool {
    match rows {
        PolicyRows::Targets(targets) => page == (PolicyItems::Targets { items: targets }),
        PolicyRows::Intents(intents) => page matches PolicyItems::Intents { items }
            && items@.len() == intents@.len() && (forall|i: int|
            0 <= i < intents@.len() ==> shows_intent(#[trigger] items@[i], intents@[i].intent)),
    }
}

/// The items that show rows of a candidate plan.
fn items_of(rows: PolicyRows) -> (page: PolicyItems)
    ensures
        shows_rows(page, rows),
{
    match rows {
        PolicyRows::Targets(items) => PolicyItems::Targets { items },
        PolicyRows::Intents(rows) => {
            let ghost all = rows@;
            let mut rest = rows;
            let mut reversed: Vec<Intent> = Vec::new();
            while rest.len() > 0
                invariant
                    rest@.len() + reversed@.len() == all.len(),
                    forall|j: int| 0 <= j < rest@.len() ==> #[trigger] rest@[j] == all[j],
                    forall|j: int|
                        0 <= j < reversed@.len() ==> shows_intent(
                            #[trigger] reversed@[j],
                            all[all.len() - 1 - j].intent,
                        ),
                decreases rest@.len(),
            {
                if let Some(row) = rest.pop() {
                    reversed.push(show_intent(row.intent));
                }
            }
            let mut items: Vec<Intent> = Vec::new();
            while reversed.len() > 0
                invariant
                    reversed@.len() + items@.len() == all.len(),
                    forall|j: int|
                        0 <= j < reversed@.len() ==> shows_intent(
                            #[trigger] reversed@[j],
                            all[all.len() - 1 - j].intent,
                        ),
                    forall|j: int|
                        0 <= j < items@.len() ==> shows_intent(#[trigger] items@[j], all[j].intent),
                decreases reversed@.len(),
            {
                if let Some(item) = reversed.pop() {
                    items.push(item);
                }
            }
            PolicyItems::Intents { items }
        },
    }
}

/// The page that rows of a policy's result make.
pub fn policy_page(
    tenant: &str,
    result: Id,
    kind: PolicyPageKind,
    candidate: &Candidate,
    plan: [u8; 32],
    rows: PolicyRows,
) -> (page: PolicyPage)
    ensures
        page.result == result,
        page.policy == candidate.policy,
        page.plan@ == hex_of(plan@),
        page.total_targets == candidate.target_count,
        page.total_executions == candidate.fact_count,
        shows_rows(page.page, rows),
        continues(
            page.next,
            tenant@,
            result,
            ResultBindingView::Policy { policy: candidate.policy@, kind },
            policy_after(rows),
        ),
{
    let after = match &rows {
        PolicyRows::Targets(items) => if items.len() > 0 {
            Some(items[items.len() - 1].clone())
        } else {
            None
        },
        PolicyRows::Intents(items) => if items.len() > 0 {
            Some(items[items.len() - 1].position.clone())
        } else {
            None
        },
    };
    let next = match after {
        Some(after) => Some(
            Cursor {
                tenant: tenant.to_owned(),
                result,
                binding: ResultBinding::Policy { policy: candidate.policy.clone(), kind },
                after,
            },
        ),
        None => None,
    };
    PolicyPage {
        result,
        policy: candidate.policy.clone(),
        plan: hex(plan.as_slice()),
        total_targets: candidate.target_count,
        total_executions: candidate.fact_count,
        page: items_of(rows),
        next,
    }
}

/// Everything that is shown of a plan goes by a name of its own: no two stages of an
/// execution, no two effects and no two reasons by one.
pub proof fn names_tell_apart(
    progress: Progress,
    other_progress: Progress,
    effect: Effect,
    other_effect: Effect,
    kept: RetainReason,
    other_kept: RetainReason,
    cancelled: CancelReason,
    other_cancelled: CancelReason,
)
    ensures
        progress_of(progress) == progress_of(other_progress) <==> progress == other_progress,
        effect_of(effect) == effect_of(other_effect) <==> effect == other_effect,
        retain_reason_of(kept) == retain_reason_of(other_kept) <==> kept == other_kept,
        cancel_reason_of(cancelled) == cancel_reason_of(other_cancelled) <==> cancelled
            == other_cancelled,
{
    reveal_strlit("planned");
    reveal_strlit("running");
    reveal_strlit("unknown");
    reveal_strlit("succeeded");
    reveal_strlit("failed");
    reveal_strlit("cancelled");
    reveal_strlit("unverified");
    reveal_strlit("verified_present");
    reveal_strlit("verified_absent");
    reveal_strlit("current");
    reveal_strlit("paused");
    reveal_strlit("historical");
    reveal_strlit("scope_exit");
    reveal_strlit("archived");
    reveal_strlit("superseded");
    assert("planned"@[0] == 'p' && "running"@[0] == 'r' && "unknown"@[0] == 'u');
    assert("succeeded"@[0] == 's' && "failed"@[0] == 'f' && "cancelled"@[0] == 'c');
    assert("unverified"@.len() == 10 && "unknown"@.len() == 7);
    assert("verified_present"@.len() == 16 && "verified_absent"@.len() == 15);
    assert("current"@[0] == 'c' && "paused"@[0] == 'p' && "historical"@[0] == 'h');
    assert("scope_exit"@[1] == 'c' && "archived"@[1] == 'r' && "superseded"@[1] == 'u');
}

/// What a plan does is shown as what it is, on the device and of the version that it is of:
/// what is added as added, what takes the place of others as superseding, and what is
/// kept, cancelled or replaced as such.
pub proof fn intents_are_shown_as_what_they_are(shown: Intent, intent: CandidateIntent)
    requires
        shows_intent(shown, intent),
    ensures
        shown is Predecessor <==> intent is Predecessor,
        shown is Retain <==> intent is Retain,
        shown is Cancel <==> intent is Cancel,
        shown is Supersede <==> (intent matches CandidateIntent::Desired { supersedes, .. }
            && supersedes),
        shown is Add <==> (intent matches CandidateIntent::Desired { supersedes, .. }
            && !supersedes),
        shown matches Intent::Add { device, version } ==> (intent matches CandidateIntent::Desired {
            device: d,
            version: v,
            ..
        } && d == device && v == version),
        shown matches Intent::Supersede { device, version } ==> (
        intent matches CandidateIntent::Desired { device: d, version: v, .. } && d == device && v
            == version),
        shown matches Intent::Retain { execution, .. } ==> (intent matches CandidateIntent::Retain {
            execution: e,
            ..
        } && e.device == execution.device && e.version == execution.version),
        shown matches Intent::Cancel { execution, .. } ==> (intent matches CandidateIntent::Cancel {
            execution: e,
            ..
        } && e.device == execution.device && e.version == execution.version),
        shown matches Intent::Predecessor { execution, successor_version } ==> (
        intent matches CandidateIntent::Predecessor { execution: e, successor_version: s }
            && e.device == execution.device && e.version == execution.version && s
            == successor_version),
{
}

/// An execution is shown by the names of how far it has come and of what is known of its
/// effect.
pub proof fn executions_are_shown_as_recorded(shown: Execution, record: ExecutionRecord)
    requires
        shows(shown, record),
    ensures
        shown.device == record.device && shown.version == record.version,
        shown.progress@ == "succeeded"@ <==> record.progress == Progress::Succeeded,
        shown.progress@ == "failed"@ <==> record.progress == Progress::Failed,
        shown.progress@ == "cancelled"@ <==> record.progress == Progress::Cancelled,
        shown.progress@ == "running"@ <==> record.progress == Progress::Running,
        shown.effect@ == "verified_present"@ <==> record.effect == Effect::VerifiedPresent,
        shown.effect@ == "verified_absent"@ <==> record.effect == Effect::VerifiedAbsent,
{
    let (kept, cancelled) = (RetainReason::Current, CancelReason::Archived);
    let (progress, effect) = (record.progress, record.effect);
    let named = Effect::VerifiedPresent;
    names_tell_apart(
        progress,
        Progress::Succeeded,
        effect,
        named,
        kept,
        kept,
        cancelled,
        cancelled,
    );
    names_tell_apart(
        progress,
        Progress::Failed,
        effect,
        Effect::VerifiedAbsent,
        kept,
        kept,
        cancelled,
        cancelled,
    );
    names_tell_apart(
        progress,
        Progress::Cancelled,
        effect,
        named,
        kept,
        kept,
        cancelled,
        cancelled,
    );
    names_tell_apart(progress, Progress::Running, effect, named, kept, kept, cancelled, cancelled);
}

/// Reading goes on behind the last row of a page, and nowhere behind a page without rows;
/// the page shows each row once and in order.
pub proof fn policy_pages_go_on_behind_their_last_row(page: PolicyItems, rows: PolicyRows)
    requires
        shows_rows(page, rows),
    ensures
        rows matches PolicyRows::Targets(items) ==> {
            &&& page matches PolicyItems::Targets { items: shown } && shown == items
            &&& policy_after(rows) is None <==> items@.len() == 0
            &&& items@.len() > 0 ==> policy_after(rows) == Some(items@[items@.len() - 1]@)
        },
        rows matches PolicyRows::Intents(items) ==> {
            &&& page matches PolicyItems::Intents { items: shown } && shown@.len() == items@.len()
            &&& policy_after(rows) is None <==> items@.len() == 0
            &&& items@.len() > 0 ==> policy_after(rows) == Some(
                items@[items@.len() - 1].position@,
            )
        },
{
}

} // verus!
