//! The values that management requests and results are made of.
use crate::id::Id;
use crate::management::assets::model::Criteria;
use crate::management::configuration::Frozen;
use crate::order::{
    precedes, text_before, text_before_is_asymmetric, text_before_is_total,
    text_before_is_transitive,
};
use crate::set::{Element, OrderedSet};
use crate::text::same;
use vstd::prelude::*;

verus! {

/// Closed missing-object categories for management endpoints.
#[derive(Clone, Copy, Debug, PartialEq, Eq, Structural)]
pub enum Missing {
    Operation,
    Device,
    Group,
    Scope,
    Policy,
    Preview,
    Resource,
    Source,
    Candidate,
    Rule,
}

impl Missing {
    /// The code under which the absence is reported.
    pub open spec fn spec_code(self) -> Seq<char> {
        match self {
            Missing::Operation => "operation_not_found"@,
            Missing::Device => "management_device_not_found"@,
            Missing::Group => "group_not_found"@,
            Missing::Scope => "scope_not_found"@,
            Missing::Policy => "policy_not_found"@,
            Missing::Preview => "plan_preview_not_found"@,
            Missing::Resource => "resource_not_found"@,
            Missing::Source => "software_source_not_found"@,
            Missing::Candidate => "software_candidate_not_found"@,
            Missing::Rule => "group_rule_not_found"@,
        }
    }

    /// The code under which the absence is reported.
    pub fn code(self) -> (code: &'static str)
        ensures
            code@ == self.spec_code(),
    {
        match self {
            Missing::Operation => "operation_not_found",
            Missing::Device => "management_device_not_found",
            Missing::Group => "group_not_found",
            Missing::Scope => "scope_not_found",
            Missing::Policy => "policy_not_found",
            Missing::Preview => "plan_preview_not_found",
            Missing::Resource => "resource_not_found",
            Missing::Source => "software_source_not_found",
            Missing::Candidate => "software_candidate_not_found",
            Missing::Rule => "group_rule_not_found",
        }
    }
}

/// A request to change an object that is at a known revision.
#[derive(Debug)]
pub struct Operation<T> {
    pub operation_id: Id,
    pub expected_revision: u64,
    pub input: T,
}

/// A change of a group.
#[allow(inconsistent_fields)]
#[derive(Debug)]
pub enum GroupChange {
    Create { name: String, description: String, criteria: Option<Criteria> },
    Edit { name: String, description: String },
    Rule { criteria: Criteria },
    Members { add: Vec<String>, remove: Vec<String> },
    Delete,
    Recompute,
}

/// A device or a group that a scope names.
#[derive(Debug)]
pub enum Reference {
    Device(String),
    Group(Id),
}

/// A reference with its text as a sequence of characters.
pub enum ReferenceView {
    Device(Seq<char>),
    Group(u128),
}

impl View for Reference {
    type V = ReferenceView;

    open spec fn view(&self) -> ReferenceView {
        match *self {
            Reference::Device(device) => ReferenceView::Device(device@),
            Reference::Group(group) => ReferenceView::Group(group.value),
        }
    }
}

/// The order of references: devices by name, then groups by identifier.
pub open spec fn reference_before(a: ReferenceView, b: ReferenceView) -> bool {
    match (a, b) {
        (ReferenceView::Device(x), ReferenceView::Device(y)) => text_before(x, y),
        (ReferenceView::Device(_), ReferenceView::Group(_)) => true,
        (ReferenceView::Group(_), ReferenceView::Device(_)) => false,
        (ReferenceView::Group(x), ReferenceView::Group(y)) => x < y,
    }
}

impl Element for Reference {
    type V = ReferenceView;

    open spec fn key(&self) -> ReferenceView {
        self@
    }

    open spec fn key_before(a: ReferenceView, b: ReferenceView) -> bool {
        reference_before(a, b)
    }

    proof fn is_asymmetric(a: ReferenceView, b: ReferenceView) {
        if let (ReferenceView::Device(x), ReferenceView::Device(y)) = (a, b) {
            text_before_is_asymmetric(x, y);
        }
    }

    proof fn is_total(a: ReferenceView, b: ReferenceView) {
        if let (ReferenceView::Device(x), ReferenceView::Device(y)) = (a, b) {
            text_before_is_total(x, y);
        }
    }

    proof fn is_transitive(a: ReferenceView, b: ReferenceView, c: ReferenceView) {
        if let (ReferenceView::Device(x), ReferenceView::Device(y), ReferenceView::Device(z)) = (
            a,
            b,
            c,
        ) {
            text_before_is_transitive(x, y, z);
        }
    }

    fn comes_before(&self, other: &Reference) -> (answer: bool) {
        match (self, other) {
            (Reference::Device(x), Reference::Device(y)) => precedes(x.as_str(), y.as_str()),
            (Reference::Device(_), Reference::Group(_)) => true,
            (Reference::Group(_), Reference::Device(_)) => false,
            (Reference::Group(x), Reference::Group(y)) => x.value < y.value,
        }
    }

    fn duplicate(&self) -> (copy: Reference) {
        match self {
            Reference::Device(device) => Reference::Device(device.clone()),
            Reference::Group(group) => Reference::Group(*group),
        }
    }
}

/// Which devices a scope reaches: those of its targets that match a limitation,
/// where it has any, and that nothing excludes.
#[derive(Debug)]
pub struct ScopeDefinition {
    pub targets: OrderedSet<Reference>,
    pub limitations: Option<OrderedSet<Reference>>,
    pub exclusions: OrderedSet<Reference>,
}

impl ScopeDefinition {
    /// Whether each of the three sets is in order.
    pub open spec fn well_formed(self) -> bool {
        &&& self.targets.well_formed()
        &&& self.limitations matches Some(limitations) ==> limitations.well_formed()
        &&& self.exclusions.well_formed()
    }

    /// Whether the definition names `reference` anywhere.
    pub open spec fn names(self, reference: ReferenceView) -> bool {
        ||| self.targets@.contains(reference)
        ||| self.limitations matches Some(limitations) && limitations@.contains(reference)
        ||| self.exclusions@.contains(reference)
    }

    /// Everything that the definition names, each once and in order.
    pub fn references(&self) -> (references: OrderedSet<Reference>)
        requires
            self.well_formed(),
        ensures
            references.well_formed(),
            forall|reference: ReferenceView| #[trigger]
                references@.contains(reference) <==> self.names(reference),
    {
        let mut references: OrderedSet<Reference> = OrderedSet::new();
        references.extend(&self.targets);
        if let Some(limitations) = &self.limitations {
            references.extend(limitations);
        }
        references.extend(&self.exclusions);
        references
    }
}

/// A change of a scope.
#[derive(Debug)]
pub enum ScopeChange {
    Put { definition: ScopeDefinition },
    Delete,
}

/// A change of a policy.
#[derive(Debug)]
pub enum PolicyChange {
    Create,
    Activate { version: u64, resource: String, resource_version: String },
    Pause,
    Resume,
    Archive,
}

/// A request to preview a policy on a scope.
#[derive(Debug)]
pub struct PreviewInput {
    pub scope: Id,
    pub expected_revision: u64,
}

/// A request to save a previewed plan.
#[derive(Debug)]
pub struct SavePlan {
    pub preview: Id,
}

/// What a reference of a scope resolved to.
#[derive(Debug)]
pub struct Source {
    pub reference: Reference,
    pub revision: u64,
    pub member_version: Option<i64>,
    pub members: Vec<String>,
}

/// A previewed plan with everything it was computed from.
#[derive(Debug)]
pub struct Preview {
    pub configuration: Option<Frozen>,
    pub id: Id,
    pub policy: String,
    pub policy_revision: u64,
    pub scope: Id,
    pub scope_revision: u64,
    pub as_of: i64,
    pub sources: Vec<Source>,
    pub devices: Vec<String>,
    pub registrations: Vec<(String, DeviceIdentity)>,
    pub explanation: String,
    pub plan: FrozenPlan,
}

/// A channel over which a device is registered.
#[derive(Debug)]
pub struct Registration {
    pub id: String,
    pub channel: String,
    pub generation: u64,
}

/// The registrations of a device, at the highest of their generations.
#[derive(Debug)]
pub struct DeviceIdentity {
    pub revision: u64,
    pub registrations: Vec<Registration>,
}

/// The immutable plan of a policy.
#[derive(Debug)]
pub struct FrozenPlan {
    pub id: String,
    pub scheduling_open: bool,
    pub intents: Vec<FrozenIntent>,
    pub dispatch: Dispatch,
}

/// Whether a plan was handed on for execution.
#[derive(Clone, Copy, Debug, PartialEq, Eq, Structural)]
pub enum Dispatch {
    NotRequested,
}

/// What a plan does on one device.
#[allow(inconsistent_fields)]
#[derive(Debug)]
pub enum FrozenIntent {
    Add { device: String, version: u64 },
    Supersede { device: String, version: u64, previous_versions: Vec<u64> },
    Cancel { device: String, version: u64, reason: CancelReason },
    Retain { device: String, version: u64, reason: RetainReason },
}

/// Why an execution is cancelled.
#[derive(Clone, Copy, Debug, PartialEq, Eq, Structural)]
pub enum CancelReason {
    ScopeExit,
    Archived,
    Superseded,
}

/// Why an execution is kept.
#[derive(Clone, Copy, Debug, PartialEq, Eq, Structural)]
pub enum RetainReason {
    Current,
    Paused,
    Historical,
}

/// Whether a list of texts holds `text`.
pub open spec fn lists(texts: Seq<String>, text: Seq<char>) -> bool {
    exists|i: int| 0 <= i < texts.len() && #[trigger] texts[i]@ == text
}

/// Whether `texts` holds `text`.
pub fn is_listed(texts: &Vec<String>, text: &str) -> (answer: bool)
    ensures
        answer == lists(texts@, text@),
{
    let mut i: usize = 0;
    while i < texts.len()
        invariant
            i <= texts@.len(),
            forall|j: int| 0 <= j < i ==> #[trigger] texts@[j]@ != text@,
        decreases texts@.len() - i,
    {
        if same(texts[i].as_str(), text) {
            return true;
        }
        i += 1;
    }
    false
}

impl FrozenIntent {
    /// The device that the intent is about.
    pub open spec fn spec_device(self) -> Seq<char> {
        match self {
            FrozenIntent::Add { device, .. } => device@,
            FrozenIntent::Supersede { device, .. } => device@,
            FrozenIntent::Cancel { device, .. } => device@,
            FrozenIntent::Retain { device, .. } => device@,
        }
    }

    /// The version that the intent is about.
    pub open spec fn spec_version(self) -> u64 {
        match self {
            FrozenIntent::Add { version, .. } => version,
            FrozenIntent::Supersede { version, .. } => version,
            FrozenIntent::Cancel { version, .. } => version,
            FrozenIntent::Retain { version, .. } => version,
        }
    }

    /// Whether the intent withdraws a version from its device: a cancelled one,
    /// or one kept for history where the policy is archived or the device has
    /// left the plan.
    pub open spec fn withdraws(self, preview: Preview) -> bool {
        ||| self is Cancel
        ||| {
            &&& self matches FrozenIntent::Retain { reason, .. } && reason
                == RetainReason::Historical
            &&& {
                ||| preview.configuration matches Some(configuration)
                    && configuration.policy_status@ == "archived"@
                ||| !lists(preview.devices@, self.spec_device())
            }
        }
    }

    /// The device that the intent is about.
    pub fn device(&self) -> (device: &str)
        ensures
            device@ == self.spec_device(),
    {
        match self {
            FrozenIntent::Add { device, .. } => device.as_str(),
            FrozenIntent::Supersede { device, .. } => device.as_str(),
            FrozenIntent::Cancel { device, .. } => device.as_str(),
            FrozenIntent::Retain { device, .. } => device.as_str(),
        }
    }

    /// The device and version that the intent withdraws, where it does.
    pub fn cancellation(&self, preview: &Preview) -> (withdrawn: Option<(&str, u64)>)
        ensures
            match withdrawn {
                Some((device, version)) => {
                    &&& self.withdraws(*preview)
                    &&& device@ == self.spec_device()
                    &&& version == self.spec_version()
                },
                None => !self.withdraws(*preview),
            },
    {
        match self {
            FrozenIntent::Cancel { device, version, .. } => Some((device.as_str(), *version)),
            FrozenIntent::Retain { device, version, reason } => {
                if *reason != RetainReason::Historical {
                    return None;
                }
                let archived = match &preview.configuration {
                    Some(configuration) => same(configuration.policy_status.as_str(), "archived"),
                    None => false,
                };
                if archived || !is_listed(&preview.devices, device.as_str()) {
                    Some((device.as_str(), *version))
                } else {
                    None
                }
            },
            FrozenIntent::Add { .. } | FrozenIntent::Supersede { .. } => None,
        }
    }
}

/// No two kinds of things are missing under one code.
pub proof fn missing_things_are_told_apart(one: Missing, two: Missing)
    ensures
        one.spec_code() == two.spec_code() <==> one == two,
{
    reveal_strlit("operation_not_found");
    reveal_strlit("management_device_not_found");
    reveal_strlit("group_not_found");
    reveal_strlit("scope_not_found");
    reveal_strlit("policy_not_found");
    reveal_strlit("plan_preview_not_found");
    reveal_strlit("resource_not_found");
    reveal_strlit("software_source_not_found");
    reveal_strlit("software_candidate_not_found");
    reveal_strlit("group_rule_not_found");
    assert("operation_not_found"@.len() == 19 && "management_device_not_found"@.len() == 27);
    assert("group_not_found"@.len() == 15 && "scope_not_found"@.len() == 15);
    assert("group_not_found"@[0] == 'g' && "scope_not_found"@[0] == 's');
    assert("policy_not_found"@.len() == 16 && "plan_preview_not_found"@.len() == 22);
    assert("resource_not_found"@.len() == 18 && "software_source_not_found"@.len() == 25);
    assert("software_candidate_not_found"@.len() == 28 && "group_rule_not_found"@.len() == 20);
}

/// An intent withdraws a version from its own device exactly where it cancels it, or where it
/// keeps it for history and the policy is archived or the device is no longer one of the
/// plan's.
pub proof fn versions_are_withdrawn_where_they_are_no_longer_wanted(
    intent: FrozenIntent,
    preview: Preview,
)
    ensures
        intent is Add || intent is Supersede ==> !intent.withdraws(preview),
        intent is Cancel ==> intent.withdraws(preview),
        intent matches FrozenIntent::Retain { device, reason, .. } ==> (intent.withdraws(preview)
            <==> reason == RetainReason::Historical && ((preview.configuration matches Some(
            configuration,
        ) && configuration.policy_status@ == "archived"@) || forall|i: int|
            0 <= i < preview.devices@.len() ==> (#[trigger] preview.devices@[i])@ != device@)),
        intent matches FrozenIntent::Cancel { device, version, .. } ==> intent.spec_device()
            == device@ && intent.spec_version() == version,
        intent matches FrozenIntent::Retain { device, version, .. } ==> intent.spec_device()
            == device@ && intent.spec_version() == version,
        intent matches FrozenIntent::Add { device, version } ==> intent.spec_device() == device@
            && intent.spec_version() == version,
        intent matches FrozenIntent::Supersede { device, version, .. } ==> intent.spec_device()
            == device@ && intent.spec_version() == version,
{
}

} // verus!
