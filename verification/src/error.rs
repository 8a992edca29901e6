//! What a request can be refused with, and how a refusal is answered.
use crate::management::model::Missing;
use vstd::prelude::*;

verus! {

/// A part of the product configuration that was not accepted.
#[derive(Clone, Copy, Debug, PartialEq, Eq, Structural)]
pub enum ConfigIssue {
    Budget,
    Tenant,
    EnrollmentCa,
    ProtocolKey,
    WindowsTls,
    WindowsListeners,
    IdentityConfiguration,
    Management,
}

/// A dependency that did not do its part.
#[derive(Clone, Copy, Debug, PartialEq, Eq, Structural)]
pub enum Failure {
    AssetBytesLimit,
    AssetObjectLimit,
    AssetSourceLimit,
    Audit,
    Clock,
    CollectionQuery,
    InventoryPool,
    InventoryQuery,
    InventoryRuntime,
    ManagementAdmission,
    ManagementConnection,
    ManagementStorage,
    RequestDeadline,
    Runtime,
}

/// The step of a plan that could not be carried out.
#[derive(Clone, Copy, Debug, PartialEq, Eq, Structural)]
pub enum PlanStage {
    Preview,
    Save,
}

/// Why a step of a plan could not be carried out.
#[derive(Clone, Copy, Debug, PartialEq, Eq, Structural)]
pub enum PlanFailureReason {
    PlatformUnsupported,
    CapabilityUnknown,
    StalePlan,
}

/// A refused request.
#[derive(Clone, Copy, Debug, PartialEq, Eq, Structural)]
pub enum Error {
    Configuration(ConfigIssue),
    Malformed,
    CertificateRequest,
    Conflict,
    CommitUnknown,
    Unauthorized,
    Forbidden,
    Unavailable(Failure),
    ManagementNotFound(Missing),
    NotFound,
    Unsupported,
}

/// The status of the answer to a refused request.
pub open spec fn status_of(error: Error) -> u16 {
    match error {
        Error::Conflict => 409,
        Error::Malformed | Error::CertificateRequest => 400,
        Error::Unauthorized => 401,
        Error::Forbidden => 403,
        Error::ManagementNotFound(_) | Error::NotFound => 404,
        Error::Unsupported => 501,
        Error::CommitUnknown | Error::Configuration(_) | Error::Unavailable(_) => 503,
    }
}

/// The machine-readable code in the answer to a refused request.
pub open spec fn code_of(error: Error) -> Seq<char> {
    match error {
        Error::Conflict => "operation_conflict"@,
        Error::CommitUnknown => "operation_unknown"@,
        Error::Malformed => "malformed_request"@,
        Error::CertificateRequest => "invalid_certificate_request"@,
        Error::Unauthorized => "invalid_identity"@,
        Error::Forbidden => "permission_denied"@,
        Error::ManagementNotFound(object) => object.spec_code(),
        Error::NotFound => "inventory_not_found"@,
        Error::Unsupported => "action_not_supported"@,
        Error::Configuration(_) | Error::Unavailable(_) => "service_unavailable"@,
    }
}

/// The sentence that names a refused request in a diagnostic.
pub open spec fn message_of(error: Error) -> Seq<char> {
    match error {
        Error::Configuration(_) => "invalid product configuration"@,
        Error::Malformed => "invalid request"@,
        Error::CertificateRequest => "certificate request rejected"@,
        Error::Conflict => "operation identity or enrollment/registration state conflict"@,
        Error::CommitUnknown => "commit outcome unknown; retry the same operation"@,
        Error::Unauthorized => "identity rejected"@,
        Error::Forbidden => "permission denied"@,
        Error::Unavailable(_) => "dependency unavailable"@,
        Error::ManagementNotFound(_) => "management object not found"@,
        Error::NotFound => "inventory not found"@,
        Error::Unsupported => "action not supported"@,
    }
}

impl Error {
    /// The status and the code with which this refusal is answered.
    pub fn into_response(self) -> (answer: (u16, &'static str))
        ensures
            answer.0 == status_of(self),
            answer.1@ == code_of(self),
    {
        match self {
            Error::Conflict => (409, "operation_conflict"),
            Error::CommitUnknown => (503, "operation_unknown"),
            Error::Malformed => (400, "malformed_request"),
            Error::CertificateRequest => (400, "invalid_certificate_request"),
            Error::Unauthorized => (401, "invalid_identity"),
            Error::Forbidden => (403, "permission_denied"),
            Error::ManagementNotFound(object) => (404, object.code()),
            Error::NotFound => (404, "inventory_not_found"),
            Error::Unsupported => (501, "action_not_supported"),
            Error::Configuration(_) | Error::Unavailable(_) => (503, "service_unavailable"),
        }
    }

    /// The sentence that names this refusal in a diagnostic.
    pub fn message(self) -> (sentence: &'static str)
        ensures
            sentence@ == message_of(self),
    {
        match self {
            Error::Configuration(_) => "invalid product configuration",
            Error::Malformed => "invalid request",
            Error::CertificateRequest => "certificate request rejected",
            Error::Conflict => "operation identity or enrollment/registration state conflict",
            Error::CommitUnknown => "commit outcome unknown; retry the same operation",
            Error::Unauthorized => "identity rejected",
            Error::Forbidden => "permission denied",
            Error::Unavailable(_) => "dependency unavailable",
            Error::ManagementNotFound(_) => "management object not found",
            Error::NotFound => "inventory not found",
            Error::Unsupported => "action not supported",
        }
    }
}

/// Every refusal is answered with a failing status, and it is answered as a
/// fault of the server exactly where the caller is not at fault: an unknown
/// commit, a configuration or dependency that does not work, an action that
/// does not exist.
pub proof fn refusals_never_look_successful(error: Error)
    ensures
        400 <= status_of(error) < 600,
        status_of(error) >= 500 <==> (error is CommitUnknown || error is Configuration
            || error is Unavailable || error is Unsupported),
{
}

/// What is wrong inside the server does not show in its answers: every
/// configuration issue and every dependency failure is answered alike.
pub proof fn internal_causes_are_not_disclosed(a: ConfigIssue, b: Failure)
    ensures
        status_of(Error::Configuration(a)) == status_of(Error::Unavailable(b)),
        code_of(Error::Configuration(a)) == code_of(Error::Unavailable(b)),
        message_of(Error::Configuration(a)) == message_of(Error::Configuration(ConfigIssue::Budget)),
        message_of(Error::Unavailable(b)) == message_of(Error::Unavailable(Failure::Runtime)),
{
}

/// A refusal is answered by what it is: a conflict, what is malformed, an identity that is
/// not accepted, what is forbidden, what is missing and what does not exist each with a
/// status of its own.
pub proof fn refusals_are_answered_by_what_they_are(error: Error)
    ensures
        status_of(error) == 409 <==> error is Conflict,
        status_of(error) == 400 <==> error is Malformed || error is CertificateRequest,
        status_of(error) == 401 <==> error is Unauthorized,
        status_of(error) == 403 <==> error is Forbidden,
        status_of(error) == 404 <==> error is ManagementNotFound || error is NotFound,
        status_of(error) == 501 <==> error is Unsupported,
        status_of(error) == 503 <==> error is CommitUnknown || error is Configuration
            || error is Unavailable,
        error matches Error::ManagementNotFound(object) ==> code_of(error) == object.spec_code(),
{
}

/// A caller can tell refusals apart by their codes, but for what is wrong inside the server;
/// above all an unknown commit, which has to be asked for again, from a conflict, which
/// must not be.
pub proof fn refusals_are_told_apart_by_their_codes(error: Error)
    ensures
        !(error is ManagementNotFound) ==> {
            &&& code_of(error) == "operation_conflict"@ <==> error is Conflict
            &&& code_of(error) == "operation_unknown"@ <==> error is CommitUnknown
            &&& code_of(error) == "malformed_request"@ <==> error is Malformed
            &&& code_of(error) == "invalid_certificate_request"@ <==> error is CertificateRequest
            &&& code_of(error) == "invalid_identity"@ <==> error is Unauthorized
            &&& code_of(error) == "permission_denied"@ <==> error is Forbidden
            &&& code_of(error) == "inventory_not_found"@ <==> error is NotFound
            &&& code_of(error) == "action_not_supported"@ <==> error is Unsupported
            &&& code_of(error) == "service_unavailable"@ <==> error is Configuration
                || error is Unavailable
        },
{
    reveal_strlit("operation_conflict");
    reveal_strlit("operation_unknown");
    reveal_strlit("malformed_request");
    reveal_strlit("invalid_certificate_request");
    reveal_strlit("invalid_identity");
    reveal_strlit("permission_denied");
    reveal_strlit("inventory_not_found");
    reveal_strlit("action_not_supported");
    reveal_strlit("service_unavailable");
    assert("operation_conflict"@[10] == 'c' && "operation_unknown"@[10] == 'u');
    assert("operation_conflict"@[0] == 'o' && "operation_unknown"@[0] == 'o');
    assert("malformed_request"@[0] == 'm' && "permission_denied"@[0] == 'p');
    assert("invalid_certificate_request"@[8] == 'c' && "invalid_identity"@[8] == 'i');
    assert("invalid_certificate_request"@[0] == 'i' && "invalid_identity"@[0] == 'i');
    assert("inventory_not_found"@[0] == 'i' && "inventory_not_found"@[8] == 'y');
    assert("action_not_supported"@[0] == 'a' && "service_unavailable"@[0] == 's');
}

} // verus!
