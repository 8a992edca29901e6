//! Initializing and recovering an account, by an operator.
use crate::config::{Database, Installation};
use crate::error::{ConfigIssue, Error, Failure};
use crate::management::model::{is_listed, lists};
use crate::text::same;
use vstd::prelude::*;

verus! {

/// What an operator asks for. An account is initialized with a login, and
/// recovered without one.
#[derive(Debug)]
pub struct Config {
    pub database: Database,
    pub installation: Installation,
    pub tenant_id: String,
    pub principal_id: String,
    pub login: Option<String>,
    pub password_file: String,
}

/// What was found of the parts of a request that only their owners understand:
/// whether the installation, the identifiers, the password and the login are
/// valid.
#[derive(Clone, Copy, Debug)]
pub struct Findings {
    pub installation: bool,
    pub instance: bool,
    pub tenant: bool,
    pub principal: bool,
    pub password: bool,
    pub login: bool,
}

/// Whether a request may be carried out.
pub open spec fn is_valid(config: Config, initialize: bool, findings: Findings) -> bool {
    &&& config.database.user@ == "mdm_identity_maintenance"@
    &&& lists(config.installation.tenants@, config.tenant_id@)
    &&& findings.installation && findings.instance && findings.tenant && findings.principal
        && findings.password && findings.login
    &&& initialize == config.login is Some
}

/// What an operator's request comes to.
#[derive(Clone, Copy, Debug, PartialEq, Eq, Structural)]
pub enum Task {
    Initialize,
    Recover,
}

/// Accepts an operator's request: to initialize an account with a login, or to
/// recover one without.
pub fn admitted(config: &Config, initialize: bool, findings: Findings) -> (task: Result<
    Task,
    Error,
>)
    ensures
        task == (if !is_valid(*config, initialize, findings) {
            Err::<Task, Error>(Error::Configuration(ConfigIssue::IdentityConfiguration))
        } else if initialize {
            Ok(Task::Initialize)
        } else {
            Ok(Task::Recover)
        }),
{
    let invalid = Error::Configuration(ConfigIssue::IdentityConfiguration);
    if !same(config.database.user.as_str(), "mdm_identity_maintenance") || !is_listed(
        &config.installation.tenants,
        config.tenant_id.as_str(),
    ) {
        return Err(invalid);
    }
    if !findings.installation || !findings.instance || !findings.tenant || !findings.principal
        || !findings.password || !findings.login {
        return Err(invalid);
    }
    if initialize != config.login.is_some() {
        return Err(invalid);
    }
    if initialize {
        Ok(Task::Initialize)
    } else {
        Ok(Task::Recover)
    }
}

/// What an operator is told: a failure of the request itself first, and success
/// only where everything that was opened was also released.
pub fn run(result: Result<(), Error>, drained: bool, closed: bool) -> (answer: Result<(), Error>)
    ensures
        answer == (match result {
            Err(error) => Err::<(), Error>(error),
            Ok(()) => if drained && closed {
                Ok(())
            } else {
                Err(Error::Unavailable(Failure::Runtime))
            },
        }),
{
    match result {
        Err(error) => Err(error),
        Ok(()) => if drained && closed {
            Ok(())
        } else {
            Err(Error::Unavailable(Failure::Runtime))
        },
    }
}

/// An operator's request is carried out only under the account for it, for a tenant of the
/// installation, with every part of it valid, and with a login exactly where an account is
/// initialized.
pub proof fn requests_of_operators_are_complete(
    config: Config,
    initialize: bool,
    findings: Findings,
)
    requires
        is_valid(config, initialize, findings),
    ensures
        config.database.user@ == "mdm_identity_maintenance"@,
        exists|i: int|
            0 <= i < config.installation.tenants@.len() && (
            #[trigger] config.installation.tenants@[i])@ == config.tenant_id@,
        findings.installation && findings.instance && findings.tenant,
        findings.principal && findings.password && findings.login,
        initialize <==> config.login is Some,
{
}

} // verus!
