use rss_mdm::cli::{execute, Request};
use rss_mdm::config::{Database, Installation};
use rss_mdm::error::{ConfigIssue, Error, Failure};
use rss_mdm::lifecycle::{
    assembly_error, critical_tasks, finish, http_policy, shutdown_kind, ProcessError, ScopeExit,
    ShutdownFailureKind, Startup, StepOutcome, TaskExit,
};
use rss_mdm::maintenance::{self, admitted, Findings, Task};
use rss_mdm::management::config::Config;

#[test]
fn assembly_failures_identify_windows_inputs() {
    for (issue, stage) in [
        (ConfigIssue::EnrollmentCa, "startup.windows_ca"),
        (ConfigIssue::ProtocolKey, "startup.protocol_key"),
        (ConfigIssue::WindowsTls, "startup.windows_tls"),
    ] {
        assert!(assembly_error(Error::Configuration(issue))
            .diagnostic()
            .starts_with(stage));
    }
}

#[test]
fn critical_exits_are_reported_by_task_and_manner() {
    for name in ["mdm-enrollment-tls", "mdm-management-tls"] {
        for (reason, word) in [
            (TaskExit::Completed, "completed"),
            (TaskExit::Failed, "failed"),
            (TaskExit::Panicked, "panicked"),
            (TaskExit::Cancelled, "cancelled"),
        ] {
            let exit = ScopeExit::CriticalTaskExited { name: name.into(), reason };
            let diagnostic = finish(&exit, false).unwrap_err().diagnostic();
            assert_eq!(diagnostic, format!("{name}: {word} cleanup_failed=true"));
            let diagnostic = finish(&exit, true).unwrap_err().diagnostic();
            assert_eq!(diagnostic, format!("{name}: {word} cleanup_failed=false"));
        }
    }
}

#[test]
fn a_process_succeeds_only_after_a_clean_stop() {
    assert!(finish(&ScopeExit::StopRequested(Ok(())), true).is_ok());
    let line = |exit: ScopeExit, clean: bool| finish(&exit, clean).unwrap_err().diagnostic();
    assert_eq!(
        line(ScopeExit::StopRequested(Ok(())), false),
        "shutdown: resource drain failed"
    );
    assert_eq!(
        line(ScopeExit::StopRequested(Err("closed".into())), true),
        "shutdown.signal: closed"
    );
    assert_eq!(line(ScopeExit::Terminated, true), "lifecycle: scope terminated");
    assert_eq!(line(ScopeExit::Completed(Ok(())), true), "lifecycle: scope terminated");
    let failed = ProcessError::Stage { stage: "startup", kind: "late" };
    assert_eq!(line(ScopeExit::Completed(Err(failed)), false), "startup: late");
}

#[test]
fn starting_takes_every_step_in_order() {
    let mut step = Startup::Configuration;
    let mut steps = 0;
    while step != Startup::Running {
        step = step.step(StepOutcome::Done).unwrap();
        steps += 1;
    }
    assert_eq!(steps, 17);
    assert_eq!(Startup::Running.next(), Startup::Running);
    assert!(Startup::Reader.stages_resource());
    assert!(!Startup::Listener.stages_resource());
}

#[test]
fn a_failed_step_is_reported_under_its_name() {
    let line = |step: Startup, outcome: StepOutcome| step.step(outcome).unwrap_err().diagnostic();
    assert_eq!(
        line(Startup::Reader, StepOutcome::Refused(Error::Malformed)),
        "startup.reader_connection_or_admission: dependency unavailable"
    );
    assert_eq!(
        line(Startup::Budget, StepOutcome::Refused(Error::Malformed)),
        "startup.budget: invalid product configuration"
    );
    assert_eq!(
        line(
            Startup::Assembly,
            StepOutcome::Refused(Error::Configuration(ConfigIssue::WindowsListeners))
        ),
        "startup.windows_listeners: invalid product configuration"
    );
    assert!(line(Startup::Listener, StepOutcome::Io("AddrInUse".into()))
        .starts_with("startup.listener_bind"));
    assert!(Startup::Projection.step(StepOutcome::Overdue).is_err());
}

#[test]
fn release_failures_and_limits_are_named() {
    for (kind, name) in [
        (ShutdownFailureKind::Failed, "failed"),
        (ShutdownFailureKind::TimedOut, "timed_out"),
        (ShutdownFailureKind::Panicked, "panicked"),
        (ShutdownFailureKind::Cancelled, "cancelled"),
        (ShutdownFailureKind::TaskUnknown, "task_unknown"),
        (ShutdownFailureKind::DeadlineExceeded, "deadline_exceeded"),
        (ShutdownFailureKind::BudgetExhausted, "budget_exhausted"),
    ] {
        assert_eq!(shutdown_kind(kind), name);
    }
    let policy = http_policy();
    assert_eq!((policy.connections, policy.request, policy.buffer_bytes), (128, 10, 32768));
    assert_eq!(critical_tasks().len(), 5);
}

fn words(line: &str) -> Vec<String> {
    line.split_whitespace().map(str::to_string).collect()
}

#[test]
fn arguments_ask_for_one_thing() {
    assert!(matches!(execute(&words("--help")), Ok(Request::Help)));
    assert!(matches!(execute(&words("--describe")), Ok(Request::Describe)));
    assert!(matches!(execute(&words("--version")), Ok(Request::Version)));
    match execute(&words("serve --config a.toml")) {
        Ok(Request::Serve { config }) => assert_eq!(config, "a.toml"),
        other => panic!("{other:?}"),
    }
    assert!(matches!(
        execute(&words("migrate --config a.toml")),
        Ok(Request::Migrate { .. })
    ));
    for line in ["", "serve", "serve a.toml", "serve --config", "--help --version", "run --config a"]
    {
        let error = execute(&words(line)).unwrap_err();
        assert_eq!(error.diagnostic(), "arguments: use rss-mdm --help");
    }
}

fn database(user: &str) -> Database {
    Database {
        host: "db".into(),
        port: 5432,
        name: "mdm".into(),
        user: user.into(),
        password_file: "p".into(),
        ca_file: "c".into(),
    }
}

fn maintenance_config(login: Option<&str>) -> maintenance::Config {
    maintenance::Config {
        database: database("mdm_identity_maintenance"),
        installation: Installation {
            instance_id: "i".into(),
            target: [1; 16],
            lineage: [2; 16],
            epoch: 1,
            tenants: vec!["t".into()],
        },
        tenant_id: "t".into(),
        principal_id: "p".into(),
        login: login.map(str::to_string),
        password_file: "f".into(),
    }
}

const SOUND: Findings = Findings {
    installation: true,
    instance: true,
    tenant: true,
    principal: true,
    password: true,
    login: true,
};

#[test]
fn operators_initialize_with_a_login_and_recover_without() {
    let refused = Err(Error::Configuration(ConfigIssue::IdentityConfiguration));
    assert_eq!(admitted(&maintenance_config(Some("l")), true, SOUND), Ok(Task::Initialize));
    assert_eq!(admitted(&maintenance_config(None), false, SOUND), Ok(Task::Recover));
    assert_eq!(admitted(&maintenance_config(None), true, SOUND), refused);
    assert_eq!(admitted(&maintenance_config(Some("l")), false, SOUND), refused);
    assert_eq!(
        admitted(&maintenance_config(None), false, Findings { password: false, ..SOUND }),
        refused
    );
    let mut other = maintenance_config(None);
    other.tenant_id = "u".into();
    assert_eq!(admitted(&other, false, SOUND), refused);
    let mut other = maintenance_config(None);
    other.database.user = "mdm_api".into();
    assert_eq!(admitted(&other, false, SOUND), refused);
    assert_eq!(maintenance::run(Ok(()), true, true), Ok(()));
    assert_eq!(
        maintenance::run(Ok(()), true, false),
        Err(Error::Unavailable(Failure::Runtime))
    );
    assert_eq!(maintenance::run(Err(Error::Conflict), false, false), Err(Error::Conflict));
}

#[test]
fn databases_are_compared_by_place_and_user() {
    assert!(database("a").is_at(&database("b"), "a"));
    assert!(!database("a").is_at(&database("a"), "b"));
    let mut elsewhere = database("a");
    elsewhere.port = 5433;
    assert!(!elsewhere.is_at(&database("a"), "a"));
}

#[test]
fn publication_sources_are_distinct_and_few() {
    let config = |sources: Vec<String>| Config {
        database: database("mdm_management_runtime"),
        target: [1; 16],
        lineage: [2; 16],
        epoch: 1,
        publication_database: database("mdm_publication"),
        sources,
    };
    assert!(config(vec!["a".into(), "b".into()]).open_publications().is_ok());
    assert_eq!(
        config(vec!["a".into(), "b".into(), "a".into()]).open_publications(),
        Err(Error::Configuration(ConfigIssue::Management))
    );
}

#[test]
fn management_settings_belong_to_the_server() {
    let sound = || Config {
        database: database("mdm_management_runtime"),
        target: [1; 16],
        lineage: [2; 16],
        epoch: 1,
        publication_database: database("mdm_software_driver"),
        sources: vec!["a".into(); 16],
    };
    let server = database("mdm_api");
    let refused = Err(Error::Configuration(ConfigIssue::Management));
    assert_eq!(sound().validate(&server), Ok(()));
    let mut other = sound();
    other.database.user = "mdm_api".into();
    assert_eq!(other.validate(&server), refused);
    let mut other = sound();
    other.publication_database.user = "mdm_management_runtime".into();
    assert_eq!(other.validate(&server), refused);
    let mut other = sound();
    other.publication_database.host = "elsewhere".into();
    assert_eq!(other.validate(&server), refused);
    let mut other = sound();
    other.sources.push("b".into());
    assert_eq!(other.validate(&server), refused);
}
