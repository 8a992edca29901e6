//! What the program is asked to do on its command line.
use crate::lifecycle::ProcessError;
use crate::text::same;
use vstd::prelude::*;

verus! {

/// What the program is asked to do.
#[derive(Debug)]
pub enum Request {
    Help,
    Describe,
    Version,
    Serve { config: String },
    Migrate { config: String },
}

/// Whether `arguments` are exactly the one word `word`.
pub open spec fn is_only(arguments: Seq<String>, word: Seq<char>) -> bool {
    arguments.len() == 1 && arguments[0]@ == word
}

/// Whether `arguments` are `command` with a configuration file.
pub open spec fn is_configured(arguments: Seq<String>, command: Seq<char>) -> bool {
    arguments.len() == 3 && arguments[0]@ == command && arguments[1]@ == "--config"@
}

/// What arguments ask for, where they ask for anything.
pub open spec fn requested(arguments: Seq<String>) -> Option<Request> {
    if is_only(arguments, "--help"@) {
        Some(Request::Help)
    } else if is_only(arguments, "--describe"@) {
        Some(Request::Describe)
    } else if is_only(arguments, "--version"@) {
        Some(Request::Version)
    } else if is_configured(arguments, "serve"@) {
        Some(Request::Serve { config: arguments[2] })
    } else if is_configured(arguments, "migrate"@) {
        Some(Request::Migrate { config: arguments[2] })
    } else {
        None
    }
}

/// What the program is asked to do, from its arguments without its own name.
pub fn execute(arguments: &Vec<String>) -> (request: Result<Request, ProcessError>)
    ensures
        match request {
            Ok(request) => requested(arguments@) == Some(request),
            Err(error) => requested(arguments@) is None && (error matches ProcessError::Stage {
                stage,
                kind,
            } && stage@ == "arguments"@ && kind@ == "use rss-mdm --help"@),
        },
{
    if arguments.len() == 1 {
        if same(arguments[0].as_str(), "--help") {
            return Ok(Request::Help);
        }
        if same(arguments[0].as_str(), "--describe") {
            return Ok(Request::Describe);
        }
        if same(arguments[0].as_str(), "--version") {
            return Ok(Request::Version);
        }
    }
    if arguments.len() == 3 && same(arguments[1].as_str(), "--config") {
        if same(arguments[0].as_str(), "serve") {
            return Ok(Request::Serve { config: arguments[2].clone() });
        }
        if same(arguments[0].as_str(), "migrate") {
            return Ok(Request::Migrate { config: arguments[2].clone() });
        }
    }
    Err(ProcessError::Stage { stage: "arguments", kind: "use rss-mdm --help" })
}

/// Each request is asked for in its own words and in no others, and a server is served or
/// migrated from the very file that is named.
pub proof fn requests_are_asked_for_in_their_own_words(arguments: Seq<String>)
    ensures
        requested(arguments) == Some(Request::Help) <==> arguments.len() == 1 && arguments[0]@
            == "--help"@,
        requested(arguments) == Some(Request::Describe) <==> arguments.len() == 1 && arguments[0]@
            == "--describe"@,
        requested(arguments) == Some(Request::Version) <==> arguments.len() == 1 && arguments[0]@
            == "--version"@,
        requested(arguments) matches Some(Request::Serve { config }) ==> arguments.len() == 3
            && arguments[0]@ == "serve"@ && arguments[1]@ == "--config"@ && config == arguments[2],
        requested(arguments) matches Some(Request::Migrate { config }) ==> arguments.len() == 3
            && arguments[0]@ == "migrate"@ && arguments[1]@ == "--config"@ && config
            == arguments[2],
        arguments.len() == 3 && arguments[1]@ == "--config"@ && arguments[0]@ == "serve"@
            ==> requested(arguments) == Some(Request::Serve { config: arguments[2] }),
        arguments.len() == 3 && arguments[1]@ == "--config"@ && arguments[0]@ == "migrate"@
            ==> requested(arguments) == Some(Request::Migrate { config: arguments[2] }),
{
    reveal_strlit("--help");
    reveal_strlit("--describe");
    reveal_strlit("--version");
    reveal_strlit("serve");
    reveal_strlit("migrate");
    assert("--help"@[2] == 'h' && "--describe"@[2] == 'd' && "--version"@[2] == 'v');
    assert("serve"@[0] == 's' && "migrate"@[0] == 'm');
}

} // verus!
