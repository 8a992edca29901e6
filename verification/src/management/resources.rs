//! Versioned resources: what they declare, and what may be done to them.
use crate::error::Error;
use crate::inventory::copied_text;
use crate::management::model::Missing;
use vstd::prelude::*;

verus! {

/// The kind of a resource.
#[derive(Clone, Copy, Debug, PartialEq, Eq, Structural)]
pub enum Kind {
    Software,
    Script,
    Configuration,
}

/// The platform that a variant is for.
#[derive(Clone, Copy, Debug, PartialEq, Eq, Structural)]
pub enum Platform {
    Windows,
    Macos,
}

/// The processor architecture that a variant is for.
#[derive(Clone, Copy, Debug, PartialEq, Eq, Structural)]
pub enum Architecture {
    X86_64,
    Aarch64,
}

/// The content of a variant.
#[derive(Debug)]
pub struct Artifact {
    pub reference: String,
    pub length: u64,
    pub sha256: [u8; 32],
}

/// What a variant declares, as it is written.
#[derive(Debug)]
pub enum Declaration {
    Software {
        source: String,
        package: String,
        version: String,
        artifact: Artifact,
        install: String,
        detect: String,
        uninstall: Option<String>,
    },
    Script { artifact: Artifact, interpreter: String, detect: String },
    Configuration {
        artifact: Artifact,
        schema: String,
        apply: String,
        detect: String,
        remove: Option<String>,
    },
}

/// A variant of a resource version, as it is written.
#[derive(Debug)]
pub struct Variant {
    pub platform: Platform,
    pub architecture: Architecture,
    pub key: String,
    pub declaration: Declaration,
}

/// A package of a software source.
#[derive(Debug)]
pub struct Package {
    pub source: String,
    pub package: String,
    pub version: String,
}

/// What a variant declares, as it is stored.
#[allow(inconsistent_fields)]
#[derive(Debug)]
pub enum StoredDeclaration {
    Software {
        package: Package,
        artifact: Artifact,
        install: String,
        detect: String,
        uninstall: Option<String>,
    },
    Script { artifact: Artifact, interpreter: String, detect: String },
    Configuration {
        artifact: Artifact,
        schema: String,
        apply: String,
        detect: String,
        remove: Option<String>,
    },
}

/// A variant of a resource version, as it is stored.
#[derive(Debug)]
pub struct StoredVariant {
    pub platform: Platform,
    pub architecture: Architecture,
    pub key: String,
    pub declaration: StoredDeclaration,
}

impl Artifact {
    /// Another artifact equal to this one.
    pub fn copy(&self) -> (copy: Artifact)
        ensures
            copy == *self,
    {
        Artifact { reference: self.reference.clone(), length: self.length, sha256: self.sha256 }
    }
}

/// The stored form of a declaration.
pub open spec fn stored_declaration(declaration: Declaration) -> StoredDeclaration {
    match declaration {
        Declaration::Software {
            source,
            package,
            version,
            artifact,
            install,
            detect,
            uninstall,
        } => StoredDeclaration::Software {
            package: Package { source, package, version },
            artifact,
            install,
            detect,
            uninstall,
        },
        Declaration::Script { artifact, interpreter, detect } => StoredDeclaration::Script {
            artifact,
            interpreter,
            detect,
        },
        Declaration::Configuration { artifact, schema, apply, detect, remove } =>
            StoredDeclaration::Configuration { artifact, schema, apply, detect, remove },
    }
}

/// The written form of a stored declaration.
pub open spec fn written_declaration(declaration: StoredDeclaration) -> Declaration {
    match declaration {
        StoredDeclaration::Software { package, artifact, install, detect, uninstall } =>
            Declaration::Software {
                source: package.source,
                package: package.package,
                version: package.version,
                artifact,
                install,
                detect,
                uninstall,
            },
        StoredDeclaration::Script { artifact, interpreter, detect } => Declaration::Script {
            artifact,
            interpreter,
            detect,
        },
        StoredDeclaration::Configuration { artifact, schema, apply, detect, remove } =>
            Declaration::Configuration { artifact, schema, apply, detect, remove },
    }
}

/// The stored form of a variant.
pub open spec fn stored_variant(variant: Variant) -> StoredVariant {
    StoredVariant {
        platform: variant.platform,
        architecture: variant.architecture,
        key: variant.key,
        declaration: stored_declaration(variant.declaration),
    }
}

/// The written form of a stored variant.
pub open spec fn written_variant(variant: StoredVariant) -> Variant {
    Variant {
        platform: variant.platform,
        architecture: variant.architecture,
        key: variant.key,
        declaration: written_declaration(variant.declaration),
    }
}

/// The stored form of a variant.
pub fn variant(written: &Variant) -> (stored: StoredVariant)
    ensures
        stored == stored_variant(*written),
{
    let declaration = match &written.declaration {
        Declaration::Software {
            source,
            package,
            version,
            artifact,
            install,
            detect,
            uninstall,
        } => StoredDeclaration::Software {
            package: Package {
                source: source.clone(),
                package: package.clone(),
                version: version.clone(),
            },
            artifact: artifact.copy(),
            install: install.clone(),
            detect: detect.clone(),
            uninstall: copied_text(uninstall),
        },
        Declaration::Script { artifact, interpreter, detect } => StoredDeclaration::Script {
            artifact: artifact.copy(),
            interpreter: interpreter.clone(),
            detect: detect.clone(),
        },
        Declaration::Configuration { artifact, schema, apply, detect, remove } =>
            StoredDeclaration::Configuration {
                artifact: artifact.copy(),
                schema: schema.clone(),
                apply: apply.clone(),
                detect: detect.clone(),
                remove: copied_text(remove),
            },
    };
    StoredVariant {
        platform: written.platform,
        architecture: written.architecture,
        key: written.key.clone(),
        declaration,
    }
}

/// The written form of a stored variant.
pub fn variant_view(variant: &StoredVariant) -> (written: Variant)
    ensures
        written == written_variant(*variant),
{
    let declaration = match &variant.declaration {
        StoredDeclaration::Software { package, artifact, install, detect, uninstall } =>
            Declaration::Software {
                source: package.source.clone(),
                package: package.package.clone(),
                version: package.version.clone(),
                artifact: artifact.copy(),
                install: install.clone(),
                detect: detect.clone(),
                uninstall: copied_text(uninstall),
            },
        StoredDeclaration::Script { artifact, interpreter, detect } => Declaration::Script {
            artifact: artifact.copy(),
            interpreter: interpreter.clone(),
            detect: detect.clone(),
        },
        StoredDeclaration::Configuration { artifact, schema, apply, detect, remove } =>
            Declaration::Configuration {
                artifact: artifact.copy(),
                schema: schema.clone(),
                apply: apply.clone(),
                detect: detect.clone(),
                remove: copied_text(remove),
            },
    };
    Variant {
        platform: variant.platform,
        architecture: variant.architecture,
        key: variant.key.clone(),
        declaration,
    }
}

/// A variant reads back as it was written, and a stored one is written as it was
/// stored.
pub proof fn variant_reads_back(written: Variant, stored: StoredVariant)
    ensures
        written_variant(stored_variant(written)) == written,
        stored_variant(written_variant(stored)) == stored,
{
}

/// A change of a resource.
#[derive(Debug)]
pub enum Change {
    Create { kind: Kind },
    Version { version: String, kind: Kind, variants: Vec<Variant> },
    Activate { version: String },
    Deprecate { version: String },
    Archive { version: String },
}

/// What the resource store is told to do.
#[derive(Debug)]
pub enum Command {
    Create(Kind),
    Insert { version: String, kind: Kind, variants: Vec<StoredVariant> },
    Activate(String),
    Deprecate(String),
    Archive { version: String, references: u64 },
}

/// Whether `command` carries out `change`. Archiving tells how often the version
/// is referred to, by policies and by releases together.
pub open spec fn carries_out(
    command: Command,
    change: Change,
    policies: u64,
    releases: u64,
) -> bool {
    match change {
        Change::Create { kind } => command == Command::Create(kind),
        Change::Version { version, kind, variants } => command matches Command::Insert {
            version: inserted,
            kind: of,
            variants: stored,
        } && inserted == version && of == kind && stored@.len() == variants@.len() && (forall|
            i: int,
        |
            0 <= i < variants@.len() ==> #[trigger] stored@[i] == stored_variant(variants@[i])),
        Change::Activate { version } => command == Command::Activate(version),
        Change::Deprecate { version } => command == Command::Deprecate(version),
        Change::Archive { version } => command == (Command::Archive {
            version,
            references: (policies + releases) as u64,
        }),
    }
}

/// What the resource store is told to do for a change.
pub fn command(change: &Change, policies: u64, releases: u64) -> (command: Command)
    requires
        policies + releases <= u64::MAX,
    ensures
        carries_out(command, *change, policies, releases),
{
    match change {
        Change::Create { kind } => Command::Create(*kind),
        Change::Version { version, kind, variants } => {
            let mut stored: Vec<StoredVariant> = Vec::new();
            let mut i: usize = 0;
            while i < variants.len()
                invariant
                    i <= variants@.len(),
                    stored@.len() == i,
                    forall|j: int|
                        0 <= j < i ==> #[trigger] stored@[j] == stored_variant(variants@[j]),
                decreases variants@.len() - i,
            {
                stored.push(variant(&variants[i]));
                i += 1;
            }
            Command::Insert { version: version.clone(), kind: *kind, variants: stored }
        },
        Change::Activate { version } => Command::Activate(version.clone()),
        Change::Deprecate { version } => Command::Deprecate(version.clone()),
        Change::Archive { version } => Command::Archive {
            version: version.clone(),
            references: policies + releases,
        },
    }
}

/// A resource that was looked for.
pub fn found<T>(resource: Option<T>) -> (found: Result<T, Error>)
    ensures
        found == (match resource {
            Some(resource) => Ok::<T, Error>(resource),
            None => Err(Error::ManagementNotFound(Missing::Resource)),
        }),
{
    match resource {
        Some(resource) => Ok(resource),
        None => Err(Error::ManagementNotFound(Missing::Resource)),
    }
}

/// Every part of a variant is stored as that part and shown as that part: its platform, its
/// architecture and its key, and of what it declares the artifact and how it is
/// installed or applied, detected and removed.
pub proof fn variants_keep_each_of_their_parts(written: Variant, stored: StoredVariant)
    requires
        stored == stored_variant(written) || written == written_variant(stored),
    ensures
        stored.platform == written.platform,
        stored.architecture == written.architecture,
        stored.key == written.key,
        stored.declaration is Software <==> written.declaration is Software,
        stored.declaration is Script <==> written.declaration is Script,
        stored.declaration is Configuration <==> written.declaration is Configuration,
        written.declaration matches Declaration::Software {
            source,
            package,
            version,
            artifact,
            install,
            detect,
            uninstall,
        } ==> (stored.declaration matches StoredDeclaration::Software {
            package: named,
            artifact: a,
            install: i,
            detect: d,
            uninstall: u,
        } && named.source == source && named.package == package && named.version == version && a
            == artifact && i == install && d == detect && u == uninstall),
        written.declaration matches Declaration::Script { artifact, interpreter, detect } ==> (
        stored.declaration matches StoredDeclaration::Script {
            artifact: a,
            interpreter: i,
            detect: d,
        } && a == artifact && i == interpreter && d == detect),
        written.declaration matches Declaration::Configuration {
            artifact,
            schema,
            apply,
            detect,
            remove,
        } ==> (stored.declaration matches StoredDeclaration::Configuration {
            artifact: a,
            schema: s,
            apply: p,
            detect: d,
            remove: r,
        } && a == artifact && s == schema && p == apply && d == detect && r == remove),
{
}

/// The store is told to do what the change says, of the version that it names: a version
/// is activated, deprecated or archived only where the change says so, and an archived
/// one tells how many policies and releases still refer to it.
pub proof fn commands_do_what_their_change_says(
    command: Command,
    change: Change,
    policies: u64,
    releases: u64,
)
    requires
        carries_out(command, change, policies, releases),
        policies + releases <= u64::MAX,
    ensures
        command matches Command::Create(kind) ==> (change matches Change::Create { kind: k } && k
            == kind),
        command matches Command::Activate(version) ==> (change matches Change::Activate {
            version: v,
        } && v == version),
        command matches Command::Deprecate(version) ==> (change matches Change::Deprecate {
            version: v,
        } && v == version),
        command matches Command::Archive { version, references } ==> (
        change matches Change::Archive { version: v } && v == version && references == policies
            + releases),
        command matches Command::Insert { version, kind, variants } ==> (
        change matches Change::Version { version: v, kind: k, variants: w } && v == version && k
            == kind && w@.len() == variants@.len() && (forall|i: int|
            0 <= i < w@.len() ==> (#[trigger] variants@[i]).key == w@[i].key)),
{
}

} // verus!
