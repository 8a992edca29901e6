//! Settings of the management domain.
use crate::config::{same_place, Database};
use crate::error::{ConfigIssue, Error};
use crate::text::same;
use vstd::prelude::*;

verus! {

/// The most software sources that are driven.
pub const SOURCES: usize = 16;

/// Settings of the management domain: its own database entry, the one of the
/// release driver, and the names of the software sources.
#[derive(Debug)]
pub struct Config {
    pub database: Database,
    pub target: [u8; 16],
    pub lineage: [u8; 16],
    pub epoch: i64,
    pub publication_database: Database,
    pub sources: Vec<String>,
}

/// Whether settings are those of the server whose database is `database`.
pub open spec fn is_valid(config: Config, database: Database) -> bool {
    &&& config.database.user@ == "mdm_management_runtime"@
    &&& same_place(config.database, database)
    &&& config.publication_database.user@ == "mdm_software_driver"@
    &&& same_place(config.publication_database, database)
    &&& config.sources@.len() <= SOURCES
}

/// Whether no source is named twice.
pub open spec fn all_distinct(sources: Seq<String>) -> bool {
    forall|i: int, j: int|
        0 <= i < j < sources.len() ==> (#[trigger] sources[i])@ != (#[trigger] sources[j])@
}

impl Config {
    /// Accepts settings of the server whose database is `database`.
    pub fn validate(&self, database: &Database) -> (admitted: Result<(), Error>)
        ensures
            admitted is Ok <==> is_valid(*self, *database),
            admitted is Err ==> admitted == Err::<(), Error>(
                Error::Configuration(ConfigIssue::Management),
            ),
    {
        if !self.database.is_at(database, "mdm_management_runtime") {
            return Err(Error::Configuration(ConfigIssue::Management));
        }
        if !self.publication_database.is_at(database, "mdm_software_driver") || self.sources.len()
            > SOURCES {
            return Err(Error::Configuration(ConfigIssue::Management));
        }
        Ok(())
    }

    /// Accepts the sources, each of which is opened under its name once.
    pub fn open_publications(&self) -> (admitted: Result<(), Error>)
        ensures
            admitted is Ok <==> all_distinct(self.sources@),
            admitted is Err ==> admitted == Err::<(), Error>(
                Error::Configuration(ConfigIssue::Management),
            ),
    {
        let mut i: usize = 0;
        while i < self.sources.len()
            invariant
                i <= self.sources@.len(),
                forall|a: int, b: int|
                    0 <= a < b < i ==> (#[trigger] self.sources@[a])@ != (
                    #[trigger] self.sources@[b])@,
            decreases self.sources@.len() - i,
        {
            let mut j: usize = 0;
            while j < i
                invariant
                    j <= i,
                    i < self.sources@.len(),
                    forall|a: int|
                        0 <= a < j ==> (#[trigger] self.sources@[a])@ != self.sources@[i as int]@,
                decreases i - j,
            {
                if same(self.sources[j].as_str(), self.sources[i].as_str()) {
                    return Err(Error::Configuration(ConfigIssue::Management));
                }
                j += 1;
            }
            i += 1;
        }
        Ok(())
    }
}

/// The management domain and the release driver enter the server's own database, each under
/// its own account, and no more sources are driven than may be.
pub proof fn settings_lead_to_the_server_s_database(config: Config, database: Database)
    ensures
        is_valid(config, database) <==> {
            &&& config.database.user@ == "mdm_management_runtime"@
            &&& config.publication_database.user@ == "mdm_software_driver"@
            &&& config.database.host@ == database.host@ && config.database.port == database.port
            &&& config.database.name@ == database.name@
            &&& config.publication_database.host@ == database.host@
            &&& config.publication_database.port == database.port
            &&& config.publication_database.name@ == database.name@
            &&& config.sources@.len() <= SOURCES
        },
{
}

} // verus!
