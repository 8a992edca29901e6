//! Settings that the server is given.
use crate::text::same;
use vstd::prelude::*;

verus! {

/// Where a database is, and as whom it is entered.
#[derive(Debug)]
pub struct Database {
    pub host: String,
    pub port: u16,
    pub name: String,
    pub user: String,
    pub password_file: String,
    pub ca_file: String,
}

/// The installation that a database belongs to.
#[derive(Debug)]
pub struct Installation {
    pub instance_id: String,
    pub target: [u8; 16],
    pub lineage: [u8; 16],
    pub epoch: i64,
    pub tenants: Vec<String>,
}

/// Whether two settings lead to one database.
pub open spec fn same_place(a: Database, b: Database) -> bool {
    a.host@ == b.host@ && a.port == b.port && a.name@ == b.name@
}

impl Database {
    /// Whether this is `place`, entered as `user`.
    pub fn is_at(&self, place: &Database, user: &str) -> (answer: bool)
        ensures
            answer == (self.user@ == user@ && same_place(*self, *place)),
    {
        same(self.user.as_str(), user) && same(self.host.as_str(), place.host.as_str())
            && self.port == place.port && same(self.name.as_str(), place.name.as_str())
    }
}

/// Two settings lead to one database exactly where they name one host, one port and one
/// database, whoever enters it.
pub proof fn places_are_told_apart(one: Database, two: Database)
    ensures
        same_place(one, two) <==> one.host@ == two.host@ && one.port == two.port && one.name@
            == two.name@,
{
}

} // verus!
