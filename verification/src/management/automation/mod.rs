//! Durable jobs: what they read, how they advance, when they end.
use crate::crypto::{sha256, sha256_of};
use crate::encoding::{hex, hex_of};
use crate::text::join;
use vstd::prelude::*;
use vstd::utf8::encode_utf8;

pub mod capture;
pub mod completion;
pub mod dispatch;
pub mod groups;
pub mod jobs;
pub mod membership;
pub mod model;
pub mod plans;
pub mod runtime;
pub mod scopes;

pub use model::{JobInput, ScopeInput, SourceSet, TaskKind};

verus! {

/// The name that policies refer to a device by: it says nothing of the device but
/// a digest of its identifier.
pub open spec fn device_reference_of(id: Seq<char>) -> Seq<char> {
    "device."@ + hex_of(sha256_of(encode_utf8(id)))
}

/// The name that policies refer to a device by.
pub fn device_reference(id: &str) -> (name: String)
    ensures
        name@ == device_reference_of(id@),
{
    let digest = sha256(id.as_bytes());
    let text = hex(digest.as_slice());
    join("device.", text.as_str())
}

} // verus!
