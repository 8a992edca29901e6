//! Field values of a device inventory.
use crate::id::Id;
use vstd::prelude::*;

verus! {

/// The value of a field.
#[derive(Debug, PartialEq, Eq, PartialOrd, Ord)]
pub enum Scalar {
    String(String),
    Integer(i64),
    Boolean(bool),
    Time(i64),
}

/// The type of a field's values.
#[derive(Clone, Copy, Debug, PartialEq, Eq, Structural)]
pub enum Kind {
    String,
    Integer,
    Boolean,
    Time,
}

/// What is known of a field of a device.
#[derive(Debug, PartialEq, Eq)]
pub enum State {
    Known(Scalar),
    Null,
    Missing,
    Unsupported,
    Deleted,
    Conflict,
}

/// A value with its text as a sequence of characters.
pub enum ScalarView {
    String(Seq<char>),
    Integer(int),
    Boolean(bool),
    Time(int),
}

impl View for Scalar {
    type V = ScalarView;

    open spec fn view(&self) -> ScalarView {
        match *self {
            Scalar::String(text) => ScalarView::String(text@),
            Scalar::Integer(value) => ScalarView::Integer(value as int),
            Scalar::Boolean(value) => ScalarView::Boolean(value),
            Scalar::Time(value) => ScalarView::Time(value as int),
        }
    }
}

impl Scalar {
    /// The type of this value.
    pub open spec fn spec_kind(self) -> Kind {
        match self {
            Scalar::String(_) => Kind::String,
            Scalar::Integer(_) => Kind::Integer,
            Scalar::Boolean(_) => Kind::Boolean,
            Scalar::Time(_) => Kind::Time,
        }
    }

    /// The type of this value.
    pub fn kind(&self) -> (kind: Kind)
        ensures
            kind == self.spec_kind(),
    {
        match self {
            Scalar::String(_) => Kind::String,
            Scalar::Integer(_) => Kind::Integer,
            Scalar::Boolean(_) => Kind::Boolean,
            Scalar::Time(_) => Kind::Time,
        }
    }

    /// Another value equal to this one.
    pub fn copy(&self) -> (copy: Scalar)
        ensures
            copy == *self,
    {
        match self {
            Scalar::String(text) => Scalar::String(text.clone()),
            Scalar::Integer(value) => Scalar::Integer(*value),
            Scalar::Boolean(value) => Scalar::Boolean(*value),
            Scalar::Time(value) => Scalar::Time(*value),
        }
    }
}

impl State {
    /// Another state equal to this one.
    pub fn copy(&self) -> (copy: State)
        ensures
            copy == *self,
    {
        match self {
            State::Known(value) => State::Known(value.copy()),
            State::Null => State::Null,
            State::Missing => State::Missing,
            State::Unsupported => State::Unsupported,
            State::Deleted => State::Deleted,
            State::Conflict => State::Conflict,
        }
    }
}

/// Where a value of a field comes from.
#[derive(Debug)]
pub struct Evidence {
    pub source: String,
    pub registration: Option<Id>,
    pub registration_generation: Option<u64>,
    pub epoch: Option<Id>,
    pub snapshot_id: String,
    pub observed_at: i64,
    pub received_at: i64,
    pub actor: Option<String>,
}

/// A value of a field that was known at some time.
#[derive(Debug)]
pub struct KnownValue {
    pub value: Scalar,
    pub evidence: Evidence,
}

/// What one source says of a field of a device.
#[derive(Debug)]
pub struct SourceFact {
    pub state: State,
    pub last_known: Option<KnownValue>,
    pub evidence: Evidence,
}

/// What all sources together say of a field of a device.
#[derive(Debug)]
pub struct ResolvedField {
    pub state: State,
    pub sources: Vec<SourceFact>,
}

/// Another optional text equal to `text`.
pub fn copied_text(text: &Option<String>) -> (copy: Option<String>)
    ensures
        copy == *text,
{
    match text {
        Some(text) => Some(text.clone()),
        None => None,
    }
}

impl Evidence {
    /// Other evidence equal to this.
    pub fn copy(&self) -> (copy: Evidence)
        ensures
            copy == *self,
    {
        Evidence {
            source: self.source.clone(),
            registration: self.registration,
            registration_generation: self.registration_generation,
            epoch: self.epoch,
            snapshot_id: self.snapshot_id.clone(),
            observed_at: self.observed_at,
            received_at: self.received_at,
            actor: copied_text(&self.actor),
        }
    }

    /// This evidence, of a registration's generation.
    pub open spec fn spec_of_generation(self, generation: u64) -> Evidence {
        Evidence { registration_generation: Some(generation), ..self }
    }

    /// Evidence equal to this, of a registration's generation.
    pub fn of_generation(&self, generation: u64) -> (stamped: Evidence)
        ensures
            stamped == self.spec_of_generation(generation),
    {
        let mut stamped = self.copy();
        stamped.registration_generation = Some(generation);
        stamped
    }
}

impl KnownValue {
    /// Another value equal to this one.
    pub fn copy(&self) -> (copy: KnownValue)
        ensures
            copy == *self,
    {
        KnownValue { value: self.value.copy(), evidence: self.evidence.copy() }
    }
}

impl SourceFact {
    /// Another fact equal to this one.
    pub fn copy(&self) -> (copy: SourceFact)
        ensures
            copy == *self,
    {
        SourceFact {
            state: self.state.copy(),
            last_known: match &self.last_known {
                Some(known) => Some(known.copy()),
                None => None,
            },
            evidence: self.evidence.copy(),
        }
    }

    /// This fact, with its evidence and that of the last known value of a
    /// registration's generation.
    pub open spec fn spec_of_generation(self, generation: u64) -> SourceFact {
        SourceFact {
            state: self.state,
            last_known: match self.last_known {
                Some(known) => Some(
                    KnownValue {
                        value: known.value,
                        evidence: known.evidence.spec_of_generation(generation),
                    },
                ),
                None => None,
            },
            evidence: self.evidence.spec_of_generation(generation),
        }
    }

    /// A fact equal to this one, with its evidence and that of the last known
    /// value of a registration's generation.
    pub fn of_generation(&self, generation: u64) -> (stamped: SourceFact)
        ensures
            stamped == self.spec_of_generation(generation),
    {
        SourceFact {
            state: self.state.copy(),
            last_known: match &self.last_known {
                Some(known) => Some(
                    KnownValue {
                        value: known.value.copy(),
                        evidence: known.evidence.of_generation(generation),
                    },
                ),
                None => None,
            },
            evidence: self.evidence.of_generation(generation),
        }
    }
}

} // verus!
