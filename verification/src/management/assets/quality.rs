//! How well the fields of a device were collected.
use crate::management::assets::model::QualityField;
use vstd::prelude::*;

verus! {

/// An attempt to collect a field.
#[derive(Debug)]
pub struct Attempt {
    pub quality: String,
    pub status: Option<u16>,
    pub received_at: Option<i64>,
}

/// Whether `field` tells how an attempt to collect the field with this key went.
pub open spec fn tells(field: QualityField, key: String, attempt: Attempt) -> bool {
    &&& field.field == key
    &&& field.quality == attempt.quality
    &&& field.status == attempt.status
    &&& field.received_at == attempt.received_at
}

/// How well each field was collected. The attempts stand in the order of the
/// fields that are observed; what is left over of either is left out.
pub fn decode(observed: &Vec<String>, attempts: Vec<Attempt>) -> (fields: Vec<QualityField>)
    ensures
        fields@.len() == if observed@.len() <= attempts@.len() {
            observed@.len()
        } else {
            attempts@.len()
        },
        forall|i: int|
            0 <= i < fields@.len() ==> tells(#[trigger] fields@[i], observed@[i], attempts@[i]),
{
    let ghost all = attempts@;
    let mut fields: Vec<QualityField> = Vec::new();
    for attempt in it: attempts
        invariant
            it.seq() == all,
            fields@.len() == if observed@.len() <= it.index() {
                observed@.len() as int
            } else {
                it.index()
            },
            forall|i: int|
                0 <= i < fields@.len() ==> tells(#[trigger] fields@[i], observed@[i], all[i]),
    {
        assert(attempt == all[it.index()]);
        if fields.len() < observed.len() {
            let field = observed[fields.len()].clone();
            fields.push(
                QualityField {
                    field,
                    quality: attempt.quality,
                    status: attempt.status,
                    received_at: attempt.received_at,
                },
            );
        }
    }
    fields
}

/// How well a field was collected is told under the field's own name, as the attempt went.
pub proof fn fields_are_told_of_as_their_attempt_went(
    field: QualityField,
    key: String,
    attempt: Attempt,
)
    requires
        tells(field, key, attempt),
    ensures
        field.field == key && field.quality == attempt.quality && field.status == attempt.status
            && field.received_at == attempt.received_at,
{
}

} // verus!
