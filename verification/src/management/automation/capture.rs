//! What a captured scope is known by: a document of everything that decides its
//! result, and the digest of that document.
use crate::crypto::{digests_differ, sha256, sha256_of};
use crate::error::{Error, Failure};
use crate::id::{text_denotes_its_identifier, text_of};
use crate::json::{
    array_of, arrays_differ, ends_differ, followed, is_code, json_text, numbers_differ, quoted,
    rests_differ, strings_differ, tail_of,
};
use crate::management::automation::model::{ScopeInput, SourceSet};
use crate::management::model::{Reference, ReferenceView, ScopeDefinition};
use crate::management::request::same_bytes;
use crate::number::{decimal, decimal_of};
use crate::set::OrderedSet;
use vstd::prelude::*;
use vstd::utf8::{encode_utf8, encode_utf8_decode_utf8};

verus! {

/// What a scope names, as JSON.
pub open spec fn reference_text(reference: ReferenceView) -> Seq<char> {
    match reference {
        ReferenceView::Device(device) => "{\"kind\":\"device\",\"id\":"@ + (quoted(device) + seq!['}']),
        ReferenceView::Group(group) => "{\"kind\":\"group\",\"id\":"@ + (quoted(text_of(group))
            + seq!['}']),
    }
}

/// How the things that a scope names are written.
pub open spec fn reference_code() -> spec_fn(ReferenceView) -> Seq<char> {
    |reference: ReferenceView| reference_text(reference)
}

/// What counts of a source: what it is, and the versions of its members, of its
/// definition and of the identities behind it. Which set its members are kept in
/// does not count.
pub open spec fn versions_of(source: SourceSet) -> (ReferenceView, u64, u64, u64) {
    (
        source.reference@,
        source.member_version,
        source.definition_version,
        source.authority_version,
    )
}

/// What counts of a source, as JSON.
pub open spec fn source_text(source: (ReferenceView, u64, u64, u64)) -> Seq<char> {
    seq!['['] + followed(
        reference_text(source.0),
        followed(
            decimal_of(source.1 as nat),
            followed(decimal_of(source.2 as nat), decimal_of(source.3 as nat) + seq![']']),
        ),
    )
}

/// How sources are written.
pub open spec fn source_code() -> spec_fn((ReferenceView, u64, u64, u64)) -> Seq<char> {
    |source: (ReferenceView, u64, u64, u64)| source_text(source)
}

/// What a scope is limited to, where it is limited.
pub open spec fn limits_of(definition: ScopeDefinition) -> Option<Seq<ReferenceView>> {
    match definition.limitations {
        Some(limitations) => Some(limitations@),
        None => None,
    }
}

/// What a scope is limited to, as JSON.
pub open spec fn limits_text(limits: Option<Seq<ReferenceView>>) -> Seq<char> {
    match limits {
        Some(limits) => array_of(limits, reference_code()),
        None => seq!['n', 'u', 'l', 'l'],
    }
}

/// The definition of a scope, as JSON.
pub open spec fn definition_text(
    targets: Seq<ReferenceView>,
    limits: Option<Seq<ReferenceView>>,
    exclusions: Seq<ReferenceView>,
) -> Seq<char> {
    "{\"targets\":"@ + (array_of(targets, reference_code()) + (",\"limitations\":"@ + (limits_text(
        limits,
    ) + (",\"exclusions\":"@ + (array_of(exclusions, reference_code()) + seq!['}'])))))
}

/// Everything that decides the result of a captured scope: the revision of its
/// definition, the definition, and what counts of its sources, in order.
pub struct Captured {
    pub revision: u64,
    pub targets: Seq<ReferenceView>,
    pub limits: Option<Seq<ReferenceView>>,
    pub exclusions: Seq<ReferenceView>,
    pub sources: Seq<(ReferenceView, u64, u64, u64)>,
}

/// Everything that decides the result of a captured scope. The time that it was
/// captured at does not.
pub open spec fn captured(revision: u64, input: ScopeInput) -> Captured {
    Captured {
        revision,
        targets: input.definition.targets@,
        limits: limits_of(input.definition),
        exclusions: input.definition.exclusions@,
        sources: Seq::new(input.sources@.len(), |i: int| versions_of(input.sources@[i])),
    }
}

/// The document that a captured scope is known by.
pub open spec fn document_of(scope: Captured) -> Seq<char> {
    seq!['['] + followed(
        decimal_of(scope.revision as nat),
        followed(
            definition_text(scope.targets, scope.limits, scope.exclusions),
            array_of(scope.sources, source_code()) + seq![']'],
        ),
    )
}

/// The digest of a captured scope.
pub open spec fn capture_digest(revision: u64, input: ScopeInput) -> Seq<u8> {
    sha256_of(encode_utf8(document_of(captured(revision, input))))
}

/// What a scope names, as JSON.
fn write_reference(reference: &Reference) -> (written: String)
    ensures
        written@ == reference_text(reference@),
{
    proof {
        reveal_strlit("}");
    }
    assert("}"@ =~= seq!['}']);
    match reference {
        Reference::Device(device) => {
            let mut written = "{\"kind\":\"device\",\"id\":".to_owned();
            written.append(json_text(device.as_str()).as_str());
            written.append("}");
            assert(written@ =~= reference_text(reference@));
            written
        },
        Reference::Group(group) => {
            let mut written = "{\"kind\":\"group\",\"id\":".to_owned();
            written.append(json_text(group.text().as_str()).as_str());
            written.append("}");
            assert(written@ =~= reference_text(reference@));
            written
        },
    }
}

/// The things that a scope names, as JSON.
fn write_references(references: &OrderedSet<Reference>) -> (written: String)
    ensures
        written@ == array_of(references@, reference_code()),
{
    proof {
        reveal_strlit("[");
        reveal_strlit(",");
        reveal_strlit("]");
        reveal_strlit("[]");
    }
    if references.items.len() == 0 {
        assert("[]"@ =~= seq!['[', ']']);
        return "[]".to_owned();
    }
    let ghost all = references@;
    let ghost whole = array_of(all, reference_code());
    assert("["@ =~= seq!['[']);
    assert(","@ =~= seq![',']);
    assert("]"@ =~= seq![']']);
    let mut written = "[".to_owned();
    written.append(write_reference(&references.items[0]).as_str());
    let mut i: usize = 1;
    assert(written@ + tail_of(all.skip(1), reference_code()) =~= whole);
    while i < references.items.len()
        invariant
            1 <= i <= references.items@.len(),
            all == references@,
            all.len() == references.items@.len(),
            ","@ == seq![','],
            written@ + tail_of(all.skip(i as int), reference_code()) == whole,
        decreases references.items@.len() - i,
    {
        let ghost before = written@;
        written.append(",");
        written.append(write_reference(&references.items[i]).as_str());
        proof {
            let rest = all.skip(i as int);
            assert(rest[0] == all[i as int]);
            assert(rest.skip(1) =~= all.skip(i + 1));
            assert(written@ + tail_of(all.skip(i + 1), reference_code()) =~= before + tail_of(
                rest,
                reference_code(),
            ));
        }
        i += 1;
    }
    assert(all.skip(i as int).len() == 0);
    written.append("]");
    written
}

/// What counts of a source, as JSON.
fn write_source(source: &SourceSet) -> (written: String)
    ensures
        written@ == source_text(versions_of(*source)),
{
    proof {
        reveal_strlit("[");
        reveal_strlit(",");
        reveal_strlit("]");
    }
    assert("["@ =~= seq!['[']);
    assert(","@ =~= seq![',']);
    assert("]"@ =~= seq![']']);
    let mut written = "[".to_owned();
    written.append(write_reference(&source.reference).as_str());
    written.append(",");
    written.append(decimal(source.member_version).as_str());
    written.append(",");
    written.append(decimal(source.definition_version).as_str());
    written.append(",");
    written.append(decimal(source.authority_version).as_str());
    written.append("]");
    assert(written@ =~= source_text(versions_of(*source)));
    written
}

/// What counts of some sources, as JSON.
fn write_sources(sources: &Vec<SourceSet>) -> (written: String)
    ensures
        written@ == array_of(
            Seq::new(sources@.len(), |i: int| versions_of(sources@[i])),
            source_code(),
        ),
{
    proof {
        reveal_strlit("[");
        reveal_strlit(",");
        reveal_strlit("]");
        reveal_strlit("[]");
    }
    if sources.len() == 0 {
        assert("[]"@ =~= seq!['[', ']']);
        return "[]".to_owned();
    }
    let ghost all = Seq::new(sources@.len(), |i: int| versions_of(sources@[i]));
    let ghost whole = array_of(all, source_code());
    assert("["@ =~= seq!['[']);
    assert(","@ =~= seq![',']);
    assert("]"@ =~= seq![']']);
    let mut written = "[".to_owned();
    written.append(write_source(&sources[0]).as_str());
    let mut i: usize = 1;
    assert(written@ + tail_of(all.skip(1), source_code()) =~= whole);
    while i < sources.len()
        invariant
            1 <= i <= sources@.len(),
            all == Seq::new(sources@.len(), |i: int| versions_of(sources@[i])),
            ","@ == seq![','],
            written@ + tail_of(all.skip(i as int), source_code()) == whole,
        decreases sources@.len() - i,
    {
        let ghost before = written@;
        written.append(",");
        written.append(write_source(&sources[i]).as_str());
        proof {
            let rest = all.skip(i as int);
            assert(rest[0] == all[i as int]);
            assert(rest.skip(1) =~= all.skip(i + 1));
            assert(written@ + tail_of(all.skip(i + 1), source_code()) =~= before + tail_of(
                rest,
                source_code(),
            ));
        }
        i += 1;
    }
    assert(all.skip(i as int).len() == 0);
    written.append("]");
    written
}

/// The definition of a scope, as JSON.
fn write_definition(definition: &ScopeDefinition) -> (written: String)
    ensures
        written@ == definition_text(
            definition.targets@,
            limits_of(*definition),
            definition.exclusions@,
        ),
{
    proof {
        reveal_strlit("}");
        reveal_strlit("null");
    }
    assert("}"@ =~= seq!['}']);
    assert("null"@ =~= seq!['n', 'u', 'l', 'l']);
    let mut written = "{\"targets\":".to_owned();
    written.append(write_references(&definition.targets).as_str());
    written.append(",\"limitations\":");
    match &definition.limitations {
        Some(limitations) => written.append(write_references(limitations).as_str()),
        None => written.append("null"),
    }
    written.append(",\"exclusions\":");
    written.append(write_references(&definition.exclusions).as_str());
    written.append("}");
    assert(written@ =~= definition_text(
        definition.targets@,
        limits_of(*definition),
        definition.exclusions@,
    ));
    written
}

/// The document that a captured scope is known by.
pub fn document(revision: u64, input: &ScopeInput) -> (written: String)
    ensures
        written@ == document_of(captured(revision, *input)),
{
    proof {
        reveal_strlit("[");
        reveal_strlit(",");
        reveal_strlit("]");
    }
    assert("["@ =~= seq!['[']);
    assert(","@ =~= seq![',']);
    assert("]"@ =~= seq![']']);
    let mut written = "[".to_owned();
    written.append(decimal(revision).as_str());
    written.append(",");
    written.append(write_definition(&input.definition).as_str());
    written.append(",");
    written.append(write_sources(&input.sources).as_str());
    written.append("]");
    assert(written@ =~= document_of(captured(revision, *input)));
    written
}

/// The digest of a captured scope.
pub fn fingerprint(revision: u64, input: &ScopeInput) -> (digest: [u8; 32])
    ensures
        digest@ == capture_digest(revision, *input),
{
    sha256(document(revision, input).as_str().as_bytes())
}

/// Accepts a captured scope that is still the one whose digest was stored.
pub fn admit_capture(revision: u64, input: &ScopeInput, stored: &Vec<u8>) -> (admitted: Result<
    (),
    Error,
>)
    ensures
        admitted is Ok <==> stored@ == capture_digest(revision, *input),
        admitted is Err ==> admitted == Err::<(), Error>(
            Error::Unavailable(Failure::ManagementStorage),
        ),
{
    let digest = fingerprint(revision, input);
    let mut bytes: Vec<u8> = Vec::new();
    let mut i: usize = 0;
    while i < 32
        invariant
            i <= 32,
            digest@.len() == 32,
            bytes@ == digest@.take(i as int),
        decreases 32 - i,
    {
        bytes.push(digest[i]);
        assert(digest@.take(i + 1) =~= digest@.take(i as int).push(digest@[i as int]));
        i += 1;
    }
    assert(bytes@ =~= digest@);
    if same_bytes(&bytes, stored) {
        Ok(())
    } else {
        Err(Error::Unavailable(Failure::ManagementStorage))
    }
}

/// Where two references begin two equal texts, they are one.
proof fn references_differ(a: ReferenceView, b: ReferenceView, s: Seq<char>, t: Seq<char>)
    requires
        reference_text(a) + s == reference_text(b) + t,
    ensures
        a == b,
        s == t,
{
    reveal_strlit("{\"kind\":\"device\",\"id\":");
    reveal_strlit("{\"kind\":\"group\",\"id\":");
    let whole = reference_text(a) + s;
    assert(whole[9] == reference_text(a)[9]);
    assert(whole[9] == reference_text(b)[9]);
    let close = seq!['}'];
    match (a, b) {
        (ReferenceView::Device(x), ReferenceView::Device(y)) => {
            let head = "{\"kind\":\"device\",\"id\":"@;
            assert(whole =~= head + (quoted(x) + (close + s)));
            assert(whole =~= head + (quoted(y) + (close + t)));
            ends_differ(head, quoted(x) + (close + s), quoted(y) + (close + t));
            strings_differ(x, y, close + s, close + t);
            rests_differ('}', s, t);
        },
        (ReferenceView::Group(x), ReferenceView::Group(y)) => {
            let head = "{\"kind\":\"group\",\"id\":"@;
            assert(whole =~= head + (quoted(text_of(x)) + (close + s)));
            assert(whole =~= head + (quoted(text_of(y)) + (close + t)));
            ends_differ(
                head,
                quoted(text_of(x)) + (close + s),
                quoted(text_of(y)) + (close + t),
            );
            strings_differ(text_of(x), text_of(y), close + s, close + t);
            rests_differ('}', s, t);
            text_denotes_its_identifier(x);
            text_denotes_its_identifier(y);
        },
        _ => {},
    }
}

/// References are told apart by how they are written.
proof fn references_are_coded()
    ensures
        is_code(reference_code()),
{
    let code = reference_code();
    reveal_strlit("{\"kind\":\"device\",\"id\":");
    reveal_strlit("{\"kind\":\"group\",\"id\":");
    assert forall|a: ReferenceView| (#[trigger] code(a)).len() > 0 && code(a)[0] != ']' by {
        assert(code(a)[0] == '{');
    }
    assert forall|a: ReferenceView, b: ReferenceView, s: Seq<char>, t: Seq<char>| #[trigger]
        (code(a) + s) == #[trigger] (code(b) + t) implies a == b && s == t by {
        references_differ(a, b, s, t);
    }
}

/// Where two sources begin two equal texts, they are one.
proof fn sources_differ(
    a: (ReferenceView, u64, u64, u64),
    b: (ReferenceView, u64, u64, u64),
    s: Seq<char>,
    t: Seq<char>,
)
    requires
        source_text(a) + s == source_text(b) + t,
    ensures
        a == b,
        s == t,
{
    let (a3, b3) = (decimal_of(a.3 as nat) + (seq![']'] + s), decimal_of(b.3 as nat) + (seq![']'] + t));
    let a2 = followed(decimal_of(a.2 as nat), a3);
    let b2 = followed(decimal_of(b.2 as nat), b3);
    let a1 = followed(decimal_of(a.1 as nat), a2);
    let b1 = followed(decimal_of(b.1 as nat), b2);
    let a0 = followed(reference_text(a.0), a1);
    let b0 = followed(reference_text(b.0), b1);
    assert(source_text(a) + s =~= seq!['['] + a0);
    assert(source_text(b) + t =~= seq!['['] + b0);
    rests_differ('[', a0, b0);
    references_differ(a.0, b.0, seq![','] + a1, seq![','] + b1);
    rests_differ(',', a1, b1);
    numbers_differ(a.1 as nat, b.1 as nat, seq![','] + a2, seq![','] + b2);
    rests_differ(',', a2, b2);
    numbers_differ(a.2 as nat, b.2 as nat, seq![','] + a3, seq![','] + b3);
    rests_differ(',', a3, b3);
    numbers_differ(a.3 as nat, b.3 as nat, seq![']'] + s, seq![']'] + t);
    rests_differ(']', s, t);
}

/// Sources are told apart by how they are written.
proof fn sources_are_coded()
    ensures
        is_code(source_code()),
{
    let code = source_code();
    assert forall|a: (ReferenceView, u64, u64, u64)|
        (#[trigger] code(a)).len() > 0 && code(a)[0] != ']' by {
        assert(code(a)[0] == '[');
    }
    assert forall|
        a: (ReferenceView, u64, u64, u64),
        b: (ReferenceView, u64, u64, u64),
        s: Seq<char>,
        t: Seq<char>,
    | #[trigger]
        (code(a) + s) == #[trigger] (code(b) + t) implies a == b && s == t by {
        sources_differ(a, b, s, t);
    }
}

/// Where two arrays of references begin two equal texts, they are one.
proof fn reference_arrays_differ(
    a: Seq<ReferenceView>,
    b: Seq<ReferenceView>,
    s: Seq<char>,
    t: Seq<char>,
)
    requires
        array_of(a, reference_code()) + s == array_of(b, reference_code()) + t,
    ensures
        a == b,
        s == t,
{
    references_are_coded();
    arrays_differ(a, b, reference_code(), s, t);
}

/// Where two arrays of sources begin two equal texts, they are one.
proof fn source_arrays_differ(
    a: Seq<(ReferenceView, u64, u64, u64)>,
    b: Seq<(ReferenceView, u64, u64, u64)>,
    s: Seq<char>,
    t: Seq<char>,
)
    requires
        array_of(a, source_code()) + s == array_of(b, source_code()) + t,
    ensures
        a == b,
        s == t,
{
    sources_are_coded();
    arrays_differ(a, b, source_code(), s, t);
}

/// Where two limits begin two equal texts, they are one.
proof fn limits_differ(
    a: Option<Seq<ReferenceView>>,
    b: Option<Seq<ReferenceView>>,
    s: Seq<char>,
    t: Seq<char>,
)
    requires
        limits_text(a) + s == limits_text(b) + t,
    ensures
        a == b,
        s == t,
{
    let whole = limits_text(a) + s;
    assert(whole[0] == limits_text(a)[0]);
    assert(whole[0] == limits_text(b)[0]);
    match (a, b) {
        (Some(x), Some(y)) => {
            reference_arrays_differ(x, y, s, t);
        },
        _ => {
            ends_differ(seq!['n', 'u', 'l', 'l'], s, t);
        },
    }
}

/// Three texts one after the other, however they are grouped.
proof fn regrouped(a: Seq<char>, b: Seq<char>, c: Seq<char>)
    ensures
        (a + b) + c == a + (b + c),
{
    assert((a + b) + c =~= a + (b + c));
}

/// What follows a definition follows its closing brace.
proof fn definition_followed(scope: Captured, rest: Seq<char>)
    ensures
        definition_text(scope.targets, scope.limits, scope.exclusions) + rest
            == "{\"targets\":"@ + (array_of(scope.targets, reference_code()) + (
        ",\"limitations\":"@ + (limits_text(scope.limits) + (",\"exclusions\":"@ + (array_of(
            scope.exclusions,
            reference_code(),
        ) + (seq!['}'] + rest)))))),
{
    let targets = array_of(scope.targets, reference_code());
    let limits = limits_text(scope.limits);
    let exclusions = array_of(scope.exclusions, reference_code());
    let d5 = exclusions + seq!['}'];
    let d4 = ",\"exclusions\":"@ + d5;
    let d3 = limits + d4;
    let d2 = ",\"limitations\":"@ + d3;
    let d1 = targets + d2;
    regrouped("{\"targets\":"@, d1, rest);
    regrouped(targets, d2, rest);
    regrouped(",\"limitations\":"@, d3, rest);
    regrouped(limits, d4, rest);
    regrouped(",\"exclusions\":"@, d5, rest);
    regrouped(exclusions, seq!['}'], rest);
}

/// Where two definitions begin two equal texts, they are one.
proof fn definitions_differ(one: Captured, two: Captured, s: Seq<char>, t: Seq<char>)
    requires
        definition_text(one.targets, one.limits, one.exclusions) + s == definition_text(
            two.targets,
            two.limits,
            two.exclusions,
        ) + t,
    ensures
        one.targets == two.targets,
        one.limits == two.limits,
        one.exclusions == two.exclusions,
        s == t,
{
    let code = reference_code();
    let (s4, t4) = (seq!['}'] + s, seq!['}'] + t);
    let s3 = ",\"exclusions\":"@ + (array_of(one.exclusions, code) + s4);
    let t3 = ",\"exclusions\":"@ + (array_of(two.exclusions, code) + t4);
    let s2 = ",\"limitations\":"@ + (limits_text(one.limits) + s3);
    let t2 = ",\"limitations\":"@ + (limits_text(two.limits) + t3);
    definition_followed(one, s);
    definition_followed(two, t);
    ends_differ(
        "{\"targets\":"@,
        array_of(one.targets, code) + s2,
        array_of(two.targets, code) + t2,
    );
    reference_arrays_differ(one.targets, two.targets, s2, t2);
    ends_differ(",\"limitations\":"@, limits_text(one.limits) + s3, limits_text(two.limits) + t3);
    limits_differ(one.limits, two.limits, s3, t3);
    ends_differ(
        ",\"exclusions\":"@,
        array_of(one.exclusions, code) + s4,
        array_of(two.exclusions, code) + t4,
    );
    reference_arrays_differ(one.exclusions, two.exclusions, s4, t4);
    rests_differ('}', s, t);
}

/// Two captured scopes have one document exactly where everything that decides
/// their results is the same.
pub proof fn documents_tell_captures_apart(one: Captured, two: Captured)
    ensures
        document_of(one) == document_of(two) <==> one == two,
{
    if document_of(one) == document_of(two) {
        let (s2, t2) = (
            array_of(one.sources, source_code()) + seq![']'],
            array_of(two.sources, source_code()) + seq![']'],
        );
        let s1 = followed(definition_text(one.targets, one.limits, one.exclusions), s2);
        let t1 = followed(definition_text(two.targets, two.limits, two.exclusions), t2);
        rests_differ(
            '[',
            followed(decimal_of(one.revision as nat), s1),
            followed(decimal_of(two.revision as nat), t1),
        );
        numbers_differ(one.revision as nat, two.revision as nat, seq![','] + s1, seq![','] + t1);
        rests_differ(',', s1, t1);
        definitions_differ(one, two, seq![','] + s2, seq![','] + t2);
        rests_differ(',', s2, t2);
        source_arrays_differ(one.sources, two.sources, seq![']'], seq![']']);
    }
}

/// When a scope was captured, and which sets the members of its sources are kept
/// in, does not change its digest.
pub proof fn time_and_member_sets_do_not_count(revision: u64, one: ScopeInput, two: ScopeInput)
    requires
        one.definition == two.definition,
        one.sources@.len() == two.sources@.len(),
        forall|i: int|
            0 <= i < one.sources@.len() ==> versions_of(#[trigger] one.sources@[i]) == versions_of(
                two.sources@[i],
            ),
    ensures
        capture_digest(revision, one) == capture_digest(revision, two),
{
    assert(captured(revision, one).sources =~= captured(revision, two).sources);
}

/// Two captured scopes have one digest exactly where everything that decides their
/// results is the same, the order of their sources included, unless the digests of
/// two different documents are one.
pub proof fn digests_tell_captures_apart(
    revision: u64,
    one: ScopeInput,
    other_revision: u64,
    two: ScopeInput,
)
    requires
        digests_differ(
            encode_utf8(document_of(captured(revision, one))),
            encode_utf8(document_of(captured(other_revision, two))),
        ),
    ensures
        capture_digest(revision, one) == capture_digest(other_revision, two) <==> captured(
            revision,
            one,
        ) == captured(other_revision, two),
{
    documents_tell_captures_apart(captured(revision, one), captured(other_revision, two));
    encode_utf8_decode_utf8(document_of(captured(revision, one)));
    encode_utf8_decode_utf8(document_of(captured(other_revision, two)));
}

/// What decides the result of a captured scope is the revision and every part of its
/// definition, and of each of its sources, in order, what it is and the versions of its
/// members, of its definition and of the identities behind it.
pub proof fn captures_are_told_apart_by_what_decides_them(
    revision: u64,
    one: ScopeInput,
    other_revision: u64,
    two: ScopeInput,
)
    ensures
        captured(revision, one) == captured(other_revision, two) <==> {
            &&& revision == other_revision
            &&& one.definition.targets@ == two.definition.targets@
            &&& one.definition.exclusions@ == two.definition.exclusions@
            &&& one.definition.limitations is Some <==> two.definition.limitations is Some
            &&& one.definition.limitations is Some ==> one.definition.limitations->Some_0@
                == two.definition.limitations->Some_0@
            &&& one.sources@.len() == two.sources@.len()
            &&& forall|i: int|
                0 <= i < one.sources@.len() ==> (#[trigger] one.sources@[i]).reference@
                    == two.sources@[i].reference@ && one.sources@[i].member_version
                    == two.sources@[i].member_version && one.sources@[i].definition_version
                    == two.sources@[i].definition_version && one.sources@[i].authority_version
                    == two.sources@[i].authority_version
        },
{
    let (a, b) = (captured(revision, one), captured(other_revision, two));
    if a == b {
        assert(a.sources.len() == one.sources@.len() && b.sources.len() == two.sources@.len());
        assert forall|i: int| 0 <= i < one.sources@.len() implies (
        #[trigger] one.sources@[i]).reference@ == two.sources@[i].reference@
            && one.sources@[i].member_version == two.sources@[i].member_version
            && one.sources@[i].definition_version == two.sources@[i].definition_version
            && one.sources@[i].authority_version == two.sources@[i].authority_version by {
            assert(a.sources[i] == b.sources[i]);
        }
    } else if one.sources@.len() == two.sources@.len() && (forall|i: int|
        0 <= i < one.sources@.len() ==> (#[trigger] one.sources@[i]).reference@
            == two.sources@[i].reference@ && one.sources@[i].member_version
            == two.sources@[i].member_version && one.sources@[i].definition_version
            == two.sources@[i].definition_version && one.sources@[i].authority_version
            == two.sources@[i].authority_version) {
        assert(a.sources =~= b.sources);
    }
}

} // verus!
