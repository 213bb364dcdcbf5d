//! General laws of the metadata stage, stated over the model and proved
//! once and for all: what a valid declaration yields, which error each
//! kind of defect yields, and that field order never matters.

use crate::metadata::{
    spec_collect, spec_decode, spec_expected_kind, spec_field_name, spec_slots_after, spec_step,
    DecodedView, ErrorView, ExpectedKind, FieldName, FieldView, LiteralView, MetadataView,
    SlotsView,
};
use vstd::prelude::*;

verus! {

broadcast use vstd::seq_lib::to_multiset_contains;

/// A field pair decodes: its name is one of the six and its literal is of
/// the kind that field expects (for `method`, a one-segment path).
pub open spec fn field_ok(f: FieldView) -> bool {
    match spec_field_name(f.name) {
        Some(n) => spec_decode(n, f.value) is Ok,
        None => false,
    }
}

/// Every field pair of the declaration decodes.
pub open spec fn all_fields_ok(fields: Seq<FieldView>) -> bool {
    forall|i: int| 0 <= i < fields.len() ==> field_ok(fields[i])
}

/// No field name is written twice.
pub open spec fn names_distinct(fields: Seq<FieldView>) -> bool {
    forall|i: int, j: int| 0 <= i < j < fields.len() ==> fields[i].name != fields[j].name
}

/// The declaration supplies the field `n`.
pub open spec fn has_field(fields: Seq<FieldView>, n: FieldName) -> bool {
    exists|i: int| 0 <= i < fields.len() && spec_field_name(fields[i].name) == Some(n)
}

/// The declaration supplies all six fields.
pub open spec fn all_present(fields: Seq<FieldView>) -> bool {
    &&& has_field(fields, FieldName::Description)
    &&& has_field(fields, FieldName::Method)
    &&& has_field(fields, FieldName::Name)
    &&& has_field(fields, FieldName::Path)
    &&& has_field(fields, FieldName::RateLimited)
    &&& has_field(fields, FieldName::RequiresAuthentication)
}

/// A valid declaration: all six fields, each once, each well-typed.
pub open spec fn valid_declaration(fields: Seq<FieldView>) -> bool {
    names_distinct(fields) && all_fields_ok(fields) && all_present(fields)
}

/// The position at which the declaration supplies the field `n`.
pub open spec fn field_index(fields: Seq<FieldView>, n: FieldName) -> int {
    choose|i: int| 0 <= i < fields.len() && spec_field_name(fields[i].name) == Some(n)
}

/// The decoded value of the field `n` of the declaration.
pub open spec fn decoded_of(fields: Seq<FieldView>, n: FieldName) -> DecodedView {
    match spec_decode(n, fields[field_index(fields, n)].value) {
        Ok(d) => d,
        Err(_) => DecodedView::Flag(false),
    }
}

/// The text the declaration gives the string or identifier field `n`.
pub open spec fn text_of_field(fields: Seq<FieldView>, n: FieldName) -> Seq<char> {
    decoded_of(fields, n).text()
}

/// The truth value the declaration gives the boolean field `n`.
pub open spec fn flag_of_field(fields: Seq<FieldView>, n: FieldName) -> bool {
    decoded_of(fields, n).flag()
}

/// The record a valid declaration describes: each of the six fields holds
/// the decoded value of the pair of that name, unmodified.
pub open spec fn record_of(fields: Seq<FieldView>) -> MetadataView {
    MetadataView {
        description: text_of_field(fields, FieldName::Description),
        method: text_of_field(fields, FieldName::Method),
        name: text_of_field(fields, FieldName::Name),
        path: text_of_field(fields, FieldName::Path),
        rate_limited: flag_of_field(fields, FieldName::RateLimited),
        requires_authentication: flag_of_field(fields, FieldName::RequiresAuthentication),
    }
}

/// The collector state a declaration with distinct, well-typed fields
/// reaches: per field, the decoded value if the field was supplied.
pub open spec fn slot_of_text(fields: Seq<FieldView>, n: FieldName) -> Option<Seq<char>> {
    if has_field(fields, n) {
        Some(text_of_field(fields, n))
    } else {
        None
    }
}

/// As [`slot_of_text`], for the two boolean fields.
pub open spec fn slot_of_flag(fields: Seq<FieldView>, n: FieldName) -> Option<bool> {
    if has_field(fields, n) {
        Some(flag_of_field(fields, n))
    } else {
        None
    }
}

/// The whole collector state of [`slot_of_text`] and [`slot_of_flag`].
pub open spec fn slots_model(fields: Seq<FieldView>) -> SlotsView {
    SlotsView {
        description: slot_of_text(fields, FieldName::Description),
        method: slot_of_text(fields, FieldName::Method),
        name: slot_of_text(fields, FieldName::Name),
        path: slot_of_text(fields, FieldName::Path),
        rate_limited: slot_of_flag(fields, FieldName::RateLimited),
        requires_authentication: slot_of_flag(fields, FieldName::RequiresAuthentication),
    }
}

/// Two names denoting the same field are the same name.
proof fn lemma_field_name_injective(a: Seq<char>, b: Seq<char>)
    requires
        spec_field_name(a) is Some,
        spec_field_name(a) == spec_field_name(b),
    ensures
        a == b,
{
}

/// In a declaration without repeated names, the position supplying `n` is
/// unique, and [`field_index`] finds it.
pub proof fn lemma_unique_index(fields: Seq<FieldView>, n: FieldName, i: int)
    requires
        names_distinct(fields),
        0 <= i < fields.len(),
        spec_field_name(fields[i].name) == Some(n),
    ensures
        has_field(fields, n),
        field_index(fields, n) == i,
{
    assert(has_field(fields, n));
    let j: int = field_index(fields, n);
    if j != i {
        lemma_field_name_injective(fields[i].name, fields[j].name);
    }
}

/// A declaration whose fields are distinct and well-typed drives the
/// collector to exactly the state of [`slots_model`].
proof fn lemma_slots_of_valid(fields: Seq<FieldView>)
    requires
        names_distinct(fields),
        all_fields_ok(fields),
    ensures
        spec_slots_after(fields) == Ok::<SlotsView, ErrorView>(slots_model(fields)),
    decreases fields.len(),
{
    if fields.len() == 0 {
        assert(!has_field(fields, FieldName::Description));
        assert(slots_model(fields) == SlotsView::empty());
    } else {
        let prefix = fields.drop_last();
        let last = fields.last();
        let k: int = fields.len() - 1;
        assert(all_fields_ok(prefix));
        lemma_slots_of_valid(prefix);
        assert(field_ok(last));
        let n0 = choose|n: FieldName| spec_field_name(last.name) == Some(n);
        assert(spec_field_name(last.name) == Some(n0));
        let d0 = match spec_decode(n0, last.value) {
            Ok(d) => d,
            Err(_) => DecodedView::Flag(false),
        };
        // The last field is new: the prefix never supplies `n0`.
        assert(!has_field(prefix, n0)) by {
            if has_field(prefix, n0) {
                let i: int = field_index(prefix, n0);
                lemma_field_name_injective(prefix[i].name, last.name);
            }
        }
        assert(!slots_model(prefix).filled(n0));
        assert(spec_step(slots_model(prefix), last) == Ok::<SlotsView, ErrorView>(
            slots_model(prefix).store(n0, d0),
        ));
        // The stored state is the model of the whole declaration, slot by
        // slot: `n0`'s slot now holds the last pair's value, and any other
        // field is supplied by the whole exactly where by the prefix, with
        // the same value.
        lemma_unique_index(fields, n0, k);
        assert forall|n: FieldName| n != n0 implies slot_of_text(fields, n) == slot_of_text(
            prefix,
            n,
        ) && slot_of_flag(fields, n) == slot_of_flag(prefix, n) by {
            if has_field(prefix, n) {
                let i: int = field_index(prefix, n);
                assert(fields[i] == prefix[i]);
                lemma_unique_index(fields, n, i);
                lemma_unique_index(prefix, n, i);
            } else if has_field(fields, n) {
                let i: int = field_index(fields, n);
                if i < k {
                    assert(prefix[i] == fields[i]);
                    assert(has_field(prefix, n));
                }
            }
        }
        assert(spec_slots_after(fields) == spec_step(slots_model(prefix), last));
        assert(slots_model(prefix).store(n0, d0) == slots_model(fields));
    }
}

/// A pass that ends without error had only distinct, well-typed fields:
/// every step demands a known name, a decoding literal, and an empty slot.
proof fn lemma_no_error_only_if(fields: Seq<FieldView>)
    requires
        spec_slots_after(fields) is Ok,
    ensures
        all_fields_ok(fields),
        names_distinct(fields),
    decreases fields.len(),
{
    if fields.len() > 0 {
        let prefix = fields.drop_last();
        let last = fields.last();
        let k: int = fields.len() - 1;
        assert(spec_slots_after(prefix) is Ok);
        lemma_no_error_only_if(prefix);
        lemma_slots_of_valid(prefix);
        assert(spec_step(slots_model(prefix), last) is Ok);
        assert(field_ok(last));
        assert(all_fields_ok(fields)) by {
            assert forall|i: int| 0 <= i < fields.len() implies field_ok(fields[i]) by {
                if i < k {
                    assert(fields[i] == prefix[i]);
                }
            }
        }
        let n0 = choose|n: FieldName| spec_field_name(last.name) == Some(n);
        assert(spec_field_name(last.name) == Some(n0));
        assert(!slots_model(prefix).filled(n0));
        assert forall|i: int, j: int| 0 <= i < j < fields.len() implies fields[i].name
            != fields[j].name by {
            if j < k {
                assert(fields[i] == prefix[i]);
                assert(fields[j] == prefix[j]);
                assert(prefix[i].name != prefix[j].name);
            } else if fields[i].name == last.name {
                assert(prefix[i] == fields[i]);
                lemma_unique_index(prefix, n0, i);
                assert(slots_model(prefix).filled(n0));
            }
        }
    }
}

/// Soundness: a declaration is accepted only when it is valid — all six
/// fields present, none repeated, every literal of the expected kind.
pub proof fn lemma_accepted_implies_valid(fields: Seq<FieldView>)
    requires
        spec_collect(fields) is Ok,
    ensures
        valid_declaration(fields),
{
    assert(spec_slots_after(fields) is Ok);
    lemma_no_error_only_if(fields);
    lemma_slots_of_valid(fields);
}

/// The acceptance condition, exactly: a declaration yields a record if and
/// only if it is valid, and then the record of [`record_of`].
pub proof fn lemma_acceptance_characterised(fields: Seq<FieldView>)
    ensures
        spec_collect(fields) is Ok <==> valid_declaration(fields),
        valid_declaration(fields) ==> spec_collect(fields) == Ok::<MetadataView, ErrorView>(
            record_of(fields),
        ),
{
    if valid_declaration(fields) {
        lemma_complete_declaration(fields);
    }
    if spec_collect(fields) is Ok {
        lemma_accepted_implies_valid(fields);
    }
}

/// A declaration that writes any field name twice is never accepted,
/// whatever the rest holds.
pub proof fn lemma_repeated_name_rejected(fields: Seq<FieldView>, i: int, j: int)
    requires
        0 <= i < j < fields.len(),
        fields[i].name == fields[j].name,
    ensures
        spec_collect(fields) is Err,
{
    if spec_collect(fields) is Ok {
        lemma_accepted_implies_valid(fields);
    }
}

/// A declaration holding any defective pair — an unknown name, or a
/// literal that does not decode for its field — is never accepted,
/// whatever the rest holds.
pub proof fn lemma_defective_field_rejected(fields: Seq<FieldView>, j: int)
    requires
        0 <= j < fields.len(),
        !field_ok(fields[j]),
    ensures
        spec_collect(fields) is Err,
{
    if spec_collect(fields) is Ok {
        lemma_accepted_implies_valid(fields);
    }
}

/// Completeness: a declaration that supplies all six fields, each once and
/// with a correctly-typed literal, is accepted, and the record holds the
/// six decoded input values exactly, unmodified.
pub proof fn lemma_complete_declaration(fields: Seq<FieldView>)
    requires
        valid_declaration(fields),
    ensures
        spec_collect(fields) == Ok::<MetadataView, ErrorView>(record_of(fields)),
{
    lemma_slots_of_valid(fields);
}

/// Missing-field detection: a declaration of distinct, well-typed fields
/// that omits exactly one of the six is rejected with a missing-field
/// error naming that field.
pub proof fn lemma_missing_field(fields: Seq<FieldView>, n: FieldName)
    requires
        names_distinct(fields),
        all_fields_ok(fields),
        !has_field(fields, n),
        forall|m: FieldName| m != n ==> has_field(fields, m),
    ensures
        spec_collect(fields) == Err::<MetadataView, ErrorView>(ErrorView::MissingField(n)),
{
    lemma_slots_of_valid(fields);
    assert(n != FieldName::Description ==> has_field(fields, FieldName::Description));
    assert(n != FieldName::Method ==> has_field(fields, FieldName::Method));
    assert(n != FieldName::Name ==> has_field(fields, FieldName::Name));
    assert(n != FieldName::Path ==> has_field(fields, FieldName::Path));
    assert(n != FieldName::RateLimited ==> has_field(fields, FieldName::RateLimited));
}

/// The pass fails at position `j` with error `e` when every earlier field
/// decodes into its own slot and the field at `j` does not decode.
proof fn lemma_fails_at(fields: Seq<FieldView>, j: int, e: ErrorView)
    requires
        0 <= j < fields.len(),
        names_distinct(fields.take(j)),
        all_fields_ok(fields.take(j)),
        spec_step(slots_model(fields.take(j)), fields[j]) == Err::<SlotsView, ErrorView>(e),
    ensures
        spec_collect(fields) == Err::<MetadataView, ErrorView>(e),
{
    lemma_slots_of_valid(fields.take(j));
    assert(fields.take(j + 1).drop_last() =~= fields.take(j));
    assert(fields.take(j + 1).last() == fields[j]);
    assert(spec_slots_after(fields.take(j + 1)) == Err::<SlotsView, ErrorView>(e));
    crate::metadata::lemma_error_persists(fields, j + 1);
}

/// Unknown-field rejection: whatever the rest of the declaration holds, a
/// field name outside the fixed set of six — here at position `j`, after a
/// well-formed start — is rejected with an unexpected-field error carrying
/// that name.
pub proof fn lemma_unexpected_field(fields: Seq<FieldView>, j: int)
    requires
        0 <= j < fields.len(),
        names_distinct(fields.take(j)),
        all_fields_ok(fields.take(j)),
        spec_field_name(fields[j].name) is None,
    ensures
        spec_collect(fields) == Err::<MetadataView, ErrorView>(
            ErrorView::UnexpectedField(fields[j].name),
        ),
{
    lemma_fails_at(fields, j, ErrorView::UnexpectedField(fields[j].name));
}

/// A failing literal decode at position `j`, after a well-formed start,
/// rejects the declaration with exactly the decoder's error.
proof fn lemma_decode_failure(fields: Seq<FieldView>, j: int, n: FieldName, e: ErrorView)
    requires
        0 <= j < fields.len(),
        names_distinct(fields.take(j)),
        all_fields_ok(fields.take(j)),
        spec_field_name(fields[j].name) == Some(n),
        spec_decode(n, fields[j].value) == Err::<DecodedView, ErrorView>(e),
    ensures
        spec_collect(fields) == Err::<MetadataView, ErrorView>(e),
{
    lemma_fails_at(fields, j, e);
}

/// Type enforcement, text fields: giving `description`, `name` or `path`
/// anything but a string literal — a boolean, a path, any other shape —
/// is rejected with a type-mismatch error naming the field and the
/// expected kind.
pub proof fn lemma_string_field_rejects(fields: Seq<FieldView>, j: int, n: FieldName)
    requires
        0 <= j < fields.len(),
        names_distinct(fields.take(j)),
        all_fields_ok(fields.take(j)),
        spec_field_name(fields[j].name) == Some(n),
        spec_expected_kind(n) == ExpectedKind::StringLiteral,
        !(fields[j].value is Str),
    ensures
        spec_collect(fields) == Err::<MetadataView, ErrorView>(
            ErrorView::TypeMismatch { field: n, expected: ExpectedKind::StringLiteral },
        ),
{
    lemma_decode_failure(
        fields,
        j,
        n,
        ErrorView::TypeMismatch { field: n, expected: ExpectedKind::StringLiteral },
    );
}

/// Type enforcement, boolean fields: giving `rate_limited` or
/// `requires_authentication` anything but a boolean literal is rejected
/// with a type-mismatch error naming the field and the expected kind.
pub proof fn lemma_flag_field_rejects(fields: Seq<FieldView>, j: int, n: FieldName)
    requires
        0 <= j < fields.len(),
        names_distinct(fields.take(j)),
        all_fields_ok(fields.take(j)),
        spec_field_name(fields[j].name) == Some(n),
        spec_expected_kind(n) == ExpectedKind::BooleanLiteral,
        !(fields[j].value is Bool),
    ensures
        spec_collect(fields) == Err::<MetadataView, ErrorView>(
            ErrorView::TypeMismatch { field: n, expected: ExpectedKind::BooleanLiteral },
        ),
{
    lemma_decode_failure(
        fields,
        j,
        n,
        ErrorView::TypeMismatch { field: n, expected: ExpectedKind::BooleanLiteral },
    );
}

/// Type enforcement, `method`: any literal that is not a symbolic path —
/// a string, a boolean, any other shape — is rejected with a
/// type-mismatch error.
pub proof fn lemma_method_rejects_non_path(fields: Seq<FieldView>, j: int)
    requires
        0 <= j < fields.len(),
        names_distinct(fields.take(j)),
        all_fields_ok(fields.take(j)),
        spec_field_name(fields[j].name) == Some(FieldName::Method),
        !(fields[j].value is Path),
    ensures
        spec_collect(fields) == Err::<MetadataView, ErrorView>(
            ErrorView::TypeMismatch {
                field: FieldName::Method,
                expected: ExpectedKind::IdentifierPath,
            },
        ),
{
    lemma_decode_failure(
        fields,
        j,
        FieldName::Method,
        ErrorView::TypeMismatch { field: FieldName::Method, expected: ExpectedKind::IdentifierPath },
    );
}

/// Method-path arity, rejection half: a `method` path of any number of
/// segments other than one is rejected with a malformed-method error.
pub proof fn lemma_method_multi_segment(fields: Seq<FieldView>, j: int)
    requires
        0 <= j < fields.len(),
        names_distinct(fields.take(j)),
        all_fields_ok(fields.take(j)),
        spec_field_name(fields[j].name) == Some(FieldName::Method),
        fields[j].value matches LiteralView::Path(segments) && segments.len() != 1,
    ensures
        spec_collect(fields) == Err::<MetadataView, ErrorView>(ErrorView::MalformedMethod),
{
    lemma_decode_failure(fields, j, FieldName::Method, ErrorView::MalformedMethod);
}

/// Method-path arity, success half: in a valid declaration whose `method`
/// pair at position `j` holds the one-segment path `verb`, the record's
/// method is that verb token, verbatim.
pub proof fn lemma_method_verbatim(fields: Seq<FieldView>, j: int, verb: Seq<char>)
    requires
        valid_declaration(fields),
        0 <= j < fields.len(),
        spec_field_name(fields[j].name) == Some(FieldName::Method),
        fields[j].value == LiteralView::Path(seq![verb]),
    ensures
        spec_collect(fields) == Ok::<MetadataView, ErrorView>(record_of(fields)),
        record_of(fields).method == verb,
{
    lemma_complete_declaration(fields);
    lemma_unique_index(fields, FieldName::Method, j);
    assert(seq![verb][0] == verb);
}

/// Order independence: two declarations made of the same field pairs, in
/// any two orders, and without repeated names, yield the same result; for
/// a valid declaration, the identical record.
pub proof fn lemma_order_independent(fields1: Seq<FieldView>, fields2: Seq<FieldView>)
    requires
        valid_declaration(fields1),
        names_distinct(fields2),
        fields2.to_multiset() == fields1.to_multiset(),
    ensures
        spec_collect(fields2) == spec_collect(fields1),
        spec_collect(fields2) == Ok::<MetadataView, ErrorView>(record_of(fields1)),
{
    // Each declaration holds exactly the other's pairs.
    assert forall|f: FieldView| #[trigger] fields2.contains(f) implies fields1.contains(f) by {
        assert(fields2.to_multiset().count(f) > 0);
    }
    assert forall|f: FieldView| #[trigger] fields1.contains(f) implies fields2.contains(f) by {
        assert(fields1.to_multiset().count(f) > 0);
    }
    // So the second declaration is well-typed and complete too.
    assert(all_fields_ok(fields2)) by {
        assert forall|i: int| 0 <= i < fields2.len() implies field_ok(fields2[i]) by {
            assert(fields2.contains(fields2[i]));
            let k: int = choose|k: int| 0 <= k < fields1.len() && fields1[k] == fields2[i];
            assert(field_ok(fields1[k]));
        }
    }
    assert forall|n: FieldName| #[trigger] has_field(fields1, n) implies has_field(fields2, n)
        && decoded_of(fields2, n) == decoded_of(fields1, n) by {
        let i1: int = field_index(fields1, n);
        assert(fields1.contains(fields1[i1]));
        let i2: int = choose|k: int| 0 <= k < fields2.len() && fields2[k] == fields1[i1];
        lemma_unique_index(fields2, n, i2);
        lemma_unique_index(fields1, n, i1);
    }
    assert(valid_declaration(fields2));
    lemma_complete_declaration(fields1);
    lemma_complete_declaration(fields2);
    assert(record_of(fields2) == record_of(fields1));
}

} // verus!
