//! Parsing and validation of the metadata block of one endpoint declaration.
//!
//! A declaration hands this module an unordered sequence of
//! `(field name, literal)` pairs ([`Field`]).  Exactly six field names are
//! recognised; each expects a literal of one fixed syntactic kind:
//!
//! * `description`, `name`, `path` — a string literal,
//! * `rate_limited`, `requires_authentication` — a boolean literal,
//! * `method` — a reference to a single, unqualified identifier.
//!
//! [`Metadata::from_fields`] performs one linear pass, decoding each pair
//! into the matching slot of the intermediate collection state, and then
//! checks that every slot was filled.  The first violation aborts the pass:
//! an unknown field name, a literal of the wrong kind, a multi-segment
//! `method` path, a field given twice, or, after the pass, a field never
//! given.  On success the six decoded values are returned unchanged in an
//! immutable [`Metadata`] record.

use vstd::prelude::*;

verus! {

/// The six recognised field names of a metadata block.
#[derive(Clone, Copy, Debug, PartialEq, Eq, Structural)]
pub enum FieldName {
    Description,
    Method,
    Name,
    Path,
    RateLimited,
    RequiresAuthentication,
}

/// The literal kind a field expects; carried by mismatch errors.
#[derive(Clone, Copy, Debug, PartialEq, Eq, Structural)]
pub enum ExpectedKind {
    StringLiteral,
    BooleanLiteral,
    IdentifierPath,
}

/// A literal value as written in a declaration: the three recognised
/// syntactic kinds, plus a catch-all for every other expression shape,
/// which is never coerced and always rejected.
#[derive(Clone, Debug, PartialEq, Eq)]
pub enum Literal {
    /// A string literal, already unescaped.
    Str(String),
    /// A boolean literal.
    Bool(bool),
    /// A symbolic path, one identifier per segment.
    Path(Vec<String>),
    /// Any other expression shape.
    Unsupported,
}

/// One `(field name, literal)` pair of a declaration body.
#[derive(Clone, Debug, PartialEq, Eq)]
pub struct Field {
    pub name: String,
    pub value: Literal,
}

/// The validated, immutable metadata record of one endpoint.
#[derive(Clone, Debug, PartialEq, Eq)]
pub struct Metadata {
    pub description: String,
    pub method: String,
    pub name: String,
    pub path: String,
    pub rate_limited: bool,
    pub requires_authentication: bool,
}

/// Why a declaration was rejected.  Every error is fatal: no default is
/// substituted and no partial record is ever produced.
#[derive(Clone, Debug, PartialEq, Eq)]
pub enum MetadataError {
    /// A field name outside the fixed set of six.
    UnexpectedField(String),
    /// One of the six fields was given twice.
    DuplicateField(String),
    /// A field's literal was not of the kind the field expects.
    TypeMismatch { field: FieldName, expected: ExpectedKind },
    /// The `method` field's path did not have exactly one segment.
    MalformedMethod,
    /// One of the six fields was never given.
    MissingField(FieldName),
}

// ------------------------------------------------------------------
// Mathematical model
// ------------------------------------------------------------------

/// Model of a [`Literal`].
pub enum LiteralView {
    Str(Seq<char>),
    Bool(bool),
    Path(Seq<Seq<char>>),
    Unsupported,
}

/// Model of a [`Field`].
pub struct FieldView {
    pub name: Seq<char>,
    pub value: LiteralView,
}

/// Model of a [`Metadata`] record.
pub struct MetadataView {
    pub description: Seq<char>,
    pub method: Seq<char>,
    pub name: Seq<char>,
    pub path: Seq<char>,
    pub rate_limited: bool,
    pub requires_authentication: bool,
}

/// Model of a [`MetadataError`].
pub enum ErrorView {
    UnexpectedField(Seq<char>),
    DuplicateField(Seq<char>),
    TypeMismatch { field: FieldName, expected: ExpectedKind },
    MalformedMethod,
    MissingField(FieldName),
}

impl View for Literal {
    type V = LiteralView;

    open spec fn view(&self) -> LiteralView {
        match self {
            Literal::Str(s) => LiteralView::Str(s@),
            Literal::Bool(b) => LiteralView::Bool(*b),
            Literal::Path(segments) => LiteralView::Path(segments@.map_values(|s: String| s@)),
            Literal::Unsupported => LiteralView::Unsupported,
        }
    }
}

impl View for Field {
    type V = FieldView;

    open spec fn view(&self) -> FieldView {
        FieldView { name: self.name@, value: self.value@ }
    }
}

impl View for Metadata {
    type V = MetadataView;

    open spec fn view(&self) -> MetadataView {
        MetadataView {
            description: self.description@,
            method: self.method@,
            name: self.name@,
            path: self.path@,
            rate_limited: self.rate_limited,
            requires_authentication: self.requires_authentication,
        }
    }
}

impl View for MetadataError {
    type V = ErrorView;

    open spec fn view(&self) -> ErrorView {
        match self {
            MetadataError::UnexpectedField(n) => ErrorView::UnexpectedField(n@),
            MetadataError::DuplicateField(n) => ErrorView::DuplicateField(n@),
            MetadataError::TypeMismatch { field, expected } => ErrorView::TypeMismatch {
                field: *field,
                expected: *expected,
            },
            MetadataError::MalformedMethod => ErrorView::MalformedMethod,
            MetadataError::MissingField(f) => ErrorView::MissingField(*f),
        }
    }
}

/// The models of a sequence of fields.
pub open spec fn views_of(fields: Seq<Field>) -> Seq<FieldView> {
    fields.map_values(|f: Field| f@)
}

/// Which of the six fields a name denotes, if any.
pub open spec fn spec_field_name(s: Seq<char>) -> Option<FieldName> {
    if s == "description"@ {
        Some(FieldName::Description)
    } else if s == "method"@ {
        Some(FieldName::Method)
    } else if s == "name"@ {
        Some(FieldName::Name)
    } else if s == "path"@ {
        Some(FieldName::Path)
    } else if s == "rate_limited"@ {
        Some(FieldName::RateLimited)
    } else if s == "requires_authentication"@ {
        Some(FieldName::RequiresAuthentication)
    } else {
        None
    }
}

/// The literal kind each of the six fields expects.
pub open spec fn spec_expected_kind(f: FieldName) -> ExpectedKind {
    match f {
        FieldName::Description => ExpectedKind::StringLiteral,
        FieldName::Method => ExpectedKind::IdentifierPath,
        FieldName::Name => ExpectedKind::StringLiteral,
        FieldName::Path => ExpectedKind::StringLiteral,
        FieldName::RateLimited => ExpectedKind::BooleanLiteral,
        FieldName::RequiresAuthentication => ExpectedKind::BooleanLiteral,
    }
}

/// Model of a decoded field value: the text of a string literal or of the
/// one `method` identifier, or the truth value of a boolean literal.
pub enum DecodedView {
    Text(Seq<char>),
    Flag(bool),
}

impl DecodedView {
    /// The text carried by a decoded string or identifier value.
    pub open spec fn text(self) -> Seq<char> {
        match self {
            DecodedView::Text(t) => t,
            DecodedView::Flag(_) => Seq::empty(),
        }
    }

    /// The truth value carried by a decoded boolean value.
    pub open spec fn flag(self) -> bool {
        match self {
            DecodedView::Flag(b) => b,
            DecodedView::Text(_) => false,
        }
    }
}

/// What decoding one literal against one of the six fields yields: the
/// decoded value, or the exact error.  Total over every literal shape;
/// nothing is ever coerced.
pub open spec fn spec_decode(f: FieldName, v: LiteralView) -> Result<DecodedView, ErrorView> {
    match spec_expected_kind(f) {
        ExpectedKind::StringLiteral => match v {
            LiteralView::Str(t) => Ok(DecodedView::Text(t)),
            _ => Err(ErrorView::TypeMismatch { field: f, expected: ExpectedKind::StringLiteral }),
        },
        ExpectedKind::BooleanLiteral => match v {
            LiteralView::Bool(b) => Ok(DecodedView::Flag(b)),
            _ => Err(ErrorView::TypeMismatch { field: f, expected: ExpectedKind::BooleanLiteral }),
        },
        ExpectedKind::IdentifierPath => match v {
            LiteralView::Path(segments) => if segments.len() == 1 {
                Ok(DecodedView::Text(segments[0]))
            } else {
                Err(ErrorView::MalformedMethod)
            },
            _ => Err(ErrorView::TypeMismatch { field: f, expected: ExpectedKind::IdentifierPath }),
        },
    }
}

/// Model of the intermediate collection state: one optional slot per field.
pub struct SlotsView {
    pub description: Option<Seq<char>>,
    pub method: Option<Seq<char>>,
    pub name: Option<Seq<char>>,
    pub path: Option<Seq<char>>,
    pub rate_limited: Option<bool>,
    pub requires_authentication: Option<bool>,
}

impl SlotsView {
    /// The state with every slot empty.
    pub open spec fn empty() -> SlotsView {
        SlotsView {
            description: None,
            method: None,
            name: None,
            path: None,
            rate_limited: None,
            requires_authentication: None,
        }
    }

    /// Whether the slot of `f` is filled.
    pub open spec fn filled(self, f: FieldName) -> bool {
        match f {
            FieldName::Description => self.description is Some,
            FieldName::Method => self.method is Some,
            FieldName::Name => self.name is Some,
            FieldName::Path => self.path is Some,
            FieldName::RateLimited => self.rate_limited is Some,
            FieldName::RequiresAuthentication => self.requires_authentication is Some,
        }
    }

    /// The state with the slot of `f` set to the decoded value `d`.
    pub open spec fn store(self, f: FieldName, d: DecodedView) -> SlotsView {
        match f {
            FieldName::Description => SlotsView { description: Some(d.text()), ..self },
            FieldName::Method => SlotsView { method: Some(d.text()), ..self },
            FieldName::Name => SlotsView { name: Some(d.text()), ..self },
            FieldName::Path => SlotsView { path: Some(d.text()), ..self },
            FieldName::RateLimited => SlotsView { rate_limited: Some(d.flag()), ..self },
            FieldName::RequiresAuthentication => SlotsView {
                requires_authentication: Some(d.flag()),
                ..self
            },
        }
    }
}

/// One collector step: dispatch a field pair on its name, decode its
/// literal, and fill the matching empty slot, or yield the exact error.
pub open spec fn spec_step(s: SlotsView, f: FieldView) -> Result<SlotsView, ErrorView> {
    match spec_field_name(f.name) {
        None => Err(ErrorView::UnexpectedField(f.name)),
        Some(n) => match spec_decode(n, f.value) {
            Err(e) => Err(e),
            Ok(d) => if s.filled(n) {
                Err(ErrorView::DuplicateField(f.name))
            } else {
                Ok(s.store(n, d))
            },
        },
    }
}

/// The collector state after one linear pass over `fields`, starting from
/// the empty state; the first failing step aborts the pass with its error.
pub open spec fn spec_slots_after(fields: Seq<FieldView>) -> Result<SlotsView, ErrorView>
    decreases fields.len(),
{
    if fields.len() == 0 {
        Ok(SlotsView::empty())
    } else {
        match spec_slots_after(fields.drop_last()) {
            Err(e) => Err(e),
            Ok(s) => spec_step(s, fields.last()),
        }
    }
}

/// The validator: every slot must be filled; the first empty slot, in the
/// fixed check order, is reported.  A full state yields the record.
pub open spec fn spec_finalize(s: SlotsView) -> Result<MetadataView, ErrorView> {
    if s.description is None {
        Err(ErrorView::MissingField(FieldName::Description))
    } else if s.method is None {
        Err(ErrorView::MissingField(FieldName::Method))
    } else if s.name is None {
        Err(ErrorView::MissingField(FieldName::Name))
    } else if s.path is None {
        Err(ErrorView::MissingField(FieldName::Path))
    } else if s.rate_limited is None {
        Err(ErrorView::MissingField(FieldName::RateLimited))
    } else if s.requires_authentication is None {
        Err(ErrorView::MissingField(FieldName::RequiresAuthentication))
    } else {
        Ok(MetadataView {
            description: s.description.unwrap(),
            method: s.method.unwrap(),
            name: s.name.unwrap(),
            path: s.path.unwrap(),
            rate_limited: s.rate_limited.unwrap(),
            requires_authentication: s.requires_authentication.unwrap(),
        })
    }
}

/// The whole stage: collect, then validate.
pub open spec fn spec_collect(fields: Seq<FieldView>) -> Result<MetadataView, ErrorView> {
    match spec_slots_after(fields) {
        Err(e) => Err(e),
        Ok(s) => spec_finalize(s),
    }
}

/// The model of a `Result` returned by [`Metadata::from_fields`].
pub open spec fn collect_result_view(r: Result<Metadata, MetadataError>) -> Result<
    MetadataView,
    ErrorView,
> {
    match r {
        Ok(m) => Ok(m@),
        Err(e) => Err(e@),
    }
}

// ------------------------------------------------------------------
// Executable code
// ------------------------------------------------------------------

impl FieldName {
    /// Which of the six fields `name` denotes, if any.
    pub fn lookup(name: &String) -> (r: Option<FieldName>)
        ensures
            r == spec_field_name(name@),
    {
        if *name == "description".to_owned() {
            Some(FieldName::Description)
        } else if *name == "method".to_owned() {
            Some(FieldName::Method)
        } else if *name == "name".to_owned() {
            Some(FieldName::Name)
        } else if *name == "path".to_owned() {
            Some(FieldName::Path)
        } else if *name == "rate_limited".to_owned() {
            Some(FieldName::RateLimited)
        } else if *name == "requires_authentication".to_owned() {
            Some(FieldName::RequiresAuthentication)
        } else {
            None
        }
    }

    /// The literal kind this field expects.
    pub fn expected_kind(self) -> (k: ExpectedKind)
        ensures
            k == spec_expected_kind(self),
    {
        match self {
            FieldName::Description => ExpectedKind::StringLiteral,
            FieldName::Method => ExpectedKind::IdentifierPath,
            FieldName::Name => ExpectedKind::StringLiteral,
            FieldName::Path => ExpectedKind::StringLiteral,
            FieldName::RateLimited => ExpectedKind::BooleanLiteral,
            FieldName::RequiresAuthentication => ExpectedKind::BooleanLiteral,
        }
    }
}

/// A decoded field value: the text of a string literal or of the one
/// `method` identifier, or the truth value of a boolean literal.
#[derive(Clone, Debug, PartialEq, Eq)]
pub enum Decoded {
    Text(String),
    Flag(bool),
}

impl View for Decoded {
    type V = DecodedView;

    open spec fn view(&self) -> DecodedView {
        match self {
            Decoded::Text(t) => DecodedView::Text(t@),
            Decoded::Flag(b) => DecodedView::Flag(*b),
        }
    }
}

/// The model of a `Result` returned by [`decode_literal`].
pub open spec fn decode_result_view(r: Result<Decoded, MetadataError>) -> Result<
    DecodedView,
    ErrorView,
> {
    match r {
        Ok(d) => Ok(d@),
        Err(e) => Err(e@),
    }
}

/// The literal decoder: decodes `value` against the kind that `field`
/// expects, or reports the exact mismatch.  Pure and total: every literal
/// shape outside the expected kind is rejected, never coerced.
pub fn decode_literal(field: FieldName, value: &Literal) -> (r: Result<Decoded, MetadataError>)
    ensures
        decode_result_view(r) == spec_decode(field, value@),
{
    match field.expected_kind() {
        ExpectedKind::StringLiteral => match value {
            Literal::Str(t) => Ok(Decoded::Text(t.clone())),
            _ => Err(
                MetadataError::TypeMismatch { field, expected: ExpectedKind::StringLiteral },
            ),
        },
        ExpectedKind::BooleanLiteral => match value {
            Literal::Bool(b) => Ok(Decoded::Flag(*b)),
            _ => Err(
                MetadataError::TypeMismatch { field, expected: ExpectedKind::BooleanLiteral },
            ),
        },
        ExpectedKind::IdentifierPath => match value {
            Literal::Path(segments) => if segments.len() == 1 {
                let verb = segments[0].clone();
                proof {
                    assert(segments@.map_values(|s: String| s@)[0] == verb@);
                }
                Ok(Decoded::Text(verb))
            } else {
                Err(MetadataError::MalformedMethod)
            },
            _ => Err(
                MetadataError::TypeMismatch { field, expected: ExpectedKind::IdentifierPath },
            ),
        },
    }
}

/// The intermediate collection state: one optional slot per field, created
/// fresh for each declaration and consumed once by the validator.
struct Slots {
    description: Option<String>,
    method: Option<String>,
    name: Option<String>,
    path: Option<String>,
    rate_limited: Option<bool>,
    requires_authentication: Option<bool>,
}

impl View for Slots {
    type V = SlotsView;

    closed spec fn view(&self) -> SlotsView {
        SlotsView {
            description: match &self.description {
                Some(s) => Some(s@),
                None => None,
            },
            method: match &self.method {
                Some(s) => Some(s@),
                None => None,
            },
            name: match &self.name {
                Some(s) => Some(s@),
                None => None,
            },
            path: match &self.path {
                Some(s) => Some(s@),
                None => None,
            },
            rate_limited: self.rate_limited,
            requires_authentication: self.requires_authentication,
        }
    }
}

impl Slots {
    /// The state with every slot empty.
    fn new() -> (r: Slots)
        ensures
            r@ == SlotsView::empty(),
    {
        Slots {
            description: None,
            method: None,
            name: None,
            path: None,
            rate_limited: None,
            requires_authentication: None,
        }
    }

    /// Whether the slot of `f` is already filled.
    fn filled(&self, f: FieldName) -> (b: bool)
        ensures
            b == self@.filled(f),
    {
        match f {
            FieldName::Description => self.description.is_some(),
            FieldName::Method => self.method.is_some(),
            FieldName::Name => self.name.is_some(),
            FieldName::Path => self.path.is_some(),
            FieldName::RateLimited => self.rate_limited.is_some(),
            FieldName::RequiresAuthentication => self.requires_authentication.is_some(),
        }
    }
}

/// One collector step: dispatch `field` on its name, decode its literal,
/// and fill the matching empty slot of `slots`, or report the exact error
/// and leave `slots` unchanged.
fn apply_field(slots: &mut Slots, field: &Field) -> (r: Result<(), MetadataError>)
    ensures
        (match r {
            Ok(_) => spec_step(old(slots)@, field@) == Ok::<SlotsView, ErrorView>(final(slots)@),
            Err(e) => spec_step(old(slots)@, field@) == Err::<SlotsView, ErrorView>(e@)
                && final(slots)@ == old(slots)@,
        }),
{
    let field_name = match FieldName::lookup(&field.name) {
        Some(n) => n,
        None => return Err(MetadataError::UnexpectedField(field.name.clone())),
    };
    let decoded = match decode_literal(field_name, &field.value) {
        Ok(d) => d,
        Err(e) => return Err(e),
    };
    if slots.filled(field_name) {
        return Err(MetadataError::DuplicateField(field.name.clone()));
    }
    match (field_name, decoded) {
        (FieldName::Description, Decoded::Text(t)) => slots.description = Some(t),
        (FieldName::Method, Decoded::Text(t)) => slots.method = Some(t),
        (FieldName::Name, Decoded::Text(t)) => slots.name = Some(t),
        (FieldName::Path, Decoded::Text(t)) => slots.path = Some(t),
        (FieldName::RateLimited, Decoded::Flag(b)) => slots.rate_limited = Some(b),
        (FieldName::RequiresAuthentication, Decoded::Flag(b)) => slots.requires_authentication =
            Some(b),
        _ => proof {
            assert(false);
        },
    }
    Ok(())
}

/// The validator: checks the six slots in the fixed order and reports the
/// first empty one, or builds the record from a full state.
fn finalize(slots: Slots) -> (r: Result<Metadata, MetadataError>)
    ensures
        collect_result_view(r) == spec_finalize(slots@),
{
    let Slots { description, method, name, path, rate_limited, requires_authentication } = slots;
    let description = match description {
        Some(v) => v,
        None => return Err(MetadataError::MissingField(FieldName::Description)),
    };
    let method = match method {
        Some(v) => v,
        None => return Err(MetadataError::MissingField(FieldName::Method)),
    };
    let name = match name {
        Some(v) => v,
        None => return Err(MetadataError::MissingField(FieldName::Name)),
    };
    let path = match path {
        Some(v) => v,
        None => return Err(MetadataError::MissingField(FieldName::Path)),
    };
    let rate_limited = match rate_limited {
        Some(v) => v,
        None => return Err(MetadataError::MissingField(FieldName::RateLimited)),
    };
    let requires_authentication = match requires_authentication {
        Some(v) => v,
        None => return Err(MetadataError::MissingField(FieldName::RequiresAuthentication)),
    };
    Ok(Metadata { description, method, name, path, rate_limited, requires_authentication })
}

/// If a prefix of the pass already failed, the whole pass fails with the
/// same error: the first fatal error short-circuits everything after it.
pub(crate) proof fn lemma_error_persists(fields: Seq<FieldView>, i: int)
    requires
        0 <= i <= fields.len(),
        spec_slots_after(fields.take(i)) is Err,
    ensures
        spec_slots_after(fields) == spec_slots_after(fields.take(i)),
    decreases fields.len() - i,
{
    if i == fields.len() {
        assert(fields.take(i) =~= fields);
    } else {
        assert(fields.take(i + 1).drop_last() =~= fields.take(i));
        assert(spec_slots_after(fields.take(i + 1)) == spec_slots_after(fields.take(i)));
        lemma_error_persists(fields, i + 1);
    }
}

impl Metadata {
    /// The whole stage for one declaration: one linear pass collecting the
    /// six fields, then validation, yielding the immutable record or the
    /// first violation found.
    pub fn from_fields(fields: &Vec<Field>) -> (r: Result<Metadata, MetadataError>)
        ensures
            collect_result_view(r) == spec_collect(views_of(fields@)),
    {
        let ghost all: Seq<FieldView> = views_of(fields@);
        let mut slots = Slots::new();
        let mut i: usize = 0;
        proof {
            assert(all.take(0) =~= Seq::<FieldView>::empty());
        }
        while i < fields.len()
            invariant
                i <= fields@.len(),
                all == views_of(fields@),
                spec_slots_after(all.take(i as int)) == Ok::<SlotsView, ErrorView>(slots@),
            decreases fields@.len() - i,
        {
            proof {
                assert(all.take(i + 1).drop_last() =~= all.take(i as int));
                assert(all.take(i + 1).last() == fields@[i as int]@);
            }
            match apply_field(&mut slots, &fields[i]) {
                Ok(_) => {
                    proof {
                        assert(spec_slots_after(all.take(i + 1)) == Ok::<SlotsView, ErrorView>(
                            slots@,
                        ));
                    }
                },
                Err(e) => {
                    proof {
                        assert(spec_slots_after(all.take(i + 1)) == Err::<SlotsView, ErrorView>(
                            e@,
                        ));
                        lemma_error_persists(all, i + 1);
                    }
                    return Err(e);
                },
            }
            i = i + 1;
        }
        proof {
            assert(all.take(i as int) =~= all);
        }
        finalize(slots)
    }
}

} // verus!
