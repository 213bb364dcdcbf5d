use endpoint_metadata::metadata::{
    decode_literal, Decoded, ExpectedKind, Field, FieldName, Literal, Metadata, MetadataError,
};

fn text(value: &str) -> String {
    value.to_owned()
}

fn str_field(name: &str, value: &str) -> Field {
    Field { name: text(name), value: Literal::Str(text(value)) }
}

fn bool_field(name: &str, value: bool) -> Field {
    Field { name: text(name), value: Literal::Bool(value) }
}

fn path_field(name: &str, segments: &[&str]) -> Field {
    Field { name: text(name), value: Literal::Path(segments.iter().map(|s| text(s)).collect()) }
}

fn example() -> Vec<Field> {
    vec![
        str_field("description", "Gets the user profile"),
        path_field("method", &["GET"]),
        str_field("name", "get_profile"),
        str_field("path", "/profile"),
        bool_field("rate_limited", false),
        bool_field("requires_authentication", true),
    ]
}

#[test]
fn complete_declaration_builds_record() {
    let record = Metadata::from_fields(&example()).unwrap();
    assert_eq!(record.description, "Gets the user profile");
    assert_eq!(record.method, "GET");
    assert_eq!(record.name, "get_profile");
    assert_eq!(record.path, "/profile");
    assert!(!record.rate_limited);
    assert!(record.requires_authentication);
}

#[test]
fn order_of_fields_is_irrelevant() {
    let straight = Metadata::from_fields(&example()).unwrap();
    let mut reversed = example();
    reversed.reverse();
    assert_eq!(Metadata::from_fields(&reversed).unwrap(), straight);
    let mut rotated = example();
    rotated.rotate_left(3);
    assert_eq!(Metadata::from_fields(&rotated).unwrap(), straight);
}

#[test]
fn omitting_any_field_reports_it() {
    let names = [
        FieldName::Description,
        FieldName::Method,
        FieldName::Name,
        FieldName::Path,
        FieldName::RateLimited,
        FieldName::RequiresAuthentication,
    ];
    for (i, name) in names.iter().enumerate() {
        let mut fields = example();
        fields.remove(i);
        assert_eq!(
            Metadata::from_fields(&fields),
            Err(MetadataError::MissingField(*name)),
        );
    }
}

#[test]
fn empty_declaration_reports_description_first() {
    assert_eq!(
        Metadata::from_fields(&Vec::new()),
        Err(MetadataError::MissingField(FieldName::Description)),
    );
}

#[test]
fn unknown_field_is_rejected() {
    let mut fields = example();
    fields.push(bool_field("extra_flag", true));
    assert_eq!(
        Metadata::from_fields(&fields),
        Err(MetadataError::UnexpectedField(text("extra_flag"))),
    );
}

#[test]
fn unknown_field_is_rejected_whatever_follows() {
    let fields = vec![bool_field("extra_flag", true), bool_field("description", true)];
    assert_eq!(
        Metadata::from_fields(&fields),
        Err(MetadataError::UnexpectedField(text("extra_flag"))),
    );
}

#[test]
fn bool_for_string_field_is_rejected() {
    for name in ["description", "name", "path"] {
        let mut fields: Vec<Field> =
            example().into_iter().filter(|f| f.name != name).collect();
        fields.push(bool_field(name, true));
        let field = FieldName::lookup(&text(name)).unwrap();
        assert_eq!(
            Metadata::from_fields(&fields),
            Err(MetadataError::TypeMismatch { field, expected: ExpectedKind::StringLiteral }),
        );
    }
}

#[test]
fn string_for_bool_field_is_rejected() {
    for name in ["rate_limited", "requires_authentication"] {
        let mut fields: Vec<Field> =
            example().into_iter().filter(|f| f.name != name).collect();
        fields.insert(0, str_field(name, "yes"));
        let field = FieldName::lookup(&text(name)).unwrap();
        assert_eq!(
            Metadata::from_fields(&fields),
            Err(MetadataError::TypeMismatch { field, expected: ExpectedKind::BooleanLiteral }),
        );
    }
}

#[test]
fn unsupported_literal_shape_is_rejected() {
    let fields = vec![Field { name: text("description"), value: Literal::Unsupported }];
    assert_eq!(
        Metadata::from_fields(&fields),
        Err(MetadataError::TypeMismatch {
            field: FieldName::Description,
            expected: ExpectedKind::StringLiteral,
        }),
    );
}

#[test]
fn two_segment_method_path_is_rejected() {
    let mut fields: Vec<Field> =
        example().into_iter().filter(|f| f.name != "method").collect();
    fields.push(path_field("method", &["foo", "GET"]));
    assert_eq!(Metadata::from_fields(&fields), Err(MetadataError::MalformedMethod));
}

#[test]
fn empty_method_path_is_rejected() {
    let fields = vec![path_field("method", &[])];
    assert_eq!(Metadata::from_fields(&fields), Err(MetadataError::MalformedMethod));
}

#[test]
fn string_for_method_is_rejected() {
    let fields = vec![str_field("method", "GET")];
    assert_eq!(
        Metadata::from_fields(&fields),
        Err(MetadataError::TypeMismatch {
            field: FieldName::Method,
            expected: ExpectedKind::IdentifierPath,
        }),
    );
}

#[test]
fn method_verb_is_preserved_verbatim() {
    let mut fields: Vec<Field> =
        example().into_iter().filter(|f| f.name != "method").collect();
    fields.push(path_field("method", &["Put"]));
    let record = Metadata::from_fields(&fields).unwrap();
    assert_eq!(record.method, "Put");
}

#[test]
fn repeated_field_is_rejected() {
    let mut fields = example();
    fields.push(str_field("description", "again"));
    assert_eq!(
        Metadata::from_fields(&fields),
        Err(MetadataError::DuplicateField(text("description"))),
    );
}

#[test]
fn first_violation_wins() {
    let fields = vec![bool_field("description", true), bool_field("extra_flag", true)];
    assert_eq!(
        Metadata::from_fields(&fields),
        Err(MetadataError::TypeMismatch {
            field: FieldName::Description,
            expected: ExpectedKind::StringLiteral,
        }),
    );
}

#[test]
fn decoder_accepts_matching_kinds() {
    assert_eq!(
        decode_literal(FieldName::Description, &Literal::Str(text("d"))),
        Ok(Decoded::Text(text("d"))),
    );
    assert_eq!(
        decode_literal(FieldName::RateLimited, &Literal::Bool(true)),
        Ok(Decoded::Flag(true)),
    );
    assert_eq!(
        decode_literal(FieldName::Method, &Literal::Path(vec![text("POST")])),
        Ok(Decoded::Text(text("POST"))),
    );
}

#[test]
fn decoder_rejects_mismatched_kinds() {
    assert_eq!(
        decode_literal(FieldName::Path, &Literal::Bool(false)),
        Err(MetadataError::TypeMismatch {
            field: FieldName::Path,
            expected: ExpectedKind::StringLiteral,
        }),
    );
    assert_eq!(
        decode_literal(FieldName::RequiresAuthentication, &Literal::Path(vec![text("x")])),
        Err(MetadataError::TypeMismatch {
            field: FieldName::RequiresAuthentication,
            expected: ExpectedKind::BooleanLiteral,
        }),
    );
    assert_eq!(
        decode_literal(FieldName::Method, &Literal::Path(vec![text("a"), text("b")])),
        Err(MetadataError::MalformedMethod),
    );
}

#[test]
fn lookup_knows_the_six_names_and_no_other() {
    assert_eq!(FieldName::lookup(&text("description")), Some(FieldName::Description));
    assert_eq!(FieldName::lookup(&text("method")), Some(FieldName::Method));
    assert_eq!(FieldName::lookup(&text("name")), Some(FieldName::Name));
    assert_eq!(FieldName::lookup(&text("path")), Some(FieldName::Path));
    assert_eq!(FieldName::lookup(&text("rate_limited")), Some(FieldName::RateLimited));
    assert_eq!(
        FieldName::lookup(&text("requires_authentication")),
        Some(FieldName::RequiresAuthentication),
    );
    assert_eq!(FieldName::lookup(&text("Description")), None);
    assert_eq!(FieldName::lookup(&text("")), None);
}

#[test]
fn expected_kinds_follow_the_field() {
    assert_eq!(FieldName::Description.expected_kind(), ExpectedKind::StringLiteral);
    assert_eq!(FieldName::Name.expected_kind(), ExpectedKind::StringLiteral);
    assert_eq!(FieldName::Path.expected_kind(), ExpectedKind::StringLiteral);
    assert_eq!(FieldName::Method.expected_kind(), ExpectedKind::IdentifierPath);
    assert_eq!(FieldName::RateLimited.expected_kind(), ExpectedKind::BooleanLiteral);
    assert_eq!(
        FieldName::RequiresAuthentication.expected_kind(),
        ExpectedKind::BooleanLiteral,
    );
}
