use openapiv3::{
    decode_responses, decode_schema, decode_schema_ref, encode_schema, merge, resolve_parameter,
    resolve_schema, Components, DecodeError, Info, Member, MergeError, Number, OpenAPI, Operation,
    Parameter, ParameterData, ParameterSchemaOrContent, PathItem, Paths, QueryStyle, ReferenceOr,
    ResolveError, Responses, Schema, SchemaKind, Server, StatusCode, StringFormat, StringMap,
    StringType, Type, Value, VariantOrUnknownOrEmpty,
};

fn obj(fields: Vec<(&str, Value)>) -> Value {
    Value::Object(
        fields
            .into_iter()
            .map(|(k, v)| Member { name: k.to_string(), value: v })
            .collect(),
    )
}

fn text(s: &str) -> Value {
    Value::Text(s.to_string())
}

fn empty_doc() -> OpenAPI {
    OpenAPI {
        openapi: "3.0.0".to_string(),
        info: Info {
            title: "t".to_string(),
            description: None,
            terms_of_service: None,
            contact: None,
            license: None,
            version: "1".to_string(),
            extensions: StringMap::new(),
        },
        servers: Vec::new(),
        paths: Paths::new(),
        components: None,
        security: None,
        tags: Vec::new(),
        external_docs: None,
        extensions: StringMap::new(),
    }
}

fn get_operation() -> Operation {
    Operation {
        tags: Vec::new(),
        summary: None,
        description: None,
        external_docs: None,
        operation_id: None,
        parameters: Vec::new(),
        request_body: None,
        responses: Responses::new(),
        callbacks: StringMap::new(),
        deprecated: false,
        security: None,
        servers: Vec::new(),
        extensions: StringMap::new(),
    }
}

fn path_item() -> PathItem {
    PathItem::new()
}

fn query_parameter(name: &str) -> ReferenceOr<Parameter> {
    ReferenceOr::Item(Parameter::Query {
        parameter_data: ParameterData {
            name: name.to_string(),
            description: None,
            required: false,
            deprecated: None,
            format: ParameterSchemaOrContent::Content(StringMap::new()),
            example: None,
            examples: StringMap::new(),
            explode: None,
            extensions: StringMap::new(),
        },
        allow_reserved: false,
        style: QueryStyle::Form,
        allow_empty_value: None,
    })
}

#[test]
fn test_variant_from() {
    assert_eq!(
        VariantOrUnknownOrEmpty::<StringFormat>::from(None),
        VariantOrUnknownOrEmpty::Empty,
    );
    assert_eq!(
        VariantOrUnknownOrEmpty::<StringFormat>::from(Some("date".to_string())),
        VariantOrUnknownOrEmpty::Item(StringFormat::Date),
    );
    assert_eq!(
        VariantOrUnknownOrEmpty::<StringFormat>::from(Some("yolo".to_string())),
        VariantOrUnknownOrEmpty::Unknown("yolo".to_string()),
    );
}

#[test]
fn status_code_decodes_strings_and_integers() {
    let from_text = StatusCode::from_value(&text("200")).unwrap();
    assert_eq!(from_text, StatusCode::Code(200));
    let from_int = StatusCode::from_value(&Value::Num(Number::Int(200))).unwrap();
    assert_eq!(from_int, StatusCode::Code(200));
    let range = StatusCode::from_value(&text("2XX")).unwrap();
    assert_eq!(range, StatusCode::Range(2));
}

#[test]
fn status_code_encodes_ranges() {
    assert_eq!(StatusCode::Range(2).to_text(), "2XX");
    assert_eq!(StatusCode::Code(404).to_text(), "404");
}

#[test]
fn status_code_rejects_malformed_keys() {
    assert!(StatusCode::from_value(&text("20X")).is_err());
    assert!(StatusCode::from_value(&text("XXX")).is_err());
    assert!(StatusCode::from_value(&text("20")).is_err());
    assert!(StatusCode::from_value(&Value::Num(Number::Int(42))).is_err());
    assert!(StatusCode::from_value(&Value::Num(Number::Int(1000))).is_err());
}

#[test]
fn test_schema_with_extensions() {
    let schema = decode_schema(&obj(vec![("type", text("boolean")), ("x-foo", text("bar"))]))
        .unwrap();
    assert_eq!(
        schema.schema_data.extensions.get("x-foo"),
        Some(&text("bar"))
    );
    assert!(matches!(schema.schema_kind, SchemaKind::Type(Type::Boolean(_))));
}

#[test]
fn test_any() {
    let schema = decode_schema(&obj(vec![])).unwrap();
    assert!(matches!(schema.schema_kind, SchemaKind::Any(_)));
}

#[test]
fn test_not() {
    let schema = decode_schema(&obj(vec![("not", obj(vec![]))])).unwrap();
    assert!(matches!(schema.schema_kind, SchemaKind::Not { not: _ }));
}

#[test]
fn test_null() {
    let schema = decode_schema(&obj(vec![
        ("nullable", Value::Bool(true)),
        ("enum", Value::List(vec![Value::Null])),
    ]))
    .unwrap();
    assert!(schema.schema_data.nullable);
    match &schema.schema_kind {
        SchemaKind::Any(any) => assert_eq!(any.enumeration[0], Value::Null),
        _ => panic!("incorrect kind {:#?}", schema),
    }
}

#[test]
fn test_object_and_one_of() {
    let schema = decode_schema(&obj(vec![
        ("type", text("object")),
        ("nullable", Value::Bool(true)),
        ("description", text("xyz")),
        (
            "properties",
            obj(vec![("a", obj(vec![])), ("b", obj(vec![])), ("c", obj(vec![]))]),
        ),
        (
            "oneOf",
            Value::List(vec![
                obj(vec![("required", Value::List(vec![text("a")]))]),
                obj(vec![("required", Value::List(vec![text("b")]))]),
                obj(vec![("required", Value::List(vec![text("c")]))]),
            ]),
        ),
        ("x-foo", text("bar")),
    ]))
    .unwrap();
    assert!(schema.schema_data.nullable);
    assert_eq!(schema.schema_data.extensions.get("x-foo"), Some(&text("bar")));
    match schema.schema_kind {
        SchemaKind::Any(any) => {
            assert_eq!(any.typ.as_deref(), Some("object"));
            assert_eq!(any.properties.len(), 3);
            assert_eq!(any.one_of.len(), 3);
        }
        _ => panic!("incorrect kind {:#?}", schema),
    }
}

#[test]
fn test_enum_with_null() {
    let schema = decode_schema(&obj(vec![
        ("type", text("string")),
        ("nullable", Value::Bool(true)),
        ("enum", Value::List(vec![Value::Null, text("howdy")])),
    ]))
    .unwrap();
    assert!(schema.schema_data.nullable);
    match schema.schema_kind {
        SchemaKind::Type(Type::String(StringType {
            format: VariantOrUnknownOrEmpty::Empty,
            pattern: None,
            enumeration,
            min_length: None,
            max_length: None,
        })) => {
            assert_eq!(enumeration, vec![None, Some("howdy".to_string())]);
        }
        _ => panic!("incorrect kind {:#?}", schema),
    }
}

#[test]
fn test_ref_or_order() {
    let decoded = decode_schema_ref(&obj(vec![
        ("type", text("object")),
        (
            "properties",
            obj(vec![("z", obj(vec![])), ("a", obj(vec![])), ("b", obj(vec![]))]),
        ),
    ]))
    .unwrap();
    let ReferenceOr::Item(schema) = decoded else { panic!() };
    let SchemaKind::Type(Type::Object(ot)) = schema.schema_kind else { panic!() };
    let keys: Vec<&str> = ot.properties.entries.iter().map(|e| e.key.as_str()).collect();
    assert_eq!(keys.as_slice(), ["z", "a", "b"]);
}

#[test]
fn reference_shape_decodes_as_pointer() {
    let decoded = decode_schema_ref(&obj(vec![("$ref", text("#/components/schemas/Pet"))]))
        .unwrap();
    assert_eq!(
        decoded,
        ReferenceOr::Reference { reference: "#/components/schemas/Pet".to_string() }
    );
}

fn string_schema() -> Schema {
    decode_schema(&obj(vec![("type", text("string"))])).unwrap()
}

fn pet_components_doc() -> OpenAPI {
    let pet = decode_schema(&obj(vec![(
        "properties",
        obj(vec![("name", obj(vec![("type", text("string"))]))]),
    )]))
    .unwrap();
    let mut doc = empty_doc();
    let mut components = Components::new();
    components.schemas.insert("Pet".to_string(), ReferenceOr::Item(pet));
    doc.components = Some(components);
    doc
}

#[test]
fn resolve_property_reference() {
    let doc = pet_components_doc();
    let resolved = resolve_schema(&doc, "#/components/schemas/Pet/properties/name").unwrap();
    assert_eq!(*resolved, string_schema());
}

#[test]
fn resolve_missing_schema_fails_not_found() {
    let doc = pet_components_doc();
    match resolve_schema(&doc, "#/components/schemas/Missing") {
        Err(ResolveError::NotFound(name)) => assert_eq!(name, "Missing"),
        other => panic!("expected a not-found error, got {:?}", other),
    }
}

#[test]
fn parameter_double_reference_is_circular() {
    let mut doc = empty_doc();
    let mut components = Components::new();
    components.parameters.insert(
        "a".to_string(),
        ReferenceOr::Reference { reference: "#/components/parameters/b".to_string() },
    );
    doc.components = Some(components);
    match resolve_parameter(&doc, "#/components/parameters/a") {
        Err(ResolveError::Circular(_)) => (),
        other => panic!("expected a circular error, got {:?}", other),
    }
}

#[test]
fn schema_chain_resolves_through() {
    let mut doc = empty_doc();
    let mut components = Components::new();
    components.schemas.insert(
        "A".to_string(),
        ReferenceOr::Reference { reference: "#/components/schemas/B".to_string() },
    );
    components.schemas.insert("B".to_string(), ReferenceOr::Item(string_schema()));
    doc.components = Some(components);
    let resolved = resolve_schema(&doc, "#/components/schemas/A").unwrap();
    assert_eq!(*resolved, string_schema());
}

fn doc_with_path(path: &str, item: PathItem) -> OpenAPI {
    let mut doc = empty_doc();
    doc.paths.paths.insert(path.to_string(), ReferenceOr::Item(item));
    doc
}

#[test]
fn merge_unions_path_keys_both_ways() {
    let mut a = doc_with_path("/a", path_item());
    let b = doc_with_path("/b", path_item());
    merge(&mut a, b).unwrap();
    assert!(a.paths.paths.contains_key("/a"));
    assert!(a.paths.paths.contains_key("/b"));

    let mut b2 = doc_with_path("/b", path_item());
    let a2 = doc_with_path("/a", path_item());
    merge(&mut b2, a2).unwrap();
    assert!(b2.paths.paths.contains_key("/a"));
    assert!(b2.paths.paths.contains_key("/b"));
}

#[test]
fn merge_keeps_left_operation_on_shared_path() {
    let mut left_get = get_operation();
    left_get.operation_id = Some("left".to_string());
    let mut right_get = get_operation();
    right_get.operation_id = Some("right".to_string());

    let mut left_item = path_item();
    left_item.get = Some(left_get);
    let mut right_item = path_item();
    right_item.get = Some(right_get);

    let mut a = doc_with_path("/p", left_item);
    let b = doc_with_path("/p", right_item);
    merge(&mut a, b).unwrap();
    let merged = a.paths.paths.get("/p").unwrap();
    let ReferenceOr::Item(item) = merged else { panic!() };
    assert_eq!(item.get.as_ref().unwrap().operation_id.as_deref(), Some("left"));
}

#[test]
fn merge_deduplicates_servers_by_url() {
    let mut a = empty_doc();
    a.servers.push(Server {
        url: "https://x".to_string(),
        description: Some("left".to_string()),
        variables: None,
    });
    let mut b = empty_doc();
    b.servers.push(Server {
        url: "https://x".to_string(),
        description: Some("right".to_string()),
        variables: None,
    });
    merge(&mut a, b).unwrap();
    assert_eq!(a.servers.len(), 1);
    assert_eq!(a.servers[0].description.as_deref(), Some("left"));
}

#[test]
fn merge_rejects_parameter_list_length_mismatch() {
    let mut left_item = path_item();
    left_item.parameters.push(query_parameter("one"));
    let mut right_item = path_item();
    right_item.parameters.push(query_parameter("one"));
    right_item.parameters.push(query_parameter("two"));

    let mut a = doc_with_path("/p", left_item);
    let b = doc_with_path("/p", right_item);
    match merge(&mut a, b) {
        Err(MergeError::ParameterMismatch(path)) => assert_eq!(path, "/p"),
        other => panic!("expected a parameter mismatch, got {:?}", other),
    }
}

#[test]
fn format_names_parse() {
    assert_eq!(StringFormat::from_str("date"), Ok(StringFormat::Date));
    assert_eq!(StringFormat::from_str("date-time"), Ok(StringFormat::DateTime));
    assert_eq!(StringFormat::from_str("bogus"), Err(()));
}

#[test]
fn integer_schema_rejects_fractional_minimum() {
    let one_point_five = Value::Num(Number::Frac(1.5f64.to_bits()));
    let schema = decode_schema(&obj(vec![
        ("type", text("integer")),
        ("minimum", one_point_five),
    ]))
    .unwrap();
    assert!(matches!(schema.schema_kind, SchemaKind::Any(_)));
}

#[test]
fn bad_field_type_is_a_decode_error() {
    let r = decode_schema(&obj(vec![("pattern", Value::Bool(true))]));
    assert!(r.is_err());
}

#[test]
fn find_operation_by_identifier() {
    let mut op = get_operation();
    op.operation_id = Some("listPets".to_string());
    let mut item = path_item();
    item.get = Some(op);
    let doc = doc_with_path("/pets", item);
    let (path, method, found) = doc.find_operation("listPets").unwrap();
    assert_eq!(path, "/pets");
    assert_eq!(method, "get");
    assert_eq!(found.operation_id.as_deref(), Some("listPets"));
    assert!(doc.find_operation("missing").is_none());
}

#[test]
fn test_bad_responses() {
    // A response without the required description field.
    let value = obj(vec![(
        "200",
        obj(vec![(
            "content",
            obj(vec![(
                "application/json",
                obj(vec![("schema", obj(vec![("type", text("string"))]))]),
            )]),
        )]),
    )]);
    match decode_responses(&value) {
        Ok(_) => unreachable!(),
        Err(e) => assert_eq!(e, DecodeError::MissingField("description".to_string())),
    }
}

fn ok_response(description: &str) -> Value {
    obj(vec![("description", text(description))])
}

#[test]
fn deserialize_responses() {
    let r = decode_responses(&obj(vec![("200", obj(vec![("$ref", text("test"))]))])).unwrap();
    assert_eq!(r.default, None);
    assert_eq!(r.responses.len(), 1);
    assert_eq!(r.responses[0].code, StatusCode::Code(200));
    assert_eq!(r.responses[0].response, ReferenceOr::ref_("test"));

    let r = decode_responses(&obj(vec![("666", obj(vec![("$ref", text("demo"))]))])).unwrap();
    assert_eq!(r.responses[0].code, StatusCode::Code(666));

    let r = decode_responses(&obj(vec![
        ("default", obj(vec![("$ref", text("def"))])),
        ("666", obj(vec![("$ref", text("demo"))])),
        ("418", obj(vec![("$ref", text("demo"))])),
    ]))
    .unwrap();
    assert_eq!(r.default, Some(ReferenceOr::ref_("def")));
    assert_eq!(r.responses.len(), 2);
    assert_eq!(r.responses[0].code, StatusCode::Code(666));
    assert_eq!(r.responses[1].code, StatusCode::Code(418));
}

#[test]
fn responses_keep_extensions_and_drop_unknown_keys() {
    let r = decode_responses(&obj(vec![
        ("404", ok_response("not found")),
        ("x-foo", text("bar")),
        ("unrelated", Value::Bool(true)),
    ]))
    .unwrap();
    assert_eq!(r.responses.len(), 1);
    assert_eq!(r.responses[0].code, StatusCode::Code(404));
    assert_eq!(r.extensions.get("x-foo"), Some(&text("bar")));
    assert_eq!(r.extensions.len(), 1);
}

#[test]
fn encode_then_decode_reproduces_schemas() {
    let inputs = vec![
        obj(vec![
            ("type", text("string")),
            ("nullable", Value::Bool(true)),
            ("enum", Value::List(vec![Value::Null, text("howdy")])),
        ]),
        obj(vec![("type", text("boolean")), ("x-foo", text("bar"))]),
        obj(vec![("not", obj(vec![]))]),
        obj(vec![
            ("type", text("object")),
            (
                "properties",
                obj(vec![("z", obj(vec![])), ("a", obj(vec![("type", text("integer"))]))]),
            ),
            ("required", Value::List(vec![text("z")])),
        ]),
    ];
    for input in inputs {
        let first = decode_schema(&input).unwrap();
        let encoded = encode_schema(&first);
        let second = decode_schema(&encoded).unwrap();
        assert_eq!(first, second);
    }
}

#[test]
fn encode_keeps_every_field_of_the_catch_all() {
    // A type tag mixed with a combinator resolves to the catch-all; the
    // re-encoded tree still holds both, so nothing is lost.
    let input = obj(vec![
        ("type", text("object")),
        ("oneOf", Value::List(vec![obj(vec![])])),
        ("x-foo", text("bar")),
    ]);
    let first = decode_schema(&input).unwrap();
    assert!(matches!(first.schema_kind, SchemaKind::Any(_)));
    let encoded = encode_schema(&first);
    assert_eq!(encoded.get("type"), Some(&text("object")));
    assert!(encoded.get("oneOf").is_some());
    assert_eq!(encoded.get("x-foo"), Some(&text("bar")));
    let second = decode_schema(&encoded).unwrap();
    assert_eq!(first, second);
}

#[test]
fn encode_is_stable() {
    let input = obj(vec![
        ("type", text("string")),
        ("enum", Value::List(vec![Value::Null, text("howdy")])),
    ]);
    let s = decode_schema(&input).unwrap();
    assert_eq!(encode_schema(&s), encode_schema(&s));
}

#[test]
fn inline_item_error_surfaces_unchanged() {
    // The nested inline schema's own field error comes back, not a generic
    // no-variant report.
    let r = decode_schema(&obj(vec![("items", obj(vec![("pattern", Value::Bool(true))]))]));
    assert_eq!(r.unwrap_err(), DecodeError::BadField("pattern".to_string()));
}
