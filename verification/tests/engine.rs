use minecraft_json::error::{DecodeError, ErrorKind, Expected, SchemaDefinitionError};
use minecraft_json::instance::Instance;
use minecraft_json::minecraft::text::HexColour;
use minecraft_json::schema::{Field, Node, Omit, Rule, Schema};
use minecraft_json::value::{Number, Value};

fn s(text: &str) -> String {
    text.to_string()
}

fn object(members: Vec<(&str, Value)>) -> Value {
    Value::Object(members.into_iter().map(|(k, v)| (s(k), v)).collect())
}

fn num(i: u64) -> Value {
    Value::Number(Number::PosInt(i))
}

fn required(name: &str, node: Node) -> Field {
    Field { name: s(name), node, rule: Rule::Required }
}

fn defaulted(name: &str, node: Node, default: Instance, omit: Omit) -> Field {
    Field { name: s(name), node, rule: Rule::Defaulted { default, omit } }
}

fn flatten(name: &str, node: Node) -> Field {
    Field { name: s(name), node, rule: Rule::Flatten }
}

fn fail(kind: ErrorKind, path: &[&str]) -> DecodeError {
    DecodeError { kind, path: path.iter().map(|p| s(p)).collect() }
}

fn schema(defs: Vec<Node>) -> Schema {
    let root = defs.len() - 1;
    Schema::new(defs, root).unwrap()
}

/// A record with one boolean that is left out when false.
fn flagged() -> Schema {
    schema(vec![Node::Record(vec![
        required("name", Node::Text),
        defaulted("hidden", Node::Bool, Instance::Bool(false), Omit::IfFalse),
    ])])
}

#[test]
fn default_elision_omits_false_and_restores_it() {
    let schema = flagged();
    let plain = Instance::Record(vec![Instance::Text(s("a")), Instance::Bool(false)]);
    let doc = schema.encode(&plain).unwrap();
    assert_eq!(doc, object(vec![("name", Value::String(s("a")))]));
    assert_eq!(schema.decode(&doc), Ok(plain));
}

#[test]
fn default_elision_keeps_true() {
    let schema = flagged();
    let hidden = Instance::Record(vec![Instance::Text(s("a")), Instance::Bool(true)]);
    let doc = schema.encode(&hidden).unwrap();
    assert_eq!(doc, object(vec![("name", Value::String(s("a"))), ("hidden", Value::Bool(true))]));
    assert_eq!(schema.decode(&doc), Ok(hidden));
}

#[test]
fn missing_required_field_is_reported_by_name() {
    let schema = flagged();
    let doc = object(vec![("hidden", Value::Bool(true))]);
    assert_eq!(schema.decode(&doc), Err(fail(ErrorKind::MissingRequiredField { name: s("name") }, &[])));
}

#[test]
fn members_are_written_in_declaration_order() {
    let schema = schema(vec![Node::Record(vec![
        required("z", Node::Int),
        required("a", Node::Int),
        required("m", Node::Int),
    ])]);
    let x = Instance::Record(vec![Instance::Int(1), Instance::Int(2), Instance::Int(3)]);
    assert_eq!(schema.encode(&x), Some(object(vec![("z", num(1)), ("a", num(2)), ("m", num(3))])));
    let shuffled = object(vec![("m", num(3)), ("z", num(1)), ("a", num(2))]);
    assert_eq!(schema.decode(&shuffled), Ok(x));
}

#[test]
fn every_omission_rule_leaves_out_what_it_names() {
    let schema = schema(vec![Node::Record(vec![
        defaulted("never", Node::Optional(Box::new(Node::Text)), Instance::Absent, Omit::Never),
        defaulted("if_absent", Node::Optional(Box::new(Node::Text)), Instance::Absent, Omit::IfAbsent),
        defaulted("if_empty", Node::List(Box::new(Node::Int)), Instance::List(vec![]), Omit::IfEmpty),
        defaulted("if_empty_map", Node::Dict(Box::new(Node::Int)), Instance::Dict(vec![]), Omit::IfEmpty),
        defaulted("if_default", Node::Int, Instance::Int(7), Omit::IfDefault),
        defaulted("if_true", Node::Bool, Instance::Bool(true), Omit::IfTrue),
        defaulted("if_false", Node::Bool, Instance::Bool(false), Omit::IfFalse),
    ])]);
    let defaults = Instance::Record(vec![
        Instance::Absent,
        Instance::Absent,
        Instance::List(vec![]),
        Instance::Dict(vec![]),
        Instance::Int(7),
        Instance::Bool(true),
        Instance::Bool(false),
    ]);
    let doc = schema.encode(&defaults).unwrap();
    assert_eq!(doc, object(vec![("never", Value::Null)]));
    assert_eq!(schema.decode(&doc), Ok(defaults));
    assert_eq!(schema.decode(&object(vec![])).unwrap(), schema.decode(&doc).unwrap());

    let others = Instance::Record(vec![
        Instance::Present(Box::new(Instance::Text(s("n")))),
        Instance::Present(Box::new(Instance::Text(s("a")))),
        Instance::List(vec![Instance::Int(1)]),
        Instance::Dict(vec![(s("k"), Instance::Int(2))]),
        Instance::Int(8),
        Instance::Bool(false),
        Instance::Bool(true),
    ]);
    let doc = schema.encode(&others).unwrap();
    assert_eq!(
        doc,
        object(vec![
            ("never", Value::String(s("n"))),
            ("if_absent", Value::String(s("a"))),
            ("if_empty", Value::Array(vec![num(1)])),
            ("if_empty_map", object(vec![("k", num(2))])),
            ("if_default", num(8)),
            ("if_true", Value::Bool(false)),
            ("if_false", Value::Bool(true)),
        ])
    );
    assert_eq!(schema.decode(&doc), Ok(others));
}

/// A container that flattens a nested record.
fn flattening(own: &str, nested: &str) -> Vec<Node> {
    vec![
        Node::Record(vec![required(nested, Node::Int)]),
        Node::Record(vec![required(own, Node::Text), flatten("inner", Node::Ref(0))]),
    ]
}

#[test]
fn flatten_merges_the_nested_record_into_one_object() {
    let schema = schema(flattening("name", "size"));
    let x = Instance::Record(vec![Instance::Text(s("a")), Instance::Record(vec![Instance::Int(3)])]);
    let doc = schema.encode(&x).unwrap();
    assert_eq!(doc, object(vec![("name", Value::String(s("a"))), ("size", num(3))]));
    assert_eq!(schema.decode(&doc), Ok(x));
}

#[test]
fn flatten_ignores_members_that_nobody_claims() {
    let schema = schema(flattening("name", "size"));
    let doc = object(vec![("extra", Value::Null), ("size", num(3)), ("name", Value::String(s("a")))]);
    let x = Instance::Record(vec![Instance::Text(s("a")), Instance::Record(vec![Instance::Int(3)])]);
    assert_eq!(schema.decode(&doc), Ok(x));
}

#[test]
fn flatten_collision_fails_when_the_schema_is_made() {
    let r = Schema::new(flattening("size", "size"), 1);
    assert_eq!(r.err(), Some(SchemaDefinitionError { def: 1 }));
}

#[test]
fn repeated_field_name_fails_when_the_schema_is_made() {
    let r = Schema::new(vec![Node::Record(vec![required("a", Node::Int), required("a", Node::Text)])], 0);
    assert_eq!(r.err(), Some(SchemaDefinitionError { def: 0 }));
}

#[test]
fn flatten_of_what_is_no_record_fails_when_the_schema_is_made() {
    let r = Schema::new(vec![Node::Record(vec![flatten("inner", Node::List(Box::new(Node::Int)))])], 0);
    assert_eq!(r.err(), Some(SchemaDefinitionError { def: 0 }));
}

#[test]
fn reference_to_nothing_fails_when_the_schema_is_made() {
    let r = Schema::new(vec![Node::List(Box::new(Node::Ref(3)))], 0);
    assert_eq!(r.err(), Some(SchemaDefinitionError { def: 0 }));
    let r = Schema::new(vec![Node::Bool], 5);
    assert_eq!(r.err(), Some(SchemaDefinitionError { def: 5 }));
}

#[test]
fn reference_to_itself_without_a_step_fails_when_the_schema_is_made() {
    let r = Schema::new(vec![Node::Bool, Node::Optional(Box::new(Node::Ref(1)))], 1);
    assert_eq!(r.err(), Some(SchemaDefinitionError { def: 1 }));
    let r = Schema::new(vec![Node::Bool, Node::Untagged(vec![Node::Ref(0), Node::List(Box::new(Node::Ref(1)))])], 1);
    assert!(r.is_ok());
}

#[test]
fn default_that_is_no_value_of_its_field_fails_when_the_schema_is_made() {
    let r = Schema::new(
        vec![Node::Record(vec![defaulted("a", Node::Bool, Instance::Int(0), Omit::Never)])],
        0,
    );
    assert_eq!(r.err(), Some(SchemaDefinitionError { def: 0 }));
}

/// A tagged union whose branches stand beside the tag.
fn shapes_inline() -> Schema {
    schema(vec![Node::Tagged {
        tag: s("type"),
        content: None,
        branches: vec![
            (s("circle"), Node::Record(vec![required("radius", Node::Int)])),
            (s("rect"), Node::Record(vec![required("w", Node::Int), required("h", Node::Int)])),
            (s("point"), Node::Record(vec![])),
        ],
    }])
}

/// The same union with its branches under a content member.
fn shapes_nested() -> Schema {
    schema(vec![Node::Tagged {
        tag: s("type"),
        content: Some(s("value")),
        branches: vec![
            (s("circle"), Node::Record(vec![required("radius", Node::Int)])),
            (s("count"), Node::Int),
        ],
    }])
}

#[test]
fn tagged_union_dispatches_on_the_tag() {
    let schema = shapes_inline();
    let rect = Instance::Variant(1, Box::new(Instance::Record(vec![Instance::Int(2), Instance::Int(3)])));
    let doc = schema.encode(&rect).unwrap();
    assert_eq!(doc, object(vec![("type", Value::String(s("rect"))), ("w", num(2)), ("h", num(3))]));
    assert_eq!(schema.decode(&doc), Ok(rect));
    let point = Instance::Variant(2, Box::new(Instance::Record(vec![])));
    let doc = schema.encode(&point).unwrap();
    assert_eq!(doc, object(vec![("type", Value::String(s("point")))]));
    assert_eq!(schema.decode(&doc), Ok(point));
}

#[test]
fn tagged_union_reads_the_tag_wherever_it_stands() {
    let schema = shapes_inline();
    let doc = object(vec![("radius", num(4)), ("type", Value::String(s("circle")))]);
    let circle = Instance::Variant(0, Box::new(Instance::Record(vec![Instance::Int(4)])));
    assert_eq!(schema.decode(&doc), Ok(circle));
}

#[test]
fn tagged_union_with_content_member() {
    let schema = shapes_nested();
    let count = Instance::Variant(1, Box::new(Instance::Int(9)));
    let doc = schema.encode(&count).unwrap();
    assert_eq!(doc, object(vec![("type", Value::String(s("count"))), ("value", num(9))]));
    assert_eq!(schema.decode(&doc), Ok(count));
    let no_content = object(vec![("type", Value::String(s("count")))]);
    assert_eq!(
        schema.decode(&no_content),
        Err(fail(ErrorKind::MissingRequiredField { name: s("value") }, &[]))
    );
    let bad_content = object(vec![("type", Value::String(s("count"))), ("value", Value::Null)]);
    assert_eq!(
        schema.decode(&bad_content),
        Err(fail(ErrorKind::Mismatch { expected: Expected::Integer }, &["value"]))
    );
}

#[test]
fn unknown_tag_names_the_tag_and_the_known_ones() {
    let schema = shapes_inline();
    let doc = object(vec![("type", Value::String(s("triangle"))), ("radius", num(1))]);
    assert_eq!(
        schema.decode(&doc),
        Err(fail(
            ErrorKind::UnknownVariant { tag: s("triangle"), known: vec![s("circle"), s("rect"), s("point")] },
            &[]
        ))
    );
}

#[test]
fn missing_tag_for_what_is_no_object_or_has_no_tag() {
    let schema = shapes_inline();
    assert_eq!(schema.decode(&Value::Null), Err(fail(ErrorKind::MissingTag, &[])));
    assert_eq!(schema.decode(&Value::Array(vec![])), Err(fail(ErrorKind::MissingTag, &[])));
    assert_eq!(schema.decode(&object(vec![("radius", num(1))])), Err(fail(ErrorKind::MissingTag, &[])));
    assert_eq!(schema.decode(&object(vec![("type", num(1))])), Err(fail(ErrorKind::MissingTag, &[])));
}

#[test]
fn tagged_union_with_a_repeated_branch_name_is_refused() {
    let r = Schema::new(
        vec![Node::Tagged {
            tag: s("type"),
            content: None,
            branches: vec![(s("a"), Node::Record(vec![])), (s("a"), Node::Record(vec![]))],
        }],
        0,
    );
    assert_eq!(r.err(), Some(SchemaDefinitionError { def: 0 }));
}

#[test]
fn tagged_union_whose_branch_uses_the_tag_name_is_refused() {
    let r = Schema::new(
        vec![Node::Tagged {
            tag: s("type"),
            content: None,
            branches: vec![(s("a"), Node::Record(vec![required("type", Node::Int)]))],
        }],
        0,
    );
    assert_eq!(r.err(), Some(SchemaDefinitionError { def: 0 }));
}

/// Two alternatives that both accept an object with a member `a`.
fn overlapping() -> Schema {
    schema(vec![Node::Untagged(vec![
        Node::Record(vec![required("a", Node::Int)]),
        Node::Record(vec![required("a", Node::Int), defaulted("b", Node::Int, Instance::Int(0), Omit::Never)]),
        Node::Bool,
    ])])
}

#[test]
fn untagged_union_takes_the_first_alternative_that_accepts() {
    let schema = overlapping();
    let doc = object(vec![("a", num(1)), ("b", num(2))]);
    let first = Instance::Variant(0, Box::new(Instance::Record(vec![Instance::Int(1)])));
    assert_eq!(schema.decode(&doc), Ok(first));
    assert_eq!(schema.decode(&Value::Bool(true)), Ok(Instance::Variant(2, Box::new(Instance::Bool(true)))));
}

#[test]
fn untagged_union_does_not_coerce() {
    let schema = schema(vec![Node::Untagged(vec![Node::Bool, Node::Text])]);
    assert_eq!(
        schema.decode(&Value::String(s("true"))),
        Ok(Instance::Variant(1, Box::new(Instance::Text(s("true")))))
    );
    assert_eq!(schema.decode(&Value::Bool(true)), Ok(Instance::Variant(0, Box::new(Instance::Bool(true)))));
}

#[test]
fn untagged_union_says_how_many_alternatives_it_tried() {
    let schema = overlapping();
    assert_eq!(schema.decode(&Value::Null), Err(fail(ErrorKind::NoMatchingVariant { tried: 3 }, &[])));
    assert_eq!(schema.decode(&object(vec![])), Err(fail(ErrorKind::NoMatchingVariant { tried: 3 }, &[])));
}

#[test]
fn shadowed_alternative_does_not_read_back() {
    let schema = overlapping();
    let second = Instance::Variant(1, Box::new(Instance::Record(vec![Instance::Int(1), Instance::Int(2)])));
    assert!(!schema.is_legal(&second));
    let doc = schema.encode(&second).unwrap();
    assert_eq!(doc, object(vec![("a", num(1)), ("b", num(2))]));
    let first = Instance::Variant(0, Box::new(Instance::Record(vec![Instance::Int(1)])));
    assert_eq!(schema.decode(&doc), Ok(first));
}

#[test]
fn integers_must_fit_sixty_four_signed_bits() {
    let schema = schema(vec![Node::Int]);
    assert_eq!(schema.decode(&num(0)), Ok(Instance::Int(0)));
    assert_eq!(schema.decode(&num(i64::MAX as u64)), Ok(Instance::Int(i64::MAX)));
    assert_eq!(schema.decode(&Value::Number(Number::NegInt(i64::MIN))), Ok(Instance::Int(i64::MIN)));
    let wrong = Err(fail(ErrorKind::Mismatch { expected: Expected::Integer }, &[]));
    assert_eq!(schema.decode(&num(i64::MAX as u64 + 1)), wrong);
    assert_eq!(schema.decode(&Value::Number(Number::Float(1.5f64.to_bits()))), wrong);
    assert_eq!(schema.decode(&Value::String(s("1"))), wrong);
    assert_eq!(schema.encode(&Instance::Int(5)), Some(num(5)));
    assert_eq!(schema.encode(&Instance::Int(-5)), Some(Value::Number(Number::NegInt(-5))));
}

#[test]
fn numbers_pass_through_unchanged() {
    let schema = schema(vec![Node::Number]);
    for n in [Number::PosInt(42), Number::NegInt(-1), Number::Float(1.9e10f64.to_bits())] {
        assert_eq!(schema.decode(&Value::Number(n)), Ok(Instance::Number(n)));
        assert_eq!(schema.encode(&Instance::Number(n)), Some(Value::Number(n)));
    }
    assert_eq!(
        schema.decode(&Value::Bool(true)),
        Err(fail(ErrorKind::Mismatch { expected: Expected::Number }, &[]))
    );
}

#[test]
fn mismatched_kinds_name_what_was_expected() {
    let cases = vec![
        (Node::Bool, Expected::Bool),
        (Node::Text, Expected::String),
        (Node::Colour, Expected::String),
        (Node::Keyword(vec![s("a")]), Expected::String),
        (Node::List(Box::new(Node::Bool)), Expected::Array),
        (Node::Dict(Box::new(Node::Bool)), Expected::Object),
        (Node::Record(vec![]), Expected::Object),
    ];
    for (node, expected) in cases {
        let schema = schema(vec![node]);
        assert_eq!(schema.decode(&num(1)), Err(fail(ErrorKind::Mismatch { expected }, &[])));
    }
}

#[test]
fn keyword_reads_one_of_its_words() {
    let schema = schema(vec![Node::Keyword(vec![s("goal"), s("task")])]);
    assert_eq!(schema.decode(&Value::String(s("task"))), Ok(Instance::Keyword(1)));
    assert_eq!(schema.encode(&Instance::Keyword(0)), Some(Value::String(s("goal"))));
    assert_eq!(schema.encode(&Instance::Keyword(2)), None);
    assert_eq!(
        schema.decode(&Value::String(s("Task"))),
        Err(fail(ErrorKind::UnknownVariant { tag: s("Task"), known: vec![s("goal"), s("task")] }, &[]))
    );
}

#[test]
fn colour_scalar_inside_a_schema() {
    let schema = schema(vec![Node::Colour]);
    let c = HexColour { red: 0x66, green: 0xCC, blue: 0xFF };
    assert_eq!(schema.decode(&Value::String(s("#66ccff"))), Ok(Instance::Colour(c)));
    assert_eq!(schema.encode(&Instance::Colour(c)), Some(Value::String(s("#66CCFF"))));
    assert_eq!(schema.decode(&Value::String(s("#6CF"))), Err(fail(ErrorKind::Format, &[])));
}

#[test]
fn errors_carry_the_path_of_fields() {
    let schema = schema(vec![Node::Record(vec![required(
        "outer",
        Node::Record(vec![required("items", Node::List(Box::new(Node::Dict(Box::new(Node::Bool)))))]),
    )])]);
    let doc = object(vec![(
        "outer",
        object(vec![("items", Value::Array(vec![object(vec![("k", Value::Bool(true)), ("bad", num(1))])]))]),
    )]);
    assert_eq!(
        schema.decode(&doc),
        Err(fail(ErrorKind::Mismatch { expected: Expected::Bool }, &["outer", "items", "bad"]))
    );
}

#[test]
fn first_failure_in_declaration_order_is_reported() {
    let schema = schema(vec![Node::Record(vec![required("a", Node::Int), required("b", Node::Int)])]);
    assert_eq!(
        schema.decode(&object(vec![])),
        Err(fail(ErrorKind::MissingRequiredField { name: s("a") }, &[]))
    );
    assert_eq!(
        schema.decode(&object(vec![("b", Value::Null), ("a", Value::Null)])),
        Err(fail(ErrorKind::Mismatch { expected: Expected::Integer }, &["a"]))
    );
}

#[test]
fn first_member_of_a_name_is_the_one_read() {
    let schema = schema(vec![Node::Record(vec![required("a", Node::Int)])]);
    let doc = object(vec![("a", num(1)), ("a", num(2))]);
    assert_eq!(schema.decode(&doc), Ok(Instance::Record(vec![Instance::Int(1)])));
}

#[test]
fn encode_refuses_what_is_no_value_of_the_schema() {
    let schema = flagged();
    assert_eq!(schema.encode(&Instance::Bool(true)), None);
    assert_eq!(schema.encode(&Instance::Record(vec![Instance::Text(s("a"))])), None);
    assert_eq!(schema.encode(&Instance::Record(vec![Instance::Bool(true), Instance::Bool(true)])), None);
}

/// A tree of named nodes, each with its children: a schema that refers to
/// itself.
fn tree() -> Schema {
    schema(vec![Node::Record(vec![
        required("name", Node::Text),
        defaulted("children", Node::List(Box::new(Node::Ref(0))), Instance::List(vec![]), Omit::IfEmpty),
    ])])
}

fn leaf(name: &str) -> Instance {
    Instance::Record(vec![Instance::Text(s(name)), Instance::List(vec![])])
}

#[test]
fn recursive_schema_round_trips_nested_values() {
    let schema = tree();
    let x = Instance::Record(vec![
        Instance::Text(s("root")),
        Instance::List(vec![
            leaf("a"),
            Instance::Record(vec![Instance::Text(s("b")), Instance::List(vec![leaf("c")])]),
        ]),
    ]);
    let doc = schema.encode(&x).unwrap();
    assert_eq!(
        doc,
        object(vec![
            ("name", Value::String(s("root"))),
            (
                "children",
                Value::Array(vec![
                    object(vec![("name", Value::String(s("a")))]),
                    object(vec![
                        ("name", Value::String(s("b"))),
                        ("children", Value::Array(vec![object(vec![("name", Value::String(s("c")))])])),
                    ]),
                ])
            ),
        ])
    );
    assert_eq!(schema.decode(&doc), Ok(x));
}

#[test]
fn deep_nesting_is_bounded_by_the_document_only() {
    let schema = tree();
    let mut x = leaf("0");
    for i in 1..200 {
        x = Instance::Record(vec![Instance::Text(i.to_string()), Instance::List(vec![x])]);
    }
    let doc = schema.encode(&x).unwrap();
    assert_eq!(schema.decode(&doc), Ok(x));
}

#[test]
fn canonical_documents_are_written_back_unchanged() {
    let schema = tree();
    let doc = object(vec![
        ("name", Value::String(s("root"))),
        ("children", Value::Array(vec![object(vec![("name", Value::String(s("a")))])])),
    ]);
    let x = schema.decode(&doc).unwrap();
    assert_eq!(schema.encode(&x), Some(doc));
}

#[test]
fn documents_that_are_not_canonical_are_normalised() {
    let schema = tree();
    let doc = object(vec![
        ("children", Value::Array(vec![])),
        ("unknown", Value::Null),
        ("name", Value::String(s("root"))),
    ]);
    let x = schema.decode(&doc).unwrap();
    assert_eq!(schema.encode(&x), Some(object(vec![("name", Value::String(s("root")))])));
}

#[test]
fn legal_values_are_those_that_read_back() {
    let schema = overlapping();
    let first = Instance::Variant(0, Box::new(Instance::Record(vec![Instance::Int(1)])));
    assert!(schema.is_legal(&first));
    assert!(schema.is_legal(&Instance::Variant(2, Box::new(Instance::Bool(false)))));
    assert!(!schema.is_legal(&Instance::Bool(false)));

    // a field that is left out must hold its default
    let odd = Schema::new(
        vec![Node::Record(vec![defaulted("a", Node::Bool, Instance::Bool(true), Omit::IfFalse)])],
        0,
    )
    .unwrap();
    let hidden = Instance::Record(vec![Instance::Bool(false)]);
    assert!(!odd.is_legal(&hidden));
    let doc = odd.encode(&hidden).unwrap();
    assert_eq!(odd.decode(&doc), Ok(Instance::Record(vec![Instance::Bool(true)])));
    assert!(odd.is_legal(&Instance::Record(vec![Instance::Bool(true)])));

    // an optional value that is there must not be written as null
    let nested = Schema::new(vec![Node::Optional(Box::new(Node::Optional(Box::new(Node::Int))))], 0).unwrap();
    let inner_absent = Instance::Present(Box::new(Instance::Absent));
    assert!(!nested.is_legal(&inner_absent));
    assert_eq!(nested.decode(&nested.encode(&inner_absent).unwrap()), Ok(Instance::Absent));
    assert!(nested.is_legal(&Instance::Present(Box::new(Instance::Present(Box::new(Instance::Int(1)))))));
}

#[test]
fn optional_values_are_null_or_there() {
    let schema = schema(vec![Node::Optional(Box::new(Node::Int))]);
    assert_eq!(schema.decode(&Value::Null), Ok(Instance::Absent));
    assert_eq!(schema.decode(&num(3)), Ok(Instance::Present(Box::new(Instance::Int(3)))));
    assert_eq!(schema.encode(&Instance::Absent), Some(Value::Null));
    assert_eq!(schema.encode(&Instance::Present(Box::new(Instance::Int(3)))), Some(num(3)));
}

#[test]
fn maps_keep_document_order() {
    let schema = schema(vec![Node::Dict(Box::new(Node::Int))]);
    let doc = object(vec![("b", num(1)), ("a", num(2))]);
    let x = Instance::Dict(vec![(s("b"), Instance::Int(1)), (s("a"), Instance::Int(2))]);
    assert_eq!(schema.decode(&doc), Ok(x));
    let x = Instance::Dict(vec![(s("b"), Instance::Int(1)), (s("a"), Instance::Int(2))]);
    assert_eq!(schema.encode(&x), Some(doc));
}

#[test]
fn instances_compare_and_copy_deeply() {
    let x = Instance::Record(vec![
        Instance::Text(s("a")),
        Instance::List(vec![Instance::Variant(1, Box::new(Instance::Dict(vec![(s("k"), Instance::Absent)])))]),
    ]);
    let y = x.duplicate();
    assert!(x.same(&y));
    assert_eq!(x, y);
    let z = Instance::Record(vec![Instance::Text(s("a")), Instance::List(vec![])]);
    assert!(!x.same(&z));
}
