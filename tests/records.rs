use struct2swagger::{
    classify, get_fields, Bound, Delimiter, FieldDescriptor, ParameterIn, Primitive, Property,
    RecordShape, Schema, SchemaRegistry, SynthesisError, Token, TypeExpr,
};

/// Splits the text of a type expression into tokens, with brackets as groups.
fn lex(chars: &[char], pos: &mut usize) -> Vec<Token> {
    let mut out = Vec::new();
    while *pos < chars.len() {
        let c = chars[*pos];
        if c.is_whitespace() {
            *pos += 1;
        } else if c.is_alphanumeric() || c == '_' {
            let start = *pos;
            while *pos < chars.len() && (chars[*pos].is_alphanumeric() || chars[*pos] == '_') {
                *pos += 1;
            }
            let word: String = chars[start..*pos].iter().collect();
            if c.is_ascii_digit() {
                out.push(Token::Literal(word));
            } else {
                out.push(Token::Ident(word));
            }
        } else if c == '[' {
            *pos += 1;
            let inner = lex(chars, pos);
            out.push(Token::Group { delimiter: Delimiter::Bracket, tokens: inner });
        } else if c == ']' {
            *pos += 1;
            return out;
        } else {
            out.push(Token::Punct(c));
            *pos += 1;
        }
    }
    out
}

fn tokens(src: &str) -> Vec<Token> {
    let chars: Vec<char> = src.chars().collect();
    let mut pos = 0;
    lex(&chars, &mut pos)
}

fn shape(fields: &[(&str, &str)]) -> RecordShape {
    RecordShape::NamedFields(
        fields
            .iter()
            .map(|(name, ty)| FieldDescriptor { name: name.to_string(), ty: tokens(ty) })
            .collect(),
    )
}

fn u8_schema() -> Schema {
    Schema::Integer {
        minimum: Bound { negative: false, magnitude: 0, exponent: 0 },
        maximum: Bound { negative: false, magnitude: 255, exponent: 0 },
    }
}

fn object(properties: Vec<(&str, Schema)>, required: &[&str]) -> Schema {
    Schema::Object {
        properties: properties
            .into_iter()
            .map(|(name, schema)| Property { name: name.to_string(), schema })
            .collect(),
        required: if required.is_empty() {
            None
        } else {
            Some(required.iter().map(|s| s.to_string()).collect())
        },
    }
}

fn array(items: Schema) -> Schema {
    Schema::Array { items: Box::new(items) }
}

fn simple_struct_schema() -> Schema {
    object(vec![("val1", u8_schema()), ("val2", Schema::Text)], &["val1", "val2"])
}

fn registry_with(name: &str, fields: &[(&str, &str)]) -> SchemaRegistry {
    let mut reg = SchemaRegistry::new();
    reg.register(name.to_string(), shape(fields)).unwrap();
    reg
}

#[test]
fn simple_struct() {
    let reg = registry_with("SimpleStruct", &[("val1", "u8"), ("val2", "String")]);
    let t = reg.get_json_schema_definition("SimpleStruct").unwrap();
    assert_eq!(t, simple_struct_schema());
}

#[test]
fn struct_with_arrays() {
    let reg = registry_with(
        "StructWithArrays",
        &[("val1", "Vec<u8>"), ("val2", "std::vec::Vec<String>"), ("val3", "Vec<Vec<Vec<u8>>>")],
    );
    let t = reg.get_json_schema_definition("StructWithArrays").unwrap();
    assert_eq!(
        t,
        object(
            vec![
                ("val1", array(u8_schema())),
                ("val2", array(Schema::Text)),
                ("val3", array(array(array(u8_schema())))),
            ],
            &["val1", "val2", "val3"],
        )
    );
}

#[test]
fn struct_with_option() {
    let reg = registry_with(
        "StructWithOption",
        &[("val1", "u8"), ("val2", "Option<u8>"), ("val3", "Option<String>")],
    );
    let t = reg.get_json_schema_definition("StructWithOption").unwrap();
    assert_eq!(
        t,
        object(
            vec![("val1", u8_schema()), ("val2", u8_schema()), ("val3", Schema::Text)],
            &["val1"],
        )
    );
}

#[test]
fn struct_with_struct() {
    let mut reg = registry_with("MySubStruct", &[("val1", "u8"), ("val2", "String")]);
    reg.register(
        "StructWithStruct".to_string(),
        shape(&[("val1", "u8"), ("val2", "MySubStruct"), ("val3", "Vec<MySubStruct>")]),
    )
    .unwrap();
    let t = reg.get_json_schema_definition("StructWithStruct").unwrap();
    assert_eq!(
        t,
        object(
            vec![
                ("val1", u8_schema()),
                ("val2", simple_struct_schema()),
                ("val3", array(simple_struct_schema())),
            ],
            &["val1", "val2", "val3"],
        )
    );
}

#[test]
fn impl_swagger_trait_get_schema_type_u8() {
    let fields =
        get_fields(shape(&[("val1", "u8"), ("val2", "String"), ("val3", "Vec<u8>")])).unwrap();
    let names: Vec<&str> = fields.iter().map(|f| f.name.as_str()).collect();
    assert_eq!(names, vec!["val1", "val2", "val3"]);
}

#[test]
fn non_structs_and_unnamed_fields_are_refused() {
    assert_eq!(get_fields(RecordShape::Enum).unwrap_err(), SynthesisError::NotAStruct);
    assert_eq!(get_fields(RecordShape::Union).unwrap_err(), SynthesisError::NotAStruct);
    assert_eq!(get_fields(RecordShape::UnnamedFields).unwrap_err(), SynthesisError::UnnamedFields);
    assert_eq!(get_fields(RecordShape::Unit).unwrap_err(), SynthesisError::UnnamedFields);
    let mut reg = SchemaRegistry::new();
    assert_eq!(reg.register("E".to_string(), RecordShape::Enum), Err(SynthesisError::NotAStruct));
    assert_eq!(
        reg.register("T".to_string(), RecordShape::UnnamedFields),
        Err(SynthesisError::UnnamedFields)
    );
    assert!(reg.get_json_schema_definition("E").is_none());
}

#[test]
fn registration_errors_name_the_faulty_field() {
    let mut reg = registry_with("A", &[("x", "u8")]);
    assert_eq!(
        reg.register("A".to_string(), shape(&[("y", "u8")])),
        Err(SynthesisError::DuplicateRecord)
    );
    assert_eq!(
        reg.register("B".to_string(), shape(&[("x", "u8"), ("y", "HashMap<u8, u8>")])),
        Err(SynthesisError::UnsupportedType(1))
    );
    assert_eq!(
        reg.register("B".to_string(), shape(&[("x", "Missing"), ("y", "u8")])),
        Err(SynthesisError::UnknownRecord(0))
    );
    assert_eq!(
        reg.register("B".to_string(), shape(&[("x", "Vec<B>")])),
        Err(SynthesisError::UnknownRecord(0))
    );
    assert!(reg.get_json_schema_definition("B").is_none());
    assert!(reg.get_query_definitions("B").is_none());
}

#[test]
fn required_set_ignores_optionals_inside_sequences() {
    let reg = registry_with(
        "R",
        &[("a", "Vec<Option<u8>>"), ("b", "Option<Vec<u8>>"), ("c", "[Option<bool>; 3]")],
    );
    let t = reg.get_json_schema_definition("R").unwrap();
    match t {
        Schema::Object { required, .. } => {
            assert_eq!(required, Some(vec!["a".to_string(), "c".to_string()]))
        },
        _ => panic!("not an object"),
    }
}

#[test]
fn all_optional_record_has_no_required_entry() {
    let reg = registry_with("R", &[("a", "Option<u8>"), ("b", "Option<String>")]);
    let t = reg.get_json_schema_definition("R").unwrap();
    assert_eq!(t, object(vec![("a", u8_schema()), ("b", Schema::Text)], &[]));
    match t {
        Schema::Object { required, .. } => assert_eq!(required, None),
        _ => panic!("not an object"),
    }
    let empty = registry_with("Empty", &[]);
    assert_eq!(empty.get_json_schema_definition("Empty").unwrap(), object(vec![], &[]));
}

#[test]
fn describing_twice_gives_identical_fragments() {
    let reg = registry_with("SimpleStruct", &[("val1", "u8"), ("val2", "String")]);
    let first = reg.get_json_schema_definition("SimpleStruct").unwrap();
    let second = reg.get_json_schema_definition("SimpleStruct").unwrap();
    assert_eq!(first, second);
}

#[test]
fn query_definitions_one_per_field() {
    let reg = registry_with("Q", &[("val1", "u8"), ("val2", "Option<String>")]);
    let params = reg.get_query_definitions("Q").unwrap();
    assert_eq!(params.len(), 2);
    assert_eq!(params[0].name, "val1");
    assert_eq!(params[0].where_in, ParameterIn::Query);
    assert_eq!(params[0].required, Some(true));
    assert_eq!(params[0].schema, Some(u8_schema()));
    assert_eq!(params[1].name, "val2");
    assert_eq!(params[1].required, Some(false));
    assert_eq!(params[1].schema, Some(Schema::Text));
    assert!(params[1].description.is_none());
    assert!(params[1].deprecated.is_none());
    assert!(params[1].allow_empty_value.is_none());
}

#[test]
fn classification_of_type_expressions() {
    assert_eq!(classify(&tokens("u8")), Some(TypeExpr::Primitive(Primitive::U8)));
    assert_eq!(classify(&tokens("&'static str")), Some(TypeExpr::Primitive(Primitive::Text)));
    assert_eq!(classify(&tokens("&mut f64")), Some(TypeExpr::Primitive(Primitive::F64)));
    assert_eq!(
        classify(&tokens("::std::option::Option<bool>")),
        Some(TypeExpr::Optional(Box::new(TypeExpr::Primitive(Primitive::Bool))))
    );
    assert_eq!(
        classify(&tokens("[i32]")),
        Some(TypeExpr::Sequence(Box::new(TypeExpr::Primitive(Primitive::I32))))
    );
    assert_eq!(
        classify(&tokens("crate::Thing")),
        Some(TypeExpr::Nested("Thing".to_string()))
    );
    assert_eq!(classify(&tokens("")), None);
    assert_eq!(classify(&tokens("Vec<u8")), None);
    assert_eq!(classify(&tokens("Box<u8>")), None);
    assert_eq!(classify(&tokens("(u8, u8)")), None);
    assert_eq!(classify(&tokens("Vec<u8, u8>")), None);
}
