use struct2swagger::{fragment_for, Bound, JsonSchemaDefinition, Primitive, Schema};

fn integer(minimum: i128, maximum: u128) -> Schema {
    Schema::Integer {
        minimum: Bound {
            negative: minimum < 0,
            magnitude: minimum.unsigned_abs(),
            exponent: 0,
        },
        maximum: Bound { negative: false, magnitude: maximum, exponent: 0 },
    }
}

fn bound_as_f64(b: &Bound) -> f64 {
    let sign = if b.negative { "-" } else { "" };
    format!("{}{}e{}", sign, b.magnitude, b.exponent).parse::<f64>().unwrap()
}

fn number_range(s: &Schema) -> (f64, f64) {
    match s {
        Schema::Number { minimum, maximum } => (bound_as_f64(minimum), bound_as_f64(maximum)),
        _ => panic!("not a number fragment: {:?}", s),
    }
}

#[test]
fn impl_data_types_get_schema_type_u8() {
    assert_eq!(<u8>::get_json_schema_definition(), integer(0, 255));
}

#[test]
fn get_schema_type_i8() {
    let actual = <i8>::get_json_schema_definition();
    assert_eq!(actual, integer(-128, 127));
}

#[test]
fn get_schema_type_f32() {
    let actual = fragment_for(Primitive::F32);
    assert_eq!(
        number_range(&actual),
        (
            -340_282_346_638_528_860_000_000_000_000_000_000_000.0,
            340_282_346_638_528_860_000_000_000_000_000_000_000.0,
        )
    );
    assert_eq!(number_range(&actual).1, f32::MAX as f64);
}

#[test]
fn get_schema_type_f64() {
    let actual = fragment_for(Primitive::F64);
    let (minimum, maximum) = number_range(&actual);
    assert_eq!(minimum, -179_769_313_486_231_570_000_000_000_000_000_000_000_000_000_000_000_000_000_000_000_000_000_000_000_000_000_000_000_000_000_000_000_000_000_000_000_000_000_000_000_000_000_000_000_000_000_000_000_000_000_000_000_000_000_000_000_000_000_000_000_000_000_000_000_000_000_000_000_000_000_000_000_000_000_000_000_000_000_000_000_000_000_000_000_000_000_000_000_000_000_000_000_000_000_000_000_000_000_000_000_000_000.0);
    assert_eq!(maximum, 179_769_313_486_231_570_000_000_000_000_000_000_000_000_000_000_000_000_000_000_000_000_000_000_000_000_000_000_000_000_000_000_000_000_000_000_000_000_000_000_000_000_000_000_000_000_000_000_000_000_000_000_000_000_000_000_000_000_000_000_000_000_000_000_000_000_000_000_000_000_000_000_000_000_000_000_000_000_000_000_000_000_000_000_000_000_000_000_000_000_000_000_000_000_000_000_000_000_000_000_000_000_000.0);
    assert_eq!(maximum, f64::MAX);
}

#[test]
fn get_schema_type_boolean() {
    assert_eq!(<bool>::get_json_schema_definition(), Schema::Boolean);
}

#[test]
fn get_schema_type_string() {
    assert_eq!(String::get_json_schema_definition(), Schema::Text);
}

#[test]
fn get_schema_type_str() {
    assert_eq!(<&str>::get_json_schema_definition(), Schema::Text);
}

#[test]
fn get_schema_type_option() {
    assert_eq!(<Option<String>>::get_json_schema_definition(), Schema::Text);
}

#[test]
fn every_integer_width_carries_its_native_range() {
    assert_eq!(fragment_for(Primitive::I16), integer(i16::MIN as i128, i16::MAX as u128));
    assert_eq!(fragment_for(Primitive::I32), integer(i32::MIN as i128, i32::MAX as u128));
    assert_eq!(fragment_for(Primitive::I64), integer(i64::MIN as i128, i64::MAX as u128));
    assert_eq!(fragment_for(Primitive::I128), integer(i128::MIN, i128::MAX as u128));
    assert_eq!(fragment_for(Primitive::Isize), integer(isize::MIN as i128, isize::MAX as u128));
    assert_eq!(fragment_for(Primitive::U16), integer(0, u16::MAX as u128));
    assert_eq!(fragment_for(Primitive::U32), integer(0, u32::MAX as u128));
    assert_eq!(fragment_for(Primitive::U64), integer(0, u64::MAX as u128));
    assert_eq!(fragment_for(Primitive::U128), integer(0, u128::MAX));
    assert_eq!(fragment_for(Primitive::Usize), integer(0, usize::MAX as u128));
}

#[test]
fn fragment_depends_on_kind_only() {
    assert_eq!(fragment_for(Primitive::U8), fragment_for(Primitive::U8));
    assert_eq!(fragment_for(Primitive::U8), <u8>::get_json_schema_definition());
    assert_ne!(fragment_for(Primitive::U8), fragment_for(Primitive::I8));
}

#[test]
fn sequences_wrap_their_element_under_items() {
    let expected = Schema::Array {
        items: Box::new(Schema::Array {
            items: Box::new(Schema::Array { items: Box::new(integer(0, 255)) }),
        }),
    };
    assert_eq!(<Vec<Vec<Vec<u8>>>>::get_json_schema_definition(), expected);
    assert_eq!(
        <[u8; 4]>::get_json_schema_definition(),
        Schema::Array { items: Box::new(integer(0, 255)) }
    );
    assert_eq!(
        <[u8]>::get_json_schema_definition(),
        Schema::Array { items: Box::new(integer(0, 255)) }
    );
}
