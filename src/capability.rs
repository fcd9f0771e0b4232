use vstd::prelude::*;

use crate::document::ParameterObject;
use crate::primitive::{fragment_for, fragment_model, Primitive};
use crate::schema::{Schema, SchemaModel};

verus! {

/// A type that can describe its own shape as a schema fragment.
///
/// Containers describe themselves through their element type: an optional
/// value has its inner type's fragment, a sequence wraps it under `items`.
pub trait JsonSchemaDefinition {
    spec fn schema_model() -> SchemaModel;

    fn get_json_schema_definition() -> (r: Schema)
        ensures
            r@ == Self::schema_model(),
    ;
}

/// A type whose fields can be documented as query parameters, one per
/// field, in declaration order.
pub trait QueryDefinition {
    fn get_query_definitions() -> Vec<ParameterObject>;
}

impl JsonSchemaDefinition for i8 {
    open spec fn schema_model() -> SchemaModel {
        fragment_model(Primitive::I8)
    }

    fn get_json_schema_definition() -> (r: Schema) {
        fragment_for(Primitive::I8)
    }
}

impl JsonSchemaDefinition for i16 {
    open spec fn schema_model() -> SchemaModel {
        fragment_model(Primitive::I16)
    }

    fn get_json_schema_definition() -> (r: Schema) {
        fragment_for(Primitive::I16)
    }
}

impl JsonSchemaDefinition for i32 {
    open spec fn schema_model() -> SchemaModel {
        fragment_model(Primitive::I32)
    }

    fn get_json_schema_definition() -> (r: Schema) {
        fragment_for(Primitive::I32)
    }
}

impl JsonSchemaDefinition for i64 {
    open spec fn schema_model() -> SchemaModel {
        fragment_model(Primitive::I64)
    }

    fn get_json_schema_definition() -> (r: Schema) {
        fragment_for(Primitive::I64)
    }
}

impl JsonSchemaDefinition for i128 {
    open spec fn schema_model() -> SchemaModel {
        fragment_model(Primitive::I128)
    }

    fn get_json_schema_definition() -> (r: Schema) {
        fragment_for(Primitive::I128)
    }
}

impl JsonSchemaDefinition for isize {
    open spec fn schema_model() -> SchemaModel {
        fragment_model(Primitive::Isize)
    }

    fn get_json_schema_definition() -> (r: Schema) {
        fragment_for(Primitive::Isize)
    }
}

impl JsonSchemaDefinition for u8 {
    open spec fn schema_model() -> SchemaModel {
        fragment_model(Primitive::U8)
    }

    fn get_json_schema_definition() -> (r: Schema) {
        fragment_for(Primitive::U8)
    }
}

impl JsonSchemaDefinition for u16 {
    open spec fn schema_model() -> SchemaModel {
        fragment_model(Primitive::U16)
    }

    fn get_json_schema_definition() -> (r: Schema) {
        fragment_for(Primitive::U16)
    }
}

impl JsonSchemaDefinition for u32 {
    open spec fn schema_model() -> SchemaModel {
        fragment_model(Primitive::U32)
    }

    fn get_json_schema_definition() -> (r: Schema) {
        fragment_for(Primitive::U32)
    }
}

impl JsonSchemaDefinition for u64 {
    open spec fn schema_model() -> SchemaModel {
        fragment_model(Primitive::U64)
    }

    fn get_json_schema_definition() -> (r: Schema) {
        fragment_for(Primitive::U64)
    }
}

impl JsonSchemaDefinition for u128 {
    open spec fn schema_model() -> SchemaModel {
        fragment_model(Primitive::U128)
    }

    fn get_json_schema_definition() -> (r: Schema) {
        fragment_for(Primitive::U128)
    }
}

impl JsonSchemaDefinition for usize {
    open spec fn schema_model() -> SchemaModel {
        fragment_model(Primitive::Usize)
    }

    fn get_json_schema_definition() -> (r: Schema) {
        fragment_for(Primitive::Usize)
    }
}

impl JsonSchemaDefinition for bool {
    open spec fn schema_model() -> SchemaModel {
        fragment_model(Primitive::Bool)
    }

    fn get_json_schema_definition() -> (r: Schema) {
        fragment_for(Primitive::Bool)
    }
}

impl JsonSchemaDefinition for String {
    open spec fn schema_model() -> SchemaModel {
        fragment_model(Primitive::Text)
    }

    fn get_json_schema_definition() -> (r: Schema) {
        fragment_for(Primitive::Text)
    }
}

impl<'a> JsonSchemaDefinition for &'a str {
    open spec fn schema_model() -> SchemaModel {
        fragment_model(Primitive::Text)
    }

    fn get_json_schema_definition() -> (r: Schema) {
        fragment_for(Primitive::Text)
    }
}

impl<T: JsonSchemaDefinition> JsonSchemaDefinition for Option<T> {
    open spec fn schema_model() -> SchemaModel {
        T::schema_model()
    }

    fn get_json_schema_definition() -> (r: Schema) {
        T::get_json_schema_definition()
    }
}

impl<T: JsonSchemaDefinition> JsonSchemaDefinition for Vec<T> {
    open spec fn schema_model() -> SchemaModel {
        SchemaModel::Array { items: Box::new(T::schema_model()) }
    }

    fn get_json_schema_definition() -> (r: Schema) {
        Schema::Array { items: Box::new(T::get_json_schema_definition()) }
    }
}

impl<T: JsonSchemaDefinition, const N: usize> JsonSchemaDefinition for [T; N] {
    open spec fn schema_model() -> SchemaModel {
        SchemaModel::Array { items: Box::new(T::schema_model()) }
    }

    fn get_json_schema_definition() -> (r: Schema) {
        Schema::Array { items: Box::new(T::get_json_schema_definition()) }
    }
}

impl<T: JsonSchemaDefinition> JsonSchemaDefinition for [T] {
    open spec fn schema_model() -> SchemaModel {
        SchemaModel::Array { items: Box::new(T::schema_model()) }
    }

    fn get_json_schema_definition() -> (r: Schema) {
        Schema::Array { items: Box::new(T::get_json_schema_definition()) }
    }
}

} // verus!
