//! JSON Schema fragments and OpenAPI query-parameter descriptors derived from
//! record descriptions, and the assembly of those fragments into an API
//! document.
//!
//! A record is offered as its list of fields, each with the token sequence
//! of its declared type. Each type expression is classified as a primitive,
//! an optional, a sequence or a nested record; the schema of a record and its
//! parameter list are then built afresh from those classifications whenever
//! they are asked for.

pub mod capability;
pub mod document;
pub mod primitive;
pub mod record;
pub mod schema;
pub mod tokens;

pub use capability::{JsonSchemaDefinition, QueryDefinition};
pub use document::{
    ContactObject, ExternalDocumentationObject, InfoObject, LicenseObject, MediaTypeObject,
    OperationObject, ParameterIn, ParameterObject, PathItemObject, RequestBodyObject,
    ResponseObject, ResponsesObject, ServerObject, ServerVariableObject, SwaggerObject,
    SwaggerVersion, TagObject,
};
pub use primitive::{fragment_for, signed_bound, unsigned_bound, Primitive};
pub use record::{
    get_fields, Field, FieldDescriptor, Record, RecordShape, SchemaRegistry, SynthesisError,
};
pub use schema::{Bound, Property, Schema, SchemaModel};
pub use tokens::{classify, Delimiter, Token, TypeExpr, TypeModel};
