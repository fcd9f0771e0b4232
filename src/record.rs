use vstd::prelude::*;

use crate::document::{ParameterIn, ParameterObject};
use crate::primitive::{fragment_for, fragment_model};
use crate::schema::{
    lemma_properties_view_push, lemma_strings_view_push, properties_view, strings_view, Property,
    Schema, SchemaModel,
};
use crate::tokens::{classify, parse_type, str_eq, Token, TypeExpr, TypeModel};

verus! {

/// A field whose type expression has been classified.
#[derive(Debug)]
pub struct Field {
    pub name: String,
    pub ty: TypeExpr,
}

/// A record registered for description: its name and its fields in
/// declaration order.
#[derive(Debug)]
pub struct Record {
    pub name: String,
    pub fields: Vec<Field>,
}

/// A field as declared: its name and the tokens of its type expression.
#[derive(Debug)]
pub struct FieldDescriptor {
    pub name: String,
    pub ty: Vec<Token>,
}

/// The shape of a declaration that is offered for description.
#[derive(Debug)]
pub enum RecordShape {
    NamedFields(Vec<FieldDescriptor>),
    UnnamedFields,
    Unit,
    Enum,
    Union,
}

/// Why a declaration cannot be described.
#[derive(Clone, Copy, Debug, PartialEq, Eq, Structural)]
pub enum SynthesisError {
    /// The declaration is an enum or a union.
    NotAStruct,
    /// The struct has no named fields.
    UnnamedFields,
    /// A record of that name is registered already.
    DuplicateRecord,
    /// The field at this position has a type expression that is not described.
    UnsupportedType(usize),
    /// The field at this position names a record that is not registered.
    UnknownRecord(usize),
}

/// A field is required unless its type is directly optional.
pub open spec fn is_required(t: TypeModel) -> bool {
    !(t is Optional)
}

/// The names of the required fields, in declaration order.
pub open spec fn required_names(fields: Seq<Field>) -> Seq<Seq<char>>
    decreases fields.len(),
{
    if fields.len() == 0 {
        Seq::empty()
    } else {
        let last = fields[fields.len() - 1];
        let init = required_names(fields.subrange(0, fields.len() - 1));
        if is_required(last.ty@) {
            init.push(last.name@)
        } else {
            init
        }
    }
}

/// The `required` entry of a record's schema: absent when no field is
/// required.
pub open spec fn required_entry(fields: Seq<Field>) -> Option<Seq<Seq<char>>> {
    if required_names(fields).len() == 0 {
        None
    } else {
        Some(required_names(fields))
    }
}

/// Record `j` is named `name` and stands before `bound`.
pub open spec fn defines(records: Seq<Record>, bound: int, name: Seq<char>, j: int) -> bool {
    0 <= j < bound && j < records.len() && records[j].name@ == name
}

/// Every record that `t` names stands before `bound`.
pub open spec fn resolves(records: Seq<Record>, bound: int, t: TypeModel) -> bool
    decreases t,
{
    match t {
        TypeModel::Primitive(_) => true,
        TypeModel::Optional(inner) => resolves(records, bound, *inner),
        TypeModel::Sequence(inner) => resolves(records, bound, *inner),
        TypeModel::Nested(name) => exists|j: int| defines(records, bound, name, j),
    }
}

pub open spec fn names_unique(records: Seq<Record>) -> bool {
    forall|i: int, j: int|
        0 <= i < j < records.len() ==> records[i].name@ != records[j].name@
}

/// Record names are unique, and each record names only records registered
/// before it, so that descriptions never recurse without end.
pub open spec fn registry_wf(records: Seq<Record>) -> bool {
    &&& names_unique(records)
    &&& forall|i: int, k: int|
        0 <= i < records.len() && 0 <= k < records[i].fields@.len() ==> resolves(
            records,
            i,
            #[trigger] records[i].fields@[k].ty@,
        )
}

/// How deeply a type expression nests.
pub open spec fn type_depth(t: TypeModel) -> nat
    decreases t,
{
    match t {
        TypeModel::Optional(inner) => 1 + type_depth(*inner),
        TypeModel::Sequence(inner) => 1 + type_depth(*inner),
        _ => 0,
    }
}

/// The fragment of a type whose records are looked up before `bound`.
pub open spec fn type_schema(records: Seq<Record>, bound: nat, t: TypeModel) -> SchemaModel
    decreases bound, 1int, type_depth(t),
{
    match t {
        TypeModel::Primitive(k) => fragment_model(k),
        TypeModel::Optional(inner) => type_schema(records, bound, *inner),
        TypeModel::Sequence(inner) => SchemaModel::Array {
            items: Box::new(type_schema(records, bound, *inner)),
        },
        TypeModel::Nested(name) => if exists|j: int| defines(records, bound as int, name, j) {
            let j = choose|j: int| defines(records, bound as int, name, j);
            record_schema(records, j as nat)
        } else {
            SchemaModel::Object { properties: Seq::empty(), required: None }
        },
    }
}

/// The fragment of the record at position `idx`: an object with one
/// property per field, in declaration order, and the required fields.
pub open spec fn record_schema(records: Seq<Record>, idx: nat) -> SchemaModel
    decreases idx + 1, 0int, 0int,
{
    if idx < records.len() {
        let fields = records[idx as int].fields@;
        SchemaModel::Object {
            properties: Seq::new(
                fields.len(),
                |i: int| (fields[i].name@, type_schema(records, idx, fields[i].ty@)),
            ),
            required: required_entry(fields),
        }
    } else {
        SchemaModel::Object { properties: Seq::empty(), required: None }
    }
}

/// The position of the record named `name`, if one is registered.
pub open spec fn record_named(records: Seq<Record>, name: Seq<char>) -> Option<nat> {
    if exists|j: int| defines(records, records.len() as int, name, j) {
        Some((choose|j: int| defines(records, records.len() as int, name, j)) as nat)
    } else {
        None
    }
}

/// What is wrong with field `i`, if anything.
pub open spec fn field_error(records: Seq<Record>, fields: Seq<FieldDescriptor>, i: int) -> Option<
    SynthesisError,
> {
    match parse_type(fields[i].ty@) {
        None => Some(SynthesisError::UnsupportedType(i as usize)),
        Some(t) => if resolves(records, records.len() as int, t) {
            None
        } else {
            Some(SynthesisError::UnknownRecord(i as usize))
        },
    }
}

/// The error of the first faulty field at or after `from`.
pub open spec fn first_field_error(
    records: Seq<Record>,
    fields: Seq<FieldDescriptor>,
    from: int,
) -> Option<SynthesisError>
    decreases fields.len() - from,
{
    if from < 0 || from >= fields.len() {
        None
    } else if field_error(records, fields, from) is Some {
        field_error(records, fields, from)
    } else {
        first_field_error(records, fields, from + 1)
    }
}

/// Why registering `shape` under `name` fails, or `None` where it succeeds.
pub open spec fn registration_error(records: Seq<Record>, name: Seq<char>, shape: RecordShape) -> Option<
    SynthesisError,
> {
    match shape {
        RecordShape::NamedFields(fs) => if exists|j: int|
            defines(records, records.len() as int, name, j) {
            Some(SynthesisError::DuplicateRecord)
        } else {
            first_field_error(records, fs@, 0)
        },
        RecordShape::UnnamedFields => Some(SynthesisError::UnnamedFields),
        RecordShape::Unit => Some(SynthesisError::UnnamedFields),
        RecordShape::Enum => Some(SynthesisError::NotAStruct),
        RecordShape::Union => Some(SynthesisError::NotAStruct),
    }
}

/// `f` is the classified form of the declared field `d`.
pub open spec fn classifies(f: Field, d: FieldDescriptor) -> bool {
    f.name@ == d.name@ && parse_type(d.ty@) == Some(f.ty@)
}

/// `rec` is the record named `name` with the declared fields `fs`.
pub open spec fn describes(rec: Record, name: Seq<char>, fs: Seq<FieldDescriptor>) -> bool {
    &&& rec.name@ == name
    &&& rec.fields@.len() == fs.len()
    &&& forall|k: int| 0 <= k < fs.len() ==> classifies(#[trigger] rec.fields@[k], fs[k])
}

/// `p` documents field `f` of the record at `idx` as a query parameter.
pub open spec fn parameter_for(records: Seq<Record>, idx: nat, f: Field, p: ParameterObject) -> bool {
    &&& p.name@ == f.name@
    &&& p.where_in == ParameterIn::Query
    &&& p.description is None
    &&& p.required == Some(is_required(f.ty@))
    &&& p.deprecated is None
    &&& p.allow_empty_value is None
    &&& p.schema matches Some(s) && s@ == type_schema(records, idx, f.ty@)
}

/// The fields of a declaration that has named fields.
pub fn get_fields(shape: RecordShape) -> (r: Result<Vec<FieldDescriptor>, SynthesisError>)
    ensures
        match shape {
            RecordShape::NamedFields(fs) => r == Ok::<Vec<FieldDescriptor>, SynthesisError>(fs),
            RecordShape::Enum => r == Err::<Vec<FieldDescriptor>, SynthesisError>(SynthesisError::NotAStruct),
            RecordShape::Union => r == Err::<Vec<FieldDescriptor>, SynthesisError>(SynthesisError::NotAStruct),
            _ => r == Err::<Vec<FieldDescriptor>, SynthesisError>(SynthesisError::UnnamedFields),
        },
{
    match shape {
        RecordShape::NamedFields(fs) => Ok(fs),
        RecordShape::Enum => Err(SynthesisError::NotAStruct),
        RecordShape::Union => Err(SynthesisError::NotAStruct),
        _ => Err(SynthesisError::UnnamedFields),
    }
}

/// Registering a record keeps what earlier types resolve to.
proof fn lemma_resolves_push(records: Seq<Record>, rec: Record, bound: int, t: TypeModel)
    requires
        bound <= records.len(),
        resolves(records, bound, t),
    ensures
        resolves(records.push(rec), bound, t),
    decreases t,
{
    match t {
        TypeModel::Optional(inner) => lemma_resolves_push(records, rec, bound, *inner),
        TypeModel::Sequence(inner) => lemma_resolves_push(records, rec, bound, *inner),
        TypeModel::Nested(name) => {
            let j = choose|j: int| defines(records, bound, name, j);
            assert(defines(records.push(rec), bound, name, j));
        },
        _ => {},
    }
}

/// The schema descriptions of a set of records.
pub struct SchemaRegistry {
    records: Vec<Record>,
}

impl View for SchemaRegistry {
    type V = Seq<Record>;

    closed spec fn view(&self) -> Seq<Record> {
        self.records@
    }
}

impl SchemaRegistry {
    /// Finds the record named `name` before `bound`.
    fn find_record(&self, name: &str, bound: usize) -> (r: Option<usize>)
        requires
            bound <= self@.len(),
        ensures
            match r {
                Some(j) => defines(self@, bound as int, name@, j as int),
                None => !exists|j: int| defines(self@, bound as int, name@, j),
            },
    {
        let mut j: usize = 0;
        while j < bound
            invariant
                j <= bound <= self.records@.len(),
                forall|k: int| 0 <= k < j ==> !defines(self@, bound as int, name@, k),
            decreases bound - j,
        {
            if str_eq(self.records[j].name.as_str(), name) {
                return Some(j);
            }
            j += 1;
        }
        None
    }

    fn type_schema_at(&self, bound: usize, t: &TypeExpr) -> (r: Schema)
        requires
            registry_wf(self@),
            bound <= self@.len(),
            resolves(self@, bound as int, t@),
        ensures
            r@ == type_schema(self@, bound as nat, t@),
        decreases bound, 1int, type_depth(t@),
    {
        match t {
            TypeExpr::Primitive(k) => fragment_for(*k),
            TypeExpr::Optional(inner) => self.type_schema_at(bound, inner),
            TypeExpr::Sequence(inner) => {
                let items = self.type_schema_at(bound, inner);
                Schema::Array { items: Box::new(items) }
            },
            TypeExpr::Nested(name) => {
                match self.find_record(name.as_str(), bound) {
                    Some(j) => {
                        let ghost chosen = choose|j: int|
                            defines(self@, bound as int, name@, j);
                        assert(chosen == j as int);
                        self.record_schema_at(j)
                    },
                    None => {
                        assert(false);
                        Schema::Object { properties: Vec::new(), required: None }
                    },
                }
            },
        }
    }

    fn record_schema_at(&self, idx: usize) -> (r: Schema)
        requires
            registry_wf(self@),
            idx < self@.len(),
        ensures
            r@ == record_schema(self@, idx as nat),
        decreases idx + 1, 0int, 0int,
    {
        let fields = &self.records[idx].fields;
        let ghost fs = fields@;
        let mut properties: Vec<Property> = Vec::new();
        let mut required: Vec<String> = Vec::new();
        let mut i: usize = 0;
        while i < fields.len()
            invariant
                registry_wf(self@),
                idx < self@.len(),
                fs == self@[idx as int].fields@,
                fields@ == fs,
                i <= fs.len(),
                properties_view(properties@) == Seq::new(
                    i as nat,
                    |k: int| (fs[k].name@, type_schema(self@, idx as nat, fs[k].ty@)),
                ),
                strings_view(required@) == required_names(fs.subrange(0, i as int)),
            decreases fs.len() - i,
        {
            let f = &fields[i];
            let s = self.type_schema_at(idx, &f.ty);
            let p = Property { name: f.name.clone(), schema: s };
            proof {
                lemma_properties_view_push(properties@, p);
            }
            properties.push(p);
            let optional = match &f.ty {
                TypeExpr::Optional(_) => true,
                _ => false,
            };
            assert(fs.subrange(0, i + 1).subrange(0, i as int) =~= fs.subrange(0, i as int));
            if !optional {
                let n = f.name.clone();
                proof {
                    lemma_strings_view_push(required@, n);
                }
                required.push(n);
            }
            i += 1;
            assert(properties_view(properties@) =~= Seq::new(
                i as nat,
                |k: int| (fs[k].name@, type_schema(self@, idx as nat, fs[k].ty@)),
            ));
        }
        assert(fs.subrange(0, fs.len() as int) =~= fs);
        assert(strings_view(required@).len() == required@.len());
        assert(properties_view(properties@) =~= Seq::new(
            fs.len(),
            |k: int| (fs[k].name@, type_schema(self@, idx as nat, fs[k].ty@)),
        ));
        let required = if required.len() == 0 {
            None
        } else {
            Some(required)
        };
        let r = Schema::Object { properties, required };
        let ghost m = record_schema(self@, idx as nat);
        assert(m->Object_properties =~= properties_view(properties@));
        assert(m->Object_required == required_entry(fs));
        r
    }

    /// A registry that describes no record yet.
    pub fn new() -> (r: SchemaRegistry)
        ensures
            r@ == Seq::<Record>::empty(),
            registry_wf(r@),
    {
        SchemaRegistry { records: Vec::new() }
    }

    /// Whether every record that `t` names stands before `bound`.
    fn resolves_before(&self, bound: usize, t: &TypeExpr) -> (r: bool)
        requires
            bound <= self@.len(),
        ensures
            r == resolves(self@, bound as int, t@),
        decreases type_depth(t@),
    {
        match t {
            TypeExpr::Primitive(_) => true,
            TypeExpr::Optional(inner) => self.resolves_before(bound, inner),
            TypeExpr::Sequence(inner) => self.resolves_before(bound, inner),
            TypeExpr::Nested(name) => {
                match self.find_record(name.as_str(), bound) {
                    Some(j) => {
                        assert(defines(self@, bound as int, t@->Nested_0, j as int));
                        true
                    },
                    None => false,
                }
            },
        }
    }

    /// Classifies the fields of `shape` and registers them as the record
    /// `name`; a field may name only records registered before.
    pub fn register(&mut self, name: String, shape: RecordShape) -> (r: Result<(), SynthesisError>)
        requires
            registry_wf(old(self)@),
        ensures
            registry_wf(final(self)@),
            match registration_error(old(self)@, name@, shape) {
                Some(e) => r == Err::<(), SynthesisError>(e) && final(self)@ == old(self)@,
                None => {
                    &&& r is Ok
                    &&& final(self)@.len() == old(self)@.len() + 1
                    &&& final(self)@.subrange(0, old(self)@.len() as int) == old(self)@
                    &&& shape matches RecordShape::NamedFields(fs) && describes(
                        final(self)@[old(self)@.len() as int],
                        name@,
                        fs@,
                    )
                },
            },
    {
        let fs = match get_fields(shape) {
            Ok(fs) => fs,
            Err(e) => {
                return Err(e);
            },
        };
        let n = self.records.len();
        if self.find_record(name.as_str(), n).is_some() {
            return Err(SynthesisError::DuplicateRecord);
        }
        let mut fields: Vec<Field> = Vec::new();
        let mut i: usize = 0;
        while i < fs.len()
            invariant
                registry_wf(self@),
                self@ == old(self)@,
                shape == RecordShape::NamedFields(fs),
                !exists|j: int| defines(self@, n as int, name@, j),
                n == self@.len(),
                i <= fs@.len(),
                first_field_error(self@, fs@, 0) == first_field_error(self@, fs@, i as int),
                fields@.len() == i,
                forall|k: int| 0 <= k < i ==> classifies(#[trigger] fields@[k], fs@[k]),
                forall|k: int| 0 <= k < i ==> resolves(self@, n as int, #[trigger] fields@[k].ty@),
            decreases fs@.len() - i,
        {
            let d = &fs[i];
            match classify(&d.ty) {
                None => {
                    return Err(SynthesisError::UnsupportedType(i));
                },
                Some(t) => {
                    if !self.resolves_before(n, &t) {
                        return Err(SynthesisError::UnknownRecord(i));
                    }
                    fields.push(Field { name: d.name.clone(), ty: t });
                },
            }
            i += 1;
        }
        let rec = Record { name, fields };
        let ghost old_records = self@;
        assert forall|j: int, k: int|
            0 <= j < old_records.len() + 1 && 0 <= k < old_records.push(rec)[j].fields@.len() implies resolves(
            old_records.push(rec),
            j,
            #[trigger] old_records.push(rec)[j].fields@[k].ty@,
        ) by {
            if j < old_records.len() {
                lemma_resolves_push(old_records, rec, j, old_records[j].fields@[k].ty@);
            } else {
                lemma_resolves_push(old_records, rec, j, rec.fields@[k].ty@);
            }
        }
        assert forall|a: int, b: int|
            0 <= a < b < old_records.push(rec).len() implies #[trigger] old_records.push(rec)[a].name@
            != #[trigger] old_records.push(rec)[b].name@ by {
            if b == n {
                assert(!defines(old_records, n as int, rec.name@, a));
            }
        }
        self.records.push(rec);
        assert(self@.subrange(0, n as int) =~= old_records);
        assert(self@ == old_records.push(rec));
        Ok(())
    }

    /// The schema of the record named `name`, built afresh from the
    /// descriptions of its fields; `None` where no such record is registered.
    pub fn get_json_schema_definition(&self, name: &str) -> (r: Option<Schema>)
        requires
            registry_wf(self@),
        ensures
            match record_named(self@, name@) {
                Some(j) => r matches Some(s) && s@ == record_schema(self@, j),
                None => r is None,
            },
    {
        match self.find_record(name, self.records.len()) {
            Some(j) => {
                let ghost chosen = choose|j: int| defines(self@, self@.len() as int, name@, j);
                assert(chosen == j as int);
                Some(self.record_schema_at(j))
            },
            None => None,
        }
    }

    /// One query parameter per field of the record named `name`, in
    /// declaration order; `None` where no such record is registered.
    pub fn get_query_definitions(&self, name: &str) -> (r: Option<Vec<ParameterObject>>)
        requires
            registry_wf(self@),
        ensures
            match record_named(self@, name@) {
                Some(j) => r matches Some(ps) && {
                    let fields = self@[j as int].fields@;
                    &&& ps@.len() == fields.len()
                    &&& forall|k: int|
                        0 <= k < fields.len() ==> parameter_for(
                            self@,
                            j,
                            #[trigger] fields[k],
                            ps@[k],
                        )
                },
                None => r is None,
            },
    {
        let j = match self.find_record(name, self.records.len()) {
            Some(j) => j,
            None => {
                return None;
            },
        };
        let ghost chosen = choose|j: int| defines(self@, self@.len() as int, name@, j);
        assert(chosen == j as int);
        let fields = &self.records[j].fields;
        let mut params: Vec<ParameterObject> = Vec::new();
        let mut i: usize = 0;
        while i < fields.len()
            invariant
                registry_wf(self@),
                j < self@.len(),
                fields@ == self@[j as int].fields@,
                i <= fields@.len(),
                params@.len() == i,
                forall|k: int|
                    0 <= k < i ==> parameter_for(self@, j as nat, #[trigger] fields@[k], params@[k]),
            decreases fields@.len() - i,
        {
            let f = &fields[i];
            let required = match &f.ty {
                TypeExpr::Optional(_) => false,
                _ => true,
            };
            let schema = self.type_schema_at(j, &f.ty);
            params.push(
                ParameterObject {
                    name: f.name.clone(),
                    where_in: ParameterIn::Query,
                    description: None,
                    required: Some(required),
                    deprecated: None,
                    allow_empty_value: None,
                    schema: Some(schema),
                },
            );
            i += 1;
        }
        Some(params)
    }
}

} // verus!

verus! {

proof fn lemma_required_names_members(fields: Seq<Field>, n: Seq<char>)
    ensures
        required_names(fields).contains(n) <==> exists|i: int|
            0 <= i < fields.len() && (#[trigger] fields[i]).name@ == n && is_required(
                fields[i].ty@,
            ),
    decreases fields.len(),
{
    if fields.len() > 0 {
        let last_index = fields.len() - 1;
        let init = fields.subrange(0, last_index);
        let last = fields[last_index];
        lemma_required_names_members(init, n);
        let rn = required_names(fields);
        let ri = required_names(init);
        if is_required(last.ty@) {
            assert(rn == ri.push(last.name@));
            if ri.contains(n) {
                let k = choose|k: int| 0 <= k < ri.len() && ri[k] == n;
                assert(rn[k] == n);
            }
            if last.name@ == n {
                assert(rn[ri.len() as int] == n);
            }
            if rn.contains(n) {
                let k = choose|k: int| 0 <= k < rn.len() && rn[k] == n;
                if k < ri.len() {
                    assert(ri[k] == n);
                }
            }
        } else {
            assert(rn == ri);
        }
        if exists|i: int|
            0 <= i < fields.len() && (#[trigger] fields[i]).name@ == n && is_required(
                fields[i].ty@,
            ) {
            let i = choose|i: int|
                0 <= i < fields.len() && (#[trigger] fields[i]).name@ == n && is_required(
                    fields[i].ty@,
                );
            if i < last_index {
                assert(init[i] == fields[i]);
            }
        }
        if exists|i: int|
            0 <= i < init.len() && (#[trigger] init[i]).name@ == n && is_required(init[i].ty@) {
            let i = choose|i: int|
                0 <= i < init.len() && (#[trigger] init[i]).name@ == n && is_required(
                    init[i].ty@,
                );
            assert(fields[i] == init[i]);
        }
    }
}

proof fn lemma_required_names_empty(fields: Seq<Field>)
    ensures
        required_names(fields).len() == 0 <==> forall|i: int|
            0 <= i < fields.len() ==> !is_required(#[trigger] fields[i].ty@),
    decreases fields.len(),
{
    if fields.len() > 0 {
        let last_index = fields.len() - 1;
        let init = fields.subrange(0, last_index);
        lemma_required_names_empty(init);
        assert forall|i: int| 0 <= i < init.len() implies #[trigger] init[i] == fields[i] by {}
        if is_required(fields[last_index].ty@) {
            assert(required_names(fields).len() > 0);
        } else {
            assert(required_names(fields) == required_names(init));
            if forall|i: int| 0 <= i < init.len() ==> !is_required(#[trigger] init[i].ty@) {
                assert forall|i: int| 0 <= i < fields.len() implies !is_required(
                    #[trigger] fields[i].ty@,
                ) by {
                    if i < last_index {
                        assert(init[i] == fields[i]);
                    }
                }
            }
        }
    }
}

/// A record's schema lists a field as required exactly when the field's type
/// is not directly optional; optionals further inside its type, such as a
/// sequence of optionals, leave the field required.
pub proof fn required_iff_not_directly_optional(records: Seq<Record>, idx: nat, n: Seq<char>)
    requires
        idx < records.len(),
    ensures
        ({
            let fields = records[idx as int].fields@;
            (record_schema(records, idx)->Object_required matches Some(names) && names.contains(n))
                <==> exists|i: int|
                0 <= i < fields.len() && (#[trigger] fields[i]).name@ == n && !(
                fields[i].ty@ is Optional)
        }),
{
    lemma_required_names_members(records[idx as int].fields@, n);
}

/// A record whose fields are all directly optional has no `required` entry
/// at all, and a record with a required field always has one.
pub proof fn required_omitted_iff_all_optional(records: Seq<Record>, idx: nat)
    requires
        idx < records.len(),
    ensures
        record_schema(records, idx)->Object_required is None <==> forall|i: int|
            0 <= i < records[idx as int].fields@.len() ==> (
            #[trigger] records[idx as int].fields@[i]).ty@ is Optional,
{
    let fields = records[idx as int].fields@;
    lemma_required_names_empty(fields);
    assert((forall|i: int| 0 <= i < fields.len() ==> !is_required(#[trigger] fields[i].ty@))
        <==> (forall|i: int| 0 <= i < fields.len() ==> (#[trigger] fields[i]).ty@ is Optional));
}

/// Describing a record twice gives the same fragment: what
/// `get_json_schema_definition` returns depends on the registry and the
/// name alone.
pub proof fn schema_is_reproducible(records: Seq<Record>, name: Seq<char>, a: Schema, b: Schema)
    requires
        record_named(records, name) matches Some(j) && a@ == record_schema(records, j) && b@
            == record_schema(records, j),
    ensures
        a@ == b@,
{
}

/// A field whose type is a registered record carries that record's own
/// fragment verbatim; a field that is a sequence of it carries the same
/// fragment under `items`.
pub proof fn nested_record_embedded(records: Seq<Record>, outer: nat, k: int)
    requires
        registry_wf(records),
        outer < records.len(),
        0 <= k < records[outer as int].fields@.len(),
    ensures
        ({
            let f = records[outer as int].fields@[k];
            let prop = record_schema(records, outer)->Object_properties[k];
            &&& prop.0 == f.name@
            &&& f.ty@ matches TypeModel::Nested(m) ==> (record_named(records, m) matches Some(j)
                && prop.1 == record_schema(records, j))
            &&& f.ty@ matches TypeModel::Sequence(inner) ==> (*inner matches TypeModel::Nested(m)
                ==> (record_named(records, m) matches Some(j) && prop.1 == (SchemaModel::Array {
                items: Box::new(record_schema(records, j)),
            })))
        }),
{
    let f = records[outer as int].fields@[k];
    let t = f.ty@;
    assert(resolves(records, outer as int, t));
    assert(record_schema(records, outer)->Object_properties[k] == (f.name@, type_schema(records, outer, t)));
    if t is Nested {
        lemma_lookup_agrees(records, outer, t->Nested_0);
    }
    if let TypeModel::Sequence(inner) = t {
        if let TypeModel::Nested(m) = *inner {
            assert(resolves(records, outer as int, *inner));
            lemma_lookup_agrees(records, outer, m);
            assert(type_schema(records, outer, *inner) == record_schema(
                records,
                (choose|j: int| defines(records, outer as int, m, j)) as nat,
            ));
        }
    }
}

/// Looking a name up before `bound` finds the record that a lookup among
/// all records finds.
proof fn lemma_lookup_agrees(records: Seq<Record>, bound: nat, name: Seq<char>)
    requires
        registry_wf(records),
        bound <= records.len(),
        exists|j: int| defines(records, bound as int, name, j),
    ensures
        ({
            let j = choose|j: int| defines(records, bound as int, name, j);
            record_named(records, name) == Some(j as nat)
        }),
{
    let j = choose|j: int| defines(records, bound as int, name, j);
    assert(defines(records, records.len() as int, name, j));
    let j2 = choose|j: int| defines(records, records.len() as int, name, j);
    assert(j == j2);
}

} // verus!
