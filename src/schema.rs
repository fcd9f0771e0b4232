use vstd::prelude::*;

verus! {

/// A numeric bound written as `(-1)^negative * magnitude * 10^exponent`.
///
/// Integer bounds use `exponent == 0`; the bounds of floating-point kinds are
/// the shortest decimals that read back as the widest finite values.
#[derive(Clone, Copy, Debug, PartialEq, Eq, Structural)]
pub struct Bound {
    pub negative: bool,
    pub magnitude: u128,
    pub exponent: u32,
}

/// The exact value that a bound denotes.
pub open spec fn bound_value(b: Bound) -> int {
    let m = b.magnitude as int * vstd::arithmetic::power::pow(10, b.exponent as nat);
    if b.negative {
        -m
    } else {
        m
    }
}

/// A JSON Schema fragment.
///
/// `Object::required` is `None` exactly when the emitted object carries no
/// `required` key at all.
#[derive(Debug, PartialEq, Eq)]
pub enum Schema {
    Integer { minimum: Bound, maximum: Bound },
    Number { minimum: Bound, maximum: Bound },
    Boolean,
    Text,
    Array { items: Box<Schema> },
    Object { properties: Vec<Property>, required: Option<Vec<String>> },
}

/// One entry of an object's `properties` map.
#[derive(Debug, PartialEq, Eq)]
pub struct Property {
    pub name: String,
    pub schema: Schema,
}

/// The mathematical value of a [`Schema`].
pub enum SchemaModel {
    Integer { minimum: int, maximum: int },
    Number { minimum: int, maximum: int },
    Boolean,
    Text,
    Array { items: Box<SchemaModel> },
    Object { properties: Seq<(Seq<char>, SchemaModel)>, required: Option<Seq<Seq<char>>> },
}

pub open spec fn strings_view(v: Seq<String>) -> Seq<Seq<char>> {
    v.map_values(|s: String| s@)
}

pub open spec fn properties_view(ps: Seq<Property>) -> Seq<(Seq<char>, SchemaModel)>
    decreases ps,
{
    if ps.len() == 0 {
        Seq::empty()
    } else {
        let last = ps[ps.len() - 1];
        properties_view(ps.subrange(0, ps.len() - 1)).push((last.name@, last.schema.model()))
    }
}

impl Schema {
    pub open spec fn model(&self) -> SchemaModel
        decreases self,
    {
        match self {
            Schema::Integer { minimum, maximum } => SchemaModel::Integer {
                minimum: bound_value(*minimum),
                maximum: bound_value(*maximum),
            },
            Schema::Number { minimum, maximum } => SchemaModel::Number {
                minimum: bound_value(*minimum),
                maximum: bound_value(*maximum),
            },
            Schema::Boolean => SchemaModel::Boolean,
            Schema::Text => SchemaModel::Text,
            Schema::Array { items } => SchemaModel::Array { items: Box::new(items.model()) },
            Schema::Object { properties, required } => SchemaModel::Object {
                properties: properties_view(properties@),
                required: match required {
                    Some(r) => Some(strings_view(r@)),
                    None => None,
                },
            },
        }
    }
}

impl View for Schema {
    type V = SchemaModel;

    open spec fn view(&self) -> SchemaModel {
        self.model()
    }
}

pub proof fn lemma_properties_view_push(ps: Seq<Property>, p: Property)
    ensures
        properties_view(ps.push(p)) == properties_view(ps).push((p.name@, p.schema@)),
{
    assert(ps.push(p).subrange(0, ps.len() as int) =~= ps);
}

pub proof fn lemma_strings_view_push(v: Seq<String>, s: String)
    ensures
        strings_view(v.push(s)) == strings_view(v).push(s@),
{
    assert(strings_view(v.push(s)) =~= strings_view(v).push(s@));
}

} // verus!
