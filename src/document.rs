use vstd::prelude::*;

use crate::schema::Schema;
use crate::tokens::str_eq;

verus! {

/// The version of the specification format that a document follows.
#[derive(Clone, Copy, Debug, PartialEq, Eq, Structural)]
pub enum SwaggerVersion {
    V300,
}

impl SwaggerVersion {
    /// The version as it is written in a document.
    pub fn as_str(&self) -> (r: &'static str)
        ensures
            r@ == "3.0.0"@,
    {
        match self {
            SwaggerVersion::V300 => "3.0.0",
        }
    }
}

#[derive(Debug)]
pub struct ContactObject {
    pub name: Option<String>,
    pub url: Option<String>,
    pub email: Option<String>,
}

#[derive(Debug)]
pub struct LicenseObject {
    pub name: String,
    pub url: Option<String>,
}

#[derive(Debug)]
pub struct ServerVariableObject {
    pub enum_values: Option<Vec<String>>,
    pub default: String,
    pub description: Option<String>,
}

/// A server; its variables are kept in the order they were given, each
/// name once.
#[derive(Debug)]
pub struct ServerObject {
    pub url: String,
    pub description: Option<String>,
    pub variables: Option<Vec<(String, ServerVariableObject)>>,
}

#[derive(Debug)]
pub struct InfoObject {
    pub title: String,
    pub description: Option<String>,
    pub terms_of_service: Option<String>,
    pub contact: Option<ContactObject>,
    pub license: Option<LicenseObject>,
    pub version: String,
}

#[derive(Debug)]
pub struct ExternalDocumentationObject {
    pub description: Option<String>,
    pub url: String,
}

#[derive(Debug)]
pub struct TagObject {
    pub name: String,
    pub description: Option<String>,
    pub external_docs: Option<ExternalDocumentationObject>,
}

/// Where a parameter is read from.
#[derive(Clone, Copy, Debug, PartialEq, Eq, Structural)]
pub enum ParameterIn {
    Query,
    Header,
    Path,
    Cookie,
}

/// One parameter of an operation.
#[derive(Debug, PartialEq, Eq)]
pub struct ParameterObject {
    pub name: String,
    pub where_in: ParameterIn,
    pub description: Option<String>,
    pub required: Option<bool>,
    pub deprecated: Option<bool>,
    pub allow_empty_value: Option<bool>,
    pub schema: Option<Schema>,
}

/// The payload of one media type.
#[derive(Debug, PartialEq, Eq)]
pub struct MediaTypeObject {
    pub schema: Option<Schema>,
}

/// A request body: one payload per media type, each media type once.
#[derive(Debug, PartialEq, Eq)]
pub struct RequestBodyObject {
    pub description: Option<String>,
    pub content: Vec<(String, MediaTypeObject)>,
    pub required: Option<bool>,
}

/// A response: one payload per media type, each media type once.
#[derive(Debug)]
pub struct ResponseObject {
    pub description: String,
    pub content: Option<Vec<(String, MediaTypeObject)>>,
}

/// The responses of an operation, each status code once.
#[derive(Debug)]
pub struct ResponsesObject {
    pub default: Option<ResponseObject>,
    pub responses_per_http_status_codes: Option<Vec<(u16, ResponseObject)>>,
}

#[derive(Debug)]
pub struct OperationObject {
    pub tags: Option<Vec<String>>,
    pub summary: Option<String>,
    pub description: Option<String>,
    pub external_docs: Option<ExternalDocumentationObject>,
    pub operation_id: Option<String>,
    pub parameters: Option<Vec<ParameterObject>>,
    pub request_body: Option<RequestBodyObject>,
    pub responses: ResponsesObject,
    pub deprecated: Option<bool>,
    pub servers: Option<Vec<ServerObject>>,
}

/// The operations available on one path, one slot per HTTP method.
#[derive(Debug)]
pub struct PathItemObject {
    pub reference: Option<String>,
    pub summary: Option<String>,
    pub description: Option<String>,
    pub get: Option<OperationObject>,
    pub put: Option<OperationObject>,
    pub post: Option<OperationObject>,
    pub delete: Option<OperationObject>,
    pub options: Option<OperationObject>,
    pub head: Option<OperationObject>,
    pub patch: Option<OperationObject>,
    pub trace: Option<OperationObject>,
    pub servers: Option<Vec<ServerObject>>,
    pub parameters: Option<Vec<ParameterObject>>,
}

/// An API document. `paths` maps each path, held once, to its operations,
/// in the order the paths were first registered.
#[derive(Debug)]
pub struct SwaggerObject {
    pub openapi: SwaggerVersion,
    pub info: InfoObject,
    pub servers: Option<Vec<ServerObject>>,
    pub paths: Vec<(String, PathItemObject)>,
    pub tags: Option<Vec<TagObject>>,
    pub external_docs: Option<ExternalDocumentationObject>,
}

/// The media type under which schemas are registered.
pub open spec fn json_media_type() -> Seq<char> {
    "application/json"@
}

/// The methods that a route can be registered for.
pub open spec fn is_known_method(m: Seq<char>) -> bool {
    m == "GET"@ || m == "POST"@ || m == "PUT"@ || m == "PATCH"@ || m == "DELETE"@
}

/// The slot of `item` that holds the operation for method `m`.
pub open spec fn method_slot(item: PathItemObject, m: Seq<char>) -> Option<OperationObject> {
    if m == "GET"@ {
        item.get
    } else if m == "POST"@ {
        item.post
    } else if m == "PUT"@ {
        item.put
    } else if m == "PATCH"@ {
        item.patch
    } else {
        item.delete
    }
}

/// `a` and `b` agree everywhere but in the slot of method `m`.
pub open spec fn same_but_slot(a: PathItemObject, b: PathItemObject, m: Seq<char>) -> bool {
    &&& a.reference == b.reference
    &&& a.summary == b.summary
    &&& a.description == b.description
    &&& a.options == b.options
    &&& a.head == b.head
    &&& a.trace == b.trace
    &&& a.servers == b.servers
    &&& a.parameters == b.parameters
    &&& (m != "GET"@ ==> a.get == b.get)
    &&& (m != "POST"@ ==> a.post == b.post)
    &&& (m != "PUT"@ ==> a.put == b.put)
    &&& (m != "PATCH"@ ==> a.patch == b.patch)
    &&& (m != "DELETE"@ ==> a.delete == b.delete)
}

/// A path item with no operation and nothing else set.
pub open spec fn empty_path_item() -> PathItemObject {
    PathItemObject {
        reference: None,
        summary: None,
        description: None,
        get: None,
        put: None,
        post: None,
        delete: None,
        options: None,
        head: None,
        patch: None,
        trace: None,
        servers: None,
        parameters: None,
    }
}

/// No two entries share a status code.
pub open spec fn codes_distinct(responses: Seq<(u16, (&str, Schema))>) -> bool {
    forall|i: int, j: int|
        0 <= i < j < responses.len() ==> responses[i].0 != responses[j].0
}

/// `r` describes a response of the given description whose JSON payload
/// has `schema`.
pub open spec fn response_for(r: ResponseObject, description: Seq<char>, schema: Schema) -> bool {
    &&& r.description@ == description
    &&& r.content matches Some(c) && c@.len() == 1 && c@[0].0@ == json_media_type()
        && c@[0].1.schema == Some(schema)
}

/// `op` is the operation registered with these parameters, body and
/// responses, in their order, and nothing else.
pub open spec fn operation_for(
    op: OperationObject,
    parameters: Option<Vec<ParameterObject>>,
    request_body: Option<RequestBodyObject>,
    responses: Seq<(u16, (&str, Schema))>,
) -> bool {
    &&& op.parameters == parameters
    &&& op.request_body == request_body
    &&& op.responses.default is None
    &&& op.responses.responses_per_http_status_codes matches Some(codes) && codes@.len()
        == responses.len() && forall|i: int|
        0 <= i < responses.len() ==> (#[trigger] codes@[i]).0 == responses[i].0 && response_for(
            codes@[i].1,
            responses[i].1.0@,
            responses[i].1.1,
        )
    &&& op.tags is None
    &&& op.summary is None
    &&& op.description is None
    &&& op.external_docs is None
    &&& op.operation_id is None
    &&& op.deprecated is None
    &&& op.servers is None
}

/// Each path is held once.
pub open spec fn paths_distinct(paths: Seq<(String, PathItemObject)>) -> bool {
    forall|i: int, j: int| 0 <= i < j < paths.len() ==> paths[i].0@ != paths[j].0@
}

/// The position of `path` among `paths`, if it is there.
pub open spec fn path_position(paths: Seq<(String, PathItemObject)>, path: Seq<char>) -> Option<int> {
    if exists|i: int| 0 <= i < paths.len() && paths[i].0@ == path {
        Some(choose|i: int| 0 <= i < paths.len() && paths[i].0@ == path)
    } else {
        None
    }
}

fn build_operation(
    parameters: Option<Vec<ParameterObject>>,
    request_body: Option<RequestBodyObject>,
    responses: Vec<(u16, (&str, Schema))>,
) -> (op: OperationObject)
    ensures
        operation_for(op, parameters, request_body, responses@),
{
    let ghost all = responses@;
    let mut rest = responses;
    let mut codes: Vec<(u16, ResponseObject)> = Vec::new();
    while rest.len() > 0
        invariant
            codes@.len() + rest@.len() == all.len(),
            rest@ == all.subrange(codes@.len() as int, all.len() as int),
            forall|i: int|
                0 <= i < codes@.len() ==> (#[trigger] codes@[i]).0 == all[i].0 && response_for(
                    codes@[i].1,
                    all[i].1.0@,
                    all[i].1.1,
                ),
        decreases rest@.len(),
    {
        let ghost k = codes@.len() as int;
        let (code, (description, schema)) = rest.remove(0);
        assert(all[k] == (code, (description, schema)));
        let mut content: Vec<(String, MediaTypeObject)> = Vec::new();
        content.push(("application/json".to_owned(), MediaTypeObject { schema: Some(schema) }));
        let response = ResponseObject { description: description.to_owned(), content: Some(content) };
        codes.push((code, response));
        assert(rest@ =~= all.subrange(codes@.len() as int, all.len() as int));
    }
    OperationObject {
        tags: None,
        summary: None,
        description: None,
        external_docs: None,
        operation_id: None,
        parameters,
        request_body,
        responses: ResponsesObject {
            default: None,
            responses_per_http_status_codes: Some(codes),
        },
        deprecated: None,
        servers: None,
    }
}

fn find_path(paths: &Vec<(String, PathItemObject)>, path: &str) -> (r: Option<usize>)
    requires
        paths_distinct(paths@),
    ensures
        match r {
            Some(i) => path_position(paths@, path@) == Some(i as int),
            None => path_position(paths@, path@) is None,
        },
{
    let mut i: usize = 0;
    while i < paths.len()
        invariant
            paths_distinct(paths@),
            i <= paths@.len(),
            forall|j: int| 0 <= j < i ==> (#[trigger] paths@[j]).0@ != path@,
        decreases paths@.len() - i,
    {
        if str_eq(paths[i].0.as_str(), path) {
            assert(paths@[i as int].0@ == path@);
            let ghost chosen = choose|j: int| 0 <= j < paths@.len() && paths@[j].0@ == path@;
            assert(chosen == i as int);
            return Some(i);
        }
        i += 1;
    }
    None
}

fn set_slot(item: &mut PathItemObject, method: &str, op: OperationObject)
    requires
        is_known_method(method@),
    ensures
        same_but_slot(*final(item), *old(item), method@),
        method_slot(*final(item), method@) == Some(op),
{
    if str_eq(method, "GET") {
        item.get = Some(op);
    } else if str_eq(method, "POST") {
        item.post = Some(op);
    } else if str_eq(method, "PUT") {
        item.put = Some(op);
    } else if str_eq(method, "PATCH") {
        item.patch = Some(op);
    } else {
        item.delete = Some(op);
    }
}

impl SwaggerObject {
    /// A document of the current format with the given title and version and
    /// no paths.
    pub fn new(title: &str, version: &str) -> (r: SwaggerObject)
        ensures
            r.openapi == SwaggerVersion::V300,
            r.info.title@ == title@,
            r.info.version@ == version@,
            r.info.description is None,
            r.info.terms_of_service is None,
            r.info.contact is None,
            r.info.license is None,
            r.servers is None,
            r.paths@.len() == 0,
            r.tags is None,
            r.external_docs is None,
    {
        SwaggerObject {
            openapi: SwaggerVersion::V300,
            info: InfoObject {
                title: title.to_owned(),
                description: None,
                terms_of_service: None,
                contact: None,
                license: None,
                version: version.to_owned(),
            },
            servers: None,
            paths: Vec::new(),
            tags: None,
            external_docs: None,
        }
    }

    /// Registers the operation of `method` on `path`: its query parameters,
    /// its request body, and one response per status code, whose JSON
    /// payload has the given schema. A path met for the first time is added
    /// after the others; a known path gains the method beside those it has.
    pub fn add_route(
        &mut self,
        method: &str,
        path: String,
        parameters: Option<Vec<ParameterObject>>,
        request_body: Option<RequestBodyObject>,
        responses: Vec<(u16, (&str, Schema))>,
    )
        requires
            is_known_method(method@),
            codes_distinct(responses@),
            paths_distinct(old(self).paths@),
            path_position(old(self).paths@, path@) matches Some(i) ==> method_slot(
                old(self).paths@[i].1,
                method@,
            ) is None,
        ensures
            paths_distinct(final(self).paths@),
            final(self).openapi == old(self).openapi,
            final(self).info == old(self).info,
            final(self).servers == old(self).servers,
            final(self).tags == old(self).tags,
            final(self).external_docs == old(self).external_docs,
            match path_position(old(self).paths@, path@) {
                Some(i) => {
                    &&& final(self).paths@.len() == old(self).paths@.len()
                    &&& forall|j: int|
                        0 <= j < old(self).paths@.len() && j != i ==> final(self).paths@[j]
                            == old(self).paths@[j]
                    &&& final(self).paths@[i].0@ == path@
                    &&& same_but_slot(final(self).paths@[i].1, old(self).paths@[i].1, method@)
                    &&& method_slot(final(self).paths@[i].1, method@) matches Some(op)
                        && operation_for(op, parameters, request_body, responses@)
                },
                None => {
                    let last = old(self).paths@.len() as int;
                    &&& final(self).paths@.len() == last + 1
                    &&& final(self).paths@.subrange(0, last) == old(self).paths@
                    &&& final(self).paths@[last].0@ == path@
                    &&& same_but_slot(final(self).paths@[last].1, empty_path_item(), method@)
                    &&& method_slot(final(self).paths@[last].1, method@) matches Some(op)
                        && operation_for(op, parameters, request_body, responses@)
                },
            },
    {
        let op = build_operation(parameters, request_body, responses);
        match find_path(&self.paths, path.as_str()) {
            Some(i) => {
                let ghost before = self.paths@;
                let (p, mut item) = self.paths.remove(i);
                set_slot(&mut item, method, op);
                self.paths.insert(i, (p, item));
                assert forall|a: int, b: int|
                    0 <= a < b < self.paths@.len() implies #[trigger] self.paths@[a].0@
                    != #[trigger] self.paths@[b].0@ by {
                    assert(self.paths@[a].0 == before[a].0);
                    assert(self.paths@[b].0 == before[b].0);
                }
            },
            None => {
                let mut item = PathItemObject {
                    reference: None,
                    summary: None,
                    description: None,
                    get: None,
                    put: None,
                    post: None,
                    delete: None,
                    options: None,
                    head: None,
                    patch: None,
                    trace: None,
                    servers: None,
                    parameters: None,
                };
                set_slot(&mut item, method, op);
                let ghost before = self.paths@;
                self.paths.push((path, item));
                assert(self.paths@.subrange(0, before.len() as int) =~= before);
                assert forall|a: int, b: int|
                    0 <= a < b < self.paths@.len() implies #[trigger] self.paths@[a].0@
                    != #[trigger] self.paths@[b].0@ by {
                    if b == before.len() {
                        assert(self.paths@[a] == before[a]);
                    }
                }
            },
        }
    }
}

} // verus!
