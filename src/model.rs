use vstd::prelude::*;

verus! {

/// Descriptive metadata of the API document.
pub struct Info {
    pub title: String,
    pub version: String,
    pub description: String,
}

/// One field of a schema definition.
pub struct PropertyDef {
    /// The kind tag: `integer`, `string`, `boolean`, `array`, `object`, ...
    pub kind: Option<String>,
    pub format: Option<String>,
    /// For an array, the kind tag of its items.
    pub item_kind: Option<String>,
    /// For an object, the schema it names.
    pub reference: Option<String>,
}

/// A named record type of the document.
pub struct SchemaDef {
    pub kind: Option<String>,
    /// Property names with their definitions.
    pub properties: Vec<(String, PropertyDef)>,
    /// The names of the properties that may not be left out, when given.
    pub required: Option<Vec<String>>,
}

/// The schema a response carries.
pub struct ResponseSchema {
    pub kind: Option<String>,
    pub reference: Option<String>,
}

pub struct Response {
    pub description: String,
    pub schema: Option<ResponseSchema>,
}

/// One HTTP operation on a path.
pub struct Operation {
    pub operation_id: Option<String>,
    pub summary: Option<String>,
    /// Responses by status code.
    pub responses: Vec<(String, Response)>,
}

/// The operations defined on one URL path template.
pub struct PathItem {
    pub get: Option<Operation>,
    pub post: Option<Operation>,
    pub put: Option<Operation>,
    pub delete: Option<Operation>,
}

/// A parsed API description.
pub struct Document {
    pub info: Info,
    /// Schema definitions by name.
    pub definitions: Vec<(String, SchemaDef)>,
    /// Path items by URL path template.
    pub paths: Vec<(String, PathItem)>,
    pub scheme: String,
    pub host: String,
    pub base_path: String,
}

#[derive(Clone, Copy, PartialEq, Eq, Structural, Debug)]
pub enum HttpMethod {
    Get,
    Post,
    Put,
    Delete,
}

/// The language the client code is emitted in.
#[derive(Clone, Copy, PartialEq, Eq, Structural, Debug)]
pub enum Target {
    /// Typed signatures, with an import for every emitted type.
    TypeScript,
    /// Untyped signatures and no imports.
    JavaScript,
}

/// No two entries share a key, as in a map.
pub open spec fn keys_distinct<V>(entries: Seq<(String, V)>) -> bool {
    forall|i: int, j: int|
        0 <= i < j < entries.len() ==> (#[trigger] entries[i]).0@ != (#[trigger] entries[j]).0@
}

impl SchemaDef {
    /// Each property name appears once.
    pub open spec fn wf(&self) -> bool {
        keys_distinct(self.properties@)
    }
}

impl Operation {
    /// Each status code appears once.
    pub open spec fn wf(&self) -> bool {
        keys_distinct(self.responses@)
    }
}

impl PathItem {
    pub open spec fn wf(&self) -> bool {
        &&& (self.get matches Some(o) ==> o.wf())
        &&& (self.post matches Some(o) ==> o.wf())
        &&& (self.put matches Some(o) ==> o.wf())
        &&& (self.delete matches Some(o) ==> o.wf())
    }
}

impl Document {
    /// Schema names and path templates appear once each, and every schema and
    /// operation is itself well formed.
    pub open spec fn wf(&self) -> bool {
        &&& keys_distinct(self.definitions@)
        &&& keys_distinct(self.paths@)
        &&& forall|i: int| 0 <= i < self.definitions@.len() ==> (#[trigger] self.definitions@[i]).1.wf()
        &&& forall|i: int| 0 <= i < self.paths@.len() ==> (#[trigger] self.paths@[i]).1.wf()
    }
}

impl HttpMethod {
    pub open spec fn spec_name(self) -> Seq<char> {
        match self {
            HttpMethod::Get => "get"@,
            HttpMethod::Post => "post"@,
            HttpMethod::Put => "put"@,
            HttpMethod::Delete => "delete"@,
        }
    }

    /// Whether a request with this method carries a body.
    pub open spec fn spec_has_body(self) -> bool {
        !(self is Get || self is Delete)
    }

    /// The method's name in lower case.
    pub fn name(self) -> (r: &'static str)
        ensures
            r@ == self.spec_name(),
    {
        match self {
            HttpMethod::Get => "get",
            HttpMethod::Post => "post",
            HttpMethod::Put => "put",
            HttpMethod::Delete => "delete",
        }
    }

    #[verifier::when_used_as_spec(spec_has_body)]
    pub fn has_body(self) -> (r: bool)
        ensures
            r == self.spec_has_body(),
    {
        match self {
            HttpMethod::Get | HttpMethod::Delete => false,
            _ => true,
        }
    }
}

} // verus!
