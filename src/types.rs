use vstd::prelude::*;
use vstd::string::StringExecFns;
use crate::model::{Document, Info, PropertyDef, SchemaDef};
use crate::text::{same_text, strip_prefix, strip_prefix_text};

verus! {

/// The prefix that a reference to a schema definition carries.
pub const DEFINITIONS_PREFIX: &'static str = "#/definitions/";

/// Whether an optional tag holds exactly the text `t`.
pub open spec fn tag_is(o: Option<String>, t: Seq<char>) -> bool {
    match o {
        Some(k) => k@ == t,
        None => false,
    }
}

/// The comment that opens every emitted file.
pub open spec fn header_text(info: Info, date: Seq<char>) -> Seq<char> {
    "/*\n"@ + " * This file was generated by swagger-genereator\n"@
        + " * Do not modify this file manually.\n"@ + " * Version: "@ + info.version@ + "\n"@
        + " * Title: "@ + info.title@ + "\n"@ + " * Description: "@ + info.description@
        + "\n"@ + " * Author: Muhtalip Dede\n"@ + " * Generated on: "@ + date + " */\n\n"@
}

/// The array type for an item kind.
pub open spec fn array_type(item: Option<String>) -> Seq<char> {
    if tag_is(item, "integer"@) {
        "number[]"@
    } else if tag_is(item, "string"@) {
        "string[]"@
    } else if tag_is(item, "boolean"@) {
        "boolean[]"@
    } else {
        "any[]"@
    }
}

/// The bare name of a schema reference.
pub open spec fn ref_name(r: Seq<char>) -> Seq<char> {
    strip_prefix(r, DEFINITIONS_PREFIX@)
}

/// The type expression a property is declared with.
pub open spec fn type_expr(p: PropertyDef) -> Seq<char> {
    if tag_is(p.kind, "integer"@) {
        "number"@
    } else if tag_is(p.kind, "string"@) {
        "string"@
    } else if tag_is(p.kind, "boolean"@) {
        "boolean"@
    } else if tag_is(p.kind, "array"@) {
        array_type(p.item_kind)
    } else if tag_is(p.kind, "object"@) {
        match p.reference {
            Some(r) => ref_name(r@),
            None => "any"@,
        }
    } else {
        "any"@
    }
}

pub open spec fn names_contain(names: Seq<String>, n: Seq<char>) -> bool {
    exists|i: int| 0 <= i < names.len() && names[i]@ == n
}

/// A property may be left out iff the schema lists required names and this
/// one is not among them.
pub open spec fn is_optional(def: SchemaDef, name: Seq<char>) -> bool {
    match def.required {
        Some(r) => !names_contain(r@, name),
        None => false,
    }
}

/// The declaration line of one property.
pub open spec fn field_line(def: SchemaDef, name: Seq<char>, p: PropertyDef) -> Seq<char> {
    "    "@ + name + (if is_optional(def, name) {
        "?"@
    } else {
        ""@
    }) + ": "@ + type_expr(p) + ";\n"@
}

/// The declaration lines of `props`, in their order.
pub open spec fn fields_text(def: SchemaDef, props: Seq<(String, PropertyDef)>) -> Seq<char>
    decreases props.len(),
{
    if props.len() == 0 {
        Seq::<char>::empty()
    } else {
        fields_text(def, props.drop_last()) + field_line(def, props.last().0@, props.last().1)
    }
}

/// The interface declaration of a schema.
pub open spec fn interface_decl(name: Seq<char>, def: SchemaDef) -> Seq<char> {
    "export interface "@ + name + " {\n"@ + fields_text(def, def.properties@) + "}\n"@
}

/// The whole artifact of one schema.
pub open spec fn interface_text(info: Info, date: Seq<char>, name: Seq<char>, def: SchemaDef) -> Seq<char> {
    header_text(info, date) + interface_decl(name, def)
}

/// Whether `o` holds exactly `t`.
pub fn tag_matches(o: &Option<String>, t: &str) -> (r: bool)
    ensures
        r == tag_is(*o, t@),
{
    match o {
        Some(k) => same_text(k.as_str(), t),
        None => false,
    }
}

/// Appends the header comment, stamped with `date`, to `out`.
pub fn generate_info_comment(info: &Info, date: &str, out: &mut String)
    ensures
        final(out)@ == old(out)@ + header_text(*info, date@),
{
    out.append("/*\n");
    out.append(" * This file was generated by swagger-genereator\n");
    out.append(" * Do not modify this file manually.\n");
    out.append(" * Version: ");
    out.append(info.version.as_str());
    out.append("\n");
    out.append(" * Title: ");
    out.append(info.title.as_str());
    out.append("\n");
    out.append(" * Description: ");
    out.append(info.description.as_str());
    out.append("\n");
    out.append(" * Author: Muhtalip Dede\n");
    out.append(" * Generated on: ");
    out.append(date);
    out.append(" */\n\n");
    assert(final(out)@ =~= old(out)@ + header_text(*info, date@));
}

/// The type expression of a property.
pub fn property_type(p: &PropertyDef) -> (r: String)
    ensures
        r@ == type_expr(*p),
{
    if tag_matches(&p.kind, "integer") {
        "number".to_owned()
    } else if tag_matches(&p.kind, "string") {
        "string".to_owned()
    } else if tag_matches(&p.kind, "boolean") {
        "boolean".to_owned()
    } else if tag_matches(&p.kind, "array") {
        if tag_matches(&p.item_kind, "integer") {
            "number[]".to_owned()
        } else if tag_matches(&p.item_kind, "string") {
            "string[]".to_owned()
        } else if tag_matches(&p.item_kind, "boolean") {
            "boolean[]".to_owned()
        } else {
            "any[]".to_owned()
        }
    } else if tag_matches(&p.kind, "object") {
        match &p.reference {
            Some(r) => strip_prefix_text(r.as_str(), DEFINITIONS_PREFIX),
            None => "any".to_owned(),
        }
    } else {
        "any".to_owned()
    }
}

/// Whether `name` is one of `names`.
pub fn contains_name(names: &Vec<String>, name: &str) -> (r: bool)
    ensures
        r == names_contain(names@, name@),
{
    let mut i: usize = 0;
    while i < names.len()
        invariant
            i <= names@.len(),
            forall|j: int| 0 <= j < i ==> names@[j]@ != name@,
        decreases names@.len() - i,
    {
        if same_text(names[i].as_str(), name) {
            return true;
        }
        i = i + 1;
    }
    false
}

/// Whether the property `name` of `def` is declared optional.
pub fn property_optional(def: &SchemaDef, name: &str) -> (r: bool)
    ensures
        r == is_optional(*def, name@),
{
    match &def.required {
        Some(r) => !contains_name(r, name),
        None => false,
    }
}

/// The interface declaration of the schema `name`, after the header comment.
pub fn generate_typescript_interface(doc: &Document, name: &str, def: &SchemaDef, date: &str) -> (r: String)
    ensures
        r@ == interface_text(doc.info, date@, name@, *def),
{
    let mut out = String::new();
    generate_info_comment(&doc.info, date, &mut out);
    out.append("export interface ");
    out.append(name);
    out.append(" {\n");
    let ghost head = out@;
    let mut i: usize = 0;
    while i < def.properties.len()
        invariant
            i <= def.properties@.len(),
            out@ == head + fields_text(*def, def.properties@.subrange(0, i as int)),
        decreases def.properties@.len() - i,
    {
        let ghost done = def.properties@.subrange(0, i + 1);
        assert(done.drop_last() =~= def.properties@.subrange(0, i as int));
        let prop_name = def.properties[i].0.as_str();
        let prop = &def.properties[i].1;
        let ty = property_type(prop);
        out.append("    ");
        out.append(prop_name);
        if property_optional(def, prop_name) {
            out.append("?");
        }
        proof {
            reveal_strlit("");
        }
        out.append(": ");
        out.append(ty.as_str());
        out.append(";\n");
        assert(out@ =~= head + fields_text(*def, done));
        i = i + 1;
    }
    assert(def.properties@.subrange(0, def.properties@.len() as int) =~= def.properties@);
    out.append("}\n");
    assert(out@ =~= interface_text(doc.info, date@, name@, *def));
    out
}

} // verus!

verus! {

/// The lines of a prefix of the properties open the lines of all of them.
pub proof fn lemma_fields_prefix(def: SchemaDef, props: Seq<(String, PropertyDef)>, k: int)
    requires
        0 <= k <= props.len(),
    ensures
        fields_text(def, props.subrange(0, k)).is_prefix_of(fields_text(def, props)),
    decreases props.len(),
{
    if k == props.len() {
        assert(props.subrange(0, k) =~= props);
    } else {
        lemma_fields_prefix(def, props.drop_last(), k);
        assert(props.drop_last().subrange(0, k) =~= props.subrange(0, k));
    }
}

/// Every property of a well-formed schema is declared in its interface by
/// one line, the only one for its name, which marks it optional exactly when
/// the schema has a required set that does not name it; without a required
/// set no property is optional.
pub proof fn lemma_property_line(name: Seq<char>, def: SchemaDef, i: int)
    requires
        def.wf(),
        0 <= i < def.properties@.len(),
    ensures
        forall|j: int|
            0 <= j < def.properties@.len() && (#[trigger] def.properties@[j]).0@
                == def.properties@[i].0@ ==> j == i,
        ({
            let pn = def.properties@[i].0@;
            let line = field_line(def, pn, def.properties@[i].1);
            &&& exists|off: int|
                0 <= off && off + line.len() <= interface_decl(name, def).len()
                    && #[trigger] interface_decl(name, def).subrange(off, off + line.len()) == line
            &&& line == "    "@ + pn + (if def.required is Some && !names_contain(
                def.required->Some_0@,
                pn,
            ) {
                "?"@
            } else {
                ""@
            }) + ": "@ + type_expr(def.properties@[i].1) + ";\n"@
        }),
{
    let props = def.properties@;
    let pn = props[i].0@;
    assert forall|j: int|
        0 <= j < props.len() && (#[trigger] props[j]).0@ == pn implies j == i by {
        if j < i {
            assert(props[j].0@ != props[i].0@);
        } else if j > i {
            assert(props[i].0@ != props[j].0@);
        }
    }
    let line = field_line(def, pn, props[i].1);
    let open = "export interface "@ + name + " {\n"@;
    lemma_fields_prefix(def, props, i + 1);
    assert(props.subrange(0, i + 1).drop_last() =~= props.subrange(0, i));
    let before = fields_text(def, props.subrange(0, i));
    let upto = fields_text(def, props.subrange(0, i + 1));
    assert(upto == before + line);
    let off: int = (open.len() + before.len()) as int;
    let decl = interface_decl(name, def);
    assert(decl =~= open + fields_text(def, props) + "}\n"@);
    assert(decl.subrange(off, off + line.len()) =~= line) by {
        assert forall|j: int| 0 <= j < line.len() implies decl[off + j] == line[j] by {
            assert(fields_text(def, props)[before.len() + j] == upto[before.len() + j]);
        }
    }
}

/// An array property is typed by its item kind: `number[]`, `string[]` or
/// `boolean[]` for `integer`, `string` or `boolean` items, `any[]` for any
/// other or missing item kind.
pub proof fn lemma_array_property_type(p: PropertyDef)
    requires
        tag_is(p.kind, "array"@),
    ensures
        tag_is(p.item_kind, "integer"@) ==> type_expr(p) == "number[]"@,
        tag_is(p.item_kind, "string"@) ==> type_expr(p) == "string[]"@,
        tag_is(p.item_kind, "boolean"@) ==> type_expr(p) == "boolean[]"@,
        !tag_is(p.item_kind, "integer"@) && !tag_is(p.item_kind, "string"@) && !tag_is(
            p.item_kind,
            "boolean"@,
        ) ==> type_expr(p) == "any[]"@,
{
    reveal_strlit("array");
    reveal_strlit("integer");
    reveal_strlit("string");
    reveal_strlit("boolean");
    assert("array"@[0] != "integer"@[0]);
    assert("array"@[0] != "string"@[0]);
    assert("array"@[0] != "boolean"@[0]);
}

/// An object property with a reference is typed by the referenced schema's
/// bare name; without one it is untyped.
pub proof fn lemma_object_property_type(p: PropertyDef)
    requires
        tag_is(p.kind, "object"@),
    ensures
        p.reference is Some ==> type_expr(p) == strip_prefix(
            p.reference->Some_0@,
            "#/definitions/"@,
        ),
        p.reference is None ==> type_expr(p) == "any"@,
{
    reveal_strlit("object");
    reveal_strlit("array");
    reveal_strlit("integer");
    reveal_strlit("string");
    reveal_strlit("boolean");
    assert("object"@[0] != "integer"@[0]);
    assert("object"@[0] != "string"@[0]);
    assert("object"@[0] != "boolean"@[0]);
    assert("object"@[0] != "array"@[0]);
}

} // verus!
