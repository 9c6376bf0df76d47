use vstd::prelude::*;
use vstd::string::StringExecFns;
use crate::model::{Document, HttpMethod, Operation, PathItem, SchemaDef, Target};
use crate::operations::{generate_service_method, method_text};
use crate::text::views;
use crate::types::{generate_info_comment, generate_typescript_interface, header_text, interface_decl, interface_text};

verus! {

/// The import statements of the emitted types.
pub open spec fn import_lines(names: Seq<Seq<char>>) -> Seq<char>
    decreases names.len(),
{
    if names.len() == 0 {
        Seq::<char>::empty()
    } else {
        import_lines(names.drop_last()) + "import { "@ + names.last() + " } from './interfaces/"@
            + names.last() + "';\n"@
    }
}

/// Imports exist only for a target with static types.
pub open spec fn imports_text(target: Target, names: Seq<Seq<char>>) -> Seq<char> {
    if target is TypeScript {
        import_lines(names) + "\n"@
    } else {
        Seq::<char>::empty()
    }
}

pub open spec fn operation_text(path: Seq<char>, method: HttpMethod, op: Option<Operation>, target: Target) -> Seq<char> {
    match op {
        Some(o) => method_text(method, path, o, target),
        None => Seq::<char>::empty(),
    }
}

/// The functions of one path, in the order get, post, put, delete.
#[verifier::opaque]
pub open spec fn path_item_text(path: Seq<char>, item: PathItem, target: Target) -> Seq<char> {
    operation_text(path, HttpMethod::Get, item.get, target) + operation_text(
        path,
        HttpMethod::Post,
        item.post,
        target,
    ) + operation_text(path, HttpMethod::Put, item.put, target) + operation_text(
        path,
        HttpMethod::Delete,
        item.delete,
        target,
    )
}

pub open spec fn paths_text(paths: Seq<(String, PathItem)>, target: Target) -> Seq<char>
    decreases paths.len(),
{
    if paths.len() == 0 {
        Seq::<char>::empty()
    } else {
        paths_text(paths.drop_last(), target) + path_item_text(paths.last().0@, paths.last().1, target)
    }
}

pub open spec fn base_url_line(doc: Document) -> Seq<char> {
    "axios.defaults.baseURL = '"@ + doc.scheme@ + "://"@ + doc.host@ + doc.base_path@ + "';\n\n"@
}

/// The service module.
pub open spec fn service_text(doc: Document, target: Target, names: Seq<Seq<char>>, date: Seq<char>) -> Seq<char> {
    header_text(doc.info, date) + "import axios from 'axios';\n\n"@ + base_url_line(doc)
        + imports_text(target, names) + paths_text(doc.paths@, target)
}

/// The names of the schema definitions, in their order.
pub open spec fn definition_names(defs: Seq<(String, SchemaDef)>) -> Seq<Seq<char>>
    decreases defs.len(),
{
    if defs.len() == 0 {
        Seq::<Seq<char>>::empty()
    } else {
        definition_names(defs.drop_last()).push(defs.last().0@)
    }
}

/// Everything emitted from one document.
pub struct Artifacts {
    /// The date stamped into every header.
    pub date: String,
    /// Each schema's name with its declaration, in the order of the definitions.
    pub interfaces: Vec<(String, String)>,
    pub service: String,
}

/// Appends the function of `op`, if there is one.
fn append_operation(out: &mut String, method: HttpMethod, path: &str, op: &Option<Operation>, target: Target)
    ensures
        final(out)@ == old(out)@ + operation_text(path@, method, *op, target),
{
    match op {
        Some(o) => {
            let m = generate_service_method(method, path, o, target);
            out.append(m.as_str());
        },
        None => {
            assert(old(out)@ + Seq::<char>::empty() =~= old(out)@);
        },
    }
}

/// Appends the import statements of `type_names`.
fn append_imports(out: &mut String, target: Target, type_names: &Vec<String>)
    ensures
        final(out)@ == old(out)@ + imports_text(target, views(type_names@)),
{
    let ghost head = out@;
    let ghost names = views(type_names@);
    if target == Target::TypeScript {
        let mut i: usize = 0;
        while i < type_names.len()
            invariant
                i <= type_names@.len(),
                names == views(type_names@),
                out@ == head + import_lines(names.subrange(0, i as int)),
            decreases type_names@.len() - i,
        {
            assert(names.subrange(0, i + 1).drop_last() =~= names.subrange(0, i as int));
            let n = type_names[i].as_str();
            out.append("import { ");
            out.append(n);
            out.append(" } from './interfaces/");
            out.append(n);
            out.append("';\n");
            assert(out@ =~= head + import_lines(names.subrange(0, i + 1)));
            i = i + 1;
        }
        assert(names.subrange(0, type_names@.len() as int) =~= names);
        out.append("\n");
        assert(out@ =~= head + imports_text(target, names));
    } else {
        assert(head + Seq::<char>::empty() =~= head);
    }
}

/// Appends the functions of the operations of one path.
fn append_path_item(out: &mut String, path: &str, item: &PathItem, target: Target)
    ensures
        final(out)@ == old(out)@ + path_item_text(path@, *item, target),
{
    reveal(path_item_text);
    let ghost head = out@;
    append_operation(out, HttpMethod::Get, path, &item.get, target);
    append_operation(out, HttpMethod::Post, path, &item.post, target);
    append_operation(out, HttpMethod::Put, path, &item.put, target);
    append_operation(out, HttpMethod::Delete, path, &item.delete, target);
    assert(out@ =~= head + path_item_text(path@, *item, target));
}

/// Appends the functions of all operations of `paths`.
fn append_paths(out: &mut String, paths: &Vec<(String, PathItem)>, target: Target)
    ensures
        final(out)@ == old(out)@ + paths_text(paths@, target),
{
    let ghost head = out@;
    let mut k: usize = 0;
    while k < paths.len()
        invariant
            k <= paths@.len(),
            out@ == head + paths_text(paths@.subrange(0, k as int), target),
        decreases paths@.len() - k,
    {
        assert(paths@.subrange(0, k + 1).drop_last() =~= paths@.subrange(0, k as int));
        append_path_item(out, paths[k].0.as_str(), &paths[k].1, target);
        assert(out@ =~= head + paths_text(paths@.subrange(0, k + 1), target));
        k = k + 1;
    }
    assert(paths@.subrange(0, paths@.len() as int) =~= paths@);
}

/// The service module: header, base URL, an import for each of `type_names`
/// where the target has static types, and a function for every operation.
pub fn generate_service(doc: &Document, target: Target, type_names: &Vec<String>, date: &str) -> (r: String)
    ensures
        r@ == service_text(*doc, target, views(type_names@), date@),
{
    let mut out = String::new();
    generate_info_comment(&doc.info, date, &mut out);
    out.append("import axios from 'axios';\n\n");
    out.append("axios.defaults.baseURL = '");
    out.append(doc.scheme.as_str());
    out.append("://");
    out.append(doc.host.as_str());
    out.append(doc.base_path.as_str());
    out.append("';\n\n");
    append_imports(&mut out, target, type_names);
    append_paths(&mut out, &doc.paths, target);
    assert(out@ =~= service_text(*doc, target, views(type_names@), date@));
    out
}

/// The declarations of all schemas of `doc` and its service module, stamped
/// with `date`.
pub fn generate_with_date(doc: &Document, target: Target, date: String) -> (r: Artifacts)
    ensures
        r.date@ == date@,
        r.interfaces@.len() == doc.definitions@.len(),
        forall|i: int|
            0 <= i < r.interfaces@.len() ==> {
                &&& (#[trigger] r.interfaces@[i]).0@ == doc.definitions@[i].0@
                &&& r.interfaces@[i].1@ == interface_text(
                    doc.info,
                    date@,
                    doc.definitions@[i].0@,
                    doc.definitions@[i].1,
                )
            },
        r.service@ == service_text(*doc, target, definition_names(doc.definitions@), date@),
{
    let defs = &doc.definitions;
    let mut interfaces: Vec<(String, String)> = Vec::new();
    let mut names: Vec<String> = Vec::new();
    let mut i: usize = 0;
    while i < defs.len()
        invariant
            i <= defs@.len(),
            defs@ == doc.definitions@,
            interfaces@.len() == i,
            views(names@) == definition_names(defs@.subrange(0, i as int)),
            forall|j: int|
                0 <= j < i ==> {
                    &&& (#[trigger] interfaces@[j]).0@ == defs@[j].0@
                    &&& interfaces@[j].1@ == interface_text(doc.info, date@, defs@[j].0@, defs@[j].1)
                },
        decreases defs@.len() - i,
    {
        assert(defs@.subrange(0, i + 1).drop_last() =~= defs@.subrange(0, i as int));
        let name = defs[i].0.as_str();
        let decl = generate_typescript_interface(doc, name, &defs[i].1, date.as_str());
        interfaces.push((name.to_owned(), decl));
        names.push(name.to_owned());
        assert(views(names@) =~= definition_names(defs@.subrange(0, i + 1)));
        i = i + 1;
    }
    assert(defs@.subrange(0, defs@.len() as int) =~= defs@);
    let service = generate_service(doc, target, &names, date.as_str());
    Artifacts { date, interfaces, service }
}

} // verus!

verus! {

/// Emitting from an unchanged document gives the same artifacts every time:
/// with the same date they are identical, and with different dates they
/// differ only in the header, since what follows it does not depend on the
/// date.
pub proof fn lemma_emission_repeatable(
    doc: Document,
    target: Target,
    names: Seq<Seq<char>>,
    name: Seq<char>,
    def: SchemaDef,
    date1: Seq<char>,
    date2: Seq<char>,
)
    ensures
        date1 == date2 ==> interface_text(doc.info, date1, name, def) == interface_text(
            doc.info,
            date2,
            name,
            def,
        ) && service_text(doc, target, names, date1) == service_text(doc, target, names, date2),
        ({
            let h1 = header_text(doc.info, date1).len() as int;
            let h2 = header_text(doc.info, date2).len() as int;
            let i1 = interface_text(doc.info, date1, name, def);
            let i2 = interface_text(doc.info, date2, name, def);
            let s1 = service_text(doc, target, names, date1);
            let s2 = service_text(doc, target, names, date2);
            &&& i1.subrange(h1, i1.len() as int) == i2.subrange(h2, i2.len() as int)
            &&& s1.subrange(h1, s1.len() as int) == s2.subrange(h2, s2.len() as int)
        }),
{
    let h1 = header_text(doc.info, date1);
    let h2 = header_text(doc.info, date2);
    let body = "import axios from 'axios';\n\n"@ + base_url_line(doc) + imports_text(target, names)
        + paths_text(doc.paths@, target);
    assert(service_text(doc, target, names, date1) =~= h1 + body);
    assert(service_text(doc, target, names, date2) =~= h2 + body);
    assert((h1 + body).subrange(h1.len() as int, (h1 + body).len() as int) =~= body);
    assert((h2 + body).subrange(h2.len() as int, (h2 + body).len() as int) =~= body);
    let decl = interface_decl(name, def);
    assert((h1 + decl).subrange(h1.len() as int, (h1 + decl).len() as int) =~= decl);
    assert((h2 + decl).subrange(h2.len() as int, (h2 + decl).len() as int) =~= decl);
}

} // verus!
