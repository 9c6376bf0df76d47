use vstd::prelude::*;
use vstd::string::StringExecFns;
use crate::model::{keys_distinct, HttpMethod, Operation, Response, Target};
use crate::paths::{extract_path_params, extract_unique_path_params, lemma_unique_names, unique_path_params, fallback_name, literals_of, path_fallback_name, path_params, path_url_template, url_template};
use crate::text::{join_with, same_text, split_on, strip_prefix_text, to_upper_camel, upper_camel, views};
use crate::types::{ref_name, DEFINITIONS_PREFIX};

verus! {

/// One parameter of an emitted function signature.
pub struct ParamSpec {
    pub name: Seq<char>,
    pub ty: Seq<char>,
    pub optional: bool,
}

/// The first response listed under `code`.
pub open spec fn response_for(rs: Seq<(String, Response)>, code: Seq<char>) -> Option<Response>
    decreases rs.len(),
{
    if rs.len() == 0 {
        None
    } else if rs[0].0@ == code {
        Some(rs[0].1)
    } else {
        response_for(rs.drop_first(), code)
    }
}

/// The bare type name of the success response, or `any` where there is none.
pub open spec fn response_type_name(op: Operation) -> Seq<char> {
    match response_for(op.responses@, "200"@) {
        Some(r) => match r.schema {
            Some(s) => match s.reference {
                Some(x) => ref_name(x@),
                None => "any"@,
            },
            None => "any"@,
        },
        None => "any"@,
    }
}

/// The declared result type of the emitted function.
pub open spec fn return_type(op: Operation, target: Target) -> Seq<char> {
    if target is TypeScript {
        "Promise<"@ + response_type_name(op) + ">"@
    } else {
        "Promise<any>"@
    }
}

/// The identifier that stands for a missing one.
pub const UNKNOWN_ID: &'static str = "unknown";

/// Whether the operation names itself: it has an identifier other than
/// `unknown`.
pub open spec fn has_own_id(op: Operation) -> bool {
    op.operation_id matches Some(id) && id@ != UNKNOWN_ID@
}

/// The explicit identifier, or else the name derived from the path.
pub open spec fn base_name(path: Seq<char>, op: Operation) -> Seq<char> {
    if has_own_id(op) {
        op.operation_id->Some_0@
    } else {
        fallback_name(path)
    }
}

pub open spec fn by_id_suffix(path: Seq<char>) -> Seq<char> {
    if path_params(path).len() > 0 {
        "ById"@
    } else {
        ""@
    }
}

/// The name of the emitted function.
pub open spec fn callable_name(method: HttpMethod, path: Seq<char>, op: Operation) -> Seq<char> {
    method.spec_name() + upper_camel(base_name(path, op)) + by_id_suffix(path)
}

pub open spec fn required_string(name: Seq<char>) -> ParamSpec {
    ParamSpec { name, ty: "string"@, optional: false }
}

pub open spec fn body_param() -> ParamSpec {
    ParamSpec { name: "data"@, ty: "any"@, optional: true }
}

pub open spec fn config_param() -> ParamSpec {
    ParamSpec { name: "config"@, ty: "any"@, optional: true }
}

pub open spec fn path_param_specs(names: Seq<Seq<char>>) -> Seq<ParamSpec>
    decreases names.len(),
{
    if names.len() == 0 {
        Seq::<ParamSpec>::empty()
    } else {
        path_param_specs(names.drop_last()).push(required_string(names.last()))
    }
}

/// The parameters of the emitted function: the path parameters, the request
/// body where the method has one, and the configuration.
pub open spec fn signature_params(method: HttpMethod, path: Seq<char>) -> Seq<ParamSpec> {
    path_param_specs(unique_path_params(path)) + (if method.spec_has_body() {
        seq![body_param()]
    } else {
        Seq::<ParamSpec>::empty()
    }) + seq![config_param()]
}

pub open spec fn render_param(p: ParamSpec) -> Seq<char> {
    p.name + (if p.optional {
        "?"@
    } else {
        ""@
    }) + ": "@ + p.ty
}

/// Each parameter followed by `, `.
pub open spec fn render_list(ps: Seq<ParamSpec>) -> Seq<char>
    decreases ps.len(),
{
    if ps.len() == 0 {
        Seq::<char>::empty()
    } else {
        render_list(ps.drop_last()) + render_param(ps.last()) + ", "@
    }
}

/// The parameters separated by `, `.
pub open spec fn render_params(ps: Seq<ParamSpec>) -> Seq<char> {
    if ps.len() == 0 {
        Seq::<char>::empty()
    } else {
        render_list(ps.drop_last()) + render_param(ps.last())
    }
}

/// The arguments handed on to the HTTP call after the URL.
pub open spec fn call_args(method: HttpMethod) -> Seq<char> {
    if method.spec_has_body() {
        "data, config"@
    } else {
        "config"@
    }
}

/// The emitted function of one operation.
pub open spec fn method_text(method: HttpMethod, path: Seq<char>, op: Operation, target: Target) -> Seq<char> {
    "export async function "@ + callable_name(method, path, op) + "("@ + render_params(
        signature_params(method, path),
    ) + "): "@ + return_type(op, target) + " {\n    const response = await axios."@
        + method.spec_name() + "(`"@ + url_template(path) + "`, "@ + call_args(method)
        + ");\n    return response.data;\n}\n\n"@
}

/// The type name carried by the `200` response, prefix stripped; `any` without one.
pub fn success_type_name(op: &Operation) -> (r: String)
    ensures
        r@ == response_type_name(*op),
{
    let rs = &op.responses;
    let mut i: usize = 0;
    assert(rs@.subrange(0, rs@.len() as int) =~= rs@);
    while i < rs.len()
        invariant
            i <= rs@.len(),
            rs@ == op.responses@,
            response_for(rs@, "200"@) == response_for(rs@.subrange(i as int, rs@.len() as int), "200"@),
        decreases rs@.len() - i,
    {
        let ghost rest = rs@.subrange(i as int, rs@.len() as int);
        assert(rest.drop_first() =~= rs@.subrange(i + 1, rs@.len() as int));
        assert(rest[0] == rs@[i as int]);
        if same_text(rs[i].0.as_str(), "200") {
            let found = &rs[i].1;
            assert(response_for(rest, "200"@) == Some(*found));
            let name = match &found.schema {
                Some(s) => match &s.reference {
                    Some(x) => strip_prefix_text(x.as_str(), DEFINITIONS_PREFIX),
                    None => "any".to_owned(),
                },
                None => "any".to_owned(),
            };
            return name;
        }
        i = i + 1;
    }
    "any".to_owned()
}

/// The name of the function emitted for `method` on `path`.
pub fn operation_name(method: HttpMethod, path: &str, op: &Operation) -> (r: String)
    ensures
        r@ == callable_name(method, path@, *op),
{
    let base = match &op.operation_id {
        Some(id) if !same_text(id.as_str(), UNKNOWN_ID) => id.as_str().to_owned(),
        _ => path_fallback_name(path),
    };
    let mut name = method.name().to_owned();
    let camel = to_upper_camel(base.as_str());
    name.append(camel.as_str());
    let params = extract_path_params(path);
    if params.len() > 0 {
        name.append("ById");
    }
    proof {
        reveal_strlit("");
    }
    assert(name@ =~= callable_name(method, path@, *op));
    name
}

/// The parameter list of the function emitted for `method` on `path`.
pub fn signature_text(method: HttpMethod, path: &str) -> (r: String)
    ensures
        r@ == render_params(signature_params(method, path@)),
{
    let params = extract_unique_path_params(path);
    let ghost names = views(params@);
    let mut out = String::new();
    let mut i: usize = 0;
    while i < params.len()
        invariant
            i <= params@.len(),
            names == views(params@),
            out@ == render_list(path_param_specs(names.subrange(0, i as int))),
        decreases params@.len() - i,
    {
        let ghost specs = path_param_specs(names.subrange(0, i as int));
        assert(names.subrange(0, i + 1).drop_last() =~= names.subrange(0, i as int));
        assert(names.subrange(0, i + 1).last() == params@[i as int]@);
        assert(specs.push(required_string(params@[i as int]@)).drop_last() =~= specs);
        out.append(params[i].as_str());
        out.append(": string, ");
        proof {
            reveal_strlit(": string, ");
            reveal_strlit(", ");
            reveal_strlit(": ");
            reveal_strlit("string");
            reveal_strlit("");
        }
        assert(out@ =~= render_list(path_param_specs(names.subrange(0, i + 1))));
        i = i + 1;
    }
    assert(names.subrange(0, params@.len() as int) =~= names);
    let ghost front = path_param_specs(names);
    let ghost all = signature_params(method, path@);
    if method.has_body() {
        out.append("data?: any, ");
        proof {
            reveal_strlit("data?: any, ");
            reveal_strlit("data");
            reveal_strlit("?");
            reveal_strlit("any");
            reveal_strlit(": ");
            reveal_strlit(", ");
        }
        assert(all.drop_last() =~= front.push(body_param()));
        assert(front.push(body_param()).drop_last() =~= front);
        assert(render_list(front.push(body_param())) =~= render_list(front) + render_param(body_param()) + ", "@);
    } else {
        assert(all.drop_last() =~= front);
    }
    out.append("config?: any");
    proof {
        reveal_strlit("config?: any");
        reveal_strlit("config");
        reveal_strlit("?");
        reveal_strlit("any");
        reveal_strlit(": ");
    }
    assert(render_param(config_param()) =~= "config?: any"@);
    assert(all.last() == config_param());
    assert(out@ =~= render_params(all));
    out
}

/// The declared result type for `op` in `target`.
pub fn result_type(op: &Operation, target: Target) -> (r: String)
    ensures
        r@ == return_type(*op, target),
{
    match target {
        Target::TypeScript => {
            let mut t = "Promise<".to_owned();
            let name = success_type_name(op);
            t.append(name.as_str());
            t.append(">");
            t
        },
        Target::JavaScript => "Promise<any>".to_owned(),
    }
}

/// The client function of one HTTP operation: its name, parameters, result
/// type and a body that makes the call.
pub fn generate_service_method(method: HttpMethod, path: &str, op: &Operation, target: Target) -> (r: String)
    ensures
        r@ == method_text(method, path@, *op, target),
{
    let name = operation_name(method, path, op);
    let params = signature_text(method, path);
    let ret = result_type(op, target);
    let url = path_url_template(path);
    let mut out = "export async function ".to_owned();
    out.append(name.as_str());
    out.append("(");
    out.append(params.as_str());
    out.append("): ");
    out.append(ret.as_str());
    out.append(" {\n    const response = await axios.");
    out.append(method.name());
    out.append("(`");
    out.append(url.as_str());
    out.append("`, ");
    if method.has_body() {
        out.append("data, config");
    } else {
        out.append("config");
    }
    out.append(");\n    return response.data;\n}\n\n");
    assert(out@ =~= method_text(method, path@, *op, target));
    out
}

} // verus!

verus! {

pub proof fn lemma_path_param_specs(names: Seq<Seq<char>>)
    ensures
        path_param_specs(names).len() == names.len(),
        forall|j: int|
            0 <= j < names.len() ==> #[trigger] path_param_specs(names)[j] == required_string(
                names[j],
            ),
    decreases names.len(),
{
    if names.len() > 0 {
        lemma_path_param_specs(names.drop_last());
    }
}

/// A path with placeholders gives a name ending in `ById` and one required
/// `string` parameter per distinct placeholder name, in the order of first
/// occurrence, ahead of all others; a path without any gives neither the
/// suffix nor such a parameter.
pub proof fn lemma_path_placeholders(method: HttpMethod, path: Seq<char>, op: Operation)
    ensures
        ({
            let names = unique_path_params(path);
            let params = signature_params(method, path);
            let name = callable_name(method, path, op);
            &&& names.no_duplicates()
            &&& forall|n: Seq<char>| #[trigger] names.contains(n) <==> path_params(path).contains(n)
            &&& names.len() <= params.len()
            &&& forall|j: int|
                0 <= j < names.len() ==> (#[trigger] params[j]).name == names[j] && params[j].ty
                    == "string"@ && !params[j].optional
            &&& forall|j: int| names.len() <= j < params.len() ==> (#[trigger] params[j]).optional
            &&& names.len() > 0 ==> name.len() >= 4 && name.subrange(
                name.len() - 4,
                name.len() as int,
            ) == "ById"@
            &&& names.len() == 0 ==> name == method.spec_name() + upper_camel(base_name(path, op))
        }),
{
    let names = unique_path_params(path);
    let params = signature_params(method, path);
    let name = callable_name(method, path, op);
    lemma_unique_names(path_params(path));
    lemma_path_param_specs(names);
    let front = path_param_specs(names);
    assert forall|j: int| 0 <= j < names.len() implies (#[trigger] params[j]).name == names[j]
        && params[j].ty == "string"@ && !params[j].optional by {
        assert(params[j] == front[j]);
    }
    reveal_strlit("ById");
    reveal_strlit("");
    if names.len() > 0 {
        let stem = method.spec_name() + upper_camel(base_name(path, op));
        assert(name == stem + "ById"@);
        assert(name.subrange(name.len() - 4, name.len() as int) =~= "ById"@);
    } else {
        assert(name =~= method.spec_name() + upper_camel(base_name(path, op)));
    }
}

/// In a well-formed operation the success response is the one entry listed
/// under `200`, and there is none when no entry is.
pub proof fn lemma_success_response(op: Operation)
    requires
        op.wf(),
    ensures
        forall|i: int|
            0 <= i < op.responses@.len() && (#[trigger] op.responses@[i]).0@ == "200"@
                ==> response_for(op.responses@, "200"@) == Some(op.responses@[i].1),
        (forall|i: int| 0 <= i < op.responses@.len() ==> (#[trigger] op.responses@[i]).0@ != "200"@)
            ==> response_for(op.responses@, "200"@) is None,
{
    assert forall|i: int|
        0 <= i < op.responses@.len() && (#[trigger] op.responses@[i]).0@ == "200"@ implies response_for(
        op.responses@,
        "200"@,
    ) == Some(op.responses@[i].1) by {
        lemma_response_at(op.responses@, "200"@, i);
    }
    if forall|i: int| 0 <= i < op.responses@.len() ==> (#[trigger] op.responses@[i]).0@ != "200"@ {
        lemma_response_absent(op.responses@, "200"@);
    }
}

proof fn lemma_response_at(rs: Seq<(String, Response)>, code: Seq<char>, i: int)
    requires
        keys_distinct(rs),
        0 <= i < rs.len(),
        rs[i].0@ == code,
    ensures
        response_for(rs, code) == Some(rs[i].1),
    decreases rs.len(),
{
    if i > 0 {
        assert(rs[0].0@ != rs[i].0@);
        let rest = rs.drop_first();
        assert forall|a: int, b: int| 0 <= a < b < rest.len() implies (#[trigger] rest[a]).0@
            != (#[trigger] rest[b]).0@ by {
            assert(rs[a + 1].0@ != rs[b + 1].0@);
        }
        assert(rest[i - 1] == rs[i]);
        lemma_response_at(rest, code, i - 1);
    }
}

proof fn lemma_response_absent(rs: Seq<(String, Response)>, code: Seq<char>)
    requires
        forall|i: int| 0 <= i < rs.len() ==> (#[trigger] rs[i]).0@ != code,
    ensures
        response_for(rs, code) is None,
    decreases rs.len(),
{
    if rs.len() > 0 {
        let rest = rs.drop_first();
        assert forall|i: int| 0 <= i < rest.len() implies (#[trigger] rest[i]).0@ != code by {
            assert(rest[i] == rs[i + 1]);
        }
        lemma_response_absent(rest, code);
    }
}

/// `get` and `delete` take no request body; every other method takes exactly
/// one optional body parameter, right after the path parameters and right
/// before the configuration.
pub proof fn lemma_body_parameter(method: HttpMethod, path: Seq<char>)
    ensures
        ({
            let k = unique_path_params(path).len() as int;
            let params = signature_params(method, path);
            &&& (method is Get || method is Delete) ==> params.len() == k + 1 && forall|j: int|
                0 <= j < params.len() ==> #[trigger] params[j] != body_param()
            &&& !(method is Get || method is Delete) ==> params.len() == k + 2 && params[k]
                == body_param() && params[k + 1] == config_param() && forall|j: int|
                0 <= j < params.len() && j != k ==> #[trigger] params[j] != body_param()
        }),
{
    let names = unique_path_params(path);
    let k = names.len() as int;
    let params = signature_params(method, path);
    lemma_path_param_specs(names);
    reveal_strlit("data");
    reveal_strlit("config");
    assert("data"@[0] != "config"@[0]);
    assert forall|j: int| 0 <= j < params.len() && j != k implies #[trigger] params[j]
        != body_param() by {
        if j < k {
            assert(params[j] == path_param_specs(names)[j]);
        }
    }
}

/// Without an identifier of its own (none, or `unknown`), the name is the
/// method followed by the camel-cased, `_`-joined literal segments of the
/// path, and `ById` where it has placeholders.
pub proof fn lemma_derived_name(method: HttpMethod, path: Seq<char>, op: Operation)
    requires
        op.operation_id is None || op.operation_id->Some_0@ == "unknown"@,
    ensures
        callable_name(method, path, op) == method.spec_name() + upper_camel(
            join_with(literals_of(split_on(path, '/')), "_"@),
        ) + by_id_suffix(path),
        path_params(path).len() == 0 ==> callable_name(method, path, op) == method.spec_name()
            + upper_camel(join_with(literals_of(split_on(path, '/')), "_"@)),
{
    reveal_strlit("");
    assert(callable_name(method, path, op) =~= method.spec_name() + upper_camel(
        fallback_name(path),
    ) + by_id_suffix(path));
    if path_params(path).len() == 0 {
        assert(callable_name(method, path, op) =~= method.spec_name() + upper_camel(
            fallback_name(path),
        ));
    }
}

} // verus!
