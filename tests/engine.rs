use swagger_gen::model::{
    Document, HttpMethod, Info, Operation, PathItem, PropertyDef, Response, ResponseSchema,
    SchemaDef, Target,
};
use swagger_gen::operations::{generate_service_method, operation_name, signature_text, success_type_name};
use swagger_gen::paths::{extract_path_params, extract_unique_path_params, path_fallback_name, path_url_template};
use swagger_gen::service::{generate_service, generate_with_date};
use swagger_gen::text::{capitalize_word, join_text, same_text, split_text, starts_with_text, strip_prefix_text, to_upper_camel};
use swagger_gen::types::{generate_info_comment, generate_typescript_interface, property_type};

fn prop(kind: Option<&str>) -> PropertyDef {
    PropertyDef {
        kind: kind.map(|k| k.to_string()),
        format: None,
        item_kind: None,
        reference: None,
    }
}

fn array_of(item: Option<&str>) -> PropertyDef {
    PropertyDef {
        kind: Some("array".to_string()),
        format: None,
        item_kind: item.map(|k| k.to_string()),
        reference: None,
    }
}

fn object_ref(reference: Option<&str>) -> PropertyDef {
    PropertyDef {
        kind: Some("object".to_string()),
        format: None,
        item_kind: None,
        reference: reference.map(|k| k.to_string()),
    }
}

fn info() -> Info {
    Info {
        title: "Pets".to_string(),
        version: "1.0".to_string(),
        description: "A pet store".to_string(),
    }
}

fn user_schema(required: Option<Vec<&str>>) -> SchemaDef {
    SchemaDef {
        kind: Some("object".to_string()),
        properties: vec![
            ("id".to_string(), prop(Some("integer"))),
            ("name".to_string(), prop(Some("string"))),
        ],
        required: required.map(|r| r.into_iter().map(|s| s.to_string()).collect()),
    }
}

fn op(id: Option<&str>, reference: Option<&str>) -> Operation {
    Operation {
        operation_id: id.map(|s| s.to_string()),
        summary: None,
        responses: vec![(
            "200".to_string(),
            Response {
                description: "ok".to_string(),
                schema: Some(ResponseSchema {
                    kind: None,
                    reference: reference.map(|s| s.to_string()),
                }),
            },
        )],
    }
}

fn doc() -> Document {
    Document {
        info: info(),
        definitions: vec![("User".to_string(), user_schema(Some(vec!["id"])))],
        paths: vec![
            (
                "/users/{id}".to_string(),
                PathItem {
                    get: Some(op(None, Some("#/definitions/User"))),
                    post: None,
                    put: None,
                    delete: Some(op(None, None)),
                },
            ),
            (
                "/users".to_string(),
                PathItem {
                    get: None,
                    post: Some(op(Some("create_user"), Some("#/definitions/User"))),
                    put: None,
                    delete: None,
                },
            ),
        ],
        scheme: "https".to_string(),
        host: "api.example.com".to_string(),
        base_path: "/v1".to_string(),
    }
}

const HEADER: &str = "/*\n * This file was generated by swagger-genereator\n * Do not modify this file manually.\n * Version: 1.0\n * Title: Pets\n * Description: A pet store\n * Author: Muhtalip Dede\n * Generated on: 2024-05-06 */\n\n";

#[test]
fn header_comment_holds_metadata_and_date() {
    let mut out = "x".to_string();
    generate_info_comment(&info(), "2024-05-06", &mut out);
    assert_eq!(out, format!("x{}", HEADER));
}

#[test]
fn user_interface_end_to_end() {
    let text = generate_typescript_interface(&doc(), "User", &user_schema(Some(vec!["id"])), "2024-05-06");
    assert_eq!(
        text,
        format!("{}export interface User {{\n    id: number;\n    name?: string;\n}}\n", HEADER)
    );
}

#[test]
fn no_required_set_makes_all_required() {
    let text = generate_typescript_interface(&doc(), "User", &user_schema(None), "2024-05-06");
    assert!(text.ends_with("export interface User {\n    id: number;\n    name: string;\n}\n"));
}

#[test]
fn required_set_lists_all() {
    let text = generate_typescript_interface(&doc(), "User", &user_schema(Some(vec!["id", "name"])), "d");
    assert!(text.ends_with("    id: number;\n    name: string;\n}\n"));
}

#[test]
fn empty_required_set_makes_all_optional() {
    let text = generate_typescript_interface(&doc(), "User", &user_schema(Some(vec![])), "d");
    assert!(text.ends_with("    id?: number;\n    name?: string;\n}\n"));
}

#[test]
fn unknown_required_name_is_ignored() {
    let text = generate_typescript_interface(&doc(), "User", &user_schema(Some(vec!["id", "ghost"])), "d");
    assert!(text.ends_with("    id: number;\n    name?: string;\n}\n"));
    assert!(!text.contains("ghost"));
}

#[test]
fn empty_schema_has_empty_body() {
    let def = SchemaDef { kind: None, properties: vec![], required: None };
    let text = generate_typescript_interface(&doc(), "Empty", &def, "d");
    assert!(text.ends_with("export interface Empty {\n}\n"));
}

#[test]
fn scalar_property_types() {
    assert_eq!(property_type(&prop(Some("integer"))), "number");
    assert_eq!(property_type(&prop(Some("string"))), "string");
    assert_eq!(property_type(&prop(Some("boolean"))), "boolean");
    assert_eq!(property_type(&prop(Some("number"))), "any");
    assert_eq!(property_type(&prop(None)), "any");
}

#[test]
fn array_property_types() {
    assert_eq!(property_type(&array_of(Some("integer"))), "number[]");
    assert_eq!(property_type(&array_of(Some("string"))), "string[]");
    assert_eq!(property_type(&array_of(Some("boolean"))), "boolean[]");
    assert_eq!(property_type(&array_of(Some("object"))), "any[]");
    assert_eq!(property_type(&array_of(None)), "any[]");
}

#[test]
fn object_property_types() {
    assert_eq!(property_type(&object_ref(Some("#/definitions/Address"))), "Address");
    assert_eq!(property_type(&object_ref(Some("Address"))), "Address");
    assert_eq!(property_type(&object_ref(None)), "any");
}

#[test]
fn get_by_id_end_to_end() {
    let text = generate_service_method(
        HttpMethod::Get,
        "/users/{id}",
        &op(None, Some("#/definitions/User")),
        Target::TypeScript,
    );
    assert_eq!(
        text,
        "export async function getUsersById(id: string, config?: any): Promise<User> {\n    const response = await axios.get(`/users/${id}`, config);\n    return response.data;\n}\n\n"
    );
}

#[test]
fn post_takes_body_before_config() {
    let text = generate_service_method(HttpMethod::Post, "/users", &op(None, None), Target::TypeScript);
    assert_eq!(
        text,
        "export async function postUsers(data?: any, config?: any): Promise<any> {\n    const response = await axios.post(`/users`, data, config);\n    return response.data;\n}\n\n"
    );
}

#[test]
fn put_with_params_and_body() {
    let text = generate_service_method(
        HttpMethod::Put,
        "/shops/{shop}/items/{item}",
        &op(Some("update_item"), Some("Item")),
        Target::TypeScript,
    );
    assert!(text.starts_with(
        "export async function putUpdateItemById(shop: string, item: string, data?: any, config?: any): Promise<Item> {"
    ));
    assert!(text.contains("axios.put(`/shops/${shop}/items/${item}`, data, config);"));
}

#[test]
fn delete_has_no_body() {
    assert_eq!(signature_text(HttpMethod::Delete, "/users/{id}"), "id: string, config?: any");
    assert_eq!(signature_text(HttpMethod::Get, "/users"), "config?: any");
    assert_eq!(signature_text(HttpMethod::Post, "/a/{x}"), "x: string, data?: any, config?: any");
}

#[test]
fn names_from_paths_and_identifiers() {
    assert_eq!(operation_name(HttpMethod::Get, "/pet/find_by_status", &op(None, None)), "getPetFindByStatus");
    assert_eq!(operation_name(HttpMethod::Delete, "/a/{x}/b/{y}", &op(None, None)), "deleteABById");
    assert_eq!(operation_name(HttpMethod::Get, "/users", &op(Some("list_all"), None)), "getListAll");
    assert_eq!(operation_name(HttpMethod::Get, "/users/{name}", &op(Some("fetch"), None)), "getFetchById");
    assert_eq!(operation_name(HttpMethod::Put, "/", &op(None, None)), "put");
}

#[test]
fn javascript_target_is_untyped() {
    let text = generate_service_method(HttpMethod::Get, "/users", &op(None, Some("User")), Target::JavaScript);
    assert!(text.contains("): Promise<any> {"));
}

#[test]
fn success_type_fallbacks() {
    assert_eq!(success_type_name(&op(None, Some("#/definitions/Pet"))), "Pet");
    assert_eq!(success_type_name(&op(None, None)), "any");
    let no_schema = Operation {
        operation_id: None,
        summary: None,
        responses: vec![("200".to_string(), Response { description: "ok".to_string(), schema: None })],
    };
    assert_eq!(success_type_name(&no_schema), "any");
    let other_code = Operation {
        operation_id: None,
        summary: None,
        responses: vec![(
            "404".to_string(),
            Response {
                description: "missing".to_string(),
                schema: Some(ResponseSchema { kind: None, reference: Some("Err".to_string()) }),
            },
        )],
    };
    assert_eq!(success_type_name(&other_code), "any");
}

#[test]
fn path_helpers() {
    assert_eq!(extract_path_params("/a/{x}/b/{y}"), vec!["x".to_string(), "y".to_string()]);
    assert!(extract_path_params("/a/b").is_empty());
    assert_eq!(path_fallback_name("/users/{id}/posts"), "users_posts");
    assert_eq!(path_url_template("/users/{id}/posts"), "/users/${id}/posts");
}

#[test]
fn text_helpers() {
    assert_eq!(split_text("/a//b", '/'), vec!["", "a", "", "b"]);
    assert_eq!(join_text(&vec!["a".to_string(), "b".to_string()], "_"), "a_b");
    assert_eq!(to_upper_camel("find_by_status"), "FindByStatus");
    assert_eq!(to_upper_camel("a__bC"), "ABC");
    assert_eq!(strip_prefix_text("#/definitions/User", "#/definitions/"), "User");
    assert_eq!(strip_prefix_text("User", "#/definitions/"), "User");
    assert!(same_text("abc", "abc"));
    assert!(!same_text("abc", "abd"));
    assert!(starts_with_text("abc", "ab"));
    assert!(!starts_with_text("ab", "abc"));
}

#[test]
fn service_module_typescript() {
    let names = vec!["User".to_string()];
    let text = generate_service(&doc(), Target::TypeScript, &names, "2024-05-06");
    let expected_start = format!(
        "{}import axios from 'axios';\n\naxios.defaults.baseURL = 'https://api.example.com/v1';\n\nimport {{ User }} from './interfaces/User';\n\nexport async function getUsersById(",
        HEADER
    );
    assert!(text.starts_with(&expected_start));
    let get = text.find("getUsersById").unwrap();
    let delete = text.find("deleteUsersById").unwrap();
    let post = text.find("postCreateUser(data?: any, config?: any): Promise<User>").unwrap();
    assert!(get < delete && delete < post);
}

#[test]
fn service_module_javascript_has_no_imports() {
    let names = vec!["User".to_string()];
    let text = generate_service(&doc(), Target::JavaScript, &names, "d");
    assert!(!text.contains("./interfaces/"));
    assert!(text.contains("axios.defaults.baseURL = 'https://api.example.com/v1';\n\nexport async function"));
}

#[test]
fn emission_is_repeatable() {
    let a = generate_with_date(&doc(), Target::TypeScript, "2024-05-06".to_string());
    let b = generate_with_date(&doc(), Target::TypeScript, "2024-05-06".to_string());
    assert_eq!(a.service, b.service);
    assert_eq!(a.interfaces, b.interfaces);
    assert_eq!(a.interfaces.len(), 1);
    assert_eq!(a.interfaces[0].0, "User");
    let c = generate_with_date(&doc(), Target::TypeScript, "1999-12-31".to_string());
    let skip_a = HEADER.len();
    let skip_c = c.service.find(" */\n\n").unwrap() + 5;
    assert_eq!(&a.service[skip_a..], &c.service[skip_c..]);
}

#[test]
fn generate_stamps_one_date() {
    let a = generate_with_date(&doc(), Target::TypeScript, "2031-01-02".to_string());
    assert_eq!(a.date, "2031-01-02");
    assert!(a.service.contains(" * Generated on: 2031-01-02 */"));
    assert!(a.interfaces[0].1.contains(" * Generated on: 2031-01-02 */"));
}

#[test]
fn unknown_identifier_counts_as_missing() {
    assert_eq!(operation_name(HttpMethod::Get, "/users", &op(Some("unknown"), None)), "getUsers");
    assert_eq!(operation_name(HttpMethod::Post, "/api/user_list", &op(Some("unknown"), None)), "postApiUserList");
    assert_eq!(operation_name(HttpMethod::Post, "/api/user_list", &op(None, None)), "postApiUserList");
    assert_eq!(operation_name(HttpMethod::Get, "/users/{id}", &op(Some("unknown"), None)), "getUsersById");
    assert_eq!(operation_name(HttpMethod::Get, "/users", &op(Some("unknown_x"), None)), "getUnknownX");
}

#[test]
fn repeated_placeholder_gives_one_parameter() {
    assert_eq!(
        extract_unique_path_params("/a/{id}/b/{id}/c/{x}"),
        vec!["id".to_string(), "x".to_string()]
    );
    assert_eq!(extract_path_params("/a/{id}/b/{id}").len(), 2);
    assert_eq!(signature_text(HttpMethod::Put, "/a/{id}/b/{id}"), "id: string, data?: any, config?: any");
    let text = generate_service_method(HttpMethod::Get, "/a/{id}/b/{id}", &op(None, None), Target::TypeScript);
    assert!(text.starts_with("export async function getABById(id: string, config?: any): Promise<any> {"));
    assert!(text.contains("axios.get(`/a/${id}/b/${id}`, config);"));
}

#[test]
fn capitalize_word_uses_given_first_character() {
    assert_eq!(capitalize_word("users", "U"), "Users");
    assert_eq!(capitalize_word("straße", "ST"), "STtraße");
    assert_eq!(capitalize_word("", "X"), "");
    assert_eq!(to_upper_camel("ß_x"), "SSX");
}
