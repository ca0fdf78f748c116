use api_stubgen::model::{
    find_schema, Document, MediaEntry, MediaType, MethodEntry, Operation, PathEntry, RequestBody,
    Schema, SchemaEntry,
};
use api_stubgen::ordered::{insert_by_key, is_text_less};
use api_stubgen::render::{body_documentation, render_operation, render_operation_with};
use api_stubgen::summary::summarize;
use api_stubgen::text::{after_last_slash, same_text, sanitize, split_path};
use api_stubgen::tree::{build, export_statement, location, render_methods};

fn empty_schema() -> Schema {
    Schema { typ: None, reference: None, format: None, properties: None, items: None, one_of: None }
}

fn typed(t: &str) -> Schema {
    Schema { typ: Some(t.to_string()), ..empty_schema() }
}

fn reference(r: &str) -> Schema {
    Schema { reference: Some(r.to_string()), ..empty_schema() }
}

fn entry(name: &str, schema: Schema) -> SchemaEntry {
    SchemaEntry { name: name.to_string(), schema }
}

fn user_registry() -> Vec<SchemaEntry> {
    let user = Schema {
        typ: Some("object".to_string()),
        properties: Some(vec![entry("id", typed("integer")), entry("name", typed("string"))]),
        ..empty_schema()
    };
    vec![entry("User", user)]
}

fn json_body(schema: Schema) -> RequestBody {
    RequestBody {
        content: vec![MediaEntry {
            media_type: "application/json".to_string(),
            media: MediaType { schema: Some(schema) },
        }],
    }
}

fn op(summary: Option<&str>, body: Option<RequestBody>) -> Operation {
    Operation { summary: summary.map(|s| s.to_string()), request_body: body }
}

fn method(m: &str, operation: Operation) -> MethodEntry {
    MethodEntry { method: m.to_string(), operation }
}

fn get_text(summary: &str, url: &str) -> String {
    format!(
        "/// {}\nconst fetch = require('node-fetch');\n\nasync function main() {{\n    const response = await fetch('{}', {{ method: 'GET' }});\n    return await response.json();\n}}\n\nmodule.exports = main;\n",
        summary, url
    )
}

fn send_text(m: &str, upper: &str, summary: &str, doc: &str, url: &str) -> String {
    format!(
        "/// {summary}\nconst fetch = require('node-fetch');\n\n{doc}async function {m}(body) {{\n    const response = await fetch('{url}', {{\n        method: '{upper}',\n        headers: {{ 'Content-Type': 'application/json' }},\n        body: JSON.stringify(body)\n    }});\n    return await response.json();\n}}\n\nmodule.exports.{m} = {m};\n",
    )
}

#[test]
fn sanitize_replaces_braces() {
    assert_eq!(sanitize("{param}"), "_param_param");
    assert_eq!(sanitize("users"), "users");
    assert_eq!(sanitize("a{b}c}"), "a_param_bc");
    assert_eq!(sanitize(""), "");
}

#[test]
fn sanitize_is_idempotent() {
    for s in ["{id}", "x{y}{z}", "}{", "plain"] {
        let once = sanitize(s);
        assert_eq!(sanitize(&once), once);
    }
}

#[test]
fn location_and_accessor_agree() {
    let loc = location("/users/{id}");
    assert_eq!(loc, vec!["users".to_string(), "_param_id".to_string()]);
    let line = export_statement("/users/{id}");
    let keys: String = loc.iter().map(|s| format!("['{}']", s)).collect();
    assert!(line.starts_with(&format!("module.exports{} =", keys)));
}

#[test]
fn split_path_strips_one_leading_slash() {
    assert_eq!(split_path("/users/{id}"), vec!["users", "{id}"]);
    assert_eq!(split_path("/"), vec![""]);
    assert_eq!(split_path("//x"), vec!["", "x"]);
    assert_eq!(split_path("a/b"), vec!["a", "b"]);
    assert_eq!(split_path("/v1.0/x"), vec!["v1.0", "x"]);
}

#[test]
fn reference_name_is_last_piece() {
    assert_eq!(after_last_slash("#/components/schemas/User"), "User");
    assert_eq!(after_last_slash("User"), "User");
    assert_eq!(after_last_slash("a/"), "");
}

#[test]
fn same_text_compares_characters() {
    assert!(same_text("get", "get"));
    assert!(!same_text("get", "post"));
    assert!(!same_text("get", "gets"));
    assert!(!same_text("GET", "get"));
}

#[test]
fn find_schema_takes_first_match() {
    let reg = vec![entry("A", typed("string")), entry("B", typed("integer")), entry("B", typed("boolean"))];
    assert_eq!(find_schema(&reg, &"B".to_string()), Some(1));
    assert_eq!(find_schema(&reg, &"C".to_string()), None);
    assert_eq!(find_schema(&Vec::new(), &"A".to_string()), None);
}

#[test]
fn summary_format_wins_over_type() {
    let p = Schema { format: Some("int32".to_string()), ..typed("integer") };
    assert_eq!(summarize(&p), "integer (int32)");
    let q = Schema { format: Some("date".to_string()), ..empty_schema() };
    assert_eq!(summarize(&q), "unknown (date)");
}

#[test]
fn summary_one_of_wins_over_items() {
    let p = Schema {
        one_of: Some(vec![typed("string"), typed("integer")]),
        items: Some(Box::new(typed("string"))),
        ..empty_schema()
    };
    assert_eq!(summarize(&p), "oneOf");
}

#[test]
fn summary_ignores_empty_one_of() {
    let p = Schema { one_of: Some(Vec::new()), items: Some(Box::new(typed("string"))), ..empty_schema() };
    assert_eq!(summarize(&p), "array<string>");
    let q = Schema { one_of: Some(Vec::new()), ..typed("object") };
    assert_eq!(summarize(&q), "object");
}

#[test]
fn post_alone_is_its_stub() {
    let methods = vec![method("post", op(None, None))];
    let text = render_methods(&methods, &Vec::new(), "/x");
    assert_eq!(text, send_text("post", "POST", "No description", "", "https://api.alice-snow.ru/x"));
}

#[test]
fn well_formed_needs_ordered_keys() {
    let ordered = Document {
        paths: vec![
            PathEntry { path: "/a".to_string(), methods: vec![method("get", op(None, None)), method("post", op(None, None))] },
            PathEntry { path: "/b".to_string(), methods: Vec::new() },
        ],
        schemas: Vec::new(),
    };
    assert!(ordered.is_well_formed());
    let paths_swapped = Document {
        paths: vec![
            PathEntry { path: "/b".to_string(), methods: Vec::new() },
            PathEntry { path: "/a".to_string(), methods: Vec::new() },
        ],
        schemas: Vec::new(),
    };
    assert!(!paths_swapped.is_well_formed());
    let methods_repeated = Document {
        paths: vec![PathEntry {
            path: "/a".to_string(),
            methods: vec![method("get", op(None, None)), method("get", op(None, None))],
        }],
        schemas: Vec::new(),
    };
    assert!(!methods_repeated.is_well_formed());
    let schemas_swapped = Document {
        paths: Vec::new(),
        schemas: vec![entry("User", typed("object")), entry("Order", typed("object"))],
    };
    assert!(!schemas_swapped.is_well_formed());
}

#[test]
fn summary_of_array_uses_item_type() {
    let p = Schema { items: Some(Box::new(typed("string"))), ..empty_schema() };
    assert_eq!(summarize(&p), "array<string>");
    let shallow = Schema {
        items: Some(Box::new(Schema { format: Some("uuid".to_string()), ..empty_schema() })),
        ..empty_schema()
    };
    assert_eq!(summarize(&shallow), "array<unknown>");
}

#[test]
fn summary_of_reference_and_plain() {
    assert_eq!(summarize(&reference("#/components/schemas/User")), "ref -> #/components/schemas/User");
    assert_eq!(summarize(&typed("boolean")), "boolean");
    assert_eq!(summarize(&empty_schema()), "unknown");
}

#[test]
fn reference_resolves_to_registry_properties() {
    let body = Some(json_body(reference("#/components/schemas/User")));
    let doc = body_documentation(&body, &user_registry());
    assert_eq!(doc, "/// body:\n///   \"id\": \"integer\"\n///   \"name\": \"string\"\n");
}

#[test]
fn unresolved_reference_documents_nothing() {
    let body = Some(json_body(reference("#/components/schemas/Missing")));
    let text = render_operation("post", &None, &body, &user_registry(), "/users");
    let expected = send_text("post", "POST", "No description", "/// body:\n", "https://api.alice-snow.ru/users");
    assert_eq!(text, expected);
    assert!(!text.contains("///   "));
}

#[test]
fn inline_schema_and_other_media_types() {
    let inline = Schema {
        properties: Some(vec![entry("tags", Schema { items: Some(Box::new(typed("string"))), ..empty_schema() })]),
        ..empty_schema()
    };
    let doc = body_documentation(&Some(json_body(inline)), &Vec::new());
    assert_eq!(doc, "/// body:\n///   \"tags\": \"array<string>\"\n");
    let xml = RequestBody {
        content: vec![MediaEntry {
            media_type: "application/xml".to_string(),
            media: MediaType { schema: Some(typed("string")) },
        }],
    };
    assert_eq!(body_documentation(&Some(xml), &Vec::new()), "/// body:\n");
    assert_eq!(body_documentation(&None, &Vec::new()), "");
}

#[test]
fn send_stub_uses_upper_case_method() {
    let text = render_operation("patch", &Some("Edit".to_string()), &None, &Vec::new(), "/a");
    assert_eq!(text, send_text("patch", "PATCH", "Edit", "", "https://api.alice-snow.ru/a"));
    let with = render_operation_with("put", "PUT", &None, &None, &Vec::new(), "/a");
    assert_eq!(with, send_text("put", "PUT", "No description", "", "https://api.alice-snow.ru/a"));
}

#[test]
fn get_ignores_body() {
    let body = Some(json_body(reference("#/components/schemas/User")));
    let text = render_operation("get", &Some("List".to_string()), &body, &user_registry(), "/users");
    assert_eq!(text, get_text("List", "https://api.alice-snow.ru/users"));
}

#[test]
fn get_then_post_concatenates() {
    let methods = vec![method("get", op(Some("List"), None)), method("post", op(Some("Create"), None))];
    let text = render_methods(&methods, &Vec::new(), "/users");
    let url = "https://api.alice-snow.ru/users";
    let expected = format!("{}{}", get_text("List", url), send_text("post", "POST", "Create", "", url));
    assert_eq!(text, expected);
}

#[test]
fn get_after_appends_replaces() {
    let methods = vec![method("delete", op(None, None)), method("get", op(None, None))];
    let text = render_methods(&methods, &Vec::new(), "/x");
    assert_eq!(text, get_text("No description", "https://api.alice-snow.ru/x"));
}

#[test]
fn index_exposes_every_path() {
    let doc = Document {
        paths: vec![
            PathEntry { path: "/users".to_string(), methods: vec![method("get", op(None, None))] },
            PathEntry { path: "/users/{id}".to_string(), methods: vec![method("get", op(None, None))] },
        ],
        schemas: Vec::new(),
    };
    let out = build(&doc);
    assert_eq!(
        out.index,
        "module.exports['users'] = require('./users');\nmodule.exports['users']['_param_id'] = require('./users/{id}');\n"
    );
    assert_eq!(out.artifacts.len(), 2);
    assert_eq!(out.artifacts[0].location, vec!["users".to_string()]);
    assert_eq!(out.artifacts[1].location, vec!["users".to_string(), "_param_id".to_string()]);
}

#[test]
fn single_get_path_end_to_end() {
    let doc = Document {
        paths: vec![PathEntry { path: "/ping".to_string(), methods: vec![method("get", op(None, None))] }],
        schemas: Vec::new(),
    };
    let out = build(&doc);
    assert_eq!(out.artifacts.len(), 1);
    assert_eq!(out.artifacts[0].location, vec!["ping".to_string()]);
    assert_eq!(out.artifacts[0].content, get_text("No description", "https://api.alice-snow.ru/ping"));
    assert_eq!(out.index, "module.exports['ping'] = require('./ping');\n");
}

#[test]
fn empty_document_builds_nothing() {
    let out = build(&Document { paths: Vec::new(), schemas: Vec::new() });
    assert!(out.artifacts.is_empty());
    assert_eq!(out.index, "");
}

#[test]
fn text_order_is_lexicographic() {
    assert!(is_text_less("delete", "get"));
    assert!(is_text_less("get", "patch"));
    assert!(is_text_less("/users", "/users/{id}"));
    assert!(is_text_less("", "a"));
    assert!(!is_text_less("a", ""));
    assert!(!is_text_less("get", "get"));
    assert!(is_text_less("Z", "a"));
}

#[test]
fn insert_by_key_orders_and_replaces() {
    let mut v: Vec<MethodEntry> = Vec::new();
    insert_by_key(&mut v, method("post", op(Some("one"), None)));
    insert_by_key(&mut v, method("get", op(None, None)));
    insert_by_key(&mut v, method("put", op(None, None)));
    insert_by_key(&mut v, method("delete", op(None, None)));
    insert_by_key(&mut v, method("post", op(Some("two"), None)));
    let names: Vec<&str> = v.iter().map(|m| m.method.as_str()).collect();
    assert_eq!(names, vec!["delete", "get", "post", "put"]);
    assert_eq!(v[2].operation.summary.as_deref(), Some("two"));
}
