//! Rendering of one operation into the text of a callable stub.
use vstd::prelude::*;
use crate::model::{
    find_media, find_schema, lookup_media, lookup_schema, RequestBody, Schema, SchemaEntry,
};
use crate::summary::{summarize, type_summary};
use crate::text::{same_text, after_last_slash, last_piece};

verus! {

/// Names the result of `str::to_uppercase` on a method name.
pub uninterp spec fn upper_of(s: Seq<char>) -> Seq<char>;

/// Relies on `str::to_uppercase`: its result depends on the characters alone.
#[verifier::external_body]
fn uppercase(s: &str) -> (r: String)
    ensures
        r@ == upper_of(s@),
{
    s.to_uppercase()
}

/// The origin that every generated request goes to.
pub open spec fn base_url() -> Seq<char> {
    "https://api.alice-snow.ru"@
}

/// The summary text, or a placeholder when there is none.
pub open spec fn summary_text(summary: Option<String>) -> Seq<char> {
    match summary {
        Some(s) => s@,
        None => "No description"@,
    }
}

/// The schema whose properties document a body: the registry entry that a
/// reference names (by its last `/`-separated piece), else the schema itself.
pub open spec fn effective_schema(schema: Schema, registry: Seq<SchemaEntry>) -> Option<Schema> {
    match schema.reference {
        Some(r) => lookup_schema(registry, last_piece(r@)),
        None => Some(schema),
    }
}

/// One documentation line for a property.
pub open spec fn property_line(e: SchemaEntry) -> Seq<char> {
    "///   \""@ + e.name@ + "\": \""@ + type_summary(e.schema) + "\"\n"@
}

/// The documentation lines of the properties, in their order.
pub open spec fn property_lines(props: Seq<SchemaEntry>) -> Seq<char>
    decreases props.len(),
{
    if props.len() == 0 {
        Seq::empty()
    } else {
        property_lines(props.drop_last()) + property_line(props.last())
    }
}

/// The property lines that a body schema gives, empty where there is no
/// effective schema or it has no properties.
pub open spec fn schema_lines(schema: Schema, registry: Seq<SchemaEntry>) -> Seq<char> {
    match effective_schema(schema, registry) {
        Some(e) => match e.properties {
            Some(ps) => property_lines(ps@),
            None => Seq::empty(),
        },
        None => Seq::empty(),
    }
}

/// The documentation block of a request body: a header line, then the
/// property lines of its JSON schema. Empty when there is no body.
pub open spec fn body_doc(body: Option<RequestBody>, registry: Seq<SchemaEntry>) -> Seq<char> {
    match body {
        None => Seq::empty(),
        Some(rb) => "/// body:\n"@ + match lookup_media(rb.content@, "application/json"@) {
            Some(m) => match m.schema {
                Some(s) => schema_lines(s, registry),
                None => Seq::empty(),
            },
            None => Seq::empty(),
        },
    }
}

/// The stub of a GET operation.
pub open spec fn get_stub(summary: Option<String>, path: Seq<char>) -> Seq<char> {
    "/// "@ + summary_text(summary)
        + "\nconst fetch = require('node-fetch');\n\nasync function main() {\n    const response = await fetch('"@
        + base_url() + path
        + "', { method: 'GET' });\n    return await response.json();\n}\n\nmodule.exports = main;\n"@
}

/// The stub of any other operation, with `upper` the method's upper-case name.
pub open spec fn send_stub(
    method: Seq<char>,
    upper: Seq<char>,
    summary: Option<String>,
    doc: Seq<char>,
    path: Seq<char>,
) -> Seq<char> {
    "/// "@ + summary_text(summary) + "\nconst fetch = require('node-fetch');\n\n"@ + doc
        + "async function "@ + method + "(body) {\n    const response = await fetch('"@
        + base_url() + path + "', {\n        method: '"@ + upper
        + "',\n        headers: { 'Content-Type': 'application/json' },\n        body: JSON.stringify(body)\n    });\n    return await response.json();\n}\n\nmodule.exports."@
        + method + " = "@ + method + ";\n"@
}

/// The stub of an operation, given the method's upper-case name.
pub open spec fn operation_text(
    method: Seq<char>,
    upper: Seq<char>,
    summary: Option<String>,
    body: Option<RequestBody>,
    registry: Seq<SchemaEntry>,
    path: Seq<char>,
) -> Seq<char> {
    if method == "get"@ {
        get_stub(summary, path)
    } else {
        send_stub(method, upper, summary, body_doc(body, registry), path)
    }
}

fn push_property_lines(out: &mut String, props: &Vec<SchemaEntry>)
    ensures
        final(out)@ == old(out)@ + property_lines(props@),
{
    let ghost start = out@;
    let mut i: usize = 0;
    while i < props.len()
        invariant
            i <= props@.len(),
            out@ == start + property_lines(props@.subrange(0, i as int)),
        decreases props@.len() - i,
    {
        let e = &props[i];
        assert(props@.subrange(0, i + 1).drop_last() =~= props@.subrange(0, i as int));
        out.append("///   \"");
        out.append(e.name.as_str());
        out.append("\": \"");
        let t = summarize(&e.schema);
        out.append(t.as_str());
        out.append("\"\n");
        i += 1;
    }
    assert(props@.subrange(0, props@.len() as int) =~= props@);
}

fn push_schema_lines(out: &mut String, schema: &Schema, registry: &Vec<SchemaEntry>)
    ensures
        final(out)@ == old(out)@ + schema_lines(*schema, registry@),
{
    let effective: Option<&Schema> = match &schema.reference {
        Some(r) => {
            let name = after_last_slash(r.as_str());
            match find_schema(registry, &name) {
                Some(i) => Some(&registry[i].schema),
                None => None,
            }
        },
        None => Some(schema),
    };
    if let Some(e) = effective {
        if let Some(ps) = &e.properties {
            push_property_lines(out, ps);
        }
    }
}

/// The documentation block of a request body (see `body_doc`).
pub fn body_documentation(body: &Option<RequestBody>, registry: &Vec<SchemaEntry>) -> (r: String)
    ensures
        r@ == body_doc(*body, registry@),
{
    let mut out = String::new();
    if let Some(rb) = body {
        out.append("/// body:\n");
        let key = String::from_str("application/json");
        if let Some(i) = find_media(&rb.content, &key) {
            if let Some(s) = &rb.content[i].media.schema {
                push_schema_lines(&mut out, s, registry);
            }
        }
    }
    out
}

/// Renders an operation given its method's upper-case name `upper`.
pub fn render_operation_with(
    method: &str,
    upper: &str,
    summary: &Option<String>,
    body: &Option<RequestBody>,
    registry: &Vec<SchemaEntry>,
    path: &str,
) -> (r: String)
    ensures
        r@ == operation_text(method@, upper@, *summary, *body, registry@, path@),
{
    let mut out = String::from_str("/// ");
    match summary {
        Some(s) => out.append(s.as_str()),
        None => out.append("No description"),
    }
    if same_text(method, "get") {
        out.append(
            "\nconst fetch = require('node-fetch');\n\nasync function main() {\n    const response = await fetch('",
        );
        out.append("https://api.alice-snow.ru");
        out.append(path);
        out.append(
            "', { method: 'GET' });\n    return await response.json();\n}\n\nmodule.exports = main;\n",
        );
    } else {
        out.append("\nconst fetch = require('node-fetch');\n\n");
        let doc = body_documentation(body, registry);
        out.append(doc.as_str());
        out.append("async function ");
        out.append(method);
        out.append("(body) {\n    const response = await fetch('");
        out.append("https://api.alice-snow.ru");
        out.append(path);
        out.append("', {\n        method: '");
        out.append(upper);
        out.append(
            "',\n        headers: { 'Content-Type': 'application/json' },\n        body: JSON.stringify(body)\n    });\n    return await response.json();\n}\n\nmodule.exports.",
        );
        out.append(method);
        out.append(" = ");
        out.append(method);
        out.append(";\n");
    }
    out
}

/// Renders the stub of one operation at `path`: a GET becomes a default
/// callable without arguments; any other method a named callable that sends a
/// JSON body, preceded by the documentation of that body.
pub fn render_operation(
    method: &str,
    summary: &Option<String>,
    body: &Option<RequestBody>,
    registry: &Vec<SchemaEntry>,
    path: &str,
) -> (r: String)
    ensures
        r@ == operation_text(method@, upper_of(method@), *summary, *body, registry@, path@),
{
    let upper = uppercase(method);
    render_operation_with(method, upper.as_str(), summary, body, registry, path)
}

} // verus!

verus! {

/// A body whose JSON schema refers to a name absent from the registry is
/// documented by its header line alone: the stub of any method but GET holds
/// the summary line and no property line, and rendering still succeeds.
pub proof fn lemma_unresolved_reference_documents_nothing(
    method: Seq<char>,
    upper: Seq<char>,
    summary: Option<String>,
    body: RequestBody,
    registry: Seq<SchemaEntry>,
    path: Seq<char>,
)
    requires
        method != "get"@,
        lookup_media(body.content@, "application/json"@) matches Some(m) && m.schema matches Some(
            s,
        ) && s.reference matches Some(r) && lookup_schema(registry, last_piece(r@)) is None,
    ensures
        body_doc(Some(body), registry) == "/// body:\n"@,
        operation_text(method, upper, summary, Some(body), registry, path) == send_stub(
            method,
            upper,
            summary,
            "/// body:\n"@,
            path,
        ),
{
    assert("/// body:\n"@ + Seq::<char>::empty() =~= "/// body:\n"@);
}

} // verus!
