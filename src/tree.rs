//! The path tree: one artifact per path, holding its operations' stubs, and an
//! index that exposes every path's module through nested accessors.
use vstd::prelude::*;
use crate::model::{Document, MethodEntry, PathEntry, SchemaEntry};
use crate::render::{body_doc, get_stub, operation_text, render_operation, send_stub, upper_of};
use crate::text::{same_text, path_segments, sanitize, sanitized, split_path, views};

verus! {

/// The generated output for one path: its location, as sanitized segments
/// below the output root, and the text of its module.
pub struct Artifact {
    pub location: Vec<String>,
    pub content: String,
}

/// The output of a whole run: one artifact per path, in path order, and the
/// text of the root index module.
pub struct Generated {
    pub artifacts: Vec<Artifact>,
    pub index: String,
}

/// Each segment sanitized.
pub open spec fn sanitized_all(segs: Seq<Seq<char>>) -> Seq<Seq<char>> {
    segs.map_values(|s: Seq<char>| sanitized(s))
}

/// The location of a path's artifact.
pub open spec fn location_of(path: Seq<char>) -> Seq<Seq<char>> {
    sanitized_all(path_segments(path))
}

/// A module's text after its methods are applied in order: a GET replaces the
/// whole text with its stub; any other method appends its stub.
pub open spec fn artifact_text(
    methods: Seq<MethodEntry>,
    registry: Seq<SchemaEntry>,
    path: Seq<char>,
) -> Seq<char>
    decreases methods.len(),
{
    if methods.len() == 0 {
        Seq::empty()
    } else {
        let m = methods.last();
        let stub = operation_text(
            m.method@,
            upper_of(m.method@),
            m.operation.summary,
            m.operation.request_body,
            registry,
            path,
        );
        if m.method@ == "get"@ {
            stub
        } else {
            artifact_text(methods.drop_last(), registry, path) + stub
        }
    }
}

/// The accessor for a sequence of keys: `['a']['b']`.
pub open spec fn accessor(keys: Seq<Seq<char>>) -> Seq<char>
    decreases keys.len(),
{
    if keys.len() == 0 {
        Seq::empty()
    } else {
        accessor(keys.drop_last()) + "['"@ + keys.last() + "']"@
    }
}

/// The segments joined with `/`.
pub open spec fn joined(segs: Seq<Seq<char>>) -> Seq<char>
    decreases segs.len(),
{
    if segs.len() == 0 {
        Seq::empty()
    } else if segs.len() == 1 {
        segs[0]
    } else {
        joined(segs.drop_last()) + "/"@ + segs.last()
    }
}

/// The index statement for a path: the accessor of its sanitized segments,
/// bound to the module at its segments as written.
pub open spec fn export_line(path: Seq<char>) -> Seq<char> {
    "module.exports"@ + accessor(location_of(path)) + " = require('./"@ + joined(
        path_segments(path),
    ) + "');\n"@
}

/// The index text: one statement per path, in order.
pub open spec fn index_text(paths: Seq<PathEntry>) -> Seq<char>
    decreases paths.len(),
{
    if paths.len() == 0 {
        Seq::empty()
    } else {
        index_text(paths.drop_last()) + export_line(paths.last().path@)
    }
}

/// `a` is the artifact generated for `p`.
pub open spec fn artifact_of(a: Artifact, p: PathEntry, registry: Seq<SchemaEntry>) -> bool {
    &&& views(a.location@) == location_of(p.path@)
    &&& a.content@ == artifact_text(p.methods@, registry, p.path@)
}

/// Applies the methods of a path, in order, to an initially empty text.
pub fn render_methods(methods: &Vec<MethodEntry>, registry: &Vec<SchemaEntry>, path: &str) -> (r:
    String)
    ensures
        r@ == artifact_text(methods@, registry@, path@),
{
    let mut out = String::new();
    let mut i: usize = 0;
    while i < methods.len()
        invariant
            i <= methods@.len(),
            out@ == artifact_text(methods@.subrange(0, i as int), registry@, path@),
        decreases methods@.len() - i,
    {
        let m = &methods[i];
        assert(methods@.subrange(0, i + 1).drop_last() =~= methods@.subrange(0, i as int));
        assert(methods@.subrange(0, i + 1).last() == methods@[i as int]);
        let stub = render_operation(
            m.method.as_str(),
            &m.operation.summary,
            &m.operation.request_body,
            registry,
            path,
        );
        if same_text(m.method.as_str(), "get") {
            out = stub;
        } else {
            out.append(stub.as_str());
        }
        i += 1;
    }
    assert(methods@.subrange(0, methods@.len() as int) =~= methods@);
    out
}

/// The index statement for one path (see `export_line`).
pub fn export_statement(path: &str) -> (r: String)
    ensures
        r@ == export_line(path@),
{
    let segs = split_path(path);
    let mut keys = String::new();
    let mut i: usize = 0;
    while i < segs.len()
        invariant
            i <= segs@.len(),
            views(segs@) == path_segments(path@),
            keys@ == accessor(sanitized_all(views(segs@)).subrange(0, i as int)),
        decreases segs@.len() - i,
    {
        let ghost all = sanitized_all(views(segs@));
        assert(all.subrange(0, i + 1).drop_last() =~= all.subrange(0, i as int));
        keys.append("['");
        let s = sanitize(segs[i].as_str());
        keys.append(s.as_str());
        keys.append("']");
        i += 1;
    }
    assert(sanitized_all(views(segs@)).subrange(0, segs@.len() as int) =~= sanitized_all(
        views(segs@),
    ));
    let mut module = String::new();
    let mut j: usize = 0;
    while j < segs.len()
        invariant
            j <= segs@.len(),
            views(segs@) == path_segments(path@),
            module@ == joined(views(segs@).subrange(0, j as int)),
        decreases segs@.len() - j,
    {
        let ghost all = views(segs@);
        assert(all.subrange(0, j + 1).drop_last() =~= all.subrange(0, j as int));
        if j > 0 {
            module.append("/");
        } else {
            assert(all.subrange(0, 0) =~= Seq::<Seq<char>>::empty());
        }
        module.append(segs[j].as_str());
        j += 1;
    }
    assert(views(segs@).subrange(0, segs@.len() as int) =~= views(segs@));
    let mut out = String::from_str("module.exports");
    out.append(keys.as_str());
    out.append(" = require('./");
    out.append(module.as_str());
    out.append("');\n");
    out
}

/// The location of a path's artifact: its segments, each sanitized.
pub fn location(path: &str) -> (r: Vec<String>)
    ensures
        views(r@) == location_of(path@),
{
    let segs = split_path(path);
    let mut out: Vec<String> = Vec::new();
    let mut i: usize = 0;
    while i < segs.len()
        invariant
            i <= segs@.len(),
            views(segs@) == path_segments(path@),
            views(out@) == sanitized_all(views(segs@)).subrange(0, i as int),
        decreases segs@.len() - i,
    {
        let s = sanitize(segs[i].as_str());
        let ghost before = out@;
        out.push(s);
        assert(views(out@) =~= views(before).push(sanitized(views(segs@)[i as int])));
        assert(views(out@) =~= sanitized_all(views(segs@)).subrange(0, i + 1));
        i += 1;
    }
    assert(views(out@) =~= sanitized_all(views(segs@)));
    out
}

/// Generates every path's artifact, in path order, and the root index. Paths
/// come in lexicographic order, and so do the methods applied to each.
pub fn build(doc: &Document) -> (r: Generated)
    requires
        doc.well_formed(),
    ensures
        r.artifacts@.len() == doc.paths@.len(),
        forall|i: int|
            0 <= i < doc.paths@.len() ==> artifact_of(
                #[trigger] r.artifacts@[i],
                doc.paths@[i],
                doc.schemas@,
            ),
        r.index@ == index_text(doc.paths@),
{
    let mut artifacts: Vec<Artifact> = Vec::new();
    let mut index = String::new();
    let mut i: usize = 0;
    while i < doc.paths.len()
        invariant
            i <= doc.paths@.len(),
            artifacts@.len() == i,
            forall|k: int|
                0 <= k < i ==> artifact_of(#[trigger] artifacts@[k], doc.paths@[k], doc.schemas@),
            index@ == index_text(doc.paths@.subrange(0, i as int)),
        decreases doc.paths@.len() - i,
    {
        let p = &doc.paths[i];
        assert(doc.paths@.subrange(0, i + 1).drop_last() =~= doc.paths@.subrange(0, i as int));
        let loc = location(p.path.as_str());
        let content = render_methods(&p.methods, &doc.schemas, p.path.as_str());
        artifacts.push(Artifact { location: loc, content });
        let line = export_statement(p.path.as_str());
        index.append(line.as_str());
        i += 1;
    }
    assert(doc.paths@.subrange(0, doc.paths@.len() as int) =~= doc.paths@);
    Generated { artifacts, index }
}

} // verus!

verus! {

/// The accessor that the index gives a path is made of exactly the sanitized
/// segments that locate the path's artifact.
pub proof fn lemma_accessor_matches_location(a: Artifact, p: PathEntry, registry: Seq<SchemaEntry>)
    requires
        artifact_of(a, p, registry),
    ensures
        export_line(p.path@) == "module.exports"@ + accessor(views(a.location@)) + " = require('./"@
            + joined(path_segments(p.path@)) + "');\n"@,
{
}

/// With `get` processed before `post`, a path's module holds the GET stub
/// followed by the POST stub.
pub proof fn lemma_get_then_post(
    methods: Seq<MethodEntry>,
    registry: Seq<SchemaEntry>,
    path: Seq<char>,
)
    requires
        methods.len() == 2,
        methods[0].method@ == "get"@,
        methods[1].method@ == "post"@,
    ensures
        artifact_text(methods, registry, path) == get_stub(methods[0].operation.summary, path)
            + send_stub(
            "post"@,
            upper_of("post"@),
            methods[1].operation.summary,
            body_doc(methods[1].operation.request_body, registry),
            path,
        ),
{
    reveal_strlit("get");
    reveal_strlit("post");
    assert("post"@ != "get"@) by {
        assert("post"@.len() != "get"@.len());
    }
    let first = methods.drop_last();
    assert(first.drop_last().len() == 0);
    assert(artifact_text(first, registry, path) == get_stub(methods[0].operation.summary, path));
}

} // verus!
