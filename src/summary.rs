//! A one-line description of a schema property's shape.
use vstd::prelude::*;
use crate::model::Schema;

verus! {

/// The text of an optional primitive type, `unknown` when it is absent.
pub open spec fn type_or_unknown(t: Option<String>) -> Seq<char> {
    match t {
        Some(s) => s@,
        None => "unknown"@,
    }
}

/// The summary of a property. First match wins: a format (with its type), a
/// reference (its raw text), a non-empty union, an array (by its item's bare type), and
/// last the primitive type itself.
pub open spec fn type_summary(p: Schema) -> Seq<char> {
    match p.format {
        Some(f) => type_or_unknown(p.typ) + " ("@ + f@ + ")"@,
        None => match p.reference {
            Some(r) => "ref -> "@ + r@,
            None => if p.one_of matches Some(v) && v@.len() > 0 {
                "oneOf"@
            } else {
                match p.items {
                    Some(it) => "array<"@ + type_or_unknown(it.typ) + ">"@,
                    None => type_or_unknown(p.typ),
                }
            },
        },
    }
}

fn push_type_or_unknown(out: &mut String, t: &Option<String>)
    ensures
        final(out)@ == old(out)@ + type_or_unknown(*t),
{
    match t {
        Some(s) => out.append(s.as_str()),
        None => out.append("unknown"),
    }
}

/// Summarizes a property's shape, for instance `integer (int32)`,
/// `ref -> #/components/schemas/User`, `oneOf`, `array<string>` or `unknown`.
pub fn summarize(p: &Schema) -> (r: String)
    ensures
        r@ == type_summary(*p),
{
    let mut out = String::new();
    match &p.format {
        Some(f) => {
            push_type_or_unknown(&mut out, &p.typ);
            out.append(" (");
            out.append(f.as_str());
            out.append(")");
        },
        None => match &p.reference {
            Some(r) => {
                out.append("ref -> ");
                out.append(r.as_str());
            },
            None => {
                let union = match &p.one_of {
                    Some(v) => v.len() > 0,
                    None => false,
                };
                if union {
                    out.append("oneOf");
                } else {
                    match &p.items {
                        Some(it) => {
                            out.append("array<");
                            push_type_or_unknown(&mut out, &it.typ);
                            out.append(">");
                        },
                        None => push_type_or_unknown(&mut out, &p.typ),
                    }
                }
            },
        },
    }
    out
}

} // verus!
