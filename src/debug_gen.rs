use vstd::prelude::*;
use vstd::string::StringExecFns;
use crate::attrs::{Attribute, SynthError, attr_ok, attrs_ok, tagged_items, values_of, parse_config, values_for};
use crate::bounds::{GenericClause, inferred_bounds, inferred_predicates, parse_outcomes, resolve_bounds};
use crate::types::{Field, Record, Shape, field_types};
use crate::usage::texts;

verus! {

/// The tag that the debug printer reads.
pub open spec fn debug_tag() -> Seq<char> {
    "debug"@
}

/// The capability that the printed fields need.
pub open spec fn debug_capability() -> Seq<char> {
    "::std::fmt::Debug"@
}

/// The record's literal constraint clauses: every `bound = "..."` of its
/// debug tags, in order, repeats kept.
pub open spec fn record_hatch(attrs: Seq<Attribute>) -> Seq<Seq<char>> {
    values_of(tagged_items(attrs, debug_tag()), "bound"@, "bound"@)
}

/// A field's format template: the last `format = "..."` (or
/// `debug = "..."`) among its debug tags.
pub open spec fn field_template(f: Field) -> Option<Seq<char>> {
    let v = values_of(tagged_items(f.attrs@, debug_tag()), "format"@, debug_tag());
    if v.len() == 0 {
        None
    } else {
        Some(v.last())
    }
}

/// How one field's value is printed.
pub enum Render {
    /// The value's own structural formatting.
    Default,
    /// Through this format template, with one substitution slot.
    Template(String),
}

/// One line of the printer: the field's name and how its value is printed.
pub struct FieldLine {
    pub name: String,
    pub render: Render,
}

/// Everything the printer's code is made from.
pub struct DebugPlan {
    pub name: String,
    pub clause: GenericClause,
    pub fields: Vec<FieldLine>,
}

pub open spec fn line_matches(l: FieldLine, f: Field) -> bool {
    &&& l.name@ == f.name@
    &&& match field_template(f) {
        None => l.render is Default,
        Some(t) => l.render matches Render::Template(s) && s@ == t,
    }
}

/// The generic clause that the record's tags and fields call for.
pub open spec fn clause_matches(c: GenericClause, rec: Record, fields: Seq<Field>) -> bool {
    let hatch = record_hatch(rec.attrs@);
    if hatch.len() == 0 {
        &&& c.bounded@ == inferred_bounds(texts(rec.params@), field_types(fields))
        &&& texts(c.predicates@) == inferred_predicates(texts(rec.params@), field_types(fields), debug_capability())
    } else {
        &&& c.bounded@ == Seq::new(rec.params@.len(), |i: int| false)
        &&& texts(c.predicates@) == hatch
    }
}

/// Plans the debug printer of a record: its generic clause and one line per
/// field in declaration order. Fails on a declaration without named fields,
/// on a malformed tag, and on a literal clause that does not parse.
pub fn plan_debug(rec: &Record) -> (r: Result<DebugPlan, SynthError>)
    ensures
        match r {
            Ok(plan) => match rec.shape {
                Shape::Named(fields) => {
                    &&& attrs_ok(rec.attrs@, debug_tag())
                    &&& forall|i: int| 0 <= i < fields@.len() ==> attrs_ok((#[trigger] fields@[i]).attrs@, debug_tag())
                    &&& plan.name@ == rec.name@
                    &&& clause_matches(plan.clause, *rec, fields@)
                    &&& plan.fields@.len() == fields@.len()
                    &&& forall|i: int| 0 <= i < fields@.len() ==> line_matches(#[trigger] plan.fields@[i], fields@[i])
                },
                Shape::Other => false,
            },
            Err(SynthError::UnsupportedShape) => rec.shape is Other,
            Err(SynthError::MalformedMetadata { attr }) => {
                &&& rec.shape is Named
                &&& attr < rec.attrs@.len()
                &&& !attr_ok(rec.attrs@[attr as int], debug_tag())
                &&& forall|j: int| 0 <= j < attr ==> attr_ok(#[trigger] rec.attrs@[j], debug_tag())
            },
            Err(SynthError::InvalidBound { index }) => {
                &&& rec.shape is Named
                &&& attrs_ok(rec.attrs@, debug_tag())
                &&& index < record_hatch(rec.attrs@).len()
            },
            Err(SynthError::MalformedFieldMetadata { field, attr }) => match rec.shape {
                Shape::Named(fields) => {
                    &&& attrs_ok(rec.attrs@, debug_tag())
                    &&& field < fields@.len()
                    &&& forall|g: int| 0 <= g < field ==> attrs_ok((#[trigger] fields@[g]).attrs@, debug_tag())
                    &&& attr < fields@[field as int].attrs@.len()
                    &&& !attr_ok(fields@[field as int].attrs@[attr as int], debug_tag())
                    &&& forall|j: int| 0 <= j < attr ==> attr_ok(#[trigger] fields@[field as int].attrs@[j], debug_tag())
                },
                Shape::Other => false,
            },
            Err(SynthError::UnsupportedAttributeTarget { .. }) => false,
        },
{
    let fields = match &rec.shape {
        Shape::Named(fields) => fields,
        Shape::Other => {
            return Err(SynthError::UnsupportedShape);
        },
    };
    let tag = String::from_str("debug");
    let bound_key = String::from_str("bound");
    let format_key = String::from_str("format");
    let cap = String::from_str("::std::fmt::Debug");
    proof {
        reveal_strlit("debug");
        reveal_strlit("bound");
        reveal_strlit("format");
        reveal_strlit("::std::fmt::Debug");
    }
    let config = match parse_config(&rec.attrs, &tag) {
        Ok(c) => c,
        Err(e) => {
            return Err(e);
        },
    };
    let hatch = values_for(&config, &bound_key, &bound_key);
    let parsed = parse_outcomes(&hatch);
    let clause = match resolve_bounds(&rec.params, fields, &hatch, &parsed, &cap) {
        Ok(c) => c,
        Err(e) => {
            return Err(e);
        },
    };
    let mut lines: Vec<FieldLine> = Vec::new();
    let mut i: usize = 0;
    while i < fields.len()
        invariant
            i <= fields@.len(),
            tag@ == debug_tag(),
            rec.shape == Shape::Named(*fields),
            attrs_ok(rec.attrs@, debug_tag()),
            clause_matches(clause, *rec, fields@),
            format_key@ == "format"@,
            lines@.len() == i,
            forall|g: int| 0 <= g < i ==> attrs_ok((#[trigger] fields@[g]).attrs@, debug_tag()),
            forall|g: int| 0 <= g < i ==> line_matches(#[trigger] lines@[g], fields@[g]),
        decreases fields@.len() - i,
    {
        let f = &fields[i];
        let items = match parse_config(&f.attrs, &tag) {
            Ok(c) => c,
            Err(e) => {
                return match e {
                    SynthError::MalformedMetadata { attr } => Err(SynthError::MalformedFieldMetadata { field: i, attr }),
                    _ => Err(e),
                };
            },
        };
        let templates = values_for(&items, &format_key, &tag);
        let render = if templates.len() == 0 {
            Render::Default
        } else {
            Render::Template(templates[templates.len() - 1].clone())
        };
        proof {
            if templates@.len() > 0 {
                assert(texts(templates@).last() == templates@[templates@.len() - 1]@);
            }
        }
        lines.push(FieldLine { name: f.name.clone(), render });
        i = i + 1;
    }
    Ok(DebugPlan { name: rec.name.clone(), clause, fields: lines })
}

} // verus!
