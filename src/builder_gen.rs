use vstd::prelude::*;
use vstd::string::StringExecFns;
use crate::attrs::{SynthError, attr_ok, attrs_ok, tagged_items, values_of, parse_config, values_for};
use crate::types::{Field, Record, Shape, TypeExpr};
use crate::usage::texts;

verus! {

/// The tag that the builder reads.
pub open spec fn builder_tag() -> Seq<char> {
    "builder"@
}

/// The name given by the last `each = "..."` among a field's builder tags.
pub open spec fn each_name(f: Field) -> Option<Seq<char>> {
    let v = values_of(tagged_items(f.attrs@, builder_tag()), "each"@, "each"@);
    if v.len() == 0 {
        None
    } else {
        Some(v.last())
    }
}

/// `t` is the wrapper `name<X>` with a single type argument.
pub open spec fn is_wrapper(t: TypeExpr, name: Seq<char>) -> bool {
    match t {
        TypeExpr::Path(segs) => segs@.len() >= 1 && segs@.last().ident@ == name && segs@.last().args@.len() == 1,
        TypeExpr::Other(_) => false,
    }
}

/// How the builder holds a field until it is finalized.
#[derive(Clone, Copy, Debug, PartialEq, Eq, Structural)]
pub enum SlotKind {
    /// Must be set before finalizing.
    Required,
    /// An `Option` field: absent when never set.
    Optional,
    /// A collection filled one element at a time: empty when never filled.
    Collection,
}

pub open spec fn slot_kind(f: Field) -> SlotKind {
    if each_name(f) is Some {
        SlotKind::Collection
    } else if is_wrapper(f.ty, "Option"@) {
        SlotKind::Optional
    } else {
        SlotKind::Required
    }
}

/// A method of the builder.
pub enum Method {
    /// Stores a whole value for the field at this index; named as the field.
    Setter { field: usize },
    /// Appends one element to the collection field at this index.
    Accumulator { field: usize, name: String },
}

/// A method as plain values: the field it fills, and for an accumulating
/// one its name.
pub ghost enum MethodView {
    Setter(nat),
    Accumulator(nat, Seq<char>),
}

pub open spec fn method_view(m: Method) -> MethodView {
    match m {
        Method::Setter { field } => MethodView::Setter(field as nat),
        Method::Accumulator { field, name } => MethodView::Accumulator(field as nat, name@),
    }
}

/// The methods emitted for the field at index `i`: a setter, an
/// accumulating method when the field has `each`, and no setter when that
/// method takes the field's own name.
pub open spec fn field_methods(f: Field, i: nat) -> Seq<MethodView> {
    match each_name(f) {
        None => seq![MethodView::Setter(i)],
        Some(n) => if n == f.name@ {
            seq![MethodView::Accumulator(i, n)]
        } else {
            seq![MethodView::Setter(i), MethodView::Accumulator(i, n)]
        },
    }
}

/// The methods of the whole builder, field by field in declaration order.
pub open spec fn all_methods(fields: Seq<Field>) -> Seq<MethodView>
    decreases fields.len(),
{
    if fields.len() == 0 {
        Seq::empty()
    } else {
        all_methods(fields.drop_last()) + field_methods(fields.last(), (fields.len() - 1) as nat)
    }
}

/// Everything the builder's code is made from.
pub struct BuilderPlan {
    pub name: String,
    pub slots: Vec<SlotKind>,
    pub methods: Vec<Method>,
}

fn wrapper_of(t: &TypeExpr, name: &String) -> (r: bool)
    ensures
        r == is_wrapper(*t, name@),
{
    match t {
        TypeExpr::Path(segs) => segs.len() >= 1 && segs[segs.len() - 1].ident == *name
            && segs[segs.len() - 1].args.len() == 1,
        TypeExpr::Other(_) => false,
    }
}

/// Plans the builder of a record. Fails on a declaration without named
/// fields, on a malformed builder tag, and on `each` over a field that is
/// not a `Vec<X>`.
pub fn plan_builder(rec: &Record) -> (r: Result<BuilderPlan, SynthError>)
    ensures
        match r {
            Ok(plan) => match rec.shape {
                Shape::Named(fields) => {
                    &&& forall|i: int| 0 <= i < fields@.len() ==> attrs_ok((#[trigger] fields@[i]).attrs@, builder_tag())
                    &&& forall|i: int| 0 <= i < fields@.len() ==> (each_name(#[trigger] fields@[i]) is Some ==> is_wrapper(fields@[i].ty, "Vec"@))
                    &&& plan.name@ == rec.name@
                    &&& plan.slots@ == fields@.map_values(|f: Field| slot_kind(f))
                    &&& plan.methods@.map_values(|m: Method| method_view(m)) == all_methods(fields@)
                },
                Shape::Other => false,
            },
            Err(SynthError::UnsupportedShape) => rec.shape is Other,
            Err(SynthError::MalformedFieldMetadata { field, attr }) => match rec.shape {
                Shape::Named(fields) => {
                    &&& field < fields@.len()
                    &&& forall|g: int| 0 <= g < field ==> attrs_ok((#[trigger] fields@[g]).attrs@, builder_tag())
                    &&& forall|g: int| 0 <= g < field ==> (each_name(#[trigger] fields@[g]) is Some ==> is_wrapper(fields@[g].ty, "Vec"@))
                    &&& attr < fields@[field as int].attrs@.len()
                    &&& !attr_ok(fields@[field as int].attrs@[attr as int], builder_tag())
                    &&& forall|j: int| 0 <= j < attr ==> attr_ok(#[trigger] fields@[field as int].attrs@[j], builder_tag())
                },
                Shape::Other => false,
            },
            Err(SynthError::UnsupportedAttributeTarget { field }) => match rec.shape {
                Shape::Named(fields) => {
                    &&& field < fields@.len()
                    &&& forall|g: int| 0 <= g <= field ==> attrs_ok((#[trigger] fields@[g]).attrs@, builder_tag())
                    &&& forall|g: int| 0 <= g < field ==> (each_name(#[trigger] fields@[g]) is Some ==> is_wrapper(fields@[g].ty, "Vec"@))
                    &&& each_name(fields@[field as int]) is Some
                    &&& !is_wrapper(fields@[field as int].ty, "Vec"@)
                },
                Shape::Other => false,
            },
            Err(_) => false,
        },
{
    let fields = match &rec.shape {
        Shape::Named(fields) => fields,
        Shape::Other => {
            return Err(SynthError::UnsupportedShape);
        },
    };
    let tag = String::from_str("builder");
    let each_key = String::from_str("each");
    let vec_name = String::from_str("Vec");
    let option_name = String::from_str("Option");
    proof {
        reveal_strlit("builder");
        reveal_strlit("each");
        reveal_strlit("Vec");
        reveal_strlit("Option");
    }
    let mut slots: Vec<SlotKind> = Vec::new();
    let mut methods: Vec<Method> = Vec::new();
    let mut i: usize = 0;
    assert(fields@.take(0) =~= Seq::<Field>::empty());
    while i < fields.len()
        invariant
            i <= fields@.len(),
            tag@ == builder_tag(),
            each_key@ == "each"@,
            vec_name@ == "Vec"@,
            option_name@ == "Option"@,
            rec.shape == Shape::Named(*fields),
            forall|g: int| 0 <= g < i ==> attrs_ok((#[trigger] fields@[g]).attrs@, builder_tag()),
            forall|g: int| 0 <= g < i ==> (each_name(#[trigger] fields@[g]) is Some ==> is_wrapper(fields@[g].ty, "Vec"@)),
            slots@ == fields@.take(i as int).map_values(|f: Field| slot_kind(f)),
            methods@.map_values(|m: Method| method_view(m)) == all_methods(fields@.take(i as int)),
        decreases fields@.len() - i,
    {
        let f = &fields[i];
        let items = match parse_config(&f.attrs, &tag) {
            Ok(c) => c,
            Err(e) => {
                return match e {
                    SynthError::MalformedMetadata { attr } => Err(SynthError::MalformedFieldMetadata { field: i, attr }),
                    _ => Err(e),
                };
            },
        };
        let names = values_for(&items, &each_key, &each_key);
        let ghost before = methods@;
        proof {
            assert(fields@.take(i as int + 1).drop_last() =~= fields@.take(i as int));
            assert(fields@.take(i as int + 1).last() == *f);
            if names@.len() > 0 {
                assert(texts(names@).last() == names@[names@.len() - 1]@);
            }
        }
        if names.len() > 0 {
            if !wrapper_of(&f.ty, &vec_name) {
                return Err(SynthError::UnsupportedAttributeTarget { field: i });
            }
            let n = names[names.len() - 1].clone();
            slots.push(SlotKind::Collection);
            if n != f.name {
                methods.push(Method::Setter { field: i });
            }
            methods.push(Method::Accumulator { field: i, name: n });
        } else {
            let optional = wrapper_of(&f.ty, &option_name);
            slots.push(if optional { SlotKind::Optional } else { SlotKind::Required });
            methods.push(Method::Setter { field: i });
        }
        proof {
            assert(slots@ =~= fields@.take(i as int + 1).map_values(|f: Field| slot_kind(f)));
            assert(methods@.map_values(|m: Method| method_view(m))
                =~= before.map_values(|m: Method| method_view(m)) + field_methods(*f, i as nat));
        }
        i = i + 1;
    }
    assert(fields@.take(fields@.len() as int) =~= fields@);
    Ok(BuilderPlan { name: rec.name.clone(), slots, methods })
}

/// With no `each` tag on any field, the builder has exactly one setter per
/// field, in declaration order, and nothing else.
pub proof fn law_one_setter_per_field(fields: Seq<Field>)
    requires
        forall|i: int| 0 <= i < fields.len() ==> each_name(#[trigger] fields[i]) is None,
    ensures
        all_methods(fields) == Seq::new(fields.len(), |i: int| MethodView::Setter(i as nat)),
    decreases fields.len(),
{
    if fields.len() > 0 {
        let rest = fields.drop_last();
        assert forall|i: int| 0 <= i < rest.len() implies each_name(#[trigger] rest[i]) is None by {
            assert(rest[i] == fields[i]);
        }
        law_one_setter_per_field(rest);
        assert(each_name(fields[fields.len() - 1]) is None);
        assert(all_methods(fields) =~= Seq::new(fields.len(), |i: int| MethodView::Setter(i as nat)));
    }
}

/// A field whose `each` name is its own name gets one method, the
/// accumulating one.
pub proof fn law_each_own_name(f: Field, i: nat)
    requires
        each_name(f) == Some(f.name@),
    ensures
        field_methods(f, i) == seq![MethodView::Accumulator(i, f.name@)],
{
}

/// A field whose `each` name differs from its own name gets both the
/// all-at-once setter and the accumulating method.
pub proof fn law_each_other_name(f: Field, i: nat, n: Seq<char>)
    requires
        each_name(f) == Some(n),
        n != f.name@,
    ensures
        field_methods(f, i) == seq![MethodView::Setter(i), MethodView::Accumulator(i, n)],
{
}

} // verus!
