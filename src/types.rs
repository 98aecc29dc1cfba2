use vstd::prelude::*;
use vstd::string::StringExecFns;
use crate::attrs::Attribute;

verus! {

/// One segment of a type path: an identifier and its angle-bracketed type
/// arguments (empty when the segment has none).
pub struct Segment {
    pub ident: String,
    pub args: Vec<TypeExpr>,
}

/// A field type as far as the analysis needs it: a path, or any other shape,
/// which is opaque.
pub enum TypeExpr {
    Path(Vec<Segment>),
    Other(String),
}

/// A named field: its name, its type and its tags.
pub struct Field {
    pub name: String,
    pub ty: TypeExpr,
    pub attrs: Vec<Attribute>,
}

/// The body of a declaration: named fields, or any other shape.
pub enum Shape {
    Named(Vec<Field>),
    Other,
}

/// One record declaration: its name, its type parameters in order, its body
/// and its own tags.
pub struct Record {
    pub name: String,
    pub params: Vec<String>,
    pub shape: Shape,
    pub attrs: Vec<Attribute>,
}

/// The field types, in declaration order.
pub open spec fn field_types(fields: Seq<Field>) -> Seq<TypeExpr> {
    fields.map_values(|f: Field| f.ty)
}

/// Text of a list of type arguments, each followed by the separator `, `
/// except the last.
pub open spec fn args_text(args: Seq<TypeExpr>) -> Seq<char>
    decreases args, 0nat,
{
    if args.len() == 0 {
        Seq::empty()
    } else if args.len() == 1 {
        type_text(args[0])
    } else {
        args_text(args.drop_last()) + seq![',', ' '] + type_text(args.last())
    }
}

/// Text of a path segment: the identifier, then `<args>` when it has any.
pub open spec fn segment_text(s: Segment) -> Seq<char>
    decreases s, 1nat,
{
    if s.args@.len() == 0 {
        s.ident@
    } else {
        s.ident@ + seq!['<'] + args_text(s.args@) + seq!['>']
    }
}

/// Text of the segments of a path, joined by `::`.
pub open spec fn segments_text(segs: Seq<Segment>) -> Seq<char>
    decreases segs, 0nat,
{
    if segs.len() == 0 {
        Seq::empty()
    } else if segs.len() == 1 {
        segment_text(segs[0])
    } else {
        segments_text(segs.drop_last()) + seq![':', ':'] + segment_text(segs.last())
    }
}

/// The source text of a type; an opaque shape keeps the text it came with.
pub open spec fn type_text(t: TypeExpr) -> Seq<char>
    decreases t, 2nat,
{
    match t {
        TypeExpr::Path(segs) => segments_text(segs@),
        TypeExpr::Other(text) => text@,
    }
}

/// Writes the source text of a type.
pub fn render_type(t: &TypeExpr) -> (r: String)
    ensures
        r@ == type_text(*t),
    decreases t, 2nat,
{
    match t {
        TypeExpr::Path(segs) => {
            let mut out = String::new();
            assert(segs@.take(0) =~= Seq::<Segment>::empty());
            let mut i: usize = 0;
            while i < segs.len()
                invariant
                    i <= segs@.len(),
                    out@ == segments_text(segs@.take(i as int)),
                    decreases_to!(t => segs),
                decreases segs@.len() - i,
            {
                proof {
                    assert(decreases_to!(segs => segs@[i as int]));
                }
                let piece = render_segment(&segs[i]);
                if i > 0 {
                    out.append("::");
                }
                out.append(piece.as_str());
                proof {
                    reveal_strlit("::");
                    assert(segs@.take(i as int + 1).drop_last() =~= segs@.take(i as int));
                }
                i = i + 1;
            }
            assert(segs@.take(segs@.len() as int) =~= segs@);
            out
        },
        TypeExpr::Other(text) => text.clone(),
    }
}

/// Writes the source text of a path segment.
pub fn render_segment(s: &Segment) -> (r: String)
    ensures
        r@ == segment_text(*s),
    decreases s, 1nat,
{
    let mut out = s.ident.clone();
    if s.args.len() > 0 {
        out.append("<");
        proof {
            reveal_strlit("<");
            assert(s.args@.take(0) =~= Seq::<TypeExpr>::empty());
        }
        let mut i: usize = 0;
        while i < s.args.len()
            invariant
                i <= s.args@.len(),
                s.args@.len() > 0,
                out@ == s.ident@ + seq!['<'] + args_text(s.args@.take(i as int)),
            decreases s.args@.len() - i,
        {
            proof {
                assert(decreases_to!(s => s.args));
                assert(decreases_to!(s.args => s.args@[i as int]));
            }
            let piece = render_type(&s.args[i]);
            if i > 0 {
                out.append(", ");
            }
            out.append(piece.as_str());
            proof {
                reveal_strlit(", ");
                reveal_strlit("<");
                assert(s.args@.take(i as int + 1).drop_last() =~= s.args@.take(i as int));
            }
            i = i + 1;
        }
        out.append(">");
        proof {
            reveal_strlit(">");
            assert(s.args@.take(s.args@.len() as int) =~= s.args@);
        }
    }
    out
}

} // verus!
