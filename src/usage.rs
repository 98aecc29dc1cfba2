use vstd::prelude::*;
use vstd::string::StringExecFns;
use crate::types::{Segment, TypeExpr, type_text, render_type};

verus! {

/// Name of the marker wrapper whose payload needs no capability.
pub open spec fn marker_name() -> Seq<char> {
    "PhantomData"@
}

/// The identifier of a type that is a single bare segment (`T`).
pub open spec fn bare_name(t: TypeExpr) -> Option<Seq<char>> {
    match t {
        TypeExpr::Path(segs) => if segs@.len() == 1 && segs@[0].args@.len() == 0 {
            Some(segs@[0].ident@)
        } else {
            None
        },
        TypeExpr::Other(_) => None,
    }
}

/// `t` is the marker wrapper around a single bare name; that name, if so.
pub open spec fn wrapped_name(t: TypeExpr) -> Option<Seq<char>> {
    match t {
        TypeExpr::Path(segs) => if segs@.len() >= 1 && segs@.last().ident@ == marker_name()
            && segs@.last().args@.len() == 1 {
            bare_name(segs@.last().args@[0])
        } else {
            None
        },
        TypeExpr::Other(_) => None,
    }
}

/// `t` is a path of two or more segments rooted at `p` (`p::Member`).
pub open spec fn rooted_at(t: TypeExpr, p: Seq<char>) -> bool {
    match t {
        TypeExpr::Path(segs) => segs@.len() >= 2 && segs@[0].ident@ == p,
        TypeExpr::Other(_) => false,
    }
}

/// `p` occurs as a bare type somewhere in `t`, not counting the payload of
/// the marker wrapper.
pub open spec fn direct_in(t: TypeExpr, p: Seq<char>) -> bool
    decreases t, 2nat,
{
    if bare_name(t) == Some(p) {
        true
    } else if wrapped_name(t) is Some {
        false
    } else {
        match t {
            TypeExpr::Path(segs) => direct_in_segs(segs@, p),
            TypeExpr::Other(_) => false,
        }
    }
}

pub open spec fn direct_in_segs(segs: Seq<Segment>, p: Seq<char>) -> bool
    decreases segs, 1nat,
{
    if segs.len() == 0 {
        false
    } else {
        direct_in_segs(segs.drop_last(), p) || direct_in_args(segs.last().args@, p)
    }
}

pub open spec fn direct_in_args(args: Seq<TypeExpr>, p: Seq<char>) -> bool
    decreases args, 0nat,
{
    if args.len() == 0 {
        false
    } else {
        direct_in_args(args.drop_last(), p) || direct_in(args.last(), p)
    }
}

/// `p` occurs in `t` as the payload of the marker wrapper.
pub open spec fn marker_in(t: TypeExpr, p: Seq<char>) -> bool
    decreases t, 2nat,
{
    if wrapped_name(t) == Some(p) {
        true
    } else {
        match t {
            TypeExpr::Path(segs) => marker_in_segs(segs@, p),
            TypeExpr::Other(_) => false,
        }
    }
}

pub open spec fn marker_in_segs(segs: Seq<Segment>, p: Seq<char>) -> bool
    decreases segs, 1nat,
{
    if segs.len() == 0 {
        false
    } else {
        marker_in_segs(segs.drop_last(), p) || marker_in_args(segs.last().args@, p)
    }
}

pub open spec fn marker_in_args(args: Seq<TypeExpr>, p: Seq<char>) -> bool
    decreases args, 0nat,
{
    if args.len() == 0 {
        false
    } else {
        marker_in_args(args.drop_last(), p) || marker_in(args.last(), p)
    }
}

/// Text of every path in `t` rooted at `p`, in depth-first order, outer
/// paths before the paths inside their arguments.
pub open spec fn assoc_in(t: TypeExpr, p: Seq<char>) -> Seq<Seq<char>>
    decreases t, 2nat,
{
    let inner = match t {
        TypeExpr::Path(segs) => assoc_in_segs(segs@, p),
        TypeExpr::Other(_) => Seq::empty(),
    };
    if rooted_at(t, p) {
        seq![type_text(t)] + inner
    } else {
        inner
    }
}

pub open spec fn assoc_in_segs(segs: Seq<Segment>, p: Seq<char>) -> Seq<Seq<char>>
    decreases segs, 1nat,
{
    if segs.len() == 0 {
        Seq::empty()
    } else {
        assoc_in_segs(segs.drop_last(), p) + assoc_in_args(segs.last().args@, p)
    }
}

pub open spec fn assoc_in_args(args: Seq<TypeExpr>, p: Seq<char>) -> Seq<Seq<char>>
    decreases args, 0nat,
{
    if args.len() == 0 {
        Seq::empty()
    } else {
        assoc_in_args(args.drop_last(), p) + assoc_in(args.last(), p)
    }
}

/// The views of a sequence of strings.
pub open spec fn texts(v: Seq<String>) -> Seq<Seq<char>> {
    v.map_values(|s: String| s@)
}

/// What a walk has found so far about one generic parameter.
pub struct Usage {
    pub direct: bool,
    pub marker: bool,
    pub assoc: Vec<String>,
}

/// The walk's findings after `t` was added to `before`.
pub open spec fn usage_after(before: Usage, after: Usage, t: TypeExpr, p: Seq<char>) -> bool {
    &&& after.direct == (before.direct || direct_in(t, p))
    &&& after.marker == (before.marker || marker_in(t, p))
    &&& texts(after.assoc@) == texts(before.assoc@) + assoc_in(t, p)
}

fn str_eq(a: &String, b: &str) -> (r: bool)
    ensures
        r == (a@ == b@),
{
    let owned = String::from_str(b);
    *a == owned
}

fn is_bare(t: &TypeExpr, p: &String) -> (r: bool)
    ensures
        r == (bare_name(*t) == Some(p@)),
{
    match t {
        TypeExpr::Path(segs) => segs.len() == 1 && segs[0].args.len() == 0 && segs[0].ident == *p,
        TypeExpr::Other(_) => false,
    }
}

fn is_wrapped(t: &TypeExpr) -> (r: Option<&String>)
    ensures
        match r {
            Some(n) => wrapped_name(*t) == Some(n@),
            None => wrapped_name(*t) is None,
        },
{
    match t {
        TypeExpr::Path(segs) => {
            if segs.len() >= 1 {
                let last = &segs[segs.len() - 1];
                proof {
                    reveal_strlit("PhantomData");
                }
                if str_eq(&last.ident, "PhantomData") && last.args.len() == 1 {
                    match &last.args[0] {
                        TypeExpr::Path(inner) => {
                            if inner.len() == 1 && inner[0].args.len() == 0 {
                                return Some(&inner[0].ident);
                            }
                        },
                        TypeExpr::Other(_) => {},
                    }
                }
            }
            None
        },
        TypeExpr::Other(_) => None,
    }
}

/// Adds to `u` what `t` shows of the parameter `p`.
pub fn walk_type(t: &TypeExpr, p: &String, u: &mut Usage)
    ensures
        usage_after(*old(u), *final(u), *t, p@),
    decreases t, 2nat,
{
    let ghost u0 = *u;
    if rooted(t, p) {
        let text = render_type(t);
        u.assoc.push(text);
        proof {
            assert(texts(u.assoc@) =~= texts(u0.assoc@) + seq![type_text(*t)]);
        }
    }
    if is_bare(t, p) {
        u.direct = true;
    }
    let wrapped = is_wrapped(t);
    match wrapped {
        Some(n) => {
            if *n == *p {
                u.marker = true;
            }
        },
        None => {},
    }
    match t {
        TypeExpr::Path(segs) => {
            let ghost u2 = *u;
            let skip_direct = is_bare(t, p) || wrapped.is_some();
            assert(segs@.take(0) =~= Seq::<Segment>::empty());
            let mut i: usize = 0;
            while i < segs.len()
                invariant
                    i <= segs@.len(),
                    decreases_to!(t => segs),
                    u.direct == (u2.direct || (!skip_direct && direct_in_segs(segs@.take(i as int), p@))),
                    u.marker == (u2.marker || marker_in_segs(segs@.take(i as int), p@)),
                    texts(u.assoc@) == texts(u2.assoc@) + assoc_in_segs(segs@.take(i as int), p@),
                decreases segs@.len() - i,
            {
                proof {
                    assert(decreases_to!(segs => segs@[i as int]));
                    assert(segs@.take(i as int + 1).drop_last() =~= segs@.take(i as int));
                }
                let old_direct = u.direct;
                walk_segment(&segs[i], p, u);
                if skip_direct {
                    u.direct = old_direct;
                }
                proof {
                    assert(texts(u.assoc@) =~= texts(u2.assoc@) + assoc_in_segs(segs@.take(i as int + 1), p@));
                }
                i = i + 1;
            }
            proof {
                assert(segs@.take(segs@.len() as int) =~= segs@);
                assert(texts(u.assoc@) =~= texts(u0.assoc@) + assoc_in(*t, p@));
            }
        },
        TypeExpr::Other(_) => {},
    }
}

/// Adds to `u` what the arguments of `s` show of the parameter `p`.
fn walk_segment(s: &Segment, p: &String, u: &mut Usage)
    ensures
        final(u).direct == (old(u).direct || direct_in_args(s.args@, p@)),
        final(u).marker == (old(u).marker || marker_in_args(s.args@, p@)),
        texts(final(u).assoc@) == texts(old(u).assoc@) + assoc_in_args(s.args@, p@),
    decreases s, 1nat,
{
    let ghost u0 = *u;
    assert(s.args@.take(0) =~= Seq::<TypeExpr>::empty());
    let mut i: usize = 0;
    while i < s.args.len()
        invariant
            i <= s.args@.len(),
            u.direct == (u0.direct || direct_in_args(s.args@.take(i as int), p@)),
            u.marker == (u0.marker || marker_in_args(s.args@.take(i as int), p@)),
            texts(u.assoc@) == texts(u0.assoc@) + assoc_in_args(s.args@.take(i as int), p@),
        decreases s.args@.len() - i,
    {
        proof {
            assert(decreases_to!(s => s.args));
            assert(decreases_to!(s.args => s.args@[i as int]));
            assert(s.args@.take(i as int + 1).drop_last() =~= s.args@.take(i as int));
        }
        walk_type(&s.args[i], p, u);
        proof {
            assert(texts(u.assoc@) =~= texts(u0.assoc@) + assoc_in_args(s.args@.take(i as int + 1), p@));
        }
        i = i + 1;
    }
    assert(s.args@.take(s.args@.len() as int) =~= s.args@);
}

fn rooted(t: &TypeExpr, p: &String) -> (r: bool)
    ensures
        r == rooted_at(*t, p@),
{
    match t {
        TypeExpr::Path(segs) => segs.len() >= 2 && segs[0].ident == *p,
        TypeExpr::Other(_) => false,
    }
}

} // verus!
