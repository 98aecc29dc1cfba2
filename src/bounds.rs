use vstd::prelude::*;
use vstd::string::StringExecFns;
use crate::attrs::SynthError;
use crate::types::{Field, TypeExpr, type_text, field_types};
use crate::usage::{Usage, walk_type, direct_in, marker_in, assoc_in, rooted_at, texts};

verus! {

/// Relies on `syn::parse_str::<syn::WherePredicate>` to tell whether the text
/// reads as one where-clause predicate. Nothing is assumed of the answer:
/// syn lexes through proc-macro2, whose lexer depends on whether it runs
/// inside the compiler, so the same text may be judged differently.
#[verifier::external_body]
fn parses_as_predicate(s: &String) -> bool {
    syn::parse_str::<syn::WherePredicate>(s).is_ok()
}

/// Asks syn about each literal clause, in order: one outcome per clause.
pub fn parse_outcomes(hatch: &Vec<String>) -> (r: Vec<bool>)
    ensures
        r@.len() == hatch@.len(),
{
    let mut out: Vec<bool> = Vec::new();
    let mut i: usize = 0;
    while i < hatch.len()
        invariant
            i <= hatch@.len(),
            out@.len() == i,
        decreases hatch@.len() - i,
    {
        out.push(parses_as_predicate(&hatch[i]));
        i = i + 1;
    }
    out
}

/// `p` is used as a bare type in some field.
pub open spec fn direct_all(fields: Seq<TypeExpr>, p: Seq<char>) -> bool
    decreases fields.len(),
{
    fields.len() > 0 && (direct_all(fields.drop_last(), p) || direct_in(fields.last(), p))
}

/// `p` is the payload of the marker wrapper in some field.
pub open spec fn marker_all(fields: Seq<TypeExpr>, p: Seq<char>) -> bool
    decreases fields.len(),
{
    fields.len() > 0 && (marker_all(fields.drop_last(), p) || marker_in(fields.last(), p))
}

/// The paths rooted at `p` over all fields, in field order.
pub open spec fn assoc_all(fields: Seq<TypeExpr>, p: Seq<char>) -> Seq<Seq<char>>
    decreases fields.len(),
{
    if fields.len() == 0 {
        Seq::empty()
    } else {
        assoc_all(fields.drop_last(), p) + assoc_in(fields.last(), p)
    }
}

/// A parameter is given the capability itself when some field uses it
/// directly, or when nothing in the fields accounts for it: it is neither
/// under the marker wrapper nor the root of an associated type.
pub open spec fn needs_bound(fields: Seq<TypeExpr>, p: Seq<char>) -> bool {
    direct_all(fields, p) || (!marker_all(fields, p) && assoc_all(fields, p).len() == 0)
}

/// The predicate `ty: cap`.
pub open spec fn predicate_text(ty: Seq<char>, cap: Seq<char>) -> Seq<char> {
    ty + seq![':', ' '] + cap
}

/// One predicate per associated-type use, parameter by parameter.
pub open spec fn assoc_predicates(params: Seq<Seq<char>>, fields: Seq<TypeExpr>, cap: Seq<char>) -> Seq<Seq<char>>
    decreases params.len(),
{
    if params.len() == 0 {
        Seq::empty()
    } else {
        assoc_predicates(params.drop_last(), fields, cap)
            + assoc_all(fields, params.last()).map_values(|a: Seq<char>| predicate_text(a, cap))
    }
}

/// The first occurrence of each element, in order.
pub open spec fn dedup(s: Seq<Seq<char>>) -> Seq<Seq<char>>
    decreases s.len(),
{
    if s.len() == 0 {
        Seq::empty()
    } else {
        let d = dedup(s.drop_last());
        if d.contains(s.last()) {
            d
        } else {
            d.push(s.last())
        }
    }
}

/// The constraints added to a record's generic clause: per parameter,
/// whether it gets the capability bound, and the where-clause predicates.
pub struct GenericClause {
    pub bounded: Vec<bool>,
    pub predicates: Vec<String>,
}

/// What automatic inference adds, as plain values.
pub open spec fn inferred_bounds(params: Seq<Seq<char>>, fields: Seq<TypeExpr>) -> Seq<bool> {
    Seq::new(params.len(), |i: int| needs_bound(fields, params[i]))
}

pub open spec fn inferred_predicates(params: Seq<Seq<char>>, fields: Seq<TypeExpr>, cap: Seq<char>) -> Seq<Seq<char>> {
    dedup(assoc_predicates(params, fields, cap))
}

fn contains_text(v: &Vec<String>, s: &String) -> (r: bool)
    ensures
        r == texts(v@).contains(s@),
{
    let mut i: usize = 0;
    while i < v.len()
        invariant
            i <= v@.len(),
            forall|j: int| 0 <= j < i ==> v@[j]@ != s@,
        decreases v@.len() - i,
    {
        if v[i] == *s {
            assert(texts(v@)[i as int] == s@);
            return true;
        }
        i = i + 1;
    }
    proof {
        if texts(v@).contains(s@) {
            let k = choose|k: int| 0 <= k < texts(v@).len() && texts(v@)[k] == s@;
            assert(v@[k]@ == s@);
        }
    }
    false
}

/// Keeps the first occurrence of each text, in order.
pub fn dedup_texts(v: &Vec<String>) -> (r: Vec<String>)
    ensures
        texts(r@) == dedup(texts(v@)),
{
    let mut out: Vec<String> = Vec::new();
    let mut i: usize = 0;
    while i < v.len()
        invariant
            i <= v@.len(),
            texts(out@) == dedup(texts(v@).take(i as int)),
        decreases v@.len() - i,
    {
        proof {
            assert(texts(v@).take(i as int + 1).drop_last() =~= texts(v@).take(i as int));
        }
        if !contains_text(&out, &v[i]) {
            out.push(v[i].clone());
            proof {
                assert(texts(out@) =~= dedup(texts(v@).take(i as int)).push(v@[i as int]@));
            }
        }
        i = i + 1;
    }
    proof {
        assert(texts(v@).take(v@.len() as int) =~= texts(v@));
    }
    out
}

/// Walks every field type for the parameter `p`.
fn usage_of(fields: &Vec<Field>, p: &String) -> (u: Usage)
    ensures
        u.direct == direct_all(field_types(fields@), p@),
        u.marker == marker_all(field_types(fields@), p@),
        texts(u.assoc@) == assoc_all(field_types(fields@), p@),
{
    let ghost tys = field_types(fields@);
    let mut u = Usage { direct: false, marker: false, assoc: Vec::new() };
    assert(texts(u.assoc@) =~= Seq::<Seq<char>>::empty());
    let mut j: usize = 0;
    while j < fields.len()
        invariant
            j <= fields@.len(),
            tys == field_types(fields@),
            u.direct == direct_all(tys.take(j as int), p@),
            u.marker == marker_all(tys.take(j as int), p@),
            texts(u.assoc@) == assoc_all(tys.take(j as int), p@),
        decreases fields@.len() - j,
    {
        proof {
            assert(tys.take(j as int + 1).drop_last() =~= tys.take(j as int));
            assert(tys[j as int] == fields@[j as int].ty);
        }
        walk_type(&fields[j].ty, p, &mut u);
        j = j + 1;
    }
    assert(tys.take(tys.len() as int) =~= tys);
    u
}

/// Automatic inference: which parameters get the capability `cap`, and one
/// predicate `path: cap` for each distinct associated-type path.
pub fn infer_bounds(params: &Vec<String>, fields: &Vec<Field>, cap: &String) -> (r: GenericClause)
    ensures
        r.bounded@ == inferred_bounds(texts(params@), field_types(fields@)),
        texts(r.predicates@) == inferred_predicates(texts(params@), field_types(fields@), cap@),
{
    let ghost tys = field_types(fields@);
    let mut bounded: Vec<bool> = Vec::new();
    let mut all: Vec<String> = Vec::new();
    let mut i: usize = 0;
    while i < params.len()
        invariant
            i <= params@.len(),
            tys == field_types(fields@),
            bounded@ == inferred_bounds(texts(params@.take(i as int)), tys),
            texts(all@) == assoc_predicates(texts(params@.take(i as int)), tys, cap@),
        decreases params@.len() - i,
    {
        let p = &params[i];
        let u = usage_of(fields, p);
        bounded.push(u.direct || (!u.marker && u.assoc.len() == 0));
        proof {
            assert(texts(params@.take(i as int + 1)).drop_last() =~= texts(params@.take(i as int)));
            assert(texts(params@.take(i as int + 1)).last() == p@);
            assert(bounded@ =~= inferred_bounds(texts(params@.take(i as int + 1)), tys));
        }
        let ghost start = texts(all@);
        let mut k: usize = 0;
        while k < u.assoc.len()
            invariant
                k <= u.assoc@.len(),
                tys == field_types(fields@),
                texts(u.assoc@) == assoc_all(tys, p@),
                texts(all@) == start + assoc_all(tys, p@).take(k as int).map_values(|a: Seq<char>| predicate_text(a, cap@)),
            decreases u.assoc@.len() - k,
        {
            let mut pred = u.assoc[k].clone();
            pred.append(": ");
            pred.append(cap.as_str());
            proof {
                reveal_strlit(": ");
                assert(pred@ =~= predicate_text(u.assoc@[k as int]@, cap@));
            }
            let ghost before = all@;
            let ghost pv = pred@;
            all.push(pred);
            proof {
                assert(texts(all@) =~= texts(before).push(pv));
                assert(texts(u.assoc@)[k as int] == u.assoc@[k as int]@);
                assert(assoc_all(tys, p@).take(k as int + 1).map_values(|a: Seq<char>| predicate_text(a, cap@))
                    =~= assoc_all(tys, p@).take(k as int).map_values(|a: Seq<char>| predicate_text(a, cap@)).push(pv));
                assert(texts(all@) =~= start + assoc_all(tys, p@).take(k as int + 1).map_values(|a: Seq<char>| predicate_text(a, cap@)));
            }
            k = k + 1;
        }
        proof {
            assert(assoc_all(tys, p@).take(u.assoc@.len() as int) =~= assoc_all(tys, p@));
        }
        i = i + 1;
    }
    proof {
        assert(params@.take(params@.len() as int) =~= params@);
    }
    let predicates = dedup_texts(&all);
    GenericClause { bounded, predicates }
}

/// The record's constraints: with an escape hatch, exactly its clauses and
/// nothing inferred, provided each was read as a where-clause predicate
/// (`parsed[i]` says whether clause `i` was); without one, automatic
/// inference.
pub fn resolve_bounds(params: &Vec<String>, fields: &Vec<Field>, hatch: &Vec<String>, parsed: &Vec<bool>, cap: &String) -> (r: Result<GenericClause, SynthError>)
    requires
        parsed@.len() == hatch@.len(),
    ensures
        hatch@.len() == 0 ==> (r matches Ok(c) && c.bounded@ == inferred_bounds(texts(params@), field_types(fields@))
            && texts(c.predicates@) == inferred_predicates(texts(params@), field_types(fields@), cap@)),
        hatch@.len() > 0 ==> match r {
            Ok(c) => (forall|i: int| 0 <= i < hatch@.len() ==> #[trigger] parsed@[i])
                && c.bounded@ == Seq::new(params@.len(), |i: int| false)
                && texts(c.predicates@) == texts(hatch@),
            Err(e) => match e {
                SynthError::InvalidBound { index } => index < hatch@.len()
                    && !parsed@[index as int]
                    && forall|j: int| 0 <= j < index ==> #[trigger] parsed@[j],
                _ => false,
            },
        },
{
    if hatch.len() == 0 {
        return Ok(infer_bounds(params, fields, cap));
    }
    let mut predicates: Vec<String> = Vec::new();
    let mut i: usize = 0;
    while i < hatch.len()
        invariant
            i <= hatch@.len(),
            parsed@.len() == hatch@.len(),
            forall|j: int| 0 <= j < i ==> #[trigger] parsed@[j],
            predicates@ == hatch@.take(i as int),
        decreases hatch@.len() - i,
    {
        if !parsed[i] {
            return Err(SynthError::InvalidBound { index: i });
        }
        predicates.push(hatch[i].clone());
        proof {
            assert(hatch@.take(i as int + 1) =~= hatch@.take(i as int).push(hatch@[i as int]));
        }
        i = i + 1;
    }
    assert(hatch@.take(hatch@.len() as int) =~= hatch@);
    let mut bounded: Vec<bool> = Vec::new();
    let mut k: usize = 0;
    while k < params.len()
        invariant
            k <= params@.len(),
            bounded@ == Seq::new(k as nat, |i: int| false),
        decreases params@.len() - k,
    {
        bounded.push(false);
        assert(bounded@ =~= Seq::new(k as nat + 1, |i: int| false));
        k = k + 1;
    }
    Ok(GenericClause { bounded, predicates })
}

/// Some field uses `p` directly exactly when one of them does.
pub proof fn lemma_direct_all(fields: Seq<TypeExpr>, p: Seq<char>)
    ensures
        direct_all(fields, p) == exists|f: int| 0 <= f < fields.len() && direct_in(#[trigger] fields[f], p),
    decreases fields.len(),
{
    if fields.len() > 0 {
        lemma_direct_all(fields.drop_last(), p);
        if direct_all(fields.drop_last(), p) {
            let f = choose|f: int| 0 <= f < fields.len() - 1 && direct_in(#[trigger] fields.drop_last()[f], p);
            assert(fields[f] == fields.drop_last()[f]);
        }
        if exists|f: int| 0 <= f < fields.len() && direct_in(#[trigger] fields[f], p) {
            let f = choose|f: int| 0 <= f < fields.len() && direct_in(#[trigger] fields[f], p);
            if f < fields.len() - 1 {
                assert(fields.drop_last()[f] == fields[f]);
            }
        }
    }
}

/// Every associated-type use found in one field is among those of the record.
pub proof fn lemma_assoc_all(fields: Seq<TypeExpr>, p: Seq<char>, f: int, a: Seq<char>)
    requires
        0 <= f < fields.len(),
        assoc_in(fields[f], p).contains(a),
    ensures
        assoc_all(fields, p).contains(a),
    decreases fields.len(),
{
    let rest = assoc_all(fields.drop_last(), p);
    let last = assoc_in(fields.last(), p);
    if f == fields.len() - 1 {
        let k = choose|k: int| 0 <= k < last.len() && last[k] == a;
        assert((rest + last)[rest.len() + k] == a);
    } else {
        assert(fields.drop_last()[f] == fields[f]);
        lemma_assoc_all(fields.drop_last(), p, f, a);
        let k = choose|k: int| 0 <= k < rest.len() && rest[k] == a;
        assert((rest + last)[k] == a);
    }
}

/// A predicate made for any parameter is among all those made.
pub proof fn lemma_assoc_predicates(params: Seq<Seq<char>>, fields: Seq<TypeExpr>, cap: Seq<char>, i: int, a: Seq<char>)
    requires
        0 <= i < params.len(),
        assoc_all(fields, params[i]).contains(a),
    ensures
        assoc_predicates(params, fields, cap).contains(predicate_text(a, cap)),
    decreases params.len(),
{
    let rest = assoc_predicates(params.drop_last(), fields, cap);
    let last = assoc_all(fields, params.last()).map_values(|x: Seq<char>| predicate_text(x, cap));
    if i == params.len() - 1 {
        let k = choose|k: int| 0 <= k < assoc_all(fields, params[i]).len() && assoc_all(fields, params[i])[k] == a;
        assert(last[k] == predicate_text(a, cap));
        assert((rest + last)[rest.len() + k] == predicate_text(a, cap));
    } else {
        assert(params.drop_last()[i] == params[i]);
        lemma_assoc_predicates(params.drop_last(), fields, cap, i, a);
        let k = choose|k: int| 0 <= k < rest.len() && rest[k] == predicate_text(a, cap);
        assert((rest + last)[k] == predicate_text(a, cap));
    }
}

/// Removing repeats keeps exactly the elements that were there, once each.
pub proof fn lemma_dedup(s: Seq<Seq<char>>)
    ensures
        dedup(s).no_duplicates(),
        forall|x: Seq<char>| #[trigger] dedup(s).contains(x) == s.contains(x),
    decreases s.len(),
{
    if s.len() > 0 {
        lemma_dedup(s.drop_last());
        let d = dedup(s.drop_last());
        assert forall|x: Seq<char>| #[trigger] dedup(s).contains(x) == s.contains(x) by {
            if s.contains(x) {
                let k = choose|k: int| 0 <= k < s.len() && s[k] == x;
                if k < s.len() - 1 {
                    assert(s.drop_last()[k] == x);
                    assert(s.drop_last().contains(x));
                } else if !d.contains(x) {
                    assert(d.push(x)[d.len() as int] == x);
                }
            }
            if dedup(s).contains(x) && !d.contains(x) {
                let k = choose|k: int| 0 <= k < dedup(s).len() && dedup(s)[k] == x;
                assert(k == d.len());
                assert(s[s.len() - 1] == x);
            }
            if d.contains(x) {
                let k = choose|k: int| 0 <= k < s.drop_last().len() && s.drop_last()[k] == x;
                assert(s[k] == x);
                if !d.contains(s.last()) {
                    let j = choose|j: int| 0 <= j < d.len() && d[j] == x;
                    assert(d.push(s.last())[j] == x);
                }
            }
        }
    }
}

/// No inferred predicate is added twice.
pub proof fn law_predicates_distinct(params: Seq<Seq<char>>, fields: Seq<TypeExpr>, cap: Seq<char>)
    ensures
        inferred_predicates(params, fields, cap).no_duplicates(),
{
    lemma_dedup(assoc_predicates(params, fields, cap));
}

/// A parameter that is some field's own type receives the capability.
pub proof fn law_direct_use_bounded(params: Seq<Seq<char>>, fields: Seq<TypeExpr>, i: int, f: int)
    requires
        0 <= i < params.len(),
        0 <= f < fields.len(),
        direct_in(fields[f], params[i]),
    ensures
        inferred_bounds(params, fields)[i],
{
    lemma_direct_all(fields, params[i]);
}

/// A parameter that occurs only as the payload of the marker wrapper
/// receives no bound.
pub proof fn law_marker_only_unbounded(params: Seq<Seq<char>>, fields: Seq<TypeExpr>, i: int, f: int)
    requires
        0 <= i < params.len(),
        0 <= f < fields.len(),
        marker_in(fields[f], params[i]),
        forall|g: int| 0 <= g < fields.len() ==> !direct_in(#[trigger] fields[g], params[i]),
    ensures
        !inferred_bounds(params, fields)[i],
{
    lemma_direct_all(fields, params[i]);
    lemma_marker_all(fields, params[i], f);
}

/// A field that is a path rooted at a parameter `T` (`T::Value`) makes
/// `T::Value: cap` a predicate; when no field uses `T` directly, `T` itself
/// stays unbounded.
pub proof fn law_associated_use(params: Seq<Seq<char>>, fields: Seq<TypeExpr>, cap: Seq<char>, i: int, f: int)
    requires
        0 <= i < params.len(),
        0 <= f < fields.len(),
        rooted_at(fields[f], params[i]),
    ensures
        inferred_predicates(params, fields, cap).contains(predicate_text(type_text(fields[f]), cap)),
        (forall|g: int| 0 <= g < fields.len() ==> !direct_in(#[trigger] fields[g], params[i]))
            ==> !inferred_bounds(params, fields)[i],
{
    let p = params[i];
    let a = type_text(fields[f]);
    assert(assoc_in(fields[f], p)[0] == a);
    lemma_assoc_all(fields, p, f, a);
    lemma_assoc_predicates(params, fields, cap, i, a);
    lemma_dedup(assoc_predicates(params, fields, cap));
    lemma_direct_all(fields, p);
}

/// The marker wrapper in one field is seen over the record.
pub proof fn lemma_marker_all(fields: Seq<TypeExpr>, p: Seq<char>, f: int)
    requires
        0 <= f < fields.len(),
        marker_in(fields[f], p),
    ensures
        marker_all(fields, p),
    decreases fields.len(),
{
    if f < fields.len() - 1 {
        assert(fields.drop_last()[f] == fields[f]);
        lemma_marker_all(fields.drop_last(), p, f);
    }
}

} // verus!
