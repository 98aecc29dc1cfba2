use vstd::prelude::*;
use crate::usage::texts;

verus! {

/// The value of one metadata entry: a bare flag, a string literal, or any
/// other literal or expression (which is malformed).
pub enum MetaValue {
    Flag,
    Str(String),
    Other,
}

/// One entry of a metadata tag: `key`, or `key = value`.
pub struct MetaItem {
    pub key: String,
    pub value: MetaValue,
}

/// A metadata tag attached to a record or a field. `items` holds the entries
/// of `path(...)`; the form `path = value` is held as one entry whose key is
/// `path` itself. `well_formed` is false when the tag's body is not a
/// comma-separated list of entries.
pub struct Attribute {
    pub path: String,
    pub items: Vec<MetaItem>,
    pub well_formed: bool,
}

/// Why a synthesis run produced no code.
#[derive(Debug, PartialEq, Eq, Structural)]
pub enum SynthError {
    /// The tag at this index (among the record's or the field's tags) is
    /// malformed.
    MalformedMetadata { attr: usize },
    /// Tag `attr` of the field at index `field` is malformed.
    MalformedFieldMetadata { field: usize, attr: usize },
    /// The declaration is not a record with named fields.
    UnsupportedShape,
    /// The field at this index has an `each` tag but is not a
    /// single-element collection.
    UnsupportedAttributeTarget { field: usize },
    /// The literal constraint clause at this index does not parse.
    InvalidBound { index: usize },
}

pub open spec fn item_ok(m: MetaItem) -> bool {
    !(m.value is Other)
}

/// A tag is acceptable when it is not ours, or it is well formed and every
/// entry is a flag or carries a string literal.
pub open spec fn attr_ok(a: Attribute, tag: Seq<char>) -> bool {
    a.path@ != tag || (a.well_formed && forall|i: int| 0 <= i < a.items@.len() ==> item_ok(#[trigger] a.items@[i]))
}

/// Every tag is acceptable.
pub open spec fn attrs_ok(attrs: Seq<Attribute>, tag: Seq<char>) -> bool {
    forall|i: int| 0 <= i < attrs.len() ==> attr_ok(#[trigger] attrs[i], tag)
}

/// The entries of all tags named `tag`, in order.
pub open spec fn tagged_items(attrs: Seq<Attribute>, tag: Seq<char>) -> Seq<MetaItem>
    decreases attrs.len(),
{
    if attrs.len() == 0 {
        Seq::empty()
    } else {
        tagged_items(attrs.drop_last(), tag) + if attrs.last().path@ == tag {
            attrs.last().items@
        } else {
            Seq::empty()
        }
    }
}

/// The string values of the entries whose key is `key` or `alias`, in order.
pub open spec fn values_of(items: Seq<MetaItem>, key: Seq<char>, alias: Seq<char>) -> Seq<Seq<char>>
    decreases items.len(),
{
    if items.len() == 0 {
        Seq::empty()
    } else {
        let m = items.last();
        values_of(items.drop_last(), key, alias) + match m.value {
            MetaValue::Str(s) => if m.key@ == key || m.key@ == alias {
                seq![s@]
            } else {
                Seq::empty()
            },
            _ => Seq::empty(),
        }
    }
}

fn copy_item(m: &MetaItem) -> (r: MetaItem)
    ensures
        r == *m,
{
    MetaItem {
        key: m.key.clone(),
        value: match &m.value {
            MetaValue::Flag => MetaValue::Flag,
            MetaValue::Str(s) => MetaValue::Str(s.clone()),
            MetaValue::Other => MetaValue::Other,
        },
    }
}

/// Gathers the entries of every tag named `tag`, in order. Fails on the
/// first tag of that name that is malformed; tags of other names and
/// unknown keys are passed over.
pub fn parse_config(attrs: &Vec<Attribute>, tag: &String) -> (r: Result<Vec<MetaItem>, SynthError>)
    ensures
        match r {
            Ok(v) => (forall|i: int| 0 <= i < attrs@.len() ==> attr_ok(#[trigger] attrs@[i], tag@))
                && v@ == tagged_items(attrs@, tag@),
            Err(e) => match e {
                SynthError::MalformedMetadata { attr } => attr < attrs@.len()
                    && !attr_ok(attrs@[attr as int], tag@)
                    && forall|j: int| 0 <= j < attr ==> attr_ok(#[trigger] attrs@[j], tag@),
                _ => false,
            },
        },
{
    let mut out: Vec<MetaItem> = Vec::new();
    let mut i: usize = 0;
    while i < attrs.len()
        invariant
            i <= attrs@.len(),
            forall|j: int| 0 <= j < i ==> attr_ok(#[trigger] attrs@[j], tag@),
            out@ == tagged_items(attrs@.take(i as int), tag@),
        decreases attrs@.len() - i,
    {
        let a = &attrs[i];
        proof {
            assert(attrs@.take(i as int + 1).drop_last() =~= attrs@.take(i as int));
        }
        if a.path == *tag {
            if !a.well_formed {
                return Err(SynthError::MalformedMetadata { attr: i });
            }
            let ghost start = out@;
            let mut k: usize = 0;
            while k < a.items.len()
                invariant
                    k <= a.items@.len(),
                    i < attrs@.len(),
                    a == attrs@[i as int],
                    a.path@ == tag@,
                    forall|j: int| 0 <= j < i ==> attr_ok(#[trigger] attrs@[j], tag@),
                    forall|j: int| 0 <= j < k ==> item_ok(#[trigger] a.items@[j]),
                    out@ == start + a.items@.take(k as int),
                decreases a.items@.len() - k,
            {
                if let MetaValue::Other = a.items[k].value {
                    assert(!item_ok(a.items@[k as int]));
                    return Err(SynthError::MalformedMetadata { attr: i });
                }
                out.push(copy_item(&a.items[k]));
                proof {
                    assert(a.items@.take(k as int + 1) =~= a.items@.take(k as int).push(a.items@[k as int]));
                }
                k = k + 1;
            }
            proof {
                assert(a.items@.take(a.items@.len() as int) =~= a.items@);
            }
        } else {
            proof {
                assert(out@ =~= out@ + Seq::<MetaItem>::empty());
            }
        }
        i = i + 1;
    }
    proof {
        assert(attrs@.take(attrs@.len() as int) =~= attrs@);
    }
    Ok(out)
}

/// The string values of the entries keyed `key` or `alias`, in order.
pub fn values_for(items: &Vec<MetaItem>, key: &String, alias: &String) -> (r: Vec<String>)
    ensures
        texts(r@) == values_of(items@, key@, alias@),
{
    let mut out: Vec<String> = Vec::new();
    let mut i: usize = 0;
    while i < items.len()
        invariant
            i <= items@.len(),
            texts(out@) == values_of(items@.take(i as int), key@, alias@),
        decreases items@.len() - i,
    {
        let m = &items[i];
        proof {
            assert(items@.take(i as int + 1).drop_last() =~= items@.take(i as int));
        }
        match &m.value {
            MetaValue::Str(s) => {
                if m.key == *key || m.key == *alias {
                    out.push(s.clone());
                }
            },
            _ => {},
        }
        proof {
            assert(texts(out@) =~= values_of(items@.take(i as int + 1), key@, alias@));
        }
        i = i + 1;
    }
    proof {
        assert(items@.take(items@.len() as int) =~= items@);
    }
    out
}

} // verus!
