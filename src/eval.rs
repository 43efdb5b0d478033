use vstd::prelude::*;
use crate::model::Field;
use crate::shape::{FieldMapping, classify_field, mapping_of};

verus! {

/// A source field's value in the forms that the field mappings accept,
/// with `E` its element type.
#[derive(Debug, Clone, PartialEq, Eq)]
pub enum Slot<E> {
    /// A value taken whole.
    One(E),
    /// A sequence of values.
    Many(Vec<E>),
    /// A value that may be absent.
    Maybe(Option<E>),
    /// A sequence that may be absent.
    MaybeMany(Option<Vec<E>>),
}

/// `ys` holds, in the same order, the result of `f` on each element of `xs`.
pub open spec fn converted_each<E, T, F: Fn(E) -> T>(f: F, xs: Seq<E>, ys: Seq<T>) -> bool {
    &&& ys.len() == xs.len()
    &&& forall|i: int| 0 <= i < xs.len() ==> f.ensures((xs[i],), #[trigger] ys[i])
}

/// Converts every element of `xs` with `f`, keeping their order: what the
/// generated `into_iter().map(Into::into).collect()` does.
pub fn convert_each<E, T, F: Fn(E) -> T>(xs: Vec<E>, f: &F) -> (ys: Vec<T>)
    requires
        forall|x: E| f.requires((x,)),
    ensures
        converted_each(*f, xs@, ys@),
{
    let ghost src = xs@;
    let mut rest = xs;
    let mut ys: Vec<T> = Vec::new();
    while rest.len() > 0
        invariant
            forall|x: E| f.requires((x,)),
            ys@.len() + rest@.len() == src.len(),
            rest@ == src.subrange(ys@.len() as int, src.len() as int),
            forall|i: int| 0 <= i < ys@.len() ==> f.ensures((src[i],), #[trigger] ys@[i]),
        decreases rest@.len(),
    {
        let x = rest.remove(0);
        let y = f(x);
        ys.push(y);
        assert(rest@ =~= src.subrange(ys@.len() as int, src.len() as int));
    }
    ys
}

/// What the conversion generated for a record field with mapping `m` yields
/// on the source value `v`.
pub open spec fn mapping_result<E, T, F: Fn(E) -> T>(
    m: FieldMapping,
    v: Slot<E>,
    f: F,
    r: Option<Slot<T>>,
) -> bool {
    match (m, v) {
        (FieldMapping::Plain, Slot::One(x)) => match r {
            Some(Slot::One(y)) => f.ensures((x,), y),
            _ => false,
        },
        (FieldMapping::Sequence, Slot::Many(xs)) => match r {
            Some(Slot::Many(ys)) => converted_each(f, xs@, ys@),
            _ => false,
        },
        (FieldMapping::Optional, Slot::Maybe(None)) => r == Some(Slot::<T>::Maybe(None)),
        (FieldMapping::Optional, Slot::Maybe(Some(x))) => match r {
            Some(Slot::Maybe(Some(y))) => f.ensures((x,), y),
            _ => false,
        },
        (FieldMapping::OptionalSequence, Slot::MaybeMany(None)) => r == Some(
            Slot::<T>::MaybeMany(None),
        ),
        (FieldMapping::OptionalSequence, Slot::MaybeMany(Some(xs))) => match r {
            Some(Slot::MaybeMany(Some(ys))) => converted_each(f, xs@, ys@),
            _ => false,
        },
        _ => r is None,
    }
}

/// Carries a source field's value over by the mapping `m`, converting each
/// value with `f`. A value given in a form that the mapping does not read
/// (a sequence for an optional field, say) yields `None`.
pub fn apply_mapping<E, T, F: Fn(E) -> T>(m: FieldMapping, v: Slot<E>, f: &F) -> (r: Option<
    Slot<T>,
>)
    requires
        forall|x: E| f.requires((x,)),
    ensures
        mapping_result(m, v, *f, r),
{
    match (m, v) {
        (FieldMapping::Plain, Slot::One(x)) => Some(Slot::One(f(x))),
        (FieldMapping::Sequence, Slot::Many(xs)) => Some(Slot::Many(convert_each(xs, f))),
        (FieldMapping::Optional, Slot::Maybe(None)) => Some(Slot::Maybe(None)),
        (FieldMapping::Optional, Slot::Maybe(Some(x))) => Some(Slot::Maybe(Some(f(x)))),
        (FieldMapping::OptionalSequence, Slot::MaybeMany(None)) => Some(Slot::MaybeMany(None)),
        (FieldMapping::OptionalSequence, Slot::MaybeMany(Some(xs))) => Some(
            Slot::MaybeMany(Some(convert_each(xs, f))),
        ),
        _ => None,
    }
}

/// What the conversion generated for a record with the fields `fields`
/// yields, where `values[i]` is the source's field of the name of
/// `fields[i]`: `None` where some value does not fit its field's mapping,
/// else each field's result in declaration order.
pub open spec fn record_result<E, T, F: Fn(E) -> T>(
    fields: Seq<Field>,
    values: Seq<Slot<E>>,
    f: F,
    r: Option<Vec<Slot<T>>>,
) -> bool {
    match r {
        Some(out) => {
            &&& out@.len() == fields.len()
            &&& forall|i: int|
                0 <= i < fields.len() ==> mapping_result(
                    mapping_of(fields[i].ty),
                    values[i],
                    f,
                    Some(#[trigger] out@[i]),
                )
        },
        None => exists|i: int|
            0 <= i < fields.len() && mapping_result(
                mapping_of(fields[i].ty),
                #[trigger] values[i],
                f,
                None,
            ),
    }
}

/// Converts a record value field by field, each by the mapping of its
/// target field's type.
#[verifier::loop_isolation(false)]
pub fn convert_record<E, T, F: Fn(E) -> T>(fields: &Vec<Field>, mut values: Vec<Slot<E>>, f: &F) -> (r:
    Option<Vec<Slot<T>>>)
    requires
        values@.len() == fields@.len(),
        forall|x: E| f.requires((x,)),
    ensures
        record_result(fields@, values@, *f, r),
{
    let ghost src = values@;
    let mut out: Vec<Slot<T>> = Vec::new();
    while values.len() > 0
        invariant
            forall|x: E| f.requires((x,)),
            src.len() == fields@.len(),
            out@.len() + values@.len() == src.len(),
            values@ == src.subrange(out@.len() as int, src.len() as int),
            forall|i: int|
                0 <= i < out@.len() ==> mapping_result(
                    mapping_of(fields@[i].ty),
                    src[i],
                    *f,
                    Some(#[trigger] out@[i]),
                ),
        decreases values@.len(),
    {
        let i = out.len();
        let ghost before = values@;
        let v = values.remove(0);
        assert(v == src[i as int]) by {
            assert(before[0] == src[i as int]);
        }
        let m = classify_field(&fields[i].ty);
        match apply_mapping(m, v, f) {
            Some(y) => {
                out.push(y);
            },
            None => {
                assert(mapping_result(mapping_of(fields@[i as int].ty), src[i as int], *f, None));
                assert(record_result(fields@, src, *f, None::<Vec<Slot<T>>>));
                return None;
            },
        }
        assert(values@ =~= src.subrange(out@.len() as int, src.len() as int));
    }
    Some(out)
}

/// A value of one variant: its name and the values it carries, positional
/// or named, in declaration order.
#[derive(Debug, Clone, PartialEq, Eq)]
pub struct VariantValue<E> {
    pub name: String,
    pub values: Vec<E>,
}

/// Carries a variant over to the target's variant of the same name,
/// converting each value it carries with `f`, in place.
pub fn convert_variant<E, T, F: Fn(E) -> T>(v: VariantValue<E>, f: &F) -> (r: VariantValue<T>)
    requires
        forall|x: E| f.requires((x,)),
    ensures
        r.name == v.name,
        converted_each(*f, v.values@, r.values@),
{
    let VariantValue { name, values } = v;
    VariantValue { name, values: convert_each(values, f) }
}

/// A record whose fields all take their values whole converts each field
/// by one call of the value conversion on the source field of its name.
pub proof fn plain_fields_convert_whole<E, T, F: Fn(E) -> T>(
    fields: Seq<Field>,
    values: Seq<Slot<E>>,
    f: F,
    r: Option<Vec<Slot<T>>>,
)
    requires
        values.len() == fields.len(),
        forall|i: int| 0 <= i < fields.len() ==> mapping_of(#[trigger] fields[i].ty) == FieldMapping::Plain,
        forall|i: int| 0 <= i < values.len() ==> (#[trigger] values[i]) is One,
        record_result(fields, values, f, r),
    ensures
        r is Some,
        forall|i: int|
            0 <= i < fields.len() ==> match (values[i], #[trigger] r->Some_0@[i]) {
                (Slot::One(x), Slot::One(y)) => f.ensures((x,), y),
                _ => false,
            },
{
    if r is None {
        let i = choose|i: int|
            0 <= i < fields.len() && mapping_result(
                mapping_of(fields[i].ty),
                #[trigger] values[i],
                f,
                None,
            );
        assert(mapping_of(fields[i].ty) == FieldMapping::Plain);
        assert(values[i] is One);
    }
    assert forall|i: int| 0 <= i < fields.len() implies match (values[i], #[trigger] r->Some_0@[i]) {
        (Slot::One(x), Slot::One(y)) => f.ensures((x,), y),
        _ => false,
    } by {
        assert(mapping_of(fields[i].ty) == FieldMapping::Plain);
        assert(values[i] is One);
        assert(mapping_result(mapping_of(fields[i].ty), values[i], f, Some(r->Some_0@[i])));
    }
}

} // verus!
