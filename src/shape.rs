use vstd::prelude::*;
use crate::model::{GenericArg, GenericArgs, Segment, TypePath, TypeRef};

verus! {

/// Whether some segment of the type's path is the identifier `name`.
pub open spec fn names_segment(ty: TypeRef, name: Seq<char>) -> bool {
    match ty.path {
        Some(p) => exists|i: int| 0 <= i < p.segments@.len() && #[trigger] p.segments@[i].ident@ == name,
        None => false,
    }
}

/// Whether the path's last segment is the identifier `name`.
pub open spec fn last_is(p: TypePath, name: Seq<char>) -> bool {
    p.segments@.len() > 0 && p.segments@.last().ident@ == name
}

/// For a type `…::Option<…::Vec<…>>`, the inner sequence type.
pub open spec fn option_vec_inner(ty: TypeRef) -> Option<TypeRef> {
    match ty.path {
        Some(p) => if last_is(p, "Option"@) {
            match p.segments@.last().args {
                GenericArgs::Angle(a) => if a@.len() > 0 {
                    match a@[0] {
                        GenericArg::Type(inner) => match inner.path {
                            Some(ip) => if last_is(ip, "Vec"@) { Some(inner) } else { None },
                            None => None,
                        },
                        GenericArg::Other(_) => None,
                    }
                } else {
                    None
                },
                _ => None,
            }
        } else {
            None
        },
        None => None,
    }
}

/// Whether an identifier is `name`.
fn ident_is(ident: &String, name: &str) -> (r: bool)
    ensures
        r == (ident@ == name@),
{
    let n = String::from_str(name);
    *ident == n
}

/// Whether `p`'s last segment is the identifier `name`.
fn path_last_is(p: &TypePath, name: &str) -> (r: bool)
    ensures
        r == last_is(*p, name@),
{
    let n = p.segments.len();
    if n == 0 {
        false
    } else {
        ident_is(&p.segments[n - 1].ident, name)
    }
}

/// Whether some segment of `ty`'s path is the identifier `name`.
pub fn is_type_name(ty: &TypeRef, name: &str) -> (r: bool)
    ensures
        r == names_segment(*ty, name@),
{
    match &ty.path {
        Some(p) => {
            let mut i: usize = 0;
            while i < p.segments.len()
                invariant
                    ty.path == Some(*p),
                    i <= p.segments@.len(),
                    forall|j: int| 0 <= j < i ==> #[trigger] p.segments@[j].ident@ != name@,
                decreases p.segments@.len() - i,
            {
                if ident_is(&p.segments[i].ident, name) {
                    return true;
                }
                i = i + 1;
            }
            false
        },
        None => false,
    }
}

/// The sequence type inside an optional sequence type: `Vec<u16>` for
/// `Option<Vec<u16>>`, by the last segments' names.
pub fn get_inner_type_from_option_vec(ty: &TypeRef) -> (r: Option<&TypeRef>)
    ensures
        match r {
            Some(inner) => option_vec_inner(*ty) == Some(*inner),
            None => option_vec_inner(*ty) is None,
        },
{
    let p = match &ty.path {
        Some(p) => p,
        None => return None,
    };
    if !path_last_is(p, "Option") {
        return None;
    }
    let n = p.segments.len();
    match &p.segments[n - 1].args {
        GenericArgs::Angle(a) => {
            if a.len() == 0 {
                return None;
            }
            match &a[0] {
                GenericArg::Type(inner) => match &inner.path {
                    Some(ip) => {
                        if path_last_is(ip, "Vec") {
                            Some(inner)
                        } else {
                            None
                        }
                    },
                    None => None,
                },
                GenericArg::Other(_) => None,
            }
        },
        _ => None,
    }
}

/// How a record field is carried over from the source value, decided by
/// the target field's declared type.
#[derive(Debug, Clone, Copy, PartialEq, Eq)]
pub enum FieldMapping {
    /// `Option<Vec<_>>`: the contained sequence is converted element by
    /// element, absence stays absence.
    OptionalSequence,
    /// A type with a `Vec` segment: converted element by element.
    Sequence,
    /// A type with an `Option` segment: the contained value is converted.
    Optional,
    /// Any other type: the whole value is converted.
    Plain,
}

/// The mapping for a field of type `ty`, in order of priority.
pub open spec fn mapping_of(ty: TypeRef) -> FieldMapping {
    if option_vec_inner(ty) is Some {
        FieldMapping::OptionalSequence
    } else if names_segment(ty, "Vec"@) {
        FieldMapping::Sequence
    } else if names_segment(ty, "Option"@) {
        FieldMapping::Optional
    } else {
        FieldMapping::Plain
    }
}

/// Decides how a record field of type `ty` is converted.
pub fn classify_field(ty: &TypeRef) -> (r: FieldMapping)
    ensures
        r == mapping_of(*ty),
{
    if get_inner_type_from_option_vec(ty).is_some() {
        FieldMapping::OptionalSequence
    } else if is_type_name(ty, "Vec") {
        FieldMapping::Sequence
    } else if is_type_name(ty, "Option") {
        FieldMapping::Optional
    } else {
        FieldMapping::Plain
    }
}

/// The segments' identifiers joined by `::`.
pub open spec fn idents_text(segs: Seq<Segment>) -> Seq<char>
    decreases segs.len(),
{
    if segs.len() == 0 {
        Seq::empty()
    } else if segs.len() == 1 {
        segs[0].ident@
    } else {
        idents_text(segs.drop_last()) + "::"@ + segs.last().ident@
    }
}

/// The type as it names itself in a pattern: a path loses the arguments of
/// every segment, any other type stays as printed.
pub open spec fn stripped(ty: TypeRef) -> Seq<char> {
    match ty.path {
        Some(p) => (if p.leading_colon { "::"@ } else { Seq::empty() }) + idents_text(p.segments@),
        None => ty.text@,
    }
}

/// Prints `ty` without generic arguments: `Wrapper` for `Wrapper<T>`.
pub fn strip_generics(ty: &TypeRef) -> (r: String)
    ensures
        r@ == stripped(*ty),
{
    match &ty.path {
        Some(p) => {
            let mut out = if p.leading_colon {
                String::from_str("::")
            } else {
                String::new()
            };
            let ghost start = out@;
            let mut i: usize = 0;
            while i < p.segments.len()
                invariant
                    ty.path == Some(*p),
                    i <= p.segments@.len(),
                    out@ == start + idents_text(p.segments@.subrange(0, i as int)),
                decreases p.segments@.len() - i,
            {
                if i > 0 {
                    out.append("::");
                }
                out.append(p.segments[i].ident.as_str());
                proof {
                    let segs = p.segments@;
                    assert(segs.subrange(0, i + 1).drop_last() =~= segs.subrange(0, i as int));
                    if i == 0 {
                        assert(idents_text(segs.subrange(0, 0)) =~= Seq::<char>::empty());
                        assert(out@ =~= start + idents_text(segs.subrange(0, 1)));
                    } else {
                        assert(out@ =~= start + idents_text(segs.subrange(0, i + 1)));
                    }
                }
                i = i + 1;
            }
            assert(p.segments@.subrange(0, p.segments@.len() as int) =~= p.segments@);
            out
        },
        None => ty.text.clone(),
    }
}

} // verus!
