use vstd::prelude::*;
use crate::model::{Attribute, Data, DeriveInput, Field, Fields, TypeRef, Variant};
use crate::shape::{
    FieldMapping, classify_field, get_inner_type_from_option_vec, mapping_of, option_vec_inner,
    strip_generics, stripped,
};

verus! {

/// Why no conversion could be generated for a declaration.
#[derive(Debug, Clone, Copy, PartialEq, Eq)]
pub enum DeriveError {
    /// No `#[from(Type)]` annotation names a type.
    MissingSource,
    /// The target is a struct whose fields are not named.
    UnnamedFields,
    /// The target is a union.
    Union,
}

impl DeriveError {
    /// The message that the build stops with.
    pub fn message(&self) -> (r: &'static str)
        ensures
            r@ == match self {
                DeriveError::MissingSource => "The #[from(Type)] attribute is required for FromDTO"@,
                DeriveError::UnnamedFields => "FromDTO only supports structs with named fields"@,
                DeriveError::Union => "Unions are not supported by FromDTO"@,
            },
    {
        match self {
            DeriveError::MissingSource => "The #[from(Type)] attribute is required for FromDTO",
            DeriveError::UnnamedFields => "FromDTO only supports structs with named fields",
            DeriveError::Union => "Unions are not supported by FromDTO",
        }
    }
}

/// The initializer of one record field, read from the field of the same
/// name of `value`.
pub open spec fn field_text(f: Field) -> Seq<char> {
    let n = f.ident@;
    n + ": value."@ + n + match mapping_of(f.ty) {
        FieldMapping::OptionalSequence =>
            ".map(|v| v.into_iter().map(Into::into).collect::<"@
            + option_vec_inner(f.ty)->Some_0.text@ + ">())"@,
        FieldMapping::Sequence =>
            ".into_iter().map(Into::into).collect::<"@ + f.ty.text@ + ">()"@,
        FieldMapping::Optional => ".map(Into::into)"@,
        FieldMapping::Plain => ".into()"@,
    }
}

/// The initializers of all fields, in declaration order, each followed by `, `.
pub open spec fn fields_text(fs: Seq<Field>) -> Seq<char>
    decreases fs.len(),
{
    if fs.len() == 0 {
        Seq::empty()
    } else {
        fields_text(fs.drop_last()) + field_text(fs.last()) + ", "@
    }
}

/// The body of a conversion into a record.
pub open spec fn record_body(fs: Seq<Field>) -> Seq<char> {
    "Self { "@ + fields_text(fs) + "}"@
}

/// The decimal digit `d`.
pub open spec fn digit_text(d: nat) -> Seq<char> {
    if d == 0 { "0"@ }
    else if d == 1 { "1"@ }
    else if d == 2 { "2"@ }
    else if d == 3 { "3"@ }
    else if d == 4 { "4"@ }
    else if d == 5 { "5"@ }
    else if d == 6 { "6"@ }
    else if d == 7 { "7"@ }
    else if d == 8 { "8"@ }
    else { "9"@ }
}

/// `n` in decimal.
pub open spec fn decimal(n: nat) -> Seq<char>
    decreases n,
{
    if n < 10 {
        digit_text(n)
    } else {
        decimal(n / 10) + digit_text(n % 10)
    }
}

/// The name bound to the positional slot `i`: `v0`, `v1`, ...
pub open spec fn slot_name(i: nat) -> Seq<char> {
    "v"@ + decimal(i)
}

/// The first `k` slot names, each followed by `suffix`, separated by `, `.
pub open spec fn slots_text(k: nat, suffix: Seq<char>) -> Seq<char>
    decreases k,
{
    if k == 0 {
        Seq::empty()
    } else {
        slots_text((k - 1) as nat, suffix) + (if k > 1 { ", "@ } else { Seq::empty() })
            + slot_name((k - 1) as nat) + suffix
    }
}

/// One named binding: `a` in a pattern, `a: a.into()` in a constructor.
pub open spec fn binding_text(f: Field, convert: bool) -> Seq<char> {
    if convert {
        f.ident@ + ": "@ + f.ident@ + ".into()"@
    } else {
        f.ident@
    }
}

/// The bindings of all fields, separated by `, `.
pub open spec fn bindings_text(fs: Seq<Field>, convert: bool) -> Seq<char>
    decreases fs.len(),
{
    if fs.len() == 0 {
        Seq::empty()
    } else {
        bindings_text(fs.drop_last(), convert) + (if fs.len() > 1 { ", "@ } else { Seq::empty() })
            + binding_text(fs.last(), convert)
    }
}

/// The match arm that carries the source variant of `v`'s name over to `v`;
/// `src` names the source type without its generic arguments.
pub open spec fn arm_text(src: Seq<char>, v: Variant) -> Seq<char> {
    let head = src + "::"@ + v.ident@;
    let ctor = " => Self::"@ + v.ident@;
    match v.fields {
        Fields::Unit => head + ctor,
        Fields::Unnamed(ts) =>
            head + "("@ + slots_text(ts@.len(), Seq::empty()) + ")"@ + ctor + "("@
            + slots_text(ts@.len(), ".into()"@) + ")"@,
        Fields::Named(fs) =>
            head + " { "@ + bindings_text(fs@, false) + " }"@ + ctor + " { "@
            + bindings_text(fs@, true) + " }"@,
    }
}

/// The arms for all variants, in declaration order, each followed by `, `.
pub open spec fn arms_text(src: Seq<char>, vs: Seq<Variant>) -> Seq<char>
    decreases vs.len(),
{
    if vs.len() == 0 {
        Seq::empty()
    } else {
        arms_text(src, vs.drop_last()) + arm_text(src, vs.last()) + ", "@
    }
}

/// The body of a conversion into an enum.
pub open spec fn enum_body(src: Seq<char>, vs: Seq<Variant>) -> Seq<char> {
    "match value { "@ + arms_text(src, vs) + "}"@
}

/// The body of the conversion from `source` into the declared type.
pub open spec fn body_text(d: DeriveInput, source: TypeRef) -> Seq<char> {
    match d.data {
        Data::Struct(Fields::Named(fs)) => record_body(fs@),
        Data::Enum(vs) => enum_body(stripped(source), vs@),
        _ => Seq::empty(),
    }
}

/// The `impl From<source> for Target` block. The declaration's generics and
/// `where` clause stand in it as they were printed.
pub open spec fn impl_text(d: DeriveInput, source: TypeRef) -> Seq<char> {
    "impl"@ + d.generics.impl_params@ + " From<"@ + source.text@ + "> for "@ + d.ident@
        + d.generics.type_params@ + " "@ + d.generics.where_clause@ + " { fn from(value: "@
        + source.text@ + ") -> Self { "@ + body_text(d, source) + " } }"@
}

/// Whether the attribute is a `#[from(Type)]` annotation.
pub open spec fn is_source(a: Attribute) -> bool {
    a.path@ == "from"@ && a.arg is Some
}

/// Whether some attribute is a `#[from(Type)]` annotation.
pub open spec fn has_source(attrs: Seq<Attribute>) -> bool {
    exists|i: int| 0 <= i < attrs.len() && is_source(#[trigger] attrs[i])
}

/// One `impl` block for each annotation among `attrs`, in their order.
pub open spec fn impls_text(d: DeriveInput, attrs: Seq<Attribute>) -> Seq<char>
    decreases attrs.len(),
{
    if attrs.len() == 0 {
        Seq::empty()
    } else {
        impls_text(d, attrs.drop_last()) + if is_source(attrs.last()) {
            impl_text(d, attrs.last().arg->Some_0)
        } else {
            Seq::empty()
        }
    }
}

/// The types named by the `#[from(Type)]` annotations among `attrs`, in
/// their order.
pub open spec fn sources(attrs: Seq<Attribute>) -> Seq<TypeRef>
    decreases attrs.len(),
{
    if attrs.len() == 0 {
        Seq::empty()
    } else {
        sources(attrs.drop_last()) + if is_source(attrs.last()) {
            seq![attrs.last().arg->Some_0]
        } else {
            Seq::empty()
        }
    }
}

/// The `impl` blocks for the source types `ts`, in order.
pub open spec fn blocks_text(d: DeriveInput, ts: Seq<TypeRef>) -> Seq<char>
    decreases ts.len(),
{
    if ts.len() == 0 {
        Seq::empty()
    } else {
        blocks_text(d, ts.drop_last()) + impl_text(d, ts.last())
    }
}

/// Whether the declaration has a shape that conversions can be generated for.
pub open spec fn supported_shape(d: Data) -> bool {
    match d {
        Data::Struct(Fields::Named(_)) => true,
        Data::Enum(_) => true,
        _ => false,
    }
}

/// The error for a declaration whose shape is not supported.
pub open spec fn shape_error(d: Data) -> DeriveError {
    match d {
        Data::Union => DeriveError::Union,
        _ => DeriveError::UnnamedFields,
    }
}

/// Appends the initializer of one record field.
fn push_field(out: &mut String, f: &Field)
    ensures
        final(out)@ == old(out)@ + field_text(*f),
{
    let ghost start = out@;
    out.append(f.ident.as_str());
    out.append(": value.");
    out.append(f.ident.as_str());
    match classify_field(&f.ty) {
        FieldMapping::OptionalSequence => {
            match get_inner_type_from_option_vec(&f.ty) {
                Some(inner) => {
                    out.append(".map(|v| v.into_iter().map(Into::into).collect::<");
                    out.append(inner.text.as_str());
                    out.append(">())");
                },
                None => {},
            }
        },
        FieldMapping::Sequence => {
            out.append(".into_iter().map(Into::into).collect::<");
            out.append(f.ty.text.as_str());
            out.append(">()");
        },
        FieldMapping::Optional => {
            out.append(".map(Into::into)");
        },
        FieldMapping::Plain => {
            out.append(".into()");
        },
    }
    assert(out@ =~= start + field_text(*f));
}

/// Appends the initializers of all fields of a record.
fn push_fields(out: &mut String, fs: &Vec<Field>)
    ensures
        final(out)@ == old(out)@ + fields_text(fs@),
{
    let ghost start = out@;
    let mut i: usize = 0;
    while i < fs.len()
        invariant
            i <= fs@.len(),
            out@ == start + fields_text(fs@.subrange(0, i as int)),
        decreases fs@.len() - i,
    {
        push_field(out, &fs[i]);
        out.append(", ");
        proof {
            assert(fs@.subrange(0, i + 1).drop_last() =~= fs@.subrange(0, i as int));
            assert(out@ =~= start + fields_text(fs@.subrange(0, i + 1)));
        }
        i = i + 1;
    }
    assert(fs@.subrange(0, fs@.len() as int) =~= fs@);
}

/// Appends the decimal digit `d`.
fn push_digit(out: &mut String, d: usize)
    requires
        d < 10,
    ensures
        final(out)@ == old(out)@ + digit_text(d as nat),
{
    if d == 0 {
        out.append("0");
    } else if d == 1 {
        out.append("1");
    } else if d == 2 {
        out.append("2");
    } else if d == 3 {
        out.append("3");
    } else if d == 4 {
        out.append("4");
    } else if d == 5 {
        out.append("5");
    } else if d == 6 {
        out.append("6");
    } else if d == 7 {
        out.append("7");
    } else if d == 8 {
        out.append("8");
    } else {
        out.append("9");
    }
}

/// Appends `n` in decimal.
fn push_decimal(out: &mut String, n: usize)
    ensures
        final(out)@ == old(out)@ + decimal(n as nat),
    decreases n,
{
    if n < 10 {
        push_digit(out, n);
    } else {
        let ghost start = out@;
        push_decimal(out, n / 10);
        push_digit(out, n % 10);
        assert(out@ =~= start + decimal(n as nat));
    }
}

/// Appends the first `k` slot names, each followed by `suffix`.
fn push_slots(out: &mut String, k: usize, suffix: &str)
    ensures
        final(out)@ == old(out)@ + slots_text(k as nat, suffix@),
{
    let ghost start = out@;
    let mut i: usize = 0;
    while i < k
        invariant
            i <= k,
            out@ == start + slots_text(i as nat, suffix@),
        decreases k - i,
    {
        if i > 0 {
            out.append(", ");
        }
        out.append("v");
        push_decimal(out, i);
        out.append(suffix);
        assert(out@ =~= start + slots_text((i + 1) as nat, suffix@));
        i = i + 1;
    }
}

/// Appends the named bindings of `fs`.
fn push_bindings(out: &mut String, fs: &Vec<Field>, convert: bool)
    ensures
        final(out)@ == old(out)@ + bindings_text(fs@, convert),
{
    let ghost start = out@;
    let mut i: usize = 0;
    while i < fs.len()
        invariant
            i <= fs@.len(),
            out@ == start + bindings_text(fs@.subrange(0, i as int), convert),
        decreases fs@.len() - i,
    {
        if i > 0 {
            out.append(", ");
        }
        out.append(fs[i].ident.as_str());
        if convert {
            out.append(": ");
            out.append(fs[i].ident.as_str());
            out.append(".into()");
        }
        proof {
            assert(fs@.subrange(0, i + 1).drop_last() =~= fs@.subrange(0, i as int));
            assert(out@ =~= start + bindings_text(fs@.subrange(0, i + 1), convert));
        }
        i = i + 1;
    }
    assert(fs@.subrange(0, fs@.len() as int) =~= fs@);
}

/// Appends the match arm for the variant `v`.
fn push_arm(out: &mut String, src: &String, v: &Variant)
    ensures
        final(out)@ == old(out)@ + arm_text(src@, *v),
{
    let ghost start = out@;
    let ghost ctor = " => Self::"@ + v.ident@;
    out.append(src.as_str());
    out.append("::");
    out.append(v.ident.as_str());
    let ghost head = out@;
    assert(head =~= start + (src@ + "::"@ + v.ident@));
    match &v.fields {
        Fields::Unit => {
            out.append(" => Self::");
            out.append(v.ident.as_str());
            assert(out@ =~= start + arm_text(src@, *v));
        },
        Fields::Unnamed(ts) => {
            let ghost plain = slots_text(ts@.len(), Seq::empty());
            let ghost conv = slots_text(ts@.len(), ".into()"@);
            out.append("(");
            push_slots(out, ts.len(), "");
            out.append(")");
            out.append(" => Self::");
            out.append(v.ident.as_str());
            out.append("(");
            push_slots(out, ts.len(), ".into()");
            out.append(")");
            assert(""@ =~= Seq::<char>::empty()) by {
                reveal_strlit("");
            }
            assert(out@ == head + "("@ + plain + ")"@ + " => Self::"@ + v.ident@ + "("@ + conv + ")"@);
            assert(head + "("@ + plain + ")"@ + " => Self::"@ + v.ident@ =~= head + "("@ + plain + ")"@ + ctor);
            assert(out@ =~= start + arm_text(src@, *v));
        },
        Fields::Named(fs) => {
            let ghost plain = bindings_text(fs@, false);
            let ghost conv = bindings_text(fs@, true);
            out.append(" { ");
            push_bindings(out, fs, false);
            out.append(" } => Self::");
            out.append(v.ident.as_str());
            out.append(" { ");
            push_bindings(out, fs, true);
            out.append(" }");
            assert(out@ == head + " { "@ + plain + " } => Self::"@ + v.ident@ + " { "@ + conv + " }"@);
            assert(" } => Self::"@ =~= " }"@ + " => Self::"@) by {
                reveal_strlit(" } => Self::");
                reveal_strlit(" }");
                reveal_strlit(" => Self::");
            }
            assert(head + " { "@ + plain + " } => Self::"@ + v.ident@ =~= head + " { "@ + plain + " }"@ + ctor);
            assert(out@ =~= start + arm_text(src@, *v));
        },
    }
}

/// Appends the match arms for all variants.
fn push_arms(out: &mut String, src: &String, vs: &Vec<Variant>)
    ensures
        final(out)@ == old(out)@ + arms_text(src@, vs@),
{
    let ghost start = out@;
    let mut i: usize = 0;
    while i < vs.len()
        invariant
            i <= vs@.len(),
            out@ == start + arms_text(src@, vs@.subrange(0, i as int)),
        decreases vs@.len() - i,
    {
        push_arm(out, src, &vs[i]);
        out.append(", ");
        proof {
            assert(vs@.subrange(0, i + 1).drop_last() =~= vs@.subrange(0, i as int));
            assert(out@ =~= start + arms_text(src@, vs@.subrange(0, i + 1)));
        }
        i = i + 1;
    }
    assert(vs@.subrange(0, vs@.len() as int) =~= vs@);
}

/// Appends the body of the conversion from `source`.
fn push_body(out: &mut String, d: &DeriveInput, source: &TypeRef)
    ensures
        final(out)@ == old(out)@ + body_text(*d, *source),
{
    let ghost start = out@;
    match &d.data {
        Data::Struct(Fields::Named(fs)) => {
            out.append("Self { ");
            push_fields(out, fs);
            out.append("}");
        },
        Data::Enum(vs) => {
            let src = strip_generics(source);
            out.append("match value { ");
            push_arms(out, &src, vs);
            out.append("}");
        },
        _ => {},
    }
    assert(out@ =~= start + body_text(*d, *source));
}

/// Appends the `impl From<source> for Target` block.
fn push_impl(out: &mut String, d: &DeriveInput, source: &TypeRef)
    ensures
        final(out)@ == old(out)@ + impl_text(*d, *source),
{
    let ghost start = out@;
    out.append("impl");
    out.append(d.generics.impl_params.as_str());
    out.append(" From<");
    out.append(source.text.as_str());
    out.append("> for ");
    out.append(d.ident.as_str());
    out.append(d.generics.type_params.as_str());
    out.append(" ");
    out.append(d.generics.where_clause.as_str());
    out.append(" { fn from(value: ");
    out.append(source.text.as_str());
    out.append(") -> Self { ");
    push_body(out, d, source);
    out.append(" } }");
    assert(out@ =~= start + impl_text(*d, *source));
}

/// Whether `a` is a `#[from(Type)]` annotation.
fn attr_is_source(a: &Attribute) -> (r: bool)
    ensures
        r == is_source(*a),
{
    let from = String::from_str("from");
    a.path == from && a.arg.is_some()
}

/// Whether some attribute among `attrs` is a `#[from(Type)]` annotation.
pub fn has_from_attribute(attrs: &Vec<Attribute>) -> (r: bool)
    ensures
        r == has_source(attrs@),
{
    let mut i: usize = 0;
    while i < attrs.len()
        invariant
            i <= attrs@.len(),
            forall|j: int| 0 <= j < i ==> !is_source(#[trigger] attrs@[j]),
        decreases attrs@.len() - i,
    {
        if attr_is_source(&attrs[i]) {
            return true;
        }
        i = i + 1;
    }
    false
}

/// Generates, for each `#[from(Type)]` annotation of `input` in order, the
/// text of an `impl From<Type>` block for the declared type.
///
/// Fails with `MissingSource` where no annotation names a type, and
/// otherwise with `Union` for a union and `UnnamedFields` for a struct whose
/// fields are not named.
pub fn from_dto_derive(input: &DeriveInput) -> (r: Result<String, DeriveError>)
    ensures
        !has_source(input.attrs@) ==> r == Err::<String, DeriveError>(DeriveError::MissingSource),
        has_source(input.attrs@) && !supported_shape(input.data) ==> r == Err::<String, DeriveError>(
            shape_error(input.data),
        ),
        has_source(input.attrs@) && supported_shape(input.data) ==> r is Ok && r->Ok_0@
            == impls_text(*input, input.attrs@),
{
    if !has_from_attribute(&input.attrs) {
        return Err(DeriveError::MissingSource);
    }
    match &input.data {
        Data::Union => {
            return Err(DeriveError::Union);
        },
        Data::Struct(Fields::Unnamed(_)) | Data::Struct(Fields::Unit) => {
            return Err(DeriveError::UnnamedFields);
        },
        _ => {},
    }
    let attrs = &input.attrs;
    let mut out = String::new();
    let mut i: usize = 0;
    while i < attrs.len()
        invariant
            attrs == input.attrs,
            i <= attrs@.len(),
            out@ == impls_text(*input, attrs@.subrange(0, i as int)),
        decreases attrs@.len() - i,
    {
        let ghost before = out@;
        if attr_is_source(&attrs[i]) {
            match &attrs[i].arg {
                Some(source) => push_impl(&mut out, input, source),
                None => {},
            }
        }
        proof {
            assert(attrs@.subrange(0, i + 1).drop_last() =~= attrs@.subrange(0, i as int));
            assert(attrs@.subrange(0, i + 1).last() == attrs@[i as int]);
            if !is_source(attrs@[i as int]) {
                assert(out@ =~= before + Seq::<char>::empty());
            }
        }
        i = i + 1;
    }
    assert(attrs@.subrange(0, attrs@.len() as int) =~= attrs@);
    Ok(out)
}

/// Every generated block carries the declaration's generic parameters,
/// their bounds and its `where` clause as they were declared, whatever the
/// source type is.
pub proof fn generics_pass_through(d: DeriveInput, source: TypeRef)
    ensures
        exists|rest: Seq<char>|
            impl_text(d, source) == "impl"@ + d.generics.impl_params@ + " From<"@ + source.text@
                + "> for "@ + d.ident@ + d.generics.type_params@ + " "@ + d.generics.where_clause@
                + rest,
{
    let rest = " { fn from(value: "@ + source.text@ + ") -> Self { "@ + body_text(d, source)
        + " } }"@;
    assert(impl_text(d, source) =~= "impl"@ + d.generics.impl_params@ + " From<"@ + source.text@
        + "> for "@ + d.ident@ + d.generics.type_params@ + " "@ + d.generics.where_clause@ + rest);
}

/// The generated text is one `impl` block per source type, in the order of
/// the annotations, and there is a source type exactly where some
/// annotation names one.
pub proof fn one_block_per_source(d: DeriveInput, attrs: Seq<Attribute>)
    ensures
        impls_text(d, attrs) == blocks_text(d, sources(attrs)),
        sources(attrs).len() > 0 <==> has_source(attrs),
    decreases attrs.len(),
{
    if attrs.len() > 0 {
        let prev = attrs.drop_last();
        one_block_per_source(d, prev);
        if is_source(attrs.last()) {
            let t = attrs.last().arg->Some_0;
            assert((sources(prev) + seq![t]).drop_last() =~= sources(prev));
            assert(has_source(attrs)) by {
                assert(is_source(attrs[attrs.len() - 1]));
            }
        } else {
            assert(sources(prev) + Seq::<TypeRef>::empty() =~= sources(prev));
            assert(impls_text(d, prev) + Seq::<char>::empty() =~= impls_text(d, prev));
            if has_source(attrs) {
                let i = choose|i: int| 0 <= i < attrs.len() && is_source(#[trigger] attrs[i]);
                assert(prev[i] == attrs[i]);
            }
        }
        if has_source(prev) {
            let i = choose|i: int| 0 <= i < prev.len() && is_source(#[trigger] prev[i]);
            assert(attrs[i] == prev[i]);
        }
    }
}

/// Each annotation yields its own `impl` block, whatever the others are:
/// the text for the annotations `first` followed by `rest` is the text for
/// `first` followed by the text for `rest`.
pub proof fn sources_are_independent(d: DeriveInput, first: Seq<Attribute>, rest: Seq<Attribute>)
    ensures
        impls_text(d, first + rest) == impls_text(d, first) + impls_text(d, rest),
    decreases rest.len(),
{
    if rest.len() == 0 {
        assert(first + rest =~= first);
        assert(impls_text(d, first) + impls_text(d, rest) =~= impls_text(d, first));
    } else {
        sources_are_independent(d, first, rest.drop_last());
        assert((first + rest).drop_last() =~= first + rest.drop_last());
        assert((first + rest).last() == rest.last());
        let tail = if is_source(rest.last()) {
            impl_text(d, rest.last().arg->Some_0)
        } else {
            Seq::empty()
        };
        assert(impls_text(d, first) + impls_text(d, rest.drop_last()) + tail
            =~= impls_text(d, first) + (impls_text(d, rest.drop_last()) + tail));
    }
}

} // verus!
