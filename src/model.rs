use vstd::prelude::*;

verus! {

/// The arguments written after one path segment.
pub enum GenericArgs {
    /// No arguments: `Vec`.
    Bare,
    /// Angle-bracketed arguments: `Vec<u8>`, `HashMap<K, V>`.
    Angle(Vec<GenericArg>),
    /// Parenthesized arguments, kept as printed: `Fn(u8) -> u8`.
    Parenthesized(String),
}

/// One angle-bracketed argument.
pub enum GenericArg {
    /// A type argument.
    Type(TypeRef),
    /// A lifetime, constant or binding, kept as printed.
    Other(String),
}

/// One segment of a type path: an identifier and its arguments.
pub struct Segment {
    pub ident: String,
    pub args: GenericArgs,
}

/// A path such as `std::vec::Vec<u8>`.
pub struct TypePath {
    /// Whether the path starts with `::`.
    pub leading_colon: bool,
    pub segments: Vec<Segment>,
}

/// A type as written in a declaration.
pub struct TypeRef {
    /// The type as printed, ready to be placed in generated code.
    pub text: String,
    /// Its path, where the type is a path type; `None` for references,
    /// tuples, arrays and the other forms.
    pub path: Option<TypePath>,
}

/// A named field of a record or of a variant.
pub struct Field {
    pub ident: String,
    pub ty: TypeRef,
}

/// The fields of a struct or of an enum variant.
pub enum Fields {
    /// `{ a: A, b: B }`
    Named(Vec<Field>),
    /// `(A, B)`
    Unnamed(Vec<TypeRef>),
    /// No fields.
    Unit,
}

/// One alternative of an enum.
pub struct Variant {
    pub ident: String,
    pub fields: Fields,
}

/// The shape of the declared item.
pub enum Data {
    Struct(Fields),
    Enum(Vec<Variant>),
    Union,
}

/// One outer attribute of the declaration.
pub struct Attribute {
    /// The attribute's path as printed, `from` for `#[from(...)]`.
    pub path: String,
    /// Its parenthesized argument read as a type, or `None` where it has no
    /// such argument or the argument is not a type.
    pub arg: Option<TypeRef>,
}

/// The generics of the declaration, printed in the three forms that an
/// `impl` block needs.
pub struct Generics {
    /// The parameter list with bounds, as after `impl`: `<T: Clone>`.
    pub impl_params: String,
    /// The parameter list without bounds, as after the type's name: `<T>`.
    pub type_params: String,
    /// The `where` clause, or the empty string.
    pub where_clause: String,
}

/// The declaration of the target type.
pub struct DeriveInput {
    pub attrs: Vec<Attribute>,
    pub ident: String,
    pub generics: Generics,
    pub data: Data,
}

} // verus!
