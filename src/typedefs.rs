#![allow(non_camel_case_types)]

//! Typedefs and type descriptors: the primitive table, type resolution and
//! typedef source.

use crate::error::{CodegenError, CodegenFault};
use crate::naming::{pascal_case, pascal_of, snake_case, snake_of};
use crate::text::{decimal, decimal_text, text_eq};
use vstd::prelude::*;

verus! {

/// A named typedef of the schema: a struct or a fieldless enum.
pub struct NamedType {
    pub name: String,
    pub ty: TypedefType,
}

pub enum TypedefType {
    Struct(TypedefStruct),
    Enum(TypedefEnum),
}

pub struct TypedefStruct {
    pub fields: Vec<TypedefField>,
}

/// A named, typed field; the order of fields is their wire order.
pub struct TypedefField {
    pub name: String,
    pub ty: TypedefFieldType,
}

/// A schema type descriptor.
pub enum TypedefFieldType {
    /// A scalar, `string` or `publicKey`.
    PrimitiveOrPubkey(String),
    /// A reference, by name, to a typedef of the same schema.
    defined(String),
    /// A fixed-size array.
    array(TypedefFieldArray),
    /// An optional value.
    option(Box<TypedefFieldType>),
    /// A length-prefixed sequence.
    vec(Box<TypedefFieldType>),
}

/// Element type and length of a fixed-size array.
pub struct TypedefFieldArray(pub Box<TypedefFieldType>, pub u32);

pub struct TypedefEnum {
    pub variants: Vec<EnumVariant>,
}

pub struct EnumVariant {
    pub name: String,
}

/// How a primitive is laid out on the wire.
#[derive(Clone, Copy, Debug, PartialEq, Eq, Structural)]
pub enum PrimitiveKind {
    Bool,
    /// An unsigned integer of the given number of bytes.
    Unsigned(u8),
    /// A two's complement integer of the given number of bytes.
    Signed(u8),
    /// A UTF-8 text, prefixed by its byte length.
    Text,
    /// A 32-byte address.
    Pubkey,
}

/// The primitive table: the primitive names a schema may use.
pub open spec fn primitive_kind(s: Seq<char>) -> Option<PrimitiveKind> {
    if s == "bool"@ {
        Some(PrimitiveKind::Bool)
    } else if s == "u8"@ {
        Some(PrimitiveKind::Unsigned(1))
    } else if s == "u16"@ {
        Some(PrimitiveKind::Unsigned(2))
    } else if s == "u32"@ {
        Some(PrimitiveKind::Unsigned(4))
    } else if s == "u64"@ {
        Some(PrimitiveKind::Unsigned(8))
    } else if s == "u128"@ {
        Some(PrimitiveKind::Unsigned(16))
    } else if s == "i8"@ {
        Some(PrimitiveKind::Signed(1))
    } else if s == "i16"@ {
        Some(PrimitiveKind::Signed(2))
    } else if s == "i32"@ {
        Some(PrimitiveKind::Signed(4))
    } else if s == "i64"@ {
        Some(PrimitiveKind::Signed(8))
    } else if s == "i128"@ {
        Some(PrimitiveKind::Signed(16))
    } else if s == "string"@ {
        Some(PrimitiveKind::Text)
    } else if s == "publicKey"@ {
        Some(PrimitiveKind::Pubkey)
    } else {
        None
    }
}

/// Looks a primitive name up in the primitive table.
pub fn primitive_kind_of(s: &str) -> (r: Option<PrimitiveKind>)
    ensures
        r == primitive_kind(s@),
{
    if text_eq(s, "bool") {
        Some(PrimitiveKind::Bool)
    } else if text_eq(s, "u8") {
        Some(PrimitiveKind::Unsigned(1))
    } else if text_eq(s, "u16") {
        Some(PrimitiveKind::Unsigned(2))
    } else if text_eq(s, "u32") {
        Some(PrimitiveKind::Unsigned(4))
    } else if text_eq(s, "u64") {
        Some(PrimitiveKind::Unsigned(8))
    } else if text_eq(s, "u128") {
        Some(PrimitiveKind::Unsigned(16))
    } else if text_eq(s, "i8") {
        Some(PrimitiveKind::Signed(1))
    } else if text_eq(s, "i16") {
        Some(PrimitiveKind::Signed(2))
    } else if text_eq(s, "i32") {
        Some(PrimitiveKind::Signed(4))
    } else if text_eq(s, "i64") {
        Some(PrimitiveKind::Signed(8))
    } else if text_eq(s, "i128") {
        Some(PrimitiveKind::Signed(16))
    } else if text_eq(s, "string") {
        Some(PrimitiveKind::Text)
    } else if text_eq(s, "publicKey") {
        Some(PrimitiveKind::Pubkey)
    } else {
        None
    }
}

/// The target-language name of a primitive: `publicKey` is `Pubkey`,
/// `string` is its Pascal-case form, any other name stands as it is.
pub open spec fn primitive_text(s: Seq<char>) -> Seq<char> {
    if s == "publicKey"@ {
        "Pubkey"@
    } else if s == "string"@ {
        pascal_of("string"@)
    } else {
        s
    }
}

pub fn primitive_or_pubkey_to_token(s: &str) -> (r: String)
    ensures
        r@ == primitive_text(s@),
{
    if text_eq(s, "publicKey") {
        String::from_str("Pubkey")
    } else if text_eq(s, "string") {
        pascal_case("string")
    } else {
        String::from_str(s)
    }
}

/// The names of the declared typedefs.
pub open spec fn typedef_names(types: Seq<NamedType>) -> Seq<Seq<char>> {
    types.map_values(|t: NamedType| t.name@)
}

/// Finds the first typedef named `name`.
pub fn find_typedef(types: &Vec<NamedType>, name: &str) -> (r: Option<usize>)
    ensures
        match r {
            Some(i) => i < types@.len() && types@[i as int].name@ == name@ && forall|j: int|
                0 <= j < i ==> types@[j].name@ != name@,
            None => forall|j: int| 0 <= j < types@.len() ==> types@[j].name@ != name@,
        },
        r is Some <==> typedef_names(types@).contains(name@),
{
    let mut i: usize = 0;
    while i < types.len()
        invariant
            i <= types@.len(),
            forall|j: int| 0 <= j < i ==> types@[j].name@ != name@,
        decreases types@.len() - i,
    {
        if text_eq(types[i].name.as_str(), name) {
            proof {
                assert(typedef_names(types@)[i as int] == name@);
            }
            return Some(i);
        }
        i = i + 1;
    }
    proof {
        if typedef_names(types@).contains(name@) {
            let k = choose|k: int| 0 <= k < typedef_names(types@).len() && typedef_names(types@)[k] == name@;
            assert(types@[k].name@ == name@);
        }
    }
    None
}

/// The type expression that a descriptor resolves to, against the names of
/// the declared typedefs; `referrer` names the item that holds the type.
pub open spec fn type_text(t: TypedefFieldType, referrer: Seq<char>, names: Seq<Seq<char>>) -> Result<Seq<char>, CodegenFault>
    decreases t,
{
    match t {
        TypedefFieldType::PrimitiveOrPubkey(s) => if primitive_kind(s@) is Some {
            Ok(primitive_text(s@))
        } else {
            Err(CodegenFault::UnknownPrimitive { referrer, name: s@ })
        },
        TypedefFieldType::defined(s) => if names.contains(s@) {
            Ok(typedef_ident(s@))
        } else {
            Err(CodegenFault::UnresolvedReference { referrer, name: s@ })
        },
        TypedefFieldType::array(a) => match type_text(*a.0, referrer, names) {
            Ok(inner) => Ok("["@ + inner + "; "@ + decimal(a.1 as nat) + "]"@),
            Err(e) => Err(e),
        },
        TypedefFieldType::option(o) => match type_text(*o, referrer, names) {
            Ok(inner) => Ok("Option<"@ + inner + ">"@),
            Err(e) => Err(e),
        },
        TypedefFieldType::vec(v) => match type_text(*v, referrer, names) {
            Ok(inner) => Ok("Vec<"@ + inner + ">"@),
            Err(e) => Err(e),
        },
    }
}

impl TypedefFieldType {
    /// Resolves this descriptor to a type expression.
    pub fn resolve(&self, referrer: &str, types: &Vec<NamedType>) -> (r: Result<String, CodegenError>)
        ensures
            crate::error::text_result(r) == type_text(*self, referrer@, typedef_names(types@)),
        decreases self,
    {
        match self {
            TypedefFieldType::PrimitiveOrPubkey(s) => {
                if primitive_kind_of(s.as_str()).is_some() {
                    Ok(primitive_or_pubkey_to_token(s.as_str()))
                } else {
                    Err(CodegenError::UnknownPrimitive {
                        referrer: String::from_str(referrer),
                        name: s.clone(),
                    })
                }
            },
            TypedefFieldType::defined(s) => {
                if find_typedef(types, s.as_str()).is_some() {
                    Ok(pascal_case(s.as_str()))
                } else {
                    Err(CodegenError::UnresolvedReference {
                        referrer: String::from_str(referrer),
                        name: s.clone(),
                    })
                }
            },
            TypedefFieldType::array(a) => {
                let inner = a.0.resolve(referrer, types)?;
                let r = String::from_str("[").concat(inner.as_str()).concat("; ").concat(
                    decimal_text(a.1 as u64).as_str(),
                ).concat("]");
                Ok(r)
            },
            TypedefFieldType::option(o) => {
                let inner = o.resolve(referrer, types)?;
                Ok(String::from_str("Option<").concat(inner.as_str()).concat(">"))
            },
            TypedefFieldType::vec(v) => {
                let inner = v.resolve(referrer, types)?;
                Ok(String::from_str("Vec<").concat(inner.as_str()).concat(">"))
            },
        }
    }
}


/// The source line of one field.
pub open spec fn field_line(f: TypedefField, referrer: Seq<char>, names: Seq<Seq<char>>) -> Result<Seq<char>, CodegenFault> {
    match type_text(f.ty, referrer, names) {
        Ok(t) => Ok("    pub "@ + snake_of(f.name@) + ": "@ + t + ",\n"@),
        Err(e) => Err(e),
    }
}

/// The source lines of a field list, in declared order; the first field that
/// does not resolve gives the error.
pub open spec fn fields_text(fields: Seq<TypedefField>, referrer: Seq<char>, names: Seq<Seq<char>>) -> Result<Seq<char>, CodegenFault>
    decreases fields.len(),
{
    if fields.len() == 0 {
        Ok(Seq::empty())
    } else {
        match fields_text(fields.drop_last(), referrer, names) {
            Ok(pre) => match field_line(fields.last(), referrer, names) {
                Ok(l) => Ok(pre + l),
                Err(e) => Err(e),
            },
            Err(e) => Err(e),
        }
    }
}

proof fn lemma_fields_error_sticks(fields: Seq<TypedefField>, referrer: Seq<char>, names: Seq<Seq<char>>, m: int)
    requires
        0 <= m <= fields.len(),
        fields_text(fields.take(m), referrer, names) is Err,
    ensures
        fields_text(fields, referrer, names) == fields_text(fields.take(m), referrer, names),
    decreases fields.len() - m,
{
    if m < fields.len() {
        let next = fields.take(m + 1);
        assert(next.drop_last() =~= fields.take(m));
        lemma_fields_error_sticks(fields, referrer, names, m + 1);
    } else {
        assert(fields.take(m) =~= fields);
    }
}

/// Writes the source lines of a field list.
pub fn fields_source(fields: &Vec<TypedefField>, referrer: &str, types: &Vec<NamedType>) -> (r: Result<String, CodegenError>)
    ensures
        crate::error::text_result(r) == fields_text(fields@, referrer@, typedef_names(types@)),
{
    let ghost names = typedef_names(types@);
    let mut out = String::new();
    let mut i: usize = 0;
    while i < fields.len()
        invariant
            i <= fields@.len(),
            names == typedef_names(types@),
            fields_text(fields@.take(i as int), referrer@, names) == Ok::<Seq<char>, CodegenFault>(out@),
        decreases fields@.len() - i,
    {
        proof {
            assert(fields@.take(i + 1).drop_last() =~= fields@.take(i as int));
            assert(fields@.take(i + 1).last() == fields@[i as int]);
        }
        let f = &fields[i];
        match f.ty.resolve(referrer, types) {
            Ok(t) => {
                let name = snake_case(f.name.as_str());
                let line = String::from_str("    pub ").concat(name.as_str()).concat(": ").concat(
                    t.as_str(),
                ).concat(",\n");
                out.append(line.as_str());
            },
            Err(e) => {
                proof {
                    lemma_fields_error_sticks(fields@, referrer@, names, i + 1);
                }
                return Err(e);
            },
        }
        i = i + 1;
    }
    proof {
        assert(fields@.take(i as int) =~= fields@);
    }
    Ok(out)
}

/// The source lines of a variant list, in declared order.
pub open spec fn variants_text(variants: Seq<EnumVariant>) -> Seq<char>
    decreases variants.len(),
{
    if variants.len() == 0 {
        Seq::empty()
    } else {
        variants_text(variants.drop_last()) + "    "@ + pascal_of(variants.last().name@) + ",\n"@
    }
}

/// The derive line every emitted typedef carries.
pub open spec fn typedef_derives() -> Seq<char> {
    "#[derive(Clone, Debug, BorshDeserialize, BorshSerialize)]\n"@
}

/// The identifier a typedef is declared under, and that every reference to
/// it resolves to.
pub open spec fn typedef_ident(name: Seq<char>) -> Seq<char> {
    pascal_of(name)
}

/// The source of a typedef: a struct with one field per declared field, or
/// an enum with one fieldless variant per declared variant, both in order.
pub open spec fn typedef_text(t: NamedType, names: Seq<Seq<char>>) -> Result<Seq<char>, CodegenFault> {
    match t.ty {
        TypedefType::Struct(st) => match fields_text(st.fields@, t.name@, names) {
            Ok(body) => Ok(typedef_derives() + "pub struct "@ + typedef_ident(t.name@) + " {\n"@ + body + "}\n"@),
            Err(e) => Err(e),
        },
        TypedefType::Enum(en) => Ok(
            typedef_derives() + "pub enum "@ + typedef_ident(t.name@) + " {\n"@ + variants_text(en.variants@) + "}\n"@,
        ),
    }
}

/// The start of a typedef's source, up to and including its identifier.
pub open spec fn typedef_head(t: NamedType) -> Seq<char> {
    typedef_derives() + (if t.ty is Struct {
        "pub struct "@
    } else {
        "pub enum "@
    }) + typedef_ident(t.name@)
}

/// A reference to a declared typedef resolves to the identifier that the
/// typedef's own source declares: a bare name, never an expansion.
pub proof fn lemma_reference_names_declaration(types: Seq<NamedType>, i: int, referrer: Seq<char>)
    requires
        0 <= i < types.len(),
    ensures
        type_text(TypedefFieldType::defined(types[i].name), referrer, typedef_names(types)) == Ok::<
            Seq<char>,
            CodegenFault,
        >(typedef_ident(types[i].name@)),
        typedef_text(types[i], typedef_names(types)) matches Ok(src) ==> src.take(
            typedef_head(types[i]).len() as int,
        ) == typedef_head(types[i]),
{
    assert(typedef_names(types)[i] == types[i].name@);
    match typedef_text(types[i], typedef_names(types)) {
        Ok(src) => {
            assert(src.take(typedef_head(types[i]).len() as int) =~= typedef_head(types[i]));
        },
        Err(_) => {},
    }
}

impl NamedType {
    /// Writes the source of this typedef.
    pub fn to_tokens(&self, types: &Vec<NamedType>) -> (r: Result<String, CodegenError>)
        ensures
            crate::error::text_result(r) == typedef_text(*self, typedef_names(types@)),
    {
        let mut out = String::from_str("#[derive(Clone, Debug, BorshDeserialize, BorshSerialize)]\n");
        let ident = pascal_case(self.name.as_str());
        match &self.ty {
            TypedefType::Struct(st) => {
                let body = fields_source(&st.fields, self.name.as_str(), types)?;
                out.append("pub struct ");
                out.append(ident.as_str());
                out.append(" {\n");
                out.append(body.as_str());
                out.append("}\n");
            },
            TypedefType::Enum(en) => {
                out.append("pub enum ");
                out.append(ident.as_str());
                out.append(" {\n");
                let mut i: usize = 0;
                while i < en.variants.len()
                    invariant
                        i <= en.variants@.len(),
                        out@ == typedef_derives() + "pub enum "@ + typedef_ident(self.name@) + " {\n"@ + variants_text(
                            en.variants@.take(i as int),
                        ),
                    decreases en.variants@.len() - i,
                {
                    proof {
                        assert(en.variants@.take(i + 1).drop_last() =~= en.variants@.take(i as int));
                    }
                    let v = pascal_case(en.variants[i].name.as_str());
                    let line = String::from_str("    ").concat(v.as_str()).concat(",\n");
                    proof {
                        assert(out@ + line@ =~= out@ + "    "@ + v@ + ",\n"@);
                    }
                    out.append(line.as_str());
                    i = i + 1;
                }
                proof {
                    assert(en.variants@.take(i as int) =~= en.variants@);
                }
                out.append("}\n");
            },
        }
        Ok(out)
    }
}


/// void's uninhabited `Void`, the error of a parse that cannot fail.
#[verifier::external_type_specification]
#[verifier::external_body]
pub struct ExVoid(void::Void);

/// The descriptor a bare type name stands for: a primitive of that name.
pub fn bare_type(s: &str) -> (r: TypedefFieldType)
    ensures
        r matches TypedefFieldType::PrimitiveOrPubkey(n) && n@ == s@,
{
    TypedefFieldType::PrimitiveOrPubkey(String::from_str(s))
}

/// A bare type name stands for a primitive.
impl core::str::FromStr for TypedefFieldType {
    type Err = void::Void;

    fn from_str(s: &str) -> Result<Self, Self::Err> {
        Ok(bare_type(s))
    }
}

impl core::str::FromStr for Box<TypedefFieldType> {
    type Err = void::Void;

    fn from_str(s: &str) -> Result<Self, Self::Err> {
        Ok(Box::new(bare_type(s)))
    }
}

} // verus!
