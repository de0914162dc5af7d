use solores::error::CodegenError;
use solores::idl::{Metadata, ShankIdl};
use solores::instructions::check_program;
use solores::instructions::{
    check_discriminants, keys_to_metas, positional_to_keys, unique_by_report_dups,
    verify_account_keys, AccountMeta, Discriminant, IxAccount, NamedInstruction, Pubkey,
};
use solores::text::{decimal_text, one_line_text, text_eq};
use solores::typedefs::{
    primitive_kind_of, primitive_or_pubkey_to_token, EnumVariant, NamedType, PrimitiveKind,
    TypedefEnum, TypedefField, TypedefFieldArray, TypedefFieldType, TypedefStruct, TypedefType,
};

fn acc(name: &str, is_mut: bool, is_signer: bool) -> IxAccount {
    IxAccount { name: name.to_string(), is_mut, is_signer, desc: None }
}

fn prim(name: &str) -> TypedefFieldType {
    TypedefFieldType::PrimitiveOrPubkey(name.to_string())
}

fn field(name: &str, ty: TypedefFieldType) -> TypedefField {
    TypedefField { name: name.to_string(), ty }
}

fn struct_def(name: &str, fields: Vec<TypedefField>) -> NamedType {
    NamedType { name: name.to_string(), ty: TypedefType::Struct(TypedefStruct { fields }) }
}

fn enum_def(name: &str, variants: &[&str]) -> NamedType {
    NamedType {
        name: name.to_string(),
        ty: TypedefType::Enum(TypedefEnum {
            variants: variants.iter().map(|v| EnumVariant { name: v.to_string() }).collect(),
        }),
    }
}

fn ix(name: &str, accounts: Vec<IxAccount>, args: Vec<TypedefField>, discm: Option<Vec<u8>>) -> NamedInstruction {
    NamedInstruction {
        name: name.to_string(),
        accounts,
        args,
        discriminant: discm.map(|value| Discriminant { ty: "u8".to_string(), value }),
    }
}

fn key(b: u8) -> Pubkey {
    Pubkey([b; 32])
}

fn nested_foo() -> TypedefFieldType {
    TypedefFieldType::vec(Box::new(TypedefFieldType::option(Box::new(TypedefFieldType::array(
        TypedefFieldArray(Box::new(TypedefFieldType::defined("Foo".to_string())), 3),
    )))))
}

#[test]
fn nested_type_resolves_when_declared() {
    let types = vec![struct_def("Foo", vec![field("x", prim("u8"))])];
    let r = nested_foo().resolve("Holder", &types);
    assert_eq!(r, Ok("Vec<Option<[Foo; 3]>>".to_string()));
}

#[test]
fn nested_type_fails_when_undeclared() {
    let types = vec![struct_def("Bar", vec![])];
    let r = nested_foo().resolve("Holder", &types);
    assert_eq!(
        r,
        Err(CodegenError::UnresolvedReference { referrer: "Holder".to_string(), name: "Foo".to_string() })
    );
}

#[test]
fn unknown_primitive_is_rejected() {
    let r = prim("u256").resolve("Holder", &vec![]);
    assert_eq!(
        r,
        Err(CodegenError::UnknownPrimitive { referrer: "Holder".to_string(), name: "u256".to_string() })
    );
}

#[test]
fn defined_names_are_pascal_cased() {
    let types = vec![enum_def("fee_kind", &["flat"])];
    let r = TypedefFieldType::defined("fee_kind".to_string()).resolve("Holder", &types);
    assert_eq!(r, Ok("FeeKind".to_string()));
}

#[test]
fn primitive_names_map_to_target_types() {
    assert_eq!(primitive_or_pubkey_to_token("publicKey"), "Pubkey");
    assert_eq!(primitive_or_pubkey_to_token("string"), "String");
    assert_eq!(primitive_or_pubkey_to_token("u64"), "u64");
    assert_eq!(primitive_kind_of("i16"), Some(PrimitiveKind::Signed(2)));
    assert_eq!(primitive_kind_of("u128"), Some(PrimitiveKind::Unsigned(16)));
    assert_eq!(primitive_kind_of("bytes"), None);
}

#[test]
fn bare_name_parses_as_primitive() {
    let t: TypedefFieldType = "u32".parse().unwrap();
    assert!(matches!(t, TypedefFieldType::PrimitiveOrPubkey(ref s) if s == "u32"));
    let b: Box<TypedefFieldType> = "bool".parse().unwrap();
    assert!(matches!(*b, TypedefFieldType::PrimitiveOrPubkey(ref s) if s == "bool"));
}

#[test]
fn duplicates_split_from_first_occurrences() {
    let accounts = vec![acc("a", true, true), acc("b", false, false), acc("a", true, true), acc("c", false, false), acc("b", false, false)];
    let split = unique_by_report_dups(&accounts);
    assert_eq!(split.unique, vec![0, 1, 3]);
    assert_eq!(split.duplicates, vec![2, 4]);
}

#[test]
fn no_accounts_no_duplicates() {
    let split = unique_by_report_dups(&vec![]);
    assert!(split.unique.is_empty());
    assert!(split.duplicates.is_empty());
}

#[test]
fn positional_list_repeats_duplicated_account() {
    let accounts = vec![acc("a", true, true), acc("b", false, false), acc("a", true, true)];
    let split = unique_by_report_dups(&accounts);
    assert_eq!(split.unique.len(), 2);
    let metas = keys_to_metas(&accounts, &vec![key(1), key(2)]);
    assert_eq!(
        metas,
        vec![
            AccountMeta { pubkey: key(1), is_signer: true, is_writable: true },
            AccountMeta { pubkey: key(2), is_signer: false, is_writable: false },
            AccountMeta { pubkey: key(1), is_signer: true, is_writable: true },
        ]
    );
}

#[test]
fn positional_addresses_to_keys_take_first_occurrence() {
    let accounts = vec![acc("a", true, true), acc("b", false, false), acc("a", true, true)];
    let keys = positional_to_keys(&accounts, &vec![key(7), key(8), key(9)]);
    assert_eq!(keys, vec![key(7), key(8)]);
}

#[test]
fn key_check_reports_first_mismatch() {
    let r = verify_account_keys(&vec![key(1), key(3)], &vec![key(1), key(2)]);
    assert_eq!(r, Err((key(3), key(2))));
    let r = verify_account_keys(&vec![key(4), key(3)], &vec![key(1), key(2)]);
    assert_eq!(r, Err((key(4), key(1))));
    assert_eq!(verify_account_keys(&vec![key(1), key(2)], &vec![key(1), key(2)]), Ok(()));
}

#[test]
fn same_address_compares_all_bytes() {
    let mut k = [5u8; 32];
    k[31] = 6;
    assert!(!key(5).same_as(&Pubkey(k)));
    assert!(key(5).same_as(&key(5)));
}

fn program(ixs: Vec<NamedInstruction>) -> Result<ShankIdl, CodegenError> {
    ShankIdl::new(
        "prog".to_string(),
        "0.1.0".to_string(),
        Metadata { address: "Prog1111111111111111111111111111111111111111".to_string() },
        vec![],
        vec![],
        ixs,
    )
}

#[test]
fn shared_discriminant_fails_program() {
    let r = program(vec![
        ix("alpha", vec![], vec![], Some(vec![1])),
        ix("beta", vec![], vec![], Some(vec![2])),
        ix("gamma", vec![], vec![], Some(vec![1])),
    ]);
    assert_eq!(
        r.err(),
        Some(CodegenError::DuplicateDiscriminant { first: "alpha".to_string(), second: "gamma".to_string() })
    );
}

#[test]
fn missing_discriminant_fails_program() {
    let r = check_discriminants(&vec![ix("alpha", vec![], vec![], Some(vec![1])), ix("beta", vec![], vec![], None)]);
    assert_eq!(r, Err(CodegenError::MissingDiscriminant { instruction: "beta".to_string() }));
}

#[test]
fn distinct_discriminants_build_program() {
    let idl = program(vec![
        ix("alpha", vec![], vec![], Some(vec![1, 0, 0, 0, 0, 0, 0, 0])),
        ix("beta", vec![], vec![], Some(vec![1, 0, 0, 0, 0, 0, 0, 1])),
    ])
    .unwrap();
    assert_eq!(idl.program_name(), "prog");
    assert_eq!(idl.program_version(), "0.1.0");
    assert_eq!(idl.instructions().len(), 2);
    assert!(idl.has_instructions());
    assert!(!idl.has_typedefs());
    assert!(!idl.has_accounts());
}

#[test]
fn text_helpers() {
    assert_eq!(decimal_text(0), "0");
    assert_eq!(decimal_text(1907), "1907");
    assert_eq!(decimal_text(u64::MAX), u64::MAX.to_string());
    assert!(text_eq("abc", "abc"));
    assert!(!text_eq("abc", "abd"));
    assert_eq!(one_line_text("first\nsecond\r\nthird"), "first second  third");
}

#[test]
fn discriminant_widths_must_be_uniform() {
    let r = program(vec![ix("alpha", vec![], vec![], Some(vec![1])), ix("beta", vec![], vec![], Some(vec![2; 8]))]);
    assert_eq!(r.err(), Some(CodegenError::DiscriminantWidth { instruction: "beta".to_string() }));
    let r = check_program(&vec![ix("alpha", vec![], vec![], Some(vec![1, 2, 3]))]);
    assert_eq!(r, Err(CodegenError::DiscriminantWidth { instruction: "alpha".to_string() }));
    let r = check_program(&vec![ix("alpha", vec![], vec![], Some(vec![1, 2])), ix("beta", vec![], vec![], Some(vec![1, 2]))]);
    assert_eq!(r, Err(CodegenError::DuplicateDiscriminant { first: "alpha".to_string(), second: "beta".to_string() }));
    assert_eq!(check_program(&vec![ix("alpha", vec![], vec![], Some(vec![1]))]), Ok(()));
}
