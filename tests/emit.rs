use solores::error::CodegenError;
use solores::idl::{IdlCodegen, IdlFormat, Metadata, ShankIdl};
use solores::instruction_src::program_ix_source;
use solores::instructions::{Discriminant, IxAccount, NamedInstruction};
use solores::typedefs::{
    EnumVariant, NamedType, TypedefEnum, TypedefField, TypedefFieldType, TypedefStruct, TypedefType,
};

fn prim(name: &str) -> TypedefFieldType {
    TypedefFieldType::PrimitiveOrPubkey(name.to_string())
}

fn field(name: &str, ty: TypedefFieldType) -> TypedefField {
    TypedefField { name: name.to_string(), ty }
}

fn acc(name: &str, is_mut: bool, is_signer: bool, desc: Option<&str>) -> IxAccount {
    IxAccount { name: name.to_string(), is_mut, is_signer, desc: desc.map(|d| d.to_string()) }
}

fn fee_kind() -> NamedType {
    NamedType {
        name: "fee_kind".to_string(),
        ty: TypedefType::Enum(TypedefEnum {
            variants: vec![EnumVariant { name: "flat".to_string() }, EnumVariant { name: "per_unit".to_string() }],
        }),
    }
}

fn fees() -> NamedType {
    NamedType {
        name: "Fees".to_string(),
        ty: TypedefType::Struct(TypedefStruct {
            fields: vec![
                field("feeBps", prim("u16")),
                field("owner", prim("publicKey")),
                field("kind", TypedefFieldType::defined("fee_kind".to_string())),
            ],
        }),
    }
}

fn swap() -> NamedInstruction {
    NamedInstruction {
        name: "initPool".to_string(),
        accounts: vec![
            acc("payer", true, true, Some("Pays\nrent")),
            acc("poolAccount", true, false, None),
            acc("payer", true, true, None),
        ],
        args: vec![field("amount", prim("u64")), field("fees", TypedefFieldType::defined("Fees".to_string()))],
        discriminant: Some(Discriminant { ty: "u8".to_string(), value: vec![4] }),
    }
}

#[test]
fn struct_typedef_source() {
    let types = vec![fees(), fee_kind()];
    let src = fees().to_tokens(&types).unwrap();
    assert_eq!(
        src,
        "#[derive(Clone, Debug, BorshDeserialize, BorshSerialize)]\npub struct Fees {\n    pub fee_bps: u16,\n    pub owner: Pubkey,\n    pub kind: FeeKind,\n}\n"
    );
}

#[test]
fn enum_typedef_source() {
    let src = fee_kind().to_tokens(&vec![]).unwrap();
    assert_eq!(
        src,
        "#[derive(Clone, Debug, BorshDeserialize, BorshSerialize)]\npub enum FeeKind {\n    Flat,\n    PerUnit,\n}\n"
    );
}

#[test]
fn struct_typedef_with_unresolved_field_fails() {
    assert!(fees().to_tokens(&vec![fees()]).is_err());
}

#[test]
fn instruction_names() {
    let ix = swap();
    assert_eq!(ix.ix_args_ident(), "InitPoolIxArgs");
    assert_eq!(ix.discm_ident(), "INIT_POOL_IX_DISCM");
    assert_eq!(ix.accounts[1].field_ident(), "pool_account");
    assert_eq!(ix.accounts[1].to_keys_account_meta_tokens(), "AccountMeta::new(keys.pool_account, false)");
    assert_eq!(acc("sysvar", false, true, None).to_keys_account_meta_tokens(), "AccountMeta::new_readonly(keys.sysvar, true)");
    assert_eq!(ix.accounts[1].to_verify_account_keys_tuple(), "(accounts.pool_account.key, &keys.pool_account)");
}

#[test]
fn instruction_source_items() {
    let types = vec![fees(), fee_kind()];
    let src = swap().to_tokens(&types).unwrap();
    let expect = [
        "pub const INIT_POOL_IX_ACCOUNTS_LEN: usize = 3;\n",
        "pub struct initPoolAccounts<'me, 'info> {\n    /// Pays rent\n    pub payer: &'me AccountInfo<'info>,\n    pub pool_account: &'me AccountInfo<'info>,\n}\n",
        "pub struct initPoolKeys {\n    /// Pays rent\n    pub payer: Pubkey,\n    pub pool_account: Pubkey,\n}\n",
        "            payer: *accounts.payer.key,\n            pool_account: *accounts.pool_account.key,\n        }",
        "        [\n            AccountMeta::new(keys.payer, true),\n            AccountMeta::new(keys.pool_account, false),\n            AccountMeta::new(keys.payer, true),\n        ]",
        "            payer: pubkeys[0],\n            pool_account: pubkeys[1],\n        }",
        "            accounts.payer.clone(),\n            accounts.pool_account.clone(),\n            accounts.payer.clone(),\n",
        "            payer: &arr[0],\n            pool_account: &arr[1],\n        }",
        "pub struct InitPoolIxArgs {\n    pub amount: u64,\n    pub fees: Fees,\n}\n",
        "pub struct initPoolIxData(pub InitPoolIxArgs);\n",
        "pub const INIT_POOL_IX_DISCM: u8 = 4;\n",
        "        writer.write_all(&[INIT_POOL_IX_DISCM])?;\n",
        "        let maybe_discm = <u8>::deserialize(buf)?;\n",
        "pub fn init_pool_ix<K: Into<initPoolKeys>, A: Into<InitPoolIxArgs>>(\n",
        "pub fn init_pool_invoke<'info, A: Into<InitPoolIxArgs>>(\n",
        "pub fn init_pool_invoke_signed<'info, A: Into<InitPoolIxArgs>>(\n",
    ];
    for piece in expect {
        assert!(src.contains(piece), "missing: {}", piece);
    }
    assert!(!src.contains("_verify_account_keys("));
}

#[test]
fn wide_discriminant_source() {
    let mut ix = swap();
    ix.discriminant = Some(Discriminant { ty: "[u8; 8]".to_string(), value: vec![1, 2, 3, 4, 5, 6, 7, 255] });
    let src = ix.to_tokens(&vec![fees(), fee_kind()]).unwrap();
    assert!(src.contains("pub const INIT_POOL_IX_DISCM: [u8; 8] = [1, 2, 3, 4, 5, 6, 7, 255];\n"));
    assert!(src.contains("        writer.write_all(&INIT_POOL_IX_DISCM)?;\n"));
    assert!(src.contains("        let maybe_discm = <[u8; 8]>::deserialize(buf)?;\n"));
    assert!(src.contains("pub fn init_pool_verify_account_keys(\n"));
    assert!(src.contains(
        "        (accounts.payer.key, &keys.payer),\n        (accounts.pool_account.key, &keys.pool_account),\n        (accounts.payer.key, &keys.payer),\n"
    ));
}

#[test]
fn instruction_without_discriminant_fails() {
    let mut ix = swap();
    ix.discriminant = None;
    assert!(ix.to_tokens(&vec![fees(), fee_kind()]).is_err());
}

#[test]
fn duplicate_account_warning() {
    assert_eq!(
        swap().duplicate_warning(),
        Some("Found duplicate accounts for instruction initPool: payer. Assuming different indexes in generated AccountInfo/Meta arrays refer to the same account".to_string())
    );
    let mut two = swap();
    two.accounts.push(acc("poolAccount", false, false, None));
    let w = two.duplicate_warning().unwrap();
    assert!(w.contains(": payer, poolAccount. "));
    let mut none = swap();
    none.accounts.pop();
    assert_eq!(none.duplicate_warning(), None);
}

fn idl() -> ShankIdl {
    ShankIdl::new(
        "pool".to_string(),
        "1.0.0".to_string(),
        Metadata { address: "Pool111111111111111111111111111111111111111".to_string() },
        vec![],
        vec![fees(), fee_kind()],
        vec![swap()],
    )
    .unwrap()
}

#[test]
fn headers_follow_flags() {
    let idl = idl();
    assert!(idl.det_typedefs_header_flags().has_pubkey);
    assert!(idl.det_instructions_header_flags().has_defined);
    assert!(!idl.det_accounts_header_flags().has_pubkey);
    assert_eq!(
        idl.typedefs_header(),
        "use borsh::{BorshDeserialize, BorshSerialize};\nuse solana_program::pubkey::Pubkey;\n"
    );
    assert_eq!(idl.accounts_header(), "use borsh::{BorshDeserialize, BorshSerialize};\n");
    assert!(idl.instructions_header().ends_with("};\nuse crate::*;\n"));
}

#[test]
fn files_and_lib() {
    let idl = idl();
    assert_eq!(idl.accounts_file(), Ok(None));
    assert_eq!(idl.accounts_module(), Ok(None));
    let typedefs = idl.typedefs_file().unwrap().unwrap();
    let types = vec![fees(), fee_kind()];
    assert_eq!(typedefs, fees().to_tokens(&types).unwrap() + &fee_kind().to_tokens(&types).unwrap());
    let module = idl.typedefs_module().unwrap().unwrap();
    assert_eq!(module, idl.typedefs_header() + &typedefs);
    assert!(module.starts_with("use borsh::{BorshDeserialize, BorshSerialize};\nuse solana_program::pubkey::Pubkey;\n#[derive("));
    let ixs = idl.instructions_file().unwrap().unwrap();
    assert_eq!(ixs, swap().to_tokens(&types).unwrap());
    assert_eq!(
        idl.lib_source(),
        "solana_program::declare_id!(\"Pool111111111111111111111111111111111111111\");\npub mod instructions;\npub use instructions::*;\npub mod typedefs;\npub use typedefs::*;\n"
    );
    assert_eq!(idl.program_address(), "Pool111111111111111111111111111111111111111");
}

#[test]
fn program_dispatch_enum_source() {
    let src = program_ix_source("unstake_program", &vec![swap()]);
    assert!(src.starts_with("#[derive(Clone, Debug, PartialEq)]\npub enum UnstakeProgramProgramIx {\n    InitPool(InitPoolIxArgs),\n}\n"));
    assert!(src.contains("            Self::InitPool(args) => {\n                INIT_POOL_IX_DISCM.serialize(writer)?;\n"));
    assert!(src.contains("        let maybe_discm = <u8>::deserialize(buf)?;\n"));
    assert!(src.contains("            INIT_POOL_IX_DISCM => Ok(Self::InitPool(InitPoolIxArgs::deserialize(buf)?)),\n"));
    let idl = idl();
    let module = idl.instructions_module().unwrap().unwrap();
    let expected = idl.instructions_header()
        + &program_ix_source("pool", idl.instructions())
        + &idl.instructions_file().unwrap().unwrap();
    assert_eq!(module, expected);
    assert!(module.contains("pub enum PoolProgramIx {"));
}

#[test]
fn reference_names_the_declared_typedef() {
    let types = vec![fee_kind()];
    let reference = TypedefFieldType::defined("fee_kind".to_string()).resolve("Holder", &types).unwrap();
    let declared = fee_kind().to_tokens(&types).unwrap();
    assert!(declared.contains(&format!("pub enum {} {{", reference)));
}

#[test]
fn emission_rejects_shared_discriminant_without_constructor() {
    let mut foo = swap();
    foo.name = "Foo".to_string();
    foo.discriminant = Some(Discriminant { ty: "u8".to_string(), value: vec![7] });
    let mut bar = swap();
    bar.name = "Bar".to_string();
    bar.discriminant = Some(Discriminant { ty: "u8".to_string(), value: vec![7] });
    let idl = ShankIdl {
        name: "pool".to_string(),
        version: "1.0.0".to_string(),
        metadata: Metadata { address: "Pool111111111111111111111111111111111111111".to_string() },
        accounts: vec![],
        types: vec![fees(), fee_kind()],
        instructions: vec![foo, bar],
    };
    let expected = Err(CodegenError::DuplicateDiscriminant { first: "Foo".to_string(), second: "Bar".to_string() });
    assert_eq!(idl.instructions_file(), expected);
    assert_eq!(idl.instructions_module(), expected);
}

#[test]
fn emission_rejects_mixed_widths() {
    let mut wide = swap();
    wide.name = "wide".to_string();
    wide.discriminant = Some(Discriminant { ty: "[u8; 8]".to_string(), value: vec![0; 8] });
    let idl = ShankIdl {
        name: "pool".to_string(),
        version: "1.0.0".to_string(),
        metadata: Metadata { address: "Pool111111111111111111111111111111111111111".to_string() },
        accounts: vec![],
        types: vec![fees(), fee_kind()],
        instructions: vec![swap(), wide],
    };
    assert_eq!(idl.instructions_file(), Err(CodegenError::DiscriminantWidth { instruction: "wide".to_string() }));
}

#[test]
fn trait_methods_agree_with_program() {
    let idl = idl();
    let codegen: &dyn IdlCodegen = &idl;
    assert_eq!(codegen.instructions_file(), idl.instructions_file());
    assert_eq!(codegen.typedefs_file(), idl.typedefs_file());
    assert!(codegen.has_typedefs() && codegen.has_instructions() && !codegen.has_accounts());
    let format: &dyn IdlFormat = &idl;
    assert_eq!(format.program_name(), "pool");
    assert_eq!(format.typedefs_header(), idl.typedefs_header());
    assert!(format.det_instructions_header_flags().has_defined);
}
