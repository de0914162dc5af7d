use solores::codec::{decode_ix_data, decode_program_ix, encode_ix_data, ArgValue, DecodeError};
use solores::instructions::{Discriminant, NamedInstruction, Pubkey};
use solores::typedefs::{
    EnumVariant, NamedType, TypedefEnum, TypedefField, TypedefFieldArray, TypedefFieldType,
    TypedefStruct, TypedefType,
};

fn prim(name: &str) -> TypedefFieldType {
    TypedefFieldType::PrimitiveOrPubkey(name.to_string())
}

fn field(name: &str, ty: TypedefFieldType) -> TypedefField {
    TypedefField { name: name.to_string(), ty }
}

fn defined(name: &str) -> TypedefFieldType {
    TypedefFieldType::defined(name.to_string())
}

fn ix(name: &str, args: Vec<TypedefField>, discm: Vec<u8>) -> NamedInstruction {
    NamedInstruction {
        name: name.to_string(),
        accounts: vec![],
        args,
        discriminant: Some(Discriminant { ty: "u8".to_string(), value: discm }),
    }
}

fn types() -> Vec<NamedType> {
    vec![
        NamedType {
            name: "Fees".to_string(),
            ty: TypedefType::Struct(TypedefStruct {
                fields: vec![field("a", prim("u8")), field("b", prim("u16"))],
            }),
        },
        NamedType {
            name: "Kind".to_string(),
            ty: TypedefType::Enum(TypedefEnum {
                variants: vec![EnumVariant { name: "one".to_string() }, EnumVariant { name: "two".to_string() }],
            }),
        },
    ]
}

fn deposit() -> NamedInstruction {
    ix(
        "deposit",
        vec![
            field("amount", prim("u64")),
            field("memo", prim("string")),
            field("limit", TypedefFieldType::option(Box::new(TypedefFieldType::vec(Box::new(prim("i16")))))),
            field("owner", prim("publicKey")),
            field("fees", defined("Fees")),
            field("kind", defined("Kind")),
            field("arr", TypedefFieldType::array(TypedefFieldArray(Box::new(prim("u8")), 3))),
            field("flag", prim("bool")),
            field("delta", prim("i64")),
        ],
        vec![242, 35, 198, 137, 82, 225, 242, 182],
    )
}

fn deposit_args() -> Vec<ArgValue> {
    vec![
        ArgValue::Unsigned(300),
        ArgValue::Text(b"hi".to_vec()),
        ArgValue::Optional(Some(Box::new(ArgValue::Vector(vec![ArgValue::Signed(-1), ArgValue::Signed(2)])))),
        ArgValue::Key(Pubkey([9u8; 32])),
        ArgValue::Struct(vec![ArgValue::Unsigned(5), ArgValue::Unsigned(513)]),
        ArgValue::Variant(1),
        ArgValue::Array(vec![ArgValue::Unsigned(1), ArgValue::Unsigned(2), ArgValue::Unsigned(3)]),
        ArgValue::Bool(true),
        ArgValue::Signed(-5),
    ]
}

#[test]
fn payload_matches_borsh_layout() {
    let bytes = encode_ix_data(&deposit(), &types(), &deposit_args()).unwrap();
    let mut expected = vec![242, 35, 198, 137, 82, 225, 242, 182];
    expected.extend(borsh::to_vec(&300u64).unwrap());
    expected.extend(borsh::to_vec(&"hi".to_string()).unwrap());
    expected.extend(borsh::to_vec(&Some(vec![-1i16, 2])).unwrap());
    expected.extend([9u8; 32]);
    expected.extend(borsh::to_vec(&(5u8, 513u16)).unwrap());
    expected.push(1);
    expected.extend(borsh::to_vec(&[1u8, 2, 3]).unwrap());
    expected.extend(borsh::to_vec(&true).unwrap());
    expected.extend(borsh::to_vec(&-5i64).unwrap());
    assert_eq!(bytes, expected);
}

#[test]
fn payload_round_trips() {
    let bytes = encode_ix_data(&deposit(), &types(), &deposit_args()).unwrap();
    assert_eq!(&bytes[..8], &[242, 35, 198, 137, 82, 225, 242, 182]);
    assert_eq!(decode_ix_data(&deposit(), &types(), &bytes), Ok(deposit_args()));
    let mut longer = bytes.clone();
    longer.extend([0xaa, 0xbb]);
    assert_eq!(decode_ix_data(&deposit(), &types(), &longer), Ok(deposit_args()));
}

#[test]
fn extreme_integers_round_trip() {
    let wide = ix(
        "wide",
        vec![
            field("a", prim("u128")),
            field("b", prim("i128")),
            field("c", prim("i128")),
            field("d", prim("i8")),
            field("e", prim("u32")),
        ],
        vec![3],
    );
    let args = vec![
        ArgValue::Unsigned(u128::MAX),
        ArgValue::Signed(i128::MIN),
        ArgValue::Signed(i128::MAX),
        ArgValue::Signed(-128),
        ArgValue::Unsigned(u32::MAX as u128),
    ];
    let bytes = encode_ix_data(&wide, &vec![], &args).unwrap();
    let mut expected = vec![3u8];
    expected.extend(borsh::to_vec(&u128::MAX).unwrap());
    expected.extend(borsh::to_vec(&i128::MIN).unwrap());
    expected.extend(borsh::to_vec(&i128::MAX).unwrap());
    expected.extend(borsh::to_vec(&-128i8).unwrap());
    expected.extend(borsh::to_vec(&u32::MAX).unwrap());
    assert_eq!(bytes, expected);
    assert_eq!(decode_ix_data(&wide, &vec![], &bytes), Ok(args));
}

#[test]
fn out_of_range_values_are_refused() {
    let one = ix("one", vec![field("a", prim("u8"))], vec![1]);
    assert_eq!(encode_ix_data(&one, &vec![], &vec![ArgValue::Unsigned(256)]), None);
    let signed = ix("signed", vec![field("a", prim("i8"))], vec![1]);
    assert_eq!(encode_ix_data(&signed, &vec![], &vec![ArgValue::Signed(128)]), None);
    assert_eq!(encode_ix_data(&signed, &vec![], &vec![ArgValue::Signed(-129)]), None);
    assert_eq!(encode_ix_data(&signed, &vec![], &vec![ArgValue::Unsigned(1)]), None);
    assert_eq!(encode_ix_data(&signed, &vec![], &vec![]), None);
    let arr = ix("arr", vec![field("a", TypedefFieldType::array(TypedefFieldArray(Box::new(prim("u8")), 2)))], vec![1]);
    assert_eq!(encode_ix_data(&arr, &vec![], &vec![ArgValue::Array(vec![ArgValue::Unsigned(1)])]), None);
    let kind = ix("kind", vec![field("k", defined("Kind"))], vec![1]);
    assert_eq!(encode_ix_data(&kind, &types(), &vec![ArgValue::Variant(2)]), None);
}

#[test]
fn wrong_discriminant_is_refused_before_arguments() {
    let one = ix("one", vec![field("a", prim("u16"))], vec![7]);
    let r = decode_ix_data(&one, &vec![], &vec![8, 1, 0]);
    assert_eq!(r, Err(DecodeError::DiscriminantMismatch { expected: vec![7], received: vec![8] }));
    let r = decode_ix_data(&deposit(), &types(), &vec![242, 35]);
    assert_eq!(
        r,
        Err(DecodeError::DiscriminantMismatch {
            expected: vec![242, 35, 198, 137, 82, 225, 242, 182],
            received: vec![242, 35],
        })
    );
}

#[test]
fn truncated_arguments_are_malformed() {
    let one = ix("one", vec![field("a", prim("u16"))], vec![7]);
    assert_eq!(decode_ix_data(&one, &vec![], &vec![7, 1]), Err(DecodeError::Malformed));
    let flag = ix("flag", vec![field("a", prim("bool"))], vec![7]);
    assert_eq!(decode_ix_data(&flag, &vec![], &vec![7, 2]), Err(DecodeError::Malformed));
}

#[test]
fn fields_are_written_in_declared_order() {
    let order = ix("order", vec![field("z", prim("u8")), field("a", prim("u16")), field("m", prim("u8"))], vec![0]);
    let args = vec![ArgValue::Unsigned(0x11), ArgValue::Unsigned(0x2233), ArgValue::Unsigned(0x44)];
    assert_eq!(encode_ix_data(&order, &vec![], &args), Some(vec![0, 0x11, 0x33, 0x22, 0x44]));
}

#[test]
fn dispatch_picks_instruction_by_discriminant() {
    let ixs = vec![
        ix("first", vec![field("a", prim("u8"))], vec![1]),
        ix("second", vec![field("a", prim("u16"))], vec![2]),
    ];
    let r = decode_program_ix(&ixs, &vec![], &vec![2, 0x34, 0x12]);
    assert_eq!(r, Ok((1, vec![ArgValue::Unsigned(0x1234)])));
    assert_eq!(decode_program_ix(&ixs, &vec![], &vec![9, 0]), Err(DecodeError::UnknownDiscriminant));
    assert_eq!(decode_program_ix(&ixs, &vec![], &vec![]), Err(DecodeError::UnknownDiscriminant));
}

#[test]
fn missing_discriminant_cannot_encode() {
    let mut bare = ix("bare", vec![], vec![]);
    bare.discriminant = None;
    assert_eq!(encode_ix_data(&bare, &vec![], &vec![]), None);
    assert_eq!(decode_ix_data(&bare, &vec![], &vec![1]), Err(DecodeError::MissingDiscriminant));
}
