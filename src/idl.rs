//! A whole program description and the files generated from it.

use crate::error::{text_result, CodegenError, CodegenFault};
use crate::instruction_src::{instruction_text, program_ix_source, program_ix_text};
use crate::instructions::{
    all_declared, check_program, discm_of, discriminants_unique, lemma_program_fault, lemma_program_shared_rejected,
    program_fault, shared_by, some_shared, widths_uniform,
    NamedInstruction,
};
use crate::typedefs::{typedef_names, typedef_text, NamedType, TypedefField, TypedefFieldType, TypedefType};
use vstd::prelude::*;

verus! {

/// What the typedefs file needs to import.
#[derive(Clone, Copy, Debug, PartialEq, Eq, Structural)]
pub struct TypedefsHeaderFlags {
    pub has_pubkey: bool,
}

/// What the accounts file needs to import.
#[derive(Clone, Copy, Debug, PartialEq, Eq, Structural)]
pub struct AccountsHeaderFlags {
    pub has_pubkey: bool,
    pub has_defined: bool,
}

/// What the instructions file needs to import.
#[derive(Clone, Copy, Debug, PartialEq, Eq, Structural)]
pub struct InstructionsHeaderFlags {
    pub has_defined: bool,
}

/// A program description: its typedefs, account typedefs and instructions.
pub struct ShankIdl {
    pub name: String,
    pub version: String,
    pub metadata: Metadata,
    pub accounts: Vec<NamedType>,
    pub types: Vec<NamedType>,
    pub instructions: Vec<NamedInstruction>,
}

pub struct Metadata {
    /// The program's address.
    pub address: String,
}

/// Whether a type descriptor mentions `publicKey` (or, with `defined`, a
/// defined type) at any depth.
pub open spec fn type_mentions(t: TypedefFieldType, defined: bool) -> bool
    decreases t,
{
    match t {
        TypedefFieldType::PrimitiveOrPubkey(s) => !defined && s@ == "publicKey"@,
        TypedefFieldType::defined(_) => defined,
        TypedefFieldType::array(a) => type_mentions(*a.0, defined),
        TypedefFieldType::option(o) => type_mentions(*o, defined),
        TypedefFieldType::vec(v) => type_mentions(*v, defined),
    }
}

pub open spec fn fields_mention(fields: Seq<TypedefField>, defined: bool) -> bool {
    exists|j: int| 0 <= j < fields.len() && type_mentions(#[trigger] fields[j].ty, defined)
}

pub open spec fn typedef_mentions(t: NamedType, defined: bool) -> bool {
    match t.ty {
        TypedefType::Struct(st) => fields_mention(st.fields@, defined),
        TypedefType::Enum(_) => false,
    }
}

pub open spec fn typedefs_mention(types: Seq<NamedType>, defined: bool) -> bool {
    exists|i: int| 0 <= i < types.len() && typedef_mentions(#[trigger] types[i], defined)
}

pub open spec fn instructions_mention_defined(ixs: Seq<NamedInstruction>) -> bool {
    exists|i: int| 0 <= i < ixs.len() && fields_mention(#[trigger] ixs[i].args@, true)
}

fn type_mentions_exec(t: &TypedefFieldType, defined: bool) -> (r: bool)
    ensures
        r == type_mentions(*t, defined),
    decreases t,
{
    match t {
        TypedefFieldType::PrimitiveOrPubkey(s) => !defined && crate::text::text_eq(s.as_str(), "publicKey"),
        TypedefFieldType::defined(_) => defined,
        TypedefFieldType::array(a) => type_mentions_exec(&a.0, defined),
        TypedefFieldType::option(o) => type_mentions_exec(o, defined),
        TypedefFieldType::vec(v) => type_mentions_exec(v, defined),
    }
}

fn fields_mention_exec(fields: &Vec<TypedefField>, defined: bool) -> (r: bool)
    ensures
        r == fields_mention(fields@, defined),
{
    let mut j: usize = 0;
    while j < fields.len()
        invariant
            j <= fields@.len(),
            forall|q: int| 0 <= q < j ==> !type_mentions(#[trigger] fields@[q].ty, defined),
        decreases fields@.len() - j,
    {
        if type_mentions_exec(&fields[j].ty, defined) {
            return true;
        }
        j = j + 1;
    }
    false
}

fn typedefs_mention_exec(types: &Vec<NamedType>, defined: bool) -> (r: bool)
    ensures
        r == typedefs_mention(types@, defined),
{
    let mut i: usize = 0;
    while i < types.len()
        invariant
            i <= types@.len(),
            forall|q: int| 0 <= q < i ==> !typedef_mentions(#[trigger] types@[q], defined),
        decreases types@.len() - i,
    {
        let hit = match &types[i].ty {
            TypedefType::Struct(st) => fields_mention_exec(&st.fields, defined),
            TypedefType::Enum(_) => false,
        };
        if hit {
            return true;
        }
        i = i + 1;
    }
    false
}

/// The import lines every generated file starts with.
pub open spec fn borsh_import() -> Seq<char> {
    "use borsh::{BorshDeserialize, BorshSerialize};\n"@
}

pub open spec fn typedefs_header_text(f: TypedefsHeaderFlags) -> Seq<char> {
    if f.has_pubkey {
        borsh_import() + "use solana_program::pubkey::Pubkey;\n"@
    } else {
        borsh_import()
    }
}

pub open spec fn accounts_header_text(f: AccountsHeaderFlags) -> Seq<char> {
    let a = if f.has_pubkey {
        borsh_import() + "use solana_program::pubkey::Pubkey;\n"@
    } else {
        borsh_import()
    };
    if f.has_defined {
        a + "use crate::*;\n"@
    } else {
        a
    }
}

pub open spec fn instructions_imports() -> Seq<char> {
    "use borsh::{BorshDeserialize, BorshSerialize};\nuse solana_program::{\n    account_info::AccountInfo,\n    entrypoint::ProgramResult,\n    instruction::{AccountMeta, Instruction},\n    program::{invoke, invoke_signed},\n    pubkey::Pubkey,\n};\n"@
}

pub open spec fn instructions_header_text(f: InstructionsHeaderFlags) -> Seq<char> {
    if f.has_defined {
        instructions_imports() + "use crate::*;\n"@
    } else {
        instructions_imports()
    }
}

/// `Ok` of the concatenation of `f(0) .. f(n - 1)`, or the first error.
pub open spec fn fold_sources(n: nat, f: spec_fn(int) -> Result<Seq<char>, CodegenFault>) -> Result<Seq<char>, CodegenFault>
    decreases n,
{
    if n == 0 {
        Ok(Seq::empty())
    } else {
        match fold_sources((n - 1) as nat, f) {
            Ok(pre) => match f(n - 1) {
                Ok(x) => Ok(pre + x),
                Err(e) => Err(e),
            },
            Err(e) => Err(e),
        }
    }
}

proof fn lemma_fold_error_sticks(f: spec_fn(int) -> Result<Seq<char>, CodegenFault>, m: nat, n: nat)
    requires
        m <= n,
        fold_sources(m, f) is Err,
    ensures
        fold_sources(n, f) == fold_sources(m, f),
    decreases n - m,
{
    if m < n {
        lemma_fold_error_sticks(f, m, (n - 1) as nat);
    }
}

pub open spec fn typedef_sources(types: Seq<NamedType>, names: Seq<Seq<char>>) -> spec_fn(int) -> Result<Seq<char>, CodegenFault> {
    |i: int| typedef_text(types[i], names)
}

pub open spec fn instruction_sources(ixs: Seq<NamedInstruction>, names: Seq<Seq<char>>) -> spec_fn(int) -> Result<Seq<char>, CodegenFault> {
    |i: int| instruction_text(ixs[i], names)
}

/// The items of a file: `None` when there are none, else the source of each
/// item in order, or the first error.
pub open spec fn file_text(n: nat, f: spec_fn(int) -> Result<Seq<char>, CodegenFault>) -> Result<Option<Seq<char>>, CodegenFault> {
    if n == 0 {
        Ok(None)
    } else {
        match fold_sources(n, f) {
            Ok(body) => Ok(Some(body)),
            Err(e) => Err(e),
        }
    }
}

/// A whole module: `header` in front of the items, if there are any.
pub open spec fn with_header(header: Seq<char>, items: Result<Option<Seq<char>>, CodegenFault>) -> Result<Option<Seq<char>>, CodegenFault> {
    match items {
        Ok(Some(body)) => Ok(Some(header + body)),
        other => other,
    }
}

/// The typedef items of a program.
pub open spec fn typedefs_items(idl: ShankIdl) -> Result<Option<Seq<char>>, CodegenFault> {
    file_text(idl.types@.len(), typedef_sources(idl.types@, typedef_names(idl.types@)))
}

/// The account typedef items of a program.
pub open spec fn accounts_items_text(idl: ShankIdl) -> Result<Option<Seq<char>>, CodegenFault> {
    file_text(idl.accounts@.len(), typedef_sources(idl.accounts@, typedef_names(idl.types@)))
}

/// The instruction items of a program, once its discriminants pass the
/// program check.
pub open spec fn instructions_items(idl: ShankIdl) -> Result<Option<Seq<char>>, CodegenFault> {
    match program_fault(idl.instructions@) {
        Some(f) => Err(f),
        None => file_text(idl.instructions@.len(), instruction_sources(idl.instructions@, typedef_names(idl.types@))),
    }
}

pub open spec fn file_result(r: Result<Option<String>, CodegenError>) -> Result<Option<Seq<char>>, CodegenFault> {
    match r {
        Ok(Some(s)) => Ok(Some(s@)),
        Ok(None) => Ok(None),
        Err(e) => Err(e@),
    }
}

fn typedefs_source(list: &Vec<NamedType>, types: &Vec<NamedType>) -> (r: Result<Option<String>, CodegenError>)
    ensures
        file_result(r) == file_text(list@.len(), typedef_sources(list@, typedef_names(types@))),
{
    let ghost f = typedef_sources(list@, typedef_names(types@));
    if list.len() == 0 {
        return Ok(None);
    }
    let mut body = String::new();
    let mut i: usize = 0;
    while i < list.len()
        invariant
            i <= list@.len(),
            f == typedef_sources(list@, typedef_names(types@)),
            fold_sources(i as nat, f) == Ok::<Seq<char>, CodegenFault>(body@),
        decreases list@.len() - i,
    {
        match list[i].to_tokens(types) {
            Ok(s) => {
                body.append(s.as_str());
            },
            Err(e) => {
                proof {
                    lemma_fold_error_sticks(f, (i + 1) as nat, list@.len());
                }
                return Err(e);
            },
        }
        i = i + 1;
    }
    Ok(Some(body))
}

/// The `lib.rs` of the generated crate: the program id, then one module
/// per file that declares something.
pub open spec fn lib_text(idl: ShankIdl) -> Seq<char> {
    let a = "solana_program::declare_id!(\""@ + idl.metadata.address@ + "\");\n"@;
    let b = if idl.accounts@.len() > 0 {
        a + "pub mod accounts;\npub use accounts::*;\n"@
    } else {
        a
    };
    let c = if idl.instructions@.len() > 0 {
        b + "pub mod instructions;\npub use instructions::*;\n"@
    } else {
        b
    };
    if idl.types@.len() > 0 {
        c + "pub mod typedefs;\npub use typedefs::*;\n"@
    } else {
        c
    }
}

impl ShankIdl {
    /// Builds a program description; fails if an instruction has no
    /// discriminant, two instructions share one, or the widths are not all
    /// one byte or all eight bytes.
    pub fn new(
        name: String,
        version: String,
        metadata: Metadata,
        accounts: Vec<NamedType>,
        types: Vec<NamedType>,
        instructions: Vec<NamedInstruction>,
    ) -> (r: Result<ShankIdl, CodegenError>)
        ensures
            r is Ok <==> discriminants_unique(instructions@) && widths_uniform(instructions@),
            match r {
                Ok(idl) => idl.name@ == name@ && idl.version@ == version@ && idl.metadata.address@
                    == metadata.address@ && idl.accounts@ == accounts@ && idl.types@ == types@
                    && idl.instructions@ == instructions@,
                Err(e) => program_fault(instructions@) == Some(e@),
            },
            all_declared(instructions@) && some_shared(instructions@) ==> (r matches Err(
                CodegenError::DuplicateDiscriminant { first, second },
            ) && shared_by(instructions@, first@, second@)),
    {
        let checked = check_program(&instructions);
        proof {
            if all_declared(instructions@) && some_shared(instructions@) {
                lemma_program_shared_rejected(instructions@);
            }
        }
        match checked {
            Ok(()) => Ok(ShankIdl { name, version, metadata, accounts, types, instructions }),
            Err(e) => Err(e),
        }
    }

    pub fn program_name(&self) -> (r: &str)
        ensures
            r@ == self.name@,
    {
        self.name.as_str()
    }

    pub fn program_version(&self) -> (r: &str)
        ensures
            r@ == self.version@,
    {
        self.version.as_str()
    }

    pub fn program_address(&self) -> (r: &str)
        ensures
            r@ == self.metadata.address@,
    {
        self.metadata.address.as_str()
    }

    pub fn typedefs(&self) -> (r: &Vec<NamedType>)
        ensures
            r@ == self.types@,
    {
        &self.types
    }

    pub fn accounts(&self) -> (r: &Vec<NamedType>)
        ensures
            r@ == self.accounts@,
    {
        &self.accounts
    }

    pub fn instructions(&self) -> (r: &Vec<NamedInstruction>)
        ensures
            r@ == self.instructions@,
    {
        &self.instructions
    }

    pub fn has_typedefs(&self) -> (r: bool)
        ensures
            r == (self.types@.len() > 0),
    {
        self.types.len() > 0
    }

    pub fn has_accounts(&self) -> (r: bool)
        ensures
            r == (self.accounts@.len() > 0),
    {
        self.accounts.len() > 0
    }

    pub fn has_instructions(&self) -> (r: bool)
        ensures
            r == (self.instructions@.len() > 0),
    {
        self.instructions.len() > 0
    }

    pub fn det_typedefs_header_flags(&self) -> (r: TypedefsHeaderFlags)
        ensures
            r.has_pubkey == typedefs_mention(self.types@, false),
    {
        TypedefsHeaderFlags { has_pubkey: typedefs_mention_exec(&self.types, false) }
    }

    pub fn det_accounts_header_flags(&self) -> (r: AccountsHeaderFlags)
        ensures
            r.has_pubkey == typedefs_mention(self.accounts@, false),
            r.has_defined == typedefs_mention(self.accounts@, true),
    {
        AccountsHeaderFlags {
            has_pubkey: typedefs_mention_exec(&self.accounts, false),
            has_defined: typedefs_mention_exec(&self.accounts, true),
        }
    }

    pub fn det_instructions_header_flags(&self) -> (r: InstructionsHeaderFlags)
        ensures
            r.has_defined == instructions_mention_defined(self.instructions@),
    {
        let mut i: usize = 0;
        while i < self.instructions.len()
            invariant
                i <= self.instructions@.len(),
                forall|q: int| 0 <= q < i ==> !fields_mention(#[trigger] self.instructions@[q].args@, true),
            decreases self.instructions@.len() - i,
        {
            if fields_mention_exec(&self.instructions[i].args, true) {
                return InstructionsHeaderFlags { has_defined: true };
            }
            i = i + 1;
        }
        InstructionsHeaderFlags { has_defined: false }
    }

    pub fn typedefs_header(&self) -> (r: String)
        ensures
            r@ == typedefs_header_text(self.det_typedefs_header_flags_spec()),
    {
        let flags = self.det_typedefs_header_flags();
        let mut res = String::from_str("use borsh::{BorshDeserialize, BorshSerialize};\n");
        if flags.has_pubkey {
            res.append("use solana_program::pubkey::Pubkey;\n");
        }
        res
    }

    pub fn accounts_header(&self) -> (r: String)
        ensures
            r@ == accounts_header_text(self.det_accounts_header_flags_spec()),
    {
        let flags = self.det_accounts_header_flags();
        let mut res = String::from_str("use borsh::{BorshDeserialize, BorshSerialize};\n");
        if flags.has_pubkey {
            res.append("use solana_program::pubkey::Pubkey;\n");
        }
        if flags.has_defined {
            res.append("use crate::*;\n");
        }
        res
    }

    pub fn instructions_header(&self) -> (r: String)
        ensures
            r@ == instructions_header_text(self.det_instructions_header_flags_spec()),
    {
        let flags = self.det_instructions_header_flags();
        let mut res = String::from_str(
            "use borsh::{BorshDeserialize, BorshSerialize};\nuse solana_program::{\n    account_info::AccountInfo,\n    entrypoint::ProgramResult,\n    instruction::{AccountMeta, Instruction},\n    program::{invoke, invoke_signed},\n    pubkey::Pubkey,\n};\n",
        );
        if flags.has_defined {
            res.append("use crate::*;\n");
        }
        res
    }

    pub open spec fn det_typedefs_header_flags_spec(&self) -> TypedefsHeaderFlags {
        TypedefsHeaderFlags { has_pubkey: typedefs_mention(self.types@, false) }
    }

    pub open spec fn det_accounts_header_flags_spec(&self) -> AccountsHeaderFlags {
        AccountsHeaderFlags {
            has_pubkey: typedefs_mention(self.accounts@, false),
            has_defined: typedefs_mention(self.accounts@, true),
        }
    }

    pub open spec fn det_instructions_header_flags_spec(&self) -> InstructionsHeaderFlags {
        InstructionsHeaderFlags { has_defined: instructions_mention_defined(self.instructions@) }
    }

    /// The typedef items, in order: `None` if there are no typedefs.
    pub fn typedefs_file(&self) -> (r: Result<Option<String>, CodegenError>)
        ensures
            file_result(r) == typedefs_items(*self),
    {
        typedefs_source(&self.types, &self.types)
    }

    /// The account typedef items, in order: `None` if there are none.
    pub fn accounts_file(&self) -> (r: Result<Option<String>, CodegenError>)
        ensures
            file_result(r) == accounts_items_text(*self),
    {
        typedefs_source(&self.accounts, &self.types)
    }

    /// The items of each instruction, in order: `None` if there are no
    /// instructions. The program's discriminants are checked first: a missing
    /// or shared discriminant, or a width outside the dialects, is an error.
    pub fn instructions_file(&self) -> (r: Result<Option<String>, CodegenError>)
        ensures
            file_result(r) == instructions_items(*self),
            r is Ok ==> discriminants_unique(self.instructions@) && widths_uniform(self.instructions@),
            all_declared(self.instructions@) && some_shared(self.instructions@) ==> (r matches Err(
                CodegenError::DuplicateDiscriminant { first, second },
            ) && shared_by(self.instructions@, first@, second@)),
    {
        proof {
            lemma_program_fault(self.instructions@);
            if all_declared(self.instructions@) && some_shared(self.instructions@) {
                lemma_program_shared_rejected(self.instructions@);
            }
        }
        check_program(&self.instructions)?;
        proof {
            if some_shared(self.instructions@) {
                let (a, b) = choose|a: int, b: int|
                    0 <= a < b < self.instructions@.len() && discm_of(self.instructions@[a]) == discm_of(
                        self.instructions@[b],
                    );
                assert(discm_of(self.instructions@[a]) != discm_of(self.instructions@[b]));
            }
        }
        let ghost f = instruction_sources(self.instructions@, typedef_names(self.types@));
        if self.instructions.len() == 0 {
            return Ok(None);
        }
        let mut body = String::new();
        let mut i: usize = 0;
        while i < self.instructions.len()
            invariant
                i <= self.instructions@.len(),
                f == instruction_sources(self.instructions@, typedef_names(self.types@)),
                fold_sources(i as nat, f) == Ok::<Seq<char>, CodegenFault>(body@),
                program_fault(self.instructions@) is None,
                discriminants_unique(self.instructions@),
                widths_uniform(self.instructions@),
                !some_shared(self.instructions@),
            decreases self.instructions@.len() - i,
        {
            match self.instructions[i].to_tokens(&self.types) {
                Ok(s) => {
                    body.append(s.as_str());
                },
                Err(e) => {
                    proof {
                        lemma_fold_error_sticks(f, (i + 1) as nat, self.instructions@.len());
                    }
                    return Err(e);
                },
            }
            i = i + 1;
        }
        Ok(Some(body))
    }

    /// The typedefs module: the imports it needs, then the typedef items;
    /// `None` if there are no typedefs.
    pub fn typedefs_module(&self) -> (r: Result<Option<String>, CodegenError>)
        ensures
            file_result(r) == with_header(typedefs_header_text(self.det_typedefs_header_flags_spec()), typedefs_items(*self)),
    {
        match self.typedefs_file()? {
            Some(items) => Ok(Some(self.typedefs_header().concat(items.as_str()))),
            None => Ok(None),
        }
    }

    /// The accounts module: the imports it needs, then the account typedef
    /// items; `None` if there are none.
    pub fn accounts_module(&self) -> (r: Result<Option<String>, CodegenError>)
        ensures
            file_result(r) == with_header(accounts_header_text(self.det_accounts_header_flags_spec()), accounts_items_text(*self)),
    {
        match self.accounts_file()? {
            Some(items) => Ok(Some(self.accounts_header().concat(items.as_str()))),
            None => Ok(None),
        }
    }

    /// The instructions module: the imports it needs, the program-wide
    /// dispatch enum, then the instruction items; `None` if there are no
    /// instructions.
    pub fn instructions_module(&self) -> (r: Result<Option<String>, CodegenError>)
        ensures
            file_result(r) == with_header(
                instructions_header_text(self.det_instructions_header_flags_spec()) + program_ix_text(
                    self.name@,
                    self.instructions@,
                ),
                instructions_items(*self),
            ),
    {
        match self.instructions_file()? {
            Some(items) => {
                let header = self.instructions_header().concat(
                    program_ix_source(self.name.as_str(), &self.instructions).as_str(),
                );
                Ok(Some(header.concat(items.as_str())))
            },
            None => Ok(None),
        }
    }

    /// The source of the generated crate's `lib.rs`.
    pub fn lib_source(&self) -> (r: String)
        ensures
            r@ == lib_text(*self),
    {
        let mut contents = String::from_str("solana_program::declare_id!(\"").concat(
            self.metadata.address.as_str(),
        ).concat("\");\n");
        if self.has_accounts() {
            contents.append("pub mod accounts;\npub use accounts::*;\n");
        }
        if self.has_instructions() {
            contents.append("pub mod instructions;\npub use instructions::*;\n");
        }
        if self.has_typedefs() {
            contents.append("pub mod typedefs;\npub use typedefs::*;\n");
        }
        contents
    }
}

/// The files a program description generates: the items of each, and
/// whether there are any.
pub trait IdlCodegen {
    fn typedefs_file(&self) -> Result<Option<String>, CodegenError>;

    fn accounts_file(&self) -> Result<Option<String>, CodegenError>;

    fn instructions_file(&self) -> Result<Option<String>, CodegenError>;

    fn has_typedefs(&self) -> bool;

    fn has_accounts(&self) -> bool;

    fn has_instructions(&self) -> bool;
}

/// A program description format: its identity, and the imports each
/// generated file needs.
pub trait IdlFormat: IdlCodegen {
    fn program_name(&self) -> &str;

    fn program_version(&self) -> &str;

    fn program_address(&self) -> &str;

    fn det_typedefs_header_flags(&self) -> TypedefsHeaderFlags;

    fn det_accounts_header_flags(&self) -> AccountsHeaderFlags;

    fn det_instructions_header_flags(&self) -> InstructionsHeaderFlags;

    fn typedefs_header(&self) -> String;

    fn accounts_header(&self) -> String;

    fn instructions_header(&self) -> String;
}

impl IdlCodegen for ShankIdl {
    fn typedefs_file(&self) -> Result<Option<String>, CodegenError> {
        ShankIdl::typedefs_file(self)
    }

    fn accounts_file(&self) -> Result<Option<String>, CodegenError> {
        ShankIdl::accounts_file(self)
    }

    fn instructions_file(&self) -> Result<Option<String>, CodegenError> {
        ShankIdl::instructions_file(self)
    }

    fn has_typedefs(&self) -> bool {
        ShankIdl::has_typedefs(self)
    }

    fn has_accounts(&self) -> bool {
        ShankIdl::has_accounts(self)
    }

    fn has_instructions(&self) -> bool {
        ShankIdl::has_instructions(self)
    }
}

impl IdlFormat for ShankIdl {
    fn program_name(&self) -> &str {
        ShankIdl::program_name(self)
    }

    fn program_version(&self) -> &str {
        ShankIdl::program_version(self)
    }

    fn program_address(&self) -> &str {
        ShankIdl::program_address(self)
    }

    fn det_typedefs_header_flags(&self) -> TypedefsHeaderFlags {
        ShankIdl::det_typedefs_header_flags(self)
    }

    fn det_accounts_header_flags(&self) -> AccountsHeaderFlags {
        ShankIdl::det_accounts_header_flags(self)
    }

    fn det_instructions_header_flags(&self) -> InstructionsHeaderFlags {
        ShankIdl::det_instructions_header_flags(self)
    }

    fn typedefs_header(&self) -> String {
        ShankIdl::typedefs_header(self)
    }

    fn accounts_header(&self) -> String {
        ShankIdl::accounts_header(self)
    }

    fn instructions_header(&self) -> String {
        ShankIdl::instructions_header(self)
    }
}

} // verus!
