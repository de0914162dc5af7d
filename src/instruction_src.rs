//! The source generated for each instruction, and the program-wide
//! dispatch enum.

use crate::error::{CodegenError, CodegenFault};
use crate::instructions::{
    account_names, discm_of, first_positions, lemma_first_positions, lemma_repeat_positions_bound,
    repeat_positions, unique_by_report_dups,
    IxAccount, NamedInstruction,
};
use crate::naming::{
    joined, pascal_case, pascal_of, shouty_snake_case, shouty_snake_of, snake_case, snake_of,
    texts, join_texts,
};
use crate::text::{decimal, decimal_text, one_line, one_line_text};
use crate::typedefs::{fields_source, fields_text, typedef_names, NamedType};
use vstd::prelude::*;

verus! {

/// `f(0) + f(1) + ... + f(n - 1)`.
pub open spec fn rows(n: nat, f: spec_fn(int) -> Seq<char>) -> Seq<char>
    decreases n,
{
    if n == 0 {
        Seq::empty()
    } else {
        rows((n - 1) as nat, f) + f(n - 1)
    }
}

/// The doc comment line of an account, if it has a description.
pub open spec fn doc_text(a: IxAccount) -> Seq<char> {
    match a.desc {
        Some(d) => "    /// "@ + one_line(d@) + "\n"@,
        None => Seq::empty(),
    }
}

/// The account-metadata expression of one position.
pub open spec fn meta_text(a: IxAccount) -> Seq<char> {
    "AccountMeta::"@ + (if a.is_mut {
        "new"@
    } else {
        "new_readonly"@
    }) + "(keys."@ + snake_of(a.name@) + ", "@ + (if a.is_signer {
        "true"@
    } else {
        "false"@
    }) + ")"@
}

/// The `(live, expected)` pair that the key check compares for one position.
pub open spec fn verify_tuple_text(a: IxAccount) -> Seq<char> {
    "(accounts."@ + snake_of(a.name@) + ".key, &keys."@ + snake_of(a.name@) + ")"@
}

impl IxAccount {
    /// The field name of this account in the generated structures.
    pub fn field_ident(&self) -> (r: String)
        ensures
            r@ == snake_of(self.name@),
    {
        snake_case(self.name.as_str())
    }

    /// The account-metadata expression for this account's position.
    pub fn to_keys_account_meta_tokens(&self) -> (r: String)
        ensures
            r@ == meta_text(*self),
    {
        let name = self.field_ident();
        let call = if self.is_mut {
            "new"
        } else {
            "new_readonly"
        };
        let signer = if self.is_signer {
            "true"
        } else {
            "false"
        };
        String::from_str("AccountMeta::").concat(call).concat("(keys.").concat(name.as_str()).concat(
            ", ",
        ).concat(signer).concat(")")
    }

    /// The pair the key check compares for this account's position.
    pub fn to_verify_account_keys_tuple(&self) -> (r: String)
        ensures
            r@ == verify_tuple_text(*self),
    {
        let name = self.field_ident();
        String::from_str("(accounts.").concat(name.as_str()).concat(".key, &keys.").concat(
            name.as_str(),
        ).concat(")")
    }

    fn doc_line(&self) -> (r: String)
        ensures
            r@ == doc_text(*self),
    {
        match &self.desc {
            Some(d) => String::from_str("    /// ").concat(one_line_text(d.as_str()).as_str()).concat(
                "\n",
            ),
            None => String::new(),
        }
    }
}

/// One line per distinct account, at slot `k` of the first occurrences:
/// kind 0 is a field of the accounts view, 1 a field of the keys, 2 a field
/// copied from the accounts view, 3 a field read from the address array, and
/// any other kind a field borrowed from the account-info array.
pub open spec fn unique_row(accounts: Seq<IxAccount>, kind: nat, k: int) -> Seq<char> {
    let p = first_positions(account_names(accounts), accounts.len())[k] as int;
    let a = accounts[p];
    let f = snake_of(a.name@);
    if kind == 0 {
        doc_text(a) + "    pub "@ + f + ": &'me AccountInfo<'info>,\n"@
    } else if kind == 1 {
        doc_text(a) + "    pub "@ + f + ": Pubkey,\n"@
    } else if kind == 2 {
        "            "@ + f + ": *accounts."@ + f + ".key,\n"@
    } else if kind == 3 {
        "            "@ + f + ": pubkeys["@ + decimal(p as nat) + "],\n"@
    } else {
        "            "@ + f + ": &arr["@ + decimal(p as nat) + "],\n"@
    }
}

pub open spec fn unique_rows(accounts: Seq<IxAccount>, kind: nat) -> spec_fn(int) -> Seq<char> {
    |k: int| unique_row(accounts, kind, k)
}

/// One line per declared position: kind 0 is its account-metadata entry, 1
/// its account-info clone, any other kind its key-check pair.
pub open spec fn positional_row(accounts: Seq<IxAccount>, kind: nat, p: int) -> Seq<char> {
    let a = accounts[p];
    if kind == 0 {
        "            "@ + meta_text(a) + ",\n"@
    } else if kind == 1 {
        "            accounts."@ + snake_of(a.name@) + ".clone(),\n"@
    } else {
        "        "@ + verify_tuple_text(a) + ",\n"@
    }
}

pub open spec fn positional_rows(accounts: Seq<IxAccount>, kind: nat) -> spec_fn(int) -> Seq<char> {
    |p: int| positional_row(accounts, kind, p)
}

fn unique_row_text(accounts: &Vec<IxAccount>, unique: &Vec<usize>, kind: u8, k: usize) -> (r: String)
    requires
        unique@ == first_positions(account_names(accounts@), accounts@.len()),
        k < unique@.len(),
        unique@[k as int] < accounts@.len(),
    ensures
        r@ == unique_row(accounts@, kind as nat, k as int),
{
    let p = unique[k];
    let a = &accounts[p];
    let f = a.field_ident();
    if kind == 0 {
        a.doc_line().concat("    pub ").concat(f.as_str()).concat(": &'me AccountInfo<'info>,\n")
    } else if kind == 1 {
        a.doc_line().concat("    pub ").concat(f.as_str()).concat(": Pubkey,\n")
    } else if kind == 2 {
        String::from_str("            ").concat(f.as_str()).concat(": *accounts.").concat(f.as_str()).concat(
            ".key,\n",
        )
    } else if kind == 3 {
        String::from_str("            ").concat(f.as_str()).concat(": pubkeys[").concat(
            decimal_text(p as u64).as_str(),
        ).concat("],\n")
    } else {
        String::from_str("            ").concat(f.as_str()).concat(": &arr[").concat(
            decimal_text(p as u64).as_str(),
        ).concat("],\n")
    }
}

#[verifier::spinoff_prover]
fn unique_rows_text(accounts: &Vec<IxAccount>, unique: &Vec<usize>, kind: u8) -> (r: String)
    requires
        unique@ == first_positions(account_names(accounts@), accounts@.len()),
    ensures
        r@ == rows(unique@.len(), unique_rows(accounts@, kind as nat)),
{
    let n: usize = accounts.len();
    proof {
        lemma_first_positions(account_names(accounts@), n as nat);
    }
    let mut out = String::new();
    let mut k: usize = 0;
    while k < unique.len()
        invariant
            k <= unique@.len(),
            unique@ == first_positions(account_names(accounts@), accounts@.len()),
            forall|j: int| 0 <= j < unique@.len() ==> unique@[j] < accounts@.len(),
            out@ == rows(k as nat, unique_rows(accounts@, kind as nat)),
        decreases unique@.len() - k,
    {
        let line = unique_row_text(accounts, unique, kind, k);
        out.append(line.as_str());
        k = k + 1;
    }
    out
}

fn positional_rows_text(accounts: &Vec<IxAccount>, kind: u8) -> (r: String)
    ensures
        r@ == rows(accounts@.len(), positional_rows(accounts@, kind as nat)),
{
    let mut out = String::new();
    let mut p: usize = 0;
    while p < accounts.len()
        invariant
            p <= accounts@.len(),
            out@ == rows(p as nat, positional_rows(accounts@, kind as nat)),
        decreases accounts@.len() - p,
    {
        let a = &accounts[p];
        let line = if kind == 0 {
            String::from_str("            ").concat(a.to_keys_account_meta_tokens().as_str()).concat(",\n")
        } else if kind == 1 {
            String::from_str("            accounts.").concat(a.field_ident().as_str()).concat(".clone(),\n")
        } else {
            String::from_str("        ").concat(a.to_verify_account_keys_tuple().as_str()).concat(",\n")
        };
        out.append(line.as_str());
        p = p + 1;
    }
    out
}

/// The constant holding the declared account count.
pub open spec fn len_const_text(l: Seq<char>, n: Seq<char>) -> Seq<char> {
    "pub const "@
        + l
        + ": usize = "@
        + n
        + ";\n"@
}

fn len_const_src(l: &str, n: &str) -> (r: String)
    ensures
        r@ == len_const_text(l@, n@),
{
    String::from_str("pub const ")
        .concat(l)
        .concat(": usize = ")
        .concat(n)
        .concat(";\n")
}

/// The accounts view: one borrowed account handle per distinct account.
pub open spec fn accounts_struct_text(acc: Seq<char>, body: Seq<char>) -> Seq<char> {
    "#[derive(Copy, Clone, Debug)]\npub struct "@
        + acc
        + "<'me, 'info> {\n"@
        + body
        + "}\n"@
}

fn accounts_struct_src(acc: &str, body: &str) -> (r: String)
    ensures
        r@ == accounts_struct_text(acc@, body@),
{
    String::from_str("#[derive(Copy, Clone, Debug)]\npub struct ")
        .concat(acc)
        .concat("<'me, 'info> {\n")
        .concat(body)
        .concat("}\n")
}

/// The keys: one address per distinct account.
pub open spec fn keys_struct_text(k: Seq<char>, body: Seq<char>) -> Seq<char> {
    "#[derive(Copy, Clone, Debug, PartialEq)]\npub struct "@
        + k
        + " {\n"@
        + body
        + "}\n"@
}

fn keys_struct_src(k: &str, body: &str) -> (r: String)
    ensures
        r@ == keys_struct_text(k@, body@),
{
    String::from_str("#[derive(Copy, Clone, Debug, PartialEq)]\npub struct ")
        .concat(k)
        .concat(" {\n")
        .concat(body)
        .concat("}\n")
}

/// The conversion that copies each handle's address into the keys.
pub open spec fn keys_from_accounts_text(acc: Seq<char>, k: Seq<char>, body: Seq<char>) -> Seq<char> {
    "impl From<&"@
        + acc
        + "<'_, '_>> for "@
        + k
        + " {\n    fn from(accounts: &"@
        + acc
        + ") -> Self {\n        Self {\n"@
        + body
        + "        }\n    }\n}\n"@
}

fn keys_from_accounts_src(acc: &str, k: &str, body: &str) -> (r: String)
    ensures
        r@ == keys_from_accounts_text(acc@, k@, body@),
{
    String::from_str("impl From<&")
        .concat(acc)
        .concat("<'_, '_>> for ")
        .concat(k)
        .concat(" {\n    fn from(accounts: &")
        .concat(acc)
        .concat(") -> Self {\n        Self {\n")
        .concat(body)
        .concat("        }\n    }\n}\n")
}

/// The conversion from keys to the positional account-metadata array.
pub open spec fn metas_from_keys_text(k: Seq<char>, l: Seq<char>, body: Seq<char>) -> Seq<char> {
    "impl From<&"@
        + k
        + "> for [AccountMeta; "@
        + l
        + "] {\n    fn from(keys: &"@
        + k
        + ") -> Self {\n        [\n"@
        + body
        + "        ]\n    }\n}\n"@
}

fn metas_from_keys_src(k: &str, l: &str, body: &str) -> (r: String)
    ensures
        r@ == metas_from_keys_text(k@, l@, body@),
{
    String::from_str("impl From<&")
        .concat(k)
        .concat("> for [AccountMeta; ")
        .concat(l)
        .concat("] {\n    fn from(keys: &")
        .concat(k)
        .concat(") -> Self {\n        [\n")
        .concat(body)
        .concat("        ]\n    }\n}\n")
}

/// The conversion from a positional address array to keys.
pub open spec fn keys_from_pubkeys_text(k: Seq<char>, l: Seq<char>, body: Seq<char>) -> Seq<char> {
    "impl From<[Pubkey; "@
        + l
        + "]> for "@
        + k
        + " {\n    fn from(pubkeys: [Pubkey; "@
        + l
        + "]) -> Self {\n        Self {\n"@
        + body
        + "        }\n    }\n}\n"@
}

fn keys_from_pubkeys_src(k: &str, l: &str, body: &str) -> (r: String)
    ensures
        r@ == keys_from_pubkeys_text(k@, l@, body@),
{
    String::from_str("impl From<[Pubkey; ")
        .concat(l)
        .concat("]> for ")
        .concat(k)
        .concat(" {\n    fn from(pubkeys: [Pubkey; ")
        .concat(l)
        .concat("]) -> Self {\n        Self {\n")
        .concat(body)
        .concat("        }\n    }\n}\n")
}

/// The conversion from the accounts view to the positional account-info array.
pub open spec fn infos_from_accounts_text(acc: Seq<char>, l: Seq<char>, body: Seq<char>) -> Seq<char> {
    "impl<'info> From<&"@
        + acc
        + "<'_, 'info>> for [AccountInfo<'info>; "@
        + l
        + "] {\n    fn from(accounts: &"@
        + acc
        + "<'_, 'info>) -> Self {\n        [\n"@
        + body
        + "        ]\n    }\n}\n"@
}

fn infos_from_accounts_src(acc: &str, l: &str, body: &str) -> (r: String)
    ensures
        r@ == infos_from_accounts_text(acc@, l@, body@),
{
    String::from_str("impl<'info> From<&")
        .concat(acc)
        .concat("<'_, 'info>> for [AccountInfo<'info>; ")
        .concat(l)
        .concat("] {\n    fn from(accounts: &")
        .concat(acc)
        .concat("<'_, 'info>) -> Self {\n        [\n")
        .concat(body)
        .concat("        ]\n    }\n}\n")
}

/// The conversion from a positional account-info array to the accounts view.
pub open spec fn accounts_from_infos_text(acc: Seq<char>, l: Seq<char>, body: Seq<char>) -> Seq<char> {
    "impl<'me, 'info> From<&'me [AccountInfo<'info>; "@
        + l
        + "]> for "@
        + acc
        + "<'me, 'info> {\n    fn from(arr: &'me [AccountInfo<'info>; "@
        + l
        + "]) -> Self {\n        Self {\n"@
        + body
        + "        }\n    }\n}\n"@
}

fn accounts_from_infos_src(acc: &str, l: &str, body: &str) -> (r: String)
    ensures
        r@ == accounts_from_infos_text(acc@, l@, body@),
{
    String::from_str("impl<'me, 'info> From<&'me [AccountInfo<'info>; ")
        .concat(l)
        .concat("]> for ")
        .concat(acc)
        .concat("<'me, 'info> {\n    fn from(arr: &'me [AccountInfo<'info>; ")
        .concat(l)
        .concat("]) -> Self {\n        Self {\n")
        .concat(body)
        .concat("        }\n    }\n}\n")
}

/// The argument structure, fields in wire order.
pub open spec fn args_struct_text(a: Seq<char>, body: Seq<char>) -> Seq<char> {
    "#[derive(BorshDeserialize, BorshSerialize, Clone, Debug, PartialEq)]\npub struct "@
        + a
        + " {\n"@
        + body
        + "}\n"@
}

fn args_struct_src(a: &str, body: &str) -> (r: String)
    ensures
        r@ == args_struct_text(a@, body@),
{
    String::from_str("#[derive(BorshDeserialize, BorshSerialize, Clone, Debug, PartialEq)]\npub struct ")
        .concat(a)
        .concat(" {\n")
        .concat(body)
        .concat("}\n")
}

/// The discriminant-tagged payload wrapper.
pub open spec fn data_struct_text(x: Seq<char>, a: Seq<char>) -> Seq<char> {
    "#[derive(Clone, Debug, PartialEq)]\npub struct "@
        + x
        + "(pub "@
        + a
        + ");\n"@
}

fn data_struct_src(x: &str, a: &str) -> (r: String)
    ensures
        r@ == data_struct_text(x@, a@),
{
    String::from_str("#[derive(Clone, Debug, PartialEq)]\npub struct ")
        .concat(x)
        .concat("(pub ")
        .concat(a)
        .concat(");\n")
}

/// The discriminant constant.
pub open spec fn discm_const_text(d: Seq<char>, t: Seq<char>, v: Seq<char>) -> Seq<char> {
    "pub const "@
        + d
        + ": "@
        + t
        + " = "@
        + v
        + ";\n"@
}

fn discm_const_src(d: &str, t: &str, v: &str) -> (r: String)
    ensures
        r@ == discm_const_text(d@, t@, v@),
{
    String::from_str("pub const ")
        .concat(d)
        .concat(": ")
        .concat(t)
        .concat(" = ")
        .concat(v)
        .concat(";\n")
}

/// The conversion that wraps arguments into the payload.
pub open spec fn data_from_args_text(x: Seq<char>, a: Seq<char>) -> Seq<char> {
    "impl From<"@
        + a
        + "> for "@
        + x
        + " {\n    fn from(args: "@
        + a
        + ") -> Self {\n        Self(args)\n    }\n}\n"@
}

fn data_from_args_src(x: &str, a: &str) -> (r: String)
    ensures
        r@ == data_from_args_text(x@, a@),
{
    String::from_str("impl From<")
        .concat(a)
        .concat("> for ")
        .concat(x)
        .concat(" {\n    fn from(args: ")
        .concat(a)
        .concat(") -> Self {\n        Self(args)\n    }\n}\n")
}

/// The payload encoder: discriminant bytes, then the arguments.
pub open spec fn data_serialize_text(x: Seq<char>, w: Seq<char>) -> Seq<char> {
    "impl BorshSerialize for "@
        + x
        + " {\n    fn serialize<W: std::io::Write>(&self, writer: &mut W) -> std::io::Result<()> {\n        writer.write_all(&"@
        + w
        + ")?;\n        self.0.serialize(writer)\n    }\n}\n"@
}

fn data_serialize_src(x: &str, w: &str) -> (r: String)
    ensures
        r@ == data_serialize_text(x@, w@),
{
    String::from_str("impl BorshSerialize for ")
        .concat(x)
        .concat(" {\n    fn serialize<W: std::io::Write>(&self, writer: &mut W) -> std::io::Result<()> {\n        writer.write_all(&")
        .concat(w)
        .concat(")?;\n        self.0.serialize(writer)\n    }\n}\n")
}

/// The payload decoder: reads and checks the discriminant before the arguments.
pub open spec fn data_deserialize_text(x: Seq<char>, t: Seq<char>, d: Seq<char>, a: Seq<char>) -> Seq<char> {
    "impl "@
        + x
        + " {\n    pub fn deserialize(buf: &mut &[u8]) -> std::io::Result<Self> {\n        let maybe_discm = <"@
        + t
        + ">::deserialize(buf)?;\n        if maybe_discm != "@
        + d
        + " {\n            return Err(std::io::Error::new(\n                std::io::ErrorKind::Other,\n                format!(\"discm does not match. Expected: {:?}. Received: {:?}\", "@
        + d
        + ", maybe_discm),\n            ));\n        }\n        Ok(Self("@
        + a
        + "::deserialize(buf)?))\n    }\n}\n"@
}

fn data_deserialize_src(x: &str, t: &str, d: &str, a: &str) -> (r: String)
    ensures
        r@ == data_deserialize_text(x@, t@, d@, a@),
{
    String::from_str("impl ")
        .concat(x)
        .concat(" {\n    pub fn deserialize(buf: &mut &[u8]) -> std::io::Result<Self> {\n        let maybe_discm = <")
        .concat(t)
        .concat(">::deserialize(buf)?;\n        if maybe_discm != ")
        .concat(d)
        .concat(" {\n            return Err(std::io::Error::new(\n                std::io::ErrorKind::Other,\n                format!(\"discm does not match. Expected: {:?}. Received: {:?}\", ")
        .concat(d)
        .concat(", maybe_discm),\n            ));\n        }\n        Ok(Self(")
        .concat(a)
        .concat("::deserialize(buf)?))\n    }\n}\n")
}

/// The request builder.
pub open spec fn ix_fn_text(s: Seq<char>, k: Seq<char>, a: Seq<char>, x: Seq<char>, l: Seq<char>) -> Seq<char> {
    "pub fn "@
        + s
        + "_ix<K: Into<"@
        + k
        + ">, A: Into<"@
        + a
        + ">>(\n    accounts: K,\n    args: A,\n) -> std::io::Result<Instruction> {\n    let keys: "@
        + k
        + " = accounts.into();\n    let metas: [AccountMeta; "@
        + l
        + "] = (&keys).into();\n    let args_full: "@
        + a
        + " = args.into();\n    let data: "@
        + x
        + " = args_full.into();\n    Ok(Instruction {\n        program_id: crate::ID,\n        accounts: Vec::from(metas),\n        data: data.try_to_vec()?,\n    })\n}\n"@
}

fn ix_fn_src(s: &str, k: &str, a: &str, x: &str, l: &str) -> (r: String)
    ensures
        r@ == ix_fn_text(s@, k@, a@, x@, l@),
{
    String::from_str("pub fn ")
        .concat(s)
        .concat("_ix<K: Into<")
        .concat(k)
        .concat(">, A: Into<")
        .concat(a)
        .concat(">>(\n    accounts: K,\n    args: A,\n) -> std::io::Result<Instruction> {\n    let keys: ")
        .concat(k)
        .concat(" = accounts.into();\n    let metas: [AccountMeta; ")
        .concat(l)
        .concat("] = (&keys).into();\n    let args_full: ")
        .concat(a)
        .concat(" = args.into();\n    let data: ")
        .concat(x)
        .concat(" = args_full.into();\n    Ok(Instruction {\n        program_id: crate::ID,\n        accounts: Vec::from(metas),\n        data: data.try_to_vec()?,\n    })\n}\n")
}

/// The helper that builds the request and submits it.
pub open spec fn invoke_fn_text(s: Seq<char>, acc: Seq<char>, a: Seq<char>, l: Seq<char>) -> Seq<char> {
    "pub fn "@
        + s
        + "_invoke<'info, A: Into<"@
        + a
        + ">>(\n    accounts: &"@
        + acc
        + "<'_, 'info>,\n    args: A,\n) -> ProgramResult {\n    let ix = "@
        + s
        + "_ix(accounts, args)?;\n    let account_info: [AccountInfo<'info>; "@
        + l
        + "] = accounts.into();\n    invoke(&ix, &account_info)\n}\n"@
}

fn invoke_fn_src(s: &str, acc: &str, a: &str, l: &str) -> (r: String)
    ensures
        r@ == invoke_fn_text(s@, acc@, a@, l@),
{
    String::from_str("pub fn ")
        .concat(s)
        .concat("_invoke<'info, A: Into<")
        .concat(a)
        .concat(">>(\n    accounts: &")
        .concat(acc)
        .concat("<'_, 'info>,\n    args: A,\n) -> ProgramResult {\n    let ix = ")
        .concat(s)
        .concat("_ix(accounts, args)?;\n    let account_info: [AccountInfo<'info>; ")
        .concat(l)
        .concat("] = accounts.into();\n    invoke(&ix, &account_info)\n}\n")
}

/// The helper that builds the request and submits it with signer seeds.
pub open spec fn invoke_signed_fn_text(s: Seq<char>, acc: Seq<char>, a: Seq<char>, l: Seq<char>) -> Seq<char> {
    "pub fn "@
        + s
        + "_invoke_signed<'info, A: Into<"@
        + a
        + ">>(\n    accounts: &"@
        + acc
        + "<'_, 'info>,\n    args: A,\n    seeds: &[&[&[u8]]],\n) -> ProgramResult {\n    let ix = "@
        + s
        + "_ix(accounts, args)?;\n    let account_info: [AccountInfo<'info>; "@
        + l
        + "] = accounts.into();\n    invoke_signed(&ix, &account_info, seeds)\n}\n"@
}

fn invoke_signed_fn_src(s: &str, acc: &str, a: &str, l: &str) -> (r: String)
    ensures
        r@ == invoke_signed_fn_text(s@, acc@, a@, l@),
{
    String::from_str("pub fn ")
        .concat(s)
        .concat("_invoke_signed<'info, A: Into<")
        .concat(a)
        .concat(">>(\n    accounts: &")
        .concat(acc)
        .concat("<'_, 'info>,\n    args: A,\n    seeds: &[&[&[u8]]],\n) -> ProgramResult {\n    let ix = ")
        .concat(s)
        .concat("_ix(accounts, args)?;\n    let account_info: [AccountInfo<'info>; ")
        .concat(l)
        .concat("] = accounts.into();\n    invoke_signed(&ix, &account_info, seeds)\n}\n")
}

/// The key check: the first position whose live address differs from the expected one.
pub open spec fn verify_fn_text(s: Seq<char>, acc: Seq<char>, k: Seq<char>, body: Seq<char>) -> Seq<char> {
    "pub fn "@
        + s
        + "_verify_account_keys(\n    accounts: &"@
        + acc
        + "<'_, '_>,\n    keys: &"@
        + k
        + ",\n) -> Result<(), (Pubkey, Pubkey)> {\n    for (actual, expected) in [\n"@
        + body
        + "    ] {\n        if actual != expected {\n            return Err((*actual, *expected));\n        }\n    }\n    Ok(())\n}\n"@
}

fn verify_fn_src(s: &str, acc: &str, k: &str, body: &str) -> (r: String)
    ensures
        r@ == verify_fn_text(s@, acc@, k@, body@),
{
    String::from_str("pub fn ")
        .concat(s)
        .concat("_verify_account_keys(\n    accounts: &")
        .concat(acc)
        .concat("<'_, '_>,\n    keys: &")
        .concat(k)
        .concat(",\n) -> Result<(), (Pubkey, Pubkey)> {\n    for (actual, expected) in [\n")
        .concat(body)
        .concat("    ] {\n        if actual != expected {\n            return Err((*actual, *expected));\n        }\n    }\n    Ok(())\n}\n")
}

/// The decimal bytes of `d[..n]`, comma separated.
pub open spec fn byte_list(d: Seq<u8>, n: nat) -> Seq<char>
    decreases n,
{
    if n == 0 {
        Seq::empty()
    } else if n == 1 {
        decimal(d[0] as nat)
    } else {
        byte_list(d, (n - 1) as nat) + ", "@ + decimal(d[n - 1] as nat)
    }
}

/// The type of a discriminant constant: `u8` for one byte, else a byte array.
pub open spec fn discm_type(d: Seq<u8>) -> Seq<char> {
    if d.len() == 1 {
        "u8"@
    } else {
        "[u8; "@ + decimal(d.len()) + "]"@
    }
}

/// The value of a discriminant constant.
pub open spec fn discm_literal(d: Seq<u8>) -> Seq<char> {
    if d.len() == 1 {
        decimal(d[0] as nat)
    } else {
        "["@ + byte_list(d, d.len()) + "]"@
    }
}

/// What the payload encoder hands to `write_all`, behind a `&`.
pub open spec fn discm_write(d: Seq<u8>, ident: Seq<char>) -> Seq<char> {
    if d.len() == 1 {
        "["@ + ident + "]"@
    } else {
        ident
    }
}

pub open spec fn accounts_ident(ix: NamedInstruction) -> Seq<char> {
    ix.name@ + "Accounts"@
}

pub open spec fn keys_ident(ix: NamedInstruction) -> Seq<char> {
    ix.name@ + "Keys"@
}

pub open spec fn data_ident(ix: NamedInstruction) -> Seq<char> {
    ix.name@ + "IxData"@
}

pub open spec fn len_ident(ix: NamedInstruction) -> Seq<char> {
    shouty_snake_of(ix.name@) + "_IX_ACCOUNTS_LEN"@
}

pub open spec fn args_ident(ix: NamedInstruction) -> Seq<char> {
    pascal_of(ix.name@) + "IxArgs"@
}

pub open spec fn discm_ident_text(ix: NamedInstruction) -> Seq<char> {
    shouty_snake_of(ix.name@) + "_IX_DISCM"@
}

/// The number of distinct account names of an instruction.
pub open spec fn unique_count(ix: NamedInstruction) -> nat {
    first_positions(account_names(ix.accounts@), ix.accounts@.len()).len()
}

/// The account-count constant, both views, the keys and every conversion
/// between them and the positional arrays.
pub open spec fn accounts_items(ix: NamedInstruction) -> Seq<char> {
    let acc = ix.accounts@;
    let u = unique_count(ix);
    let n = acc.len();
    len_const_text(len_ident(ix), decimal(n))
        + accounts_struct_text(accounts_ident(ix), rows(u, unique_rows(acc, 0)))
        + keys_struct_text(keys_ident(ix), rows(u, unique_rows(acc, 1)))
        + keys_from_accounts_text(accounts_ident(ix), keys_ident(ix), rows(u, unique_rows(acc, 2)))
        + metas_from_keys_text(keys_ident(ix), len_ident(ix), rows(n, positional_rows(acc, 0)))
        + keys_from_pubkeys_text(keys_ident(ix), len_ident(ix), rows(u, unique_rows(acc, 3)))
        + infos_from_accounts_text(accounts_ident(ix), len_ident(ix), rows(n, positional_rows(acc, 1)))
        + accounts_from_infos_text(accounts_ident(ix), len_ident(ix), rows(u, unique_rows(acc, 4)))
}

/// The payload wrapper, the discriminant constant and the payload codec.
pub open spec fn data_items(ix: NamedInstruction, d: Seq<u8>) -> Seq<char> {
    data_struct_text(data_ident(ix), args_ident(ix))
        + discm_const_text(discm_ident_text(ix), discm_type(d), discm_literal(d))
        + data_from_args_text(data_ident(ix), args_ident(ix))
        + data_serialize_text(data_ident(ix), discm_write(d, discm_ident_text(ix)))
        + data_deserialize_text(data_ident(ix), discm_type(d), discm_ident_text(ix), args_ident(ix))
}

/// Whether a discriminant belongs to the extended dialect (eight bytes),
/// whose instructions also get a key check.
pub open spec fn is_extended(d: Seq<u8>) -> bool {
    d.len() == 8
}

/// The request builder and the two dispatch helpers; in the extended
/// dialect, the key check too.
pub open spec fn fn_items(ix: NamedInstruction, d: Seq<u8>) -> Seq<char> {
    let s = snake_of(ix.name@);
    let calls = ix_fn_text(s, keys_ident(ix), args_ident(ix), data_ident(ix), len_ident(ix))
        + invoke_fn_text(s, accounts_ident(ix), args_ident(ix), len_ident(ix))
        + invoke_signed_fn_text(s, accounts_ident(ix), args_ident(ix), len_ident(ix));
    if is_extended(d) {
        calls + verify_fn_text(s, accounts_ident(ix), keys_ident(ix), rows(ix.accounts@.len(), positional_rows(ix.accounts@, 2)))
    } else {
        calls
    }
}

/// The source emitted for an instruction, against the names of the declared
/// typedefs: it needs a discriminant and arguments that all resolve.
#[verifier::opaque]
pub open spec fn instruction_text(ix: NamedInstruction, names: Seq<Seq<char>>) -> Result<Seq<char>, CodegenFault> {
    match discm_of(ix) {
        None => Err(CodegenFault::MissingDiscriminant { instruction: ix.name@ }),
        Some(d) => match fields_text(ix.args@, ix.name@, names) {
            Ok(body) => Ok(accounts_items(ix) + args_struct_text(args_ident(ix), body) + data_items(ix, d) + fn_items(ix, d)),
            Err(e) => Err(e),
        },
    }
}

/// The warning for accounts declared more than once, if there are any.
pub open spec fn duplicate_warning_text(ix: NamedInstruction) -> Option<Seq<char>> {
    let names = account_names(ix.accounts@);
    let dups = repeat_positions(names, ix.accounts@.len());
    if dups.len() == 0 {
        None
    } else {
        Some(
            "Found duplicate accounts for instruction "@ + ix.name@ + ": "@ + joined(
                dups.map_values(|p: usize| names[p as int]),
                ", "@,
            )
                + ". Assuming different indexes in generated AccountInfo/Meta arrays refer to the same account"@,
        )
    }
}

fn byte_list_src(d: &Vec<u8>) -> (r: String)
    ensures
        r@ == byte_list(d@, d@.len()),
{
    let mut out = String::new();
    let mut i: usize = 0;
    while i < d.len()
        invariant
            i <= d@.len(),
            out@ == byte_list(d@, i as nat),
        decreases d@.len() - i,
    {
        let digits = decimal_text(d[i] as u64);
        if i > 0 {
            out.append(", ");
        }
        out.append(digits.as_str());
        i = i + 1;
    }
    out
}

impl NamedInstruction {
    /// The name of the generated argument structure.
    pub fn ix_args_ident(&self) -> (r: String)
        ensures
            r@ == args_ident(*self),
    {
        pascal_case(self.name.as_str()).concat("IxArgs")
    }

    /// The name of the generated discriminant constant.
    pub fn discm_ident(&self) -> (r: String)
        ensures
            r@ == discm_ident_text(*self),
    {
        shouty_snake_case(self.name.as_str()).concat("_IX_DISCM")
    }

    fn accounts_items_src(&self) -> (r: String)
        ensures
            r@ == accounts_items(*self),
    {
        let split = unique_by_report_dups(&self.accounts);
        let unique = &split.unique;
        let acc = self.name.clone().concat("Accounts");
        let k = self.name.clone().concat("Keys");
        let l = shouty_snake_case(self.name.as_str()).concat("_IX_ACCOUNTS_LEN");
        let n = decimal_text(self.accounts.len() as u64);
        let mut out = len_const_src(l.as_str(), n.as_str());
        out = out.concat(accounts_struct_src(acc.as_str(), unique_rows_text(&self.accounts, unique, 0).as_str()).as_str());
        out = out.concat(keys_struct_src(k.as_str(), unique_rows_text(&self.accounts, unique, 1).as_str()).as_str());
        out = out.concat(
            keys_from_accounts_src(acc.as_str(), k.as_str(), unique_rows_text(&self.accounts, unique, 2).as_str()).as_str(),
        );
        out = out.concat(
            metas_from_keys_src(k.as_str(), l.as_str(), positional_rows_text(&self.accounts, 0).as_str()).as_str(),
        );
        out = out.concat(
            keys_from_pubkeys_src(k.as_str(), l.as_str(), unique_rows_text(&self.accounts, unique, 3).as_str()).as_str(),
        );
        out = out.concat(
            infos_from_accounts_src(acc.as_str(), l.as_str(), positional_rows_text(&self.accounts, 1).as_str()).as_str(),
        );
        out = out.concat(
            accounts_from_infos_src(acc.as_str(), l.as_str(), unique_rows_text(&self.accounts, unique, 4).as_str()).as_str(),
        );
        out
    }

    fn data_items_src(&self, d: &Vec<u8>) -> (r: String)
        ensures
            r@ == data_items(*self, d@),
    {
        let x = self.name.clone().concat("IxData");
        let a = self.ix_args_ident();
        let di = self.discm_ident();
        let (t, v, w) = if d.len() == 1 {
            (String::from_str("u8"), decimal_text(d[0] as u64), String::from_str("[").concat(di.as_str()).concat("]"))
        } else {
            (
                String::from_str("[u8; ").concat(decimal_text(d.len() as u64).as_str()).concat("]"),
                String::from_str("[").concat(byte_list_src(d).as_str()).concat("]"),
                di.clone(),
            )
        };
        let mut out = data_struct_src(x.as_str(), a.as_str());
        out = out.concat(discm_const_src(di.as_str(), t.as_str(), v.as_str()).as_str());
        out = out.concat(data_from_args_src(x.as_str(), a.as_str()).as_str());
        out = out.concat(data_serialize_src(x.as_str(), w.as_str()).as_str());
        out = out.concat(data_deserialize_src(x.as_str(), t.as_str(), di.as_str(), a.as_str()).as_str());
        out
    }

    fn fn_items_src(&self, d: &Vec<u8>) -> (r: String)
        ensures
            r@ == fn_items(*self, d@),
    {
        let s = snake_case(self.name.as_str());
        let acc = self.name.clone().concat("Accounts");
        let k = self.name.clone().concat("Keys");
        let x = self.name.clone().concat("IxData");
        let a = self.ix_args_ident();
        let l = shouty_snake_case(self.name.as_str()).concat("_IX_ACCOUNTS_LEN");
        let mut out = ix_fn_src(s.as_str(), k.as_str(), a.as_str(), x.as_str(), l.as_str());
        out = out.concat(invoke_fn_src(s.as_str(), acc.as_str(), a.as_str(), l.as_str()).as_str());
        out = out.concat(invoke_signed_fn_src(s.as_str(), acc.as_str(), a.as_str(), l.as_str()).as_str());
        if d.len() == 8 {
            out = out.concat(
                verify_fn_src(s.as_str(), acc.as_str(), k.as_str(), positional_rows_text(&self.accounts, 2).as_str()).as_str(),
            );
        }
        out
    }

    /// Writes the source of every item generated for this instruction.
    pub fn to_tokens(&self, types: &Vec<NamedType>) -> (r: Result<String, CodegenError>)
        ensures
            crate::error::text_result(r) == instruction_text(*self, typedef_names(types@)),
    {
        proof {
            reveal(instruction_text);
        }
        let d = self.discriminant_bytes()?;
        let body = fields_source(&self.args, self.name.as_str(), types)?;
        let mut out = self.accounts_items_src();
        out = out.concat(args_struct_src(self.ix_args_ident().as_str(), body.as_str()).as_str());
        out = out.concat(self.data_items_src(d).as_str());
        out = out.concat(self.fn_items_src(d).as_str());
        Ok(out)
    }

    /// The warning that names the accounts this instruction declares more
    /// than once, or `None` if every account name is distinct.
    pub fn duplicate_warning(&self) -> (r: Option<String>)
        ensures
            match r {
                Some(w) => duplicate_warning_text(*self) == Some(w@),
                None => duplicate_warning_text(*self) is None,
            },
    {
        let ghost names = account_names(self.accounts@);
        let split = unique_by_report_dups(&self.accounts);
        let dups = &split.duplicates;
        if dups.len() == 0 {
            return None;
        }
        let n: usize = self.accounts.len();
        proof {
            lemma_repeat_positions_bound(names, n as nat);
        }
        let mut parts: Vec<String> = Vec::new();
        let mut i: usize = 0;
        while i < dups.len()
            invariant
                i <= dups@.len(),
                names == account_names(self.accounts@),
                dups@ == repeat_positions(names, self.accounts@.len()),
                forall|j: int| 0 <= j < dups@.len() ==> dups@[j] < self.accounts@.len(),
                parts@.len() == i,
                forall|j: int| 0 <= j < i ==> parts@[j]@ == names[dups@[j] as int],
            decreases dups@.len() - i,
        {
            parts.push(self.accounts[dups[i]].name.clone());
            i = i + 1;
        }
        proof {
            assert(texts(parts@) =~= dups@.map_values(|p: usize| names[p as int]));
        }
        let list = join_texts(&parts, ", ");
        Some(
            String::from_str("Found duplicate accounts for instruction ").concat(self.name.as_str()).concat(
                ": ",
            ).concat(list.as_str()).concat(
                ". Assuming different indexes in generated AccountInfo/Meta arrays refer to the same account",
            ),
        )
    }
}

/// The program-wide dispatch enum: one variant per instruction.
pub open spec fn program_ix_enum_text(p: Seq<char>, rows: Seq<char>) -> Seq<char> {
    "#[derive(Clone, Debug, PartialEq)]\npub enum "@
        + p
        + "ProgramIx {\n"@
        + rows
        + "}\n"@
}

fn program_ix_enum_src(p: &str, rows: &str) -> (r: String)
    ensures
        r@ == program_ix_enum_text(p@, rows@),
{
    String::from_str("#[derive(Clone, Debug, PartialEq)]\npub enum ")
        .concat(p)
        .concat("ProgramIx {\n")
        .concat(rows)
        .concat("}\n")
}

/// Its encoder: the variant's discriminant, then its arguments.
pub open spec fn program_ix_serialize_text(p: Seq<char>, rows: Seq<char>) -> Seq<char> {
    "impl BorshSerialize for "@
        + p
        + "ProgramIx {\n    fn serialize<W: std::io::Write>(&self, writer: &mut W) -> std::io::Result<()> {\n        match self {\n"@
        + rows
        + "        }\n    }\n}\n"@
}

fn program_ix_serialize_src(p: &str, rows: &str) -> (r: String)
    ensures
        r@ == program_ix_serialize_text(p@, rows@),
{
    String::from_str("impl BorshSerialize for ")
        .concat(p)
        .concat("ProgramIx {\n    fn serialize<W: std::io::Write>(&self, writer: &mut W) -> std::io::Result<()> {\n        match self {\n")
        .concat(rows)
        .concat("        }\n    }\n}\n")
}

/// Its decoder: reads the discriminant first, then the matching variant's arguments.
pub open spec fn program_ix_deserialize_text(p: Seq<char>, t: Seq<char>, rows: Seq<char>) -> Seq<char> {
    "impl "@
        + p
        + "ProgramIx {\n    pub fn deserialize(buf: &mut &[u8]) -> std::io::Result<Self> {\n        let maybe_discm = <"@
        + t
        + ">::deserialize(buf)?;\n        match maybe_discm {\n"@
        + rows
        + "            _ => Err(std::io::Error::new(\n                std::io::ErrorKind::Other,\n                format!(\"discm {:?} not found\", maybe_discm),\n            )),\n        }\n    }\n}\n"@
}

fn program_ix_deserialize_src(p: &str, t: &str, rows: &str) -> (r: String)
    ensures
        r@ == program_ix_deserialize_text(p@, t@, rows@),
{
    String::from_str("impl ")
        .concat(p)
        .concat("ProgramIx {\n    pub fn deserialize(buf: &mut &[u8]) -> std::io::Result<Self> {\n        let maybe_discm = <")
        .concat(t)
        .concat(">::deserialize(buf)?;\n        match maybe_discm {\n")
        .concat(rows)
        .concat("            _ => Err(std::io::Error::new(\n                std::io::ErrorKind::Other,\n                format!(\"discm {:?} not found\", maybe_discm),\n            )),\n        }\n    }\n}\n")
}

/// The variant of one instruction.
pub open spec fn variant_row_text(v: Seq<char>, a: Seq<char>) -> Seq<char> {
    "    "@
        + v
        + "("@
        + a
        + "),\n"@
}

fn variant_row_src(v: &str, a: &str) -> (r: String)
    ensures
        r@ == variant_row_text(v@, a@),
{
    String::from_str("    ")
        .concat(v)
        .concat("(")
        .concat(a)
        .concat("),\n")
}

/// The encoder arm of one instruction.
pub open spec fn serialize_row_text(v: Seq<char>, d: Seq<char>) -> Seq<char> {
    "            Self::"@
        + v
        + "(args) => {\n                "@
        + d
        + ".serialize(writer)?;\n                args.serialize(writer)\n            }\n"@
}

fn serialize_row_src(v: &str, d: &str) -> (r: String)
    ensures
        r@ == serialize_row_text(v@, d@),
{
    String::from_str("            Self::")
        .concat(v)
        .concat("(args) => {\n                ")
        .concat(d)
        .concat(".serialize(writer)?;\n                args.serialize(writer)\n            }\n")
}

/// The decoder arm of one instruction.
pub open spec fn deserialize_row_text(v: Seq<char>, d: Seq<char>, a: Seq<char>) -> Seq<char> {
    "            "@
        + d
        + " => Ok(Self::"@
        + v
        + "("@
        + a
        + "::deserialize(buf)?)),\n"@
}

fn deserialize_row_src(v: &str, d: &str, a: &str) -> (r: String)
    ensures
        r@ == deserialize_row_text(v@, d@, a@),
{
    String::from_str("            ")
        .concat(d)
        .concat(" => Ok(Self::")
        .concat(v)
        .concat("(")
        .concat(a)
        .concat("::deserialize(buf)?)),\n")
}

pub open spec fn variant_rows(ixs: Seq<NamedInstruction>) -> spec_fn(int) -> Seq<char> {
    |i: int| variant_row_text(pascal_of(ixs[i].name@), args_ident(ixs[i]))
}

pub open spec fn serialize_rows(ixs: Seq<NamedInstruction>) -> spec_fn(int) -> Seq<char> {
    |i: int| serialize_row_text(pascal_of(ixs[i].name@), discm_ident_text(ixs[i]))
}

pub open spec fn deserialize_rows(ixs: Seq<NamedInstruction>) -> spec_fn(int) -> Seq<char> {
    |i: int| deserialize_row_text(pascal_of(ixs[i].name@), discm_ident_text(ixs[i]), args_ident(ixs[i]))
}

/// The discriminant type the dispatch decoder reads: that of the first
/// instruction, `u8` if there is none. A program that passes the program
/// check has one width throughout, so this is every instruction's type.
pub open spec fn program_discm_type(ixs: Seq<NamedInstruction>) -> Seq<char> {
    if ixs.len() > 0 && discm_of(ixs[0]) is Some {
        discm_type(discm_of(ixs[0])->Some_0)
    } else {
        "u8"@
    }
}

/// The source of the program-wide dispatch enum of a program named `name`,
/// with its codec.
pub open spec fn program_ix_text(name: Seq<char>, ixs: Seq<NamedInstruction>) -> Seq<char> {
    let p = pascal_of(name);
    program_ix_enum_text(p, rows(ixs.len(), variant_rows(ixs)))
        + program_ix_serialize_text(p, rows(ixs.len(), serialize_rows(ixs)))
        + program_ix_deserialize_text(p, program_discm_type(ixs), rows(ixs.len(), deserialize_rows(ixs)))
}

/// Writes the source of the program-wide dispatch enum.
pub fn program_ix_source(name: &str, ixs: &Vec<NamedInstruction>) -> (r: String)
    ensures
        r@ == program_ix_text(name@, ixs@),
{
    let mut variants = String::new();
    let mut sers = String::new();
    let mut desers = String::new();
    let mut i: usize = 0;
    while i < ixs.len()
        invariant
            i <= ixs@.len(),
            variants@ == rows(i as nat, variant_rows(ixs@)),
            sers@ == rows(i as nat, serialize_rows(ixs@)),
            desers@ == rows(i as nat, deserialize_rows(ixs@)),
        decreases ixs@.len() - i,
    {
        let ix = &ixs[i];
        let v = pascal_case(ix.name.as_str());
        let a = ix.ix_args_ident();
        let d = ix.discm_ident();
        variants.append(variant_row_src(v.as_str(), a.as_str()).as_str());
        sers.append(serialize_row_src(v.as_str(), d.as_str()).as_str());
        desers.append(deserialize_row_src(v.as_str(), d.as_str(), a.as_str()).as_str());
        i = i + 1;
    }
    let t = if ixs.len() > 0 {
        match &ixs[0].discriminant {
            Some(d) => {
                if d.value.len() == 1 {
                    String::from_str("u8")
                } else {
                    String::from_str("[u8; ").concat(decimal_text(d.value.len() as u64).as_str()).concat("]")
                }
            },
            None => String::from_str("u8"),
        }
    } else {
        String::from_str("u8")
    };
    let p = pascal_case(name);
    program_ix_enum_src(p.as_str(), variants.as_str()).concat(
        program_ix_serialize_src(p.as_str(), sers.as_str()).as_str(),
    ).concat(program_ix_deserialize_src(p.as_str(), t.as_str(), desers.as_str()).as_str())
}

} // verus!
