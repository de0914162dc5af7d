//! Instructions, their accounts and discriminants: account deduplication,
//! positional address lists, key checks and discriminant uniqueness.

use crate::error::{CodegenError, CodegenFault};
use crate::text::text_eq;
use crate::typedefs::TypedefField;
use vstd::prelude::*;

verus! {

/// An instruction of the schema.
pub struct NamedInstruction {
    pub name: String,
    /// The accounts in declaration order; a name may occur more than once.
    pub accounts: Vec<IxAccount>,
    /// The arguments in wire order.
    pub args: Vec<TypedefField>,
    pub discriminant: Option<Discriminant>,
}

/// An account an instruction takes.
pub struct IxAccount {
    pub name: String,
    pub is_mut: bool,
    pub is_signer: bool,
    pub desc: Option<String>,
}

/// The tag that prefixes an instruction's payload: one byte in the narrow
/// dialect, eight bytes in the extended one.
pub struct Discriminant {
    /// The declared type of the tag, as the schema writes it.
    pub ty: String,
    pub value: Vec<u8>,
}

/// A 32-byte account address.
#[derive(Clone, Copy, Debug, PartialEq, Eq)]
pub struct Pubkey(pub [u8; 32]);

impl Pubkey {
    /// Whether two addresses are the same.
    pub fn same_as(&self, other: &Pubkey) -> (r: bool)
        ensures
            r == (self.0@ == other.0@),
    {
        let mut i: usize = 0;
        while i < 32
            invariant
                i <= 32,
                self.0@.len() == 32,
                other.0@.len() == 32,
                forall|j: int| 0 <= j < i ==> self.0@[j] == other.0@[j],
            decreases 32 - i,
        {
            if self.0[i] != other.0[i] {
                return false;
            }
            i = i + 1;
        }
        assert(self.0@ =~= other.0@);
        true
    }
}

/// Whether two byte strings are equal.
pub fn same_bytes(a: &Vec<u8>, b: &Vec<u8>) -> (r: bool)
    ensures
        r == (a@ == b@),
{
    if a.len() != b.len() {
        return false;
    }
    let mut i: usize = 0;
    while i < a.len()
        invariant
            i <= a@.len(),
            a@.len() == b@.len(),
            forall|j: int| 0 <= j < i ==> a@[j] == b@[j],
        decreases a@.len() - i,
    {
        if a[i] != b[i] {
            return false;
        }
        i = i + 1;
    }
    assert(a@ =~= b@);
    true
}

/// The names of a list of accounts.
pub open spec fn account_names(accounts: Seq<IxAccount>) -> Seq<Seq<char>> {
    accounts.map_values(|a: IxAccount| a.name@)
}

/// Whether position `p` holds the first occurrence of its name.
pub open spec fn is_first(names: Seq<Seq<char>>, p: int) -> bool {
    forall|q: int| 0 <= q < p ==> names[q] != names[p]
}

/// The positions below `n` that hold the first occurrence of their name, in order.
pub open spec fn first_positions(names: Seq<Seq<char>>, n: nat) -> Seq<usize>
    decreases n,
{
    if n == 0 {
        Seq::empty()
    } else if is_first(names, n - 1) {
        first_positions(names, (n - 1) as nat).push((n - 1) as usize)
    } else {
        first_positions(names, (n - 1) as nat)
    }
}

/// The positions below `n` whose name occurs at an earlier position, in order.
pub open spec fn repeat_positions(names: Seq<Seq<char>>, n: nat) -> Seq<usize>
    decreases n,
{
    if n == 0 {
        Seq::empty()
    } else if is_first(names, n - 1) {
        repeat_positions(names, (n - 1) as nat)
    } else {
        repeat_positions(names, (n - 1) as nat).push((n - 1) as usize)
    }
}

/// An account list split into first occurrences and later repeats, both as
/// positions into the declared list.
pub struct UniqueByReportDups {
    pub unique: Vec<usize>,
    pub duplicates: Vec<usize>,
}

/// Splits an account list by name into first occurrences, in declaration
/// order, and every later occurrence of a name seen before.
pub fn unique_by_report_dups(accounts: &Vec<IxAccount>) -> (r: UniqueByReportDups)
    ensures
        r.unique@ == first_positions(account_names(accounts@), accounts@.len()),
        r.duplicates@ == repeat_positions(account_names(accounts@), accounts@.len()),
{
    let ghost names = account_names(accounts@);
    let mut unique: Vec<usize> = Vec::new();
    let mut duplicates: Vec<usize> = Vec::new();
    let mut p: usize = 0;
    while p < accounts.len()
        invariant
            p <= accounts@.len(),
            names == account_names(accounts@),
            unique@ == first_positions(names, p as nat),
            duplicates@ == repeat_positions(names, p as nat),
        decreases accounts@.len() - p,
    {
        let mut q: usize = 0;
        let mut seen = false;
        while q < p
            invariant
                q <= p < accounts@.len(),
                names == account_names(accounts@),
                seen == exists|j: int| 0 <= j < q && names[j] == names[p as int],
            decreases p - q,
        {
            let same = text_eq(accounts[q].name.as_str(), accounts[p].name.as_str());
            proof {
                assert(names[q as int] == accounts@[q as int].name@);
                assert(names[p as int] == accounts@[p as int].name@);
            }
            if same {
                seen = true;
            }
            q = q + 1;
        }
        proof {
            assert(seen == !is_first(names, p as int));
        }
        if seen {
            duplicates.push(p);
        } else {
            unique.push(p);
        }
        p = p + 1;
    }
    UniqueByReportDups { unique, duplicates }
}


/// The positions that hold first occurrences are increasing, each is a first
/// occurrence, and every name below `n` has its first occurrence among them.
pub proof fn lemma_first_positions(names: Seq<Seq<char>>, n: nat)
    requires
        n <= names.len(),
        n <= usize::MAX,
    ensures
        forall|k: int| #![trigger first_positions(names, n)[k]]
            0 <= k < first_positions(names, n).len() ==> first_positions(names, n)[k] < n
                && is_first(names, first_positions(names, n)[k] as int),
        forall|k1: int, k2: int|
            0 <= k1 < k2 < first_positions(names, n).len() ==> first_positions(names, n)[k1]
                < first_positions(names, n)[k2],
        forall|p: int| #![trigger names[p]]
            0 <= p < n ==> exists|k: int|
                0 <= k < first_positions(names, n).len() && names[first_positions(names, n)[k] as int]
                    == names[p],
    decreases n,
{
    if n > 0 {
        lemma_first_positions(names, (n - 1) as nat);
        let prev = first_positions(names, (n - 1) as nat);
        let cur = first_positions(names, n);
        assert forall|p: int| #![trigger names[p]] 0 <= p < n implies exists|k: int|
            0 <= k < cur.len() && names[cur[k] as int] == names[p] by {
            if p < n - 1 {
                let k = choose|k: int| 0 <= k < prev.len() && names[prev[k] as int] == names[p];
                assert(cur[k] == prev[k]);
            } else if is_first(names, p) {
                assert(cur[prev.len() as int] == p);
            } else {
                let q = choose|q: int| 0 <= q < p && names[q] == names[p];
                let k = choose|k: int| 0 <= k < prev.len() && names[prev[k] as int] == names[q];
                assert(cur[k] == prev[k]);
            }
        }
    }
}

/// Every repeat position below `n` lies below `n`.
pub proof fn lemma_repeat_positions_bound(names: Seq<Seq<char>>, n: nat)
    requires
        n <= usize::MAX,
    ensures
        forall|j: int| 0 <= j < repeat_positions(names, n).len() ==> repeat_positions(names, n)[j] < n,
    decreases n,
{
    if n > 0 {
        lemma_repeat_positions_bound(names, (n - 1) as nat);
        let prev = repeat_positions(names, (n - 1) as nat);
        let cur = repeat_positions(names, n);
        assert forall|j: int| 0 <= j < cur.len() implies cur[j] < n by {
            if j < prev.len() {
                assert(cur[j] == prev[j]);
            }
        }
    }
}

/// The account-metadata entry of one position.
#[derive(Clone, Copy, Debug, PartialEq, Eq)]
pub struct AccountMeta {
    pub pubkey: Pubkey,
    pub is_signer: bool,
    pub is_writable: bool,
}

/// Finds the slot, among the first occurrences, that holds position `p`'s name.
fn slot_of(accounts: &Vec<IxAccount>, unique: &Vec<usize>, p: usize) -> (k: usize)
    requires
        p < accounts@.len(),
        unique@ == first_positions(account_names(accounts@), accounts@.len()),
    ensures
        k < unique@.len(),
        account_names(accounts@)[unique@[k as int] as int] == account_names(accounts@)[p as int],
{
    let ghost names = account_names(accounts@);
    let n: usize = accounts.len();
    proof {
        lemma_first_positions(names, n as nat);
    }
    let mut k: usize = 0;
    while k < unique.len()
        invariant
            names == account_names(accounts@),
            p < accounts@.len(),
            unique@ == first_positions(names, accounts@.len()),
            k <= unique@.len(),
            forall|j: int| 0 <= j < k ==> names[unique@[j] as int] != names[p as int],
            forall|j: int| 0 <= j < unique@.len() ==> unique@[j] < accounts@.len(),
        decreases unique@.len() - k,
    {
        let u = unique[k];
        if text_eq(accounts[u].name.as_str(), accounts[p].name.as_str()) {
            return k;
        }
        k = k + 1;
    }
    proof {
        let j = choose|j: int| 0 <= j < unique@.len() && names[unique@[j] as int] == names[p as int];
        assert(false);
    }
    0
}

/// Whether `m` is the account-metadata entry of position `p`: that position's
/// flags, and the key of the slot that holds its name.
pub open spec fn meta_at(accounts: Seq<IxAccount>, keys: Seq<Pubkey>, m: AccountMeta, p: int) -> bool {
    let names = account_names(accounts);
    let fp = first_positions(names, accounts.len());
    &&& m.is_writable == accounts[p].is_mut
    &&& m.is_signer == accounts[p].is_signer
    &&& exists|k: int| 0 <= k < keys.len() && k < fp.len() && #[trigger] names[fp[k] as int] == names[p]
        && m.pubkey == keys[k]
}

/// The account-metadata list of an instruction from its keys (one address per
/// distinct account name, in first-occurrence order): one entry per declared
/// position, duplicates repeated, flagged by that position's declaration.
pub fn keys_to_metas(accounts: &Vec<IxAccount>, keys: &Vec<Pubkey>) -> (r: Vec<AccountMeta>)
    requires
        keys@.len() == first_positions(account_names(accounts@), accounts@.len()).len(),
    ensures
        r@.len() == accounts@.len(),
        forall|p: int| 0 <= p < accounts@.len() ==> meta_at(accounts@, keys@, #[trigger] r@[p], p),
{
    let split = unique_by_report_dups(accounts);
    let unique = split.unique;
    let n: usize = accounts.len();
    proof {
        lemma_first_positions(account_names(accounts@), n as nat);
    }
    let mut metas: Vec<AccountMeta> = Vec::new();
    let mut p: usize = 0;
    while p < accounts.len()
        invariant
            p <= accounts@.len(),
            unique@ == first_positions(account_names(accounts@), accounts@.len()),
            forall|j: int| 0 <= j < unique@.len() ==> unique@[j] < accounts@.len(),
            keys@.len() == unique@.len(),
            metas@.len() == p,
            forall|q: int| 0 <= q < p ==> meta_at(accounts@, keys@, #[trigger] metas@[q], q),
        decreases accounts@.len() - p,
    {
        let k = slot_of(accounts, &unique, p);
        let meta = AccountMeta {
            pubkey: keys[k],
            is_signer: accounts[p].is_signer,
            is_writable: accounts[p].is_mut,
        };
        let ghost before = metas@;
        metas.push(meta);
        proof {
            assert(metas@[p as int] == meta);
            assert(meta_at(accounts@, keys@, meta, p as int));
            assert forall|q: int| 0 <= q < p + 1 implies meta_at(accounts@, keys@, #[trigger] metas@[q], q) by {
                if q < p {
                    assert(metas@[q] == before[q]);
                }
            }
        }
        p = p + 1;
    }
    metas
}

/// The keys of an instruction from a positional address list: each distinct
/// account name takes the address at its first position.
pub fn positional_to_keys(accounts: &Vec<IxAccount>, positional: &Vec<Pubkey>) -> (r: Vec<Pubkey>)
    requires
        positional@.len() == accounts@.len(),
    ensures
        r@.len() == first_positions(account_names(accounts@), accounts@.len()).len(),
        forall|k: int|
            0 <= k < r@.len() ==> r@[k] == positional@[first_positions(
                account_names(accounts@),
                accounts@.len(),
            )[k] as int],
{
    let split = unique_by_report_dups(accounts);
    let unique = split.unique;
    let n: usize = accounts.len();
    proof {
        lemma_first_positions(account_names(accounts@), n as nat);
    }
    let mut keys: Vec<Pubkey> = Vec::new();
    let mut k: usize = 0;
    while k < unique.len()
        invariant
            k <= unique@.len(),
            unique@ == first_positions(account_names(accounts@), accounts@.len()),
            forall|j: int| 0 <= j < unique@.len() ==> unique@[j] < accounts@.len(),
            positional@.len() == accounts@.len(),
            keys@.len() == k,
            forall|j: int| 0 <= j < k ==> keys@[j] == positional@[unique@[j] as int],
        decreases unique@.len() - k,
    {
        keys.push(positional[unique[k]]);
        k = k + 1;
    }
    keys
}

/// Compares live addresses with expected ones, slot by slot; the first slot
/// that differs gives `(live, expected)`.
pub fn verify_account_keys(live: &Vec<Pubkey>, keys: &Vec<Pubkey>) -> (r: Result<(), (Pubkey, Pubkey)>)
    requires
        live@.len() == keys@.len(),
    ensures
        r is Ok <==> forall|k: int| 0 <= k < keys@.len() ==> live@[k].0@ == keys@[k].0@,
        r matches Err((a, e)) ==> exists|k: int|
            0 <= k < keys@.len() && live@[k].0@ != keys@[k].0@ && a == live@[k] && e == keys@[k]
                && forall|j: int| 0 <= j < k ==> live@[j].0@ == keys@[j].0@,
{
    let mut k: usize = 0;
    while k < keys.len()
        invariant
            k <= keys@.len(),
            live@.len() == keys@.len(),
            forall|j: int| 0 <= j < k ==> live@[j].0@ == keys@[j].0@,
        decreases keys@.len() - k,
    {
        if !live[k].same_as(&keys[k]) {
            return Err((live[k], keys[k]));
        }
        k = k + 1;
    }
    Ok(())
}


/// The discriminant bytes an instruction declares, if any.
pub open spec fn discm_of(ix: NamedInstruction) -> Option<Seq<u8>> {
    match ix.discriminant {
        Some(d) => Some(d.value@),
        None => None,
    }
}

/// The first position below `k` whose instruction declares discriminant `d`.
pub open spec fn earlier_with(ixs: Seq<NamedInstruction>, d: Seq<u8>, k: nat) -> Option<nat>
    decreases k,
{
    if k == 0 {
        None
    } else {
        match earlier_with(ixs, d, (k - 1) as nat) {
            Some(i) => Some(i),
            None => if discm_of(ixs[k - 1]) == Some(d) {
                Some((k - 1) as nat)
            } else {
                None
            },
        }
    }
}

/// What is wrong with the discriminant of instruction `j`, given those before it.
pub open spec fn fault_at(ixs: Seq<NamedInstruction>, j: nat) -> Option<CodegenFault> {
    match discm_of(ixs[j as int]) {
        None => Some(CodegenFault::MissingDiscriminant { instruction: ixs[j as int].name@ }),
        Some(d) => match earlier_with(ixs, d, j) {
            Some(i) => Some(
                CodegenFault::DuplicateDiscriminant { first: ixs[i as int].name@, second: ixs[j as int].name@ },
            ),
            None => None,
        },
    }
}

/// The first discriminant fault among the first `n` instructions.
pub open spec fn discriminant_fault(ixs: Seq<NamedInstruction>, n: nat) -> Option<CodegenFault>
    decreases n,
{
    if n == 0 {
        None
    } else {
        match discriminant_fault(ixs, (n - 1) as nat) {
            Some(f) => Some(f),
            None => fault_at(ixs, (n - 1) as nat),
        }
    }
}

/// Every instruction declares a discriminant, and no two declare the same.
pub open spec fn discriminants_unique(ixs: Seq<NamedInstruction>) -> bool {
    &&& forall|i: int| 0 <= i < ixs.len() ==> (#[trigger] discm_of(ixs[i])) is Some
    &&& forall|i: int, j: int|
        0 <= i < j < ixs.len() ==> #[trigger] discm_of(ixs[i]) != #[trigger] discm_of(ixs[j])
}

impl NamedInstruction {
    /// The discriminant bytes this instruction declares.
    pub fn discriminant_bytes(&self) -> (r: Result<&Vec<u8>, CodegenError>)
        ensures
            match r {
                Ok(v) => discm_of(*self) == Some(v@),
                Err(e) => discm_of(*self) is None && e@ == CodegenFault::MissingDiscriminant {
                    instruction: self.name@,
                },
            },
    {
        match &self.discriminant {
            Some(d) => Ok(&d.value),
            None => Err(CodegenError::MissingDiscriminant { instruction: self.name.clone() }),
        }
    }
}

proof fn lemma_earlier_with(ixs: Seq<NamedInstruction>, d: Seq<u8>, k: nat)
    requires
        k <= ixs.len(),
    ensures
        earlier_with(ixs, d, k) is None <==> forall|i: int| 0 <= i < k ==> discm_of(ixs[i]) != Some(d),
        earlier_with(ixs, d, k) matches Some(i) ==> i < k && discm_of(ixs[i as int]) == Some(d),
    decreases k,
{
    if k > 0 {
        lemma_earlier_with(ixs, d, (k - 1) as nat);
    }
}

/// No discriminant fault among the first `n` instructions means exactly that
/// they all declare one and no two of them share it; a duplicate fault names
/// two instructions that share one.
pub proof fn lemma_discriminant_fault(ixs: Seq<NamedInstruction>, n: nat)
    requires
        n <= ixs.len(),
    ensures
        discriminant_fault(ixs, n) is None <==> discriminants_unique(ixs.take(n as int)),
        discriminant_fault(ixs, n) matches Some(CodegenFault::DuplicateDiscriminant { first, second })
            ==> exists|i: int, j: int|
            0 <= i < j < n && discm_of(ixs[i]) == discm_of(ixs[j]) && ixs[i].name@ == first
                && ixs[j].name@ == second,
        discriminant_fault(ixs, n) matches Some(f) ==> (f is DuplicateDiscriminant || f is MissingDiscriminant),
        discriminant_fault(ixs, n) matches Some(CodegenFault::MissingDiscriminant { instruction }) ==> exists|i: int|
            0 <= i < n && discm_of(ixs[i]) is None && ixs[i].name@ == instruction,
    decreases n,
{
    if n > 0 {
        let m = (n - 1) as nat;
        lemma_discriminant_fault(ixs, m);
        let pre = ixs.take(m as int);
        let all = ixs.take(n as int);
        assert forall|i: int| 0 <= i < m implies all[i] == pre[i] by {}
        match discm_of(ixs[m as int]) {
            Some(d) => {
                lemma_earlier_with(ixs, d, m);
            },
            None => {},
        }
        if discriminant_fault(ixs, m) is None {
            if fault_at(ixs, m) is None {
                assert(discriminants_unique(all)) by {
                    assert forall|i: int, j: int| 0 <= i < j < all.len() implies discm_of(all[i]) != discm_of(all[j]) by {
                        if j < m {
                            assert(discm_of(pre[i]) != discm_of(pre[j]));
                        } else {
                            assert(all[j] == ixs[m as int]);
                        }
                    }
                    assert forall|i: int| 0 <= i < all.len() implies discm_of(all[i]) is Some by {
                        if i < m {
                            assert(discm_of(pre[i]) is Some);
                        }
                    }
                }
            } else {
                assert(!discriminants_unique(all)) by {
                    assert(all[m as int] == ixs[m as int]);
                    match discm_of(ixs[m as int]) {
                        Some(d) => {
                            let i = earlier_with(ixs, d, m)->Some_0;
                            assert(all[i as int] == ixs[i as int]);
                            assert(discm_of(all[i as int]) == discm_of(all[m as int]));
                        },
                        None => {},
                    }
                }
            }
        } else {
            assert(!discriminants_unique(all)) by {
                if discriminants_unique(all) {
                    assert(discriminants_unique(pre)) by {
                        assert forall|i: int, j: int| 0 <= i < j < pre.len() implies discm_of(pre[i]) != discm_of(pre[j]) by {
                            assert(discm_of(all[i]) != discm_of(all[j]));
                        }
                        assert forall|i: int| 0 <= i < pre.len() implies discm_of(pre[i]) is Some by {
                            assert(discm_of(all[i]) is Some);
                        }
                    }
                }
            }
        }
    }
}

proof fn lemma_earlier_with_extends(ixs: Seq<NamedInstruction>, d: Seq<u8>, m: nat, n: nat)
    requires
        m <= n,
        earlier_with(ixs, d, m) is Some,
    ensures
        earlier_with(ixs, d, n) == earlier_with(ixs, d, m),
    decreases n - m,
{
    if m < n {
        lemma_earlier_with_extends(ixs, d, m, (n - 1) as nat);
    }
}

proof fn lemma_fault_sticks(ixs: Seq<NamedInstruction>, m: nat, n: nat)
    requires
        m <= n,
        discriminant_fault(ixs, m) is Some,
    ensures
        discriminant_fault(ixs, n) == discriminant_fault(ixs, m),
    decreases n - m,
{
    if m < n {
        lemma_fault_sticks(ixs, m, (n - 1) as nat);
    }
}

/// Uniqueness: when every instruction declares a discriminant and two of
/// them share one, the check fails with a duplicate fault that names two
/// instructions sharing a discriminant.
pub proof fn lemma_shared_discriminant_rejected(ixs: Seq<NamedInstruction>, a: int, b: int)
    requires
        forall|i: int| 0 <= i < ixs.len() ==> (#[trigger] discm_of(ixs[i])) is Some,
        0 <= a < b < ixs.len(),
        discm_of(ixs[a]) == discm_of(ixs[b]),
    ensures
        discriminant_fault(ixs, ixs.len()) matches Some(CodegenFault::DuplicateDiscriminant { first, second })
            && exists|i: int, j: int|
            0 <= i < j < ixs.len() && discm_of(ixs[i]) == discm_of(ixs[j]) && ixs[i].name@ == first
                && ixs[j].name@ == second,
{
    lemma_discriminant_fault(ixs, ixs.len());
    let all = ixs.take(ixs.len() as int);
    assert(all =~= ixs);
    assert(!discriminants_unique(all));
}

/// Checks that every instruction declares a discriminant and that no two share
/// one; the first fault found, in instruction order, is returned.
pub fn check_discriminants(ixs: &Vec<NamedInstruction>) -> (r: Result<(), CodegenError>)
    ensures
        match r {
            Ok(()) => discriminant_fault(ixs@, ixs@.len()) is None,
            Err(e) => discriminant_fault(ixs@, ixs@.len()) == Some(e@),
        },
{
    let mut j: usize = 0;
    while j < ixs.len()
        invariant
            j <= ixs@.len(),
            discriminant_fault(ixs@, j as nat) is None,
        decreases ixs@.len() - j,
    {
        let d = match ixs[j].discriminant_bytes() {
            Ok(d) => d,
            Err(e) => {
                proof {
                    lemma_fault_sticks(ixs@, (j + 1) as nat, ixs@.len());
                }
                return Err(e);
            },
        };
        let mut i: usize = 0;
        while i < j
            invariant
                i <= j < ixs@.len(),
                discm_of(ixs@[j as int]) == Some(d@),
                earlier_with(ixs@, d@, i as nat) is None,
                discriminant_fault(ixs@, j as nat) is None,
            decreases j - i,
        {
            let same = match &ixs[i].discriminant {
                Some(e) => same_bytes(&e.value, d),
                None => false,
            };
            if same {
                proof {
                    assert(earlier_with(ixs@, d@, (i + 1) as nat) == Some(i as nat));
                    lemma_earlier_with_extends(ixs@, d@, (i + 1) as nat, j as nat);
                    assert(fault_at(ixs@, j as nat) == Some(CodegenFault::DuplicateDiscriminant {
                        first: ixs@[i as int].name@,
                        second: ixs@[j as int].name@,
                    }));
                    assert(discriminant_fault(ixs@, (j + 1) as nat) == fault_at(ixs@, j as nat));
                    lemma_fault_sticks(ixs@, (j + 1) as nat, ixs@.len());
                }
                return Err(CodegenError::DuplicateDiscriminant {
                    first: ixs[i].name.clone(),
                    second: ixs[j].name.clone(),
                });
            }
            i = i + 1;
        }
        j = j + 1;
    }
    Ok(())
}

/// Whether instruction `i`'s discriminant has a width of the two dialects
/// (one or eight bytes) and the width of the first instruction's.
pub open spec fn width_ok(ixs: Seq<NamedInstruction>, i: int) -> bool {
    match (discm_of(ixs[i]), discm_of(ixs[0])) {
        (Some(d), Some(d0)) => (d.len() == 1 || d.len() == 8) && d.len() == d0.len(),
        _ => true,
    }
}

/// Every discriminant is one or eight bytes wide, all of one width.
pub open spec fn widths_uniform(ixs: Seq<NamedInstruction>) -> bool {
    forall|i: int| 0 <= i < ixs.len() ==> #[trigger] width_ok(ixs, i)
}

/// The first width fault among the first `n` instructions.
pub open spec fn width_fault(ixs: Seq<NamedInstruction>, n: nat) -> Option<CodegenFault>
    decreases n,
{
    if n == 0 {
        None
    } else {
        match width_fault(ixs, (n - 1) as nat) {
            Some(f) => Some(f),
            None => if width_ok(ixs, n - 1) {
                None
            } else {
                Some(CodegenFault::DiscriminantWidth { instruction: ixs[n - 1].name@ })
            },
        }
    }
}

/// What is wrong with a program's discriminants: the first missing or
/// shared one, else the first of a width the program cannot have.
pub open spec fn program_fault(ixs: Seq<NamedInstruction>) -> Option<CodegenFault> {
    match discriminant_fault(ixs, ixs.len()) {
        Some(f) => Some(f),
        None => width_fault(ixs, ixs.len()),
    }
}

pub proof fn lemma_width_fault(ixs: Seq<NamedInstruction>, n: nat)
    requires
        n <= ixs.len(),
    ensures
        width_fault(ixs, n) is None <==> forall|i: int| 0 <= i < n ==> #[trigger] width_ok(ixs, i),
        width_fault(ixs, n) matches Some(f) ==> f is DiscriminantWidth,
    decreases n,
{
    if n > 0 {
        lemma_width_fault(ixs, (n - 1) as nat);
    }
}

proof fn lemma_width_fault_sticks(ixs: Seq<NamedInstruction>, m: nat, n: nat)
    requires
        m <= n,
        width_fault(ixs, m) is Some,
    ensures
        width_fault(ixs, n) == width_fault(ixs, m),
    decreases n - m,
{
    if m < n {
        lemma_width_fault_sticks(ixs, m, (n - 1) as nat);
    }
}

/// No program fault means exactly that every instruction has a discriminant,
/// no two share one, and all have one width of the two dialects.
pub proof fn lemma_program_fault(ixs: Seq<NamedInstruction>)
    ensures
        program_fault(ixs) is None <==> discriminants_unique(ixs) && widths_uniform(ixs),
        program_fault(ixs) matches Some(CodegenFault::DuplicateDiscriminant { first, second }) ==> exists|i: int, j: int|
            0 <= i < j < ixs.len() && discm_of(ixs[i]) == discm_of(ixs[j]) && ixs[i].name@ == first
                && ixs[j].name@ == second,
{
    lemma_discriminant_fault(ixs, ixs.len());
    lemma_width_fault(ixs, ixs.len());
    assert(ixs.take(ixs.len() as int) =~= ixs);
}

/// Checks a program's discriminants: each instruction has one, no two share
/// one, and all are one or all eight bytes wide.
pub fn check_program(ixs: &Vec<NamedInstruction>) -> (r: Result<(), CodegenError>)
    ensures
        match r {
            Ok(()) => program_fault(ixs@) is None,
            Err(e) => program_fault(ixs@) == Some(e@),
        },
        r is Ok <==> discriminants_unique(ixs@) && widths_uniform(ixs@),
{
    proof {
        lemma_program_fault(ixs@);
    }
    check_discriminants(ixs)?;
    let mut i: usize = 0;
    while i < ixs.len()
        invariant
            i <= ixs@.len(),
            width_fault(ixs@, i as nat) is None,
            discriminant_fault(ixs@, ixs@.len()) is None,
        decreases ixs@.len() - i,
    {
        let ok = match (&ixs[i].discriminant, &ixs[0].discriminant) {
            (Some(d), Some(d0)) => (d.value.len() == 1 || d.value.len() == 8) && d.value.len() == d0.value.len(),
            _ => true,
        };
        if !ok {
            proof {
                lemma_width_fault_sticks(ixs@, (i + 1) as nat, ixs@.len());
            }
            return Err(CodegenError::DiscriminantWidth { instruction: ixs[i].name.clone() });
        }
        i = i + 1;
    }
    Ok(())
}

/// Every instruction declares a discriminant.
pub open spec fn all_declared(ixs: Seq<NamedInstruction>) -> bool {
    forall|i: int| 0 <= i < ixs.len() ==> (#[trigger] discm_of(ixs[i])) is Some
}

/// Two instructions declare the same discriminant.
pub open spec fn some_shared(ixs: Seq<NamedInstruction>) -> bool {
    exists|i: int, j: int| 0 <= i < j < ixs.len() && discm_of(ixs[i]) == discm_of(ixs[j])
}

/// An instruction named `first` and a later one named `second` declare the
/// same discriminant.
pub open spec fn shared_by(ixs: Seq<NamedInstruction>, first: Seq<char>, second: Seq<char>) -> bool {
    exists|i: int, j: int|
        0 <= i < j < ixs.len() && discm_of(ixs[i]) == discm_of(ixs[j]) && ixs[i].name@ == first
            && ixs[j].name@ == second
}

/// Uniqueness at the program level: when every instruction declares a
/// discriminant and two share one, the program's fault is a duplicate that
/// names two instructions sharing one.
pub proof fn lemma_program_shared_rejected(ixs: Seq<NamedInstruction>)
    requires
        all_declared(ixs),
        some_shared(ixs),
    ensures
        program_fault(ixs) matches Some(CodegenFault::DuplicateDiscriminant { first, second }) && shared_by(
            ixs,
            first,
            second,
        ),
{
    let (a, b) = choose|i: int, j: int| 0 <= i < j < ixs.len() && discm_of(ixs[i]) == discm_of(ixs[j]);
    lemma_shared_discriminant_rejected(ixs, a, b);
}

} // verus!
