//! The wire format of instruction payloads: a value model, an encoder and a
//! decoder proved inverse to each other, discriminant framing and dispatch.

use crate::instructions::{discm_of, same_bytes, NamedInstruction, Pubkey};
use crate::typedefs::{
    find_typedef, primitive_kind, primitive_kind_of, typedef_names, NamedType, PrimitiveKind, TypedefField,
    TypedefFieldType, TypedefType,
};
use vstd::prelude::*;

verus! {

/// A value of a schema type, as a mathematical object.
pub ghost enum Val {
    Bool(bool),
    Unsigned(int),
    Signed(int),
    Text(Seq<u8>),
    Key(Seq<u8>),
    Array(Seq<Val>),
    Vector(Seq<Val>),
    Absent,
    Present(Box<Val>),
    Struct(Seq<Val>),
    Variant(nat),
}

/// `256^w`.
pub open spec fn pow256(w: nat) -> nat
    decreases w,
{
    if w == 0 {
        1
    } else {
        256 * pow256((w - 1) as nat)
    }
}

/// The `w` little-endian bytes of `n`.
pub open spec fn le_bytes(n: nat, w: nat) -> Seq<u8>
    decreases w,
{
    if w == 0 {
        Seq::empty()
    } else {
        seq![(n % 256) as u8] + le_bytes(n / 256, (w - 1) as nat)
    }
}

/// The number that little-endian bytes stand for.
pub open spec fn le_value(b: Seq<u8>) -> nat
    decreases b.len(),
{
    if b.len() == 0 {
        0
    } else {
        b[0] as nat + 256 * le_value(b.skip(1))
    }
}

/// The first typedef named `name`, if any.
pub open spec fn first_named(defs: Seq<NamedType>, name: Seq<char>, i: int) -> bool {
    &&& 0 <= i < defs.len()
    &&& defs[i].name@ == name
    &&& forall|j: int| 0 <= j < i ==> defs[j].name@ != name
}

pub open spec fn lookup(defs: Seq<NamedType>, name: Seq<char>) -> Option<NamedType> {
    if exists|i: int| first_named(defs, name, i) {
        Some(defs[choose|i: int| first_named(defs, name, i)])
    } else {
        None
    }
}

/// The wire form of a primitive value, if it fits the primitive.
pub open spec fn enc_prim(k: PrimitiveKind, v: Val) -> Option<Seq<u8>> {
    match (k, v) {
        (PrimitiveKind::Bool, Val::Bool(b)) => Some(seq![if b { 1u8 } else { 0u8 }]),
        (PrimitiveKind::Unsigned(w), Val::Unsigned(n)) => if 0 <= n < pow256(w as nat) {
            Some(le_bytes(n as nat, w as nat))
        } else {
            None
        },
        (PrimitiveKind::Signed(w), Val::Signed(n)) => if -(pow256(w as nat) / 2) <= n < pow256(w as nat) / 2 {
            Some(le_bytes((if n < 0 { n + pow256(w as nat) } else { n }) as nat, w as nat))
        } else {
            None
        },
        (PrimitiveKind::Text, Val::Text(s)) => if s.len() < pow256(4) {
            Some(le_bytes(s.len(), 4) + s)
        } else {
            None
        },
        (PrimitiveKind::Pubkey, Val::Key(s)) => if s.len() == 32 {
            Some(s)
        } else {
            None
        },
        _ => None,
    }
}

/// The wire form of `v` as a value of type `t`, or `None` if `v` is not
/// such a value within `fuel` levels of nesting: arrays without a length
/// prefix, vectors and texts after a 4-byte length, options after a presence
/// byte, struct fields in declared order, enum variants as one ordinal byte.
pub open spec fn enc(defs: Seq<NamedType>, t: TypedefFieldType, v: Val, fuel: nat) -> Option<Seq<u8>>
    decreases fuel, 0nat,
{
    if fuel == 0 {
        None
    } else {
        match t {
            TypedefFieldType::PrimitiveOrPubkey(s) => match primitive_kind(s@) {
                Some(k) => enc_prim(k, v),
                None => None,
            },
            TypedefFieldType::defined(name) => match lookup(defs, name@) {
                Some(td) => match (td.ty, v) {
                    (TypedefType::Struct(st), Val::Struct(vs)) => enc_fields(defs, st.fields@, vs, (fuel - 1) as nat),
                    (TypedefType::Enum(en), Val::Variant(i)) => if i < en.variants@.len() && i < 256 {
                        Some(seq![i as u8])
                    } else {
                        None
                    },
                    _ => None,
                },
                None => None,
            },
            TypedefFieldType::array(a) => match v {
                Val::Array(vs) => if vs.len() == a.1 {
                    enc_elems(defs, *a.0, vs, (fuel - 1) as nat)
                } else {
                    None
                },
                _ => None,
            },
            TypedefFieldType::vec(e) => match v {
                Val::Vector(vs) => if vs.len() < pow256(4) {
                    match enc_elems(defs, *e, vs, (fuel - 1) as nat) {
                        Some(b) => Some(le_bytes(vs.len(), 4) + b),
                        None => None,
                    }
                } else {
                    None
                },
                _ => None,
            },
            TypedefFieldType::option(o) => match v {
                Val::Absent => Some(seq![0u8]),
                Val::Present(x) => match enc(defs, *o, *x, (fuel - 1) as nat) {
                    Some(b) => Some(seq![1u8] + b),
                    None => None,
                },
                _ => None,
            },
        }
    }
}

/// The wire form of a sequence of values of one type, one after another.
pub open spec fn enc_elems(defs: Seq<NamedType>, t: TypedefFieldType, vs: Seq<Val>, fuel: nat) -> Option<Seq<u8>>
    decreases fuel, vs.len() + 1,
{
    if vs.len() == 0 {
        Some(Seq::empty())
    } else {
        match (enc(defs, t, vs[0], fuel), enc_elems(defs, t, vs.skip(1), fuel)) {
            (Some(a), Some(b)) => Some(a + b),
            _ => None,
        }
    }
}

/// The wire form of field values, in declared field order.
pub open spec fn enc_fields(defs: Seq<NamedType>, fs: Seq<TypedefField>, vs: Seq<Val>, fuel: nat) -> Option<Seq<u8>>
    decreases fuel, fs.len() + 1,
{
    if fs.len() == 0 {
        if vs.len() == 0 {
            Some(Seq::empty())
        } else {
            None
        }
    } else if vs.len() == 0 {
        None
    } else {
        match (enc(defs, fs[0].ty, vs[0], fuel), enc_fields(defs, fs.skip(1), vs.skip(1), fuel)) {
            (Some(a), Some(b)) => Some(a + b),
            _ => None,
        }
    }
}

/// Reads a primitive from the front of `b`: the value and the bytes used.
pub open spec fn dec_prim(k: PrimitiveKind, b: Seq<u8>) -> Option<(Val, nat)> {
    match k {
        PrimitiveKind::Bool => if b.len() >= 1 && b[0] <= 1 {
            Some((Val::Bool(b[0] == 1), 1))
        } else {
            None
        },
        PrimitiveKind::Unsigned(w) => if b.len() >= w {
            Some((Val::Unsigned(le_value(b.take(w as int)) as int), w as nat))
        } else {
            None
        },
        PrimitiveKind::Signed(w) => if b.len() >= w {
            let u = le_value(b.take(w as int));
            Some((Val::Signed(if u < pow256(w as nat) / 2 { u as int } else { u - pow256(w as nat) }), w as nat))
        } else {
            None
        },
        PrimitiveKind::Text => if b.len() >= 4 && b.len() >= 4 + le_value(b.take(4)) {
            let n = le_value(b.take(4));
            Some((Val::Text(b.subrange(4, 4 + n as int)), 4 + n))
        } else {
            None
        },
        PrimitiveKind::Pubkey => if b.len() >= 32 {
            Some((Val::Key(b.take(32)), 32))
        } else {
            None
        },
    }
}

/// Reads a value of type `t` from the front of `b`: the value and the bytes
/// used, or `None` if the bytes hold none within `fuel` levels of nesting.
pub open spec fn dec(defs: Seq<NamedType>, t: TypedefFieldType, b: Seq<u8>, fuel: nat) -> Option<(Val, nat)>
    decreases fuel, 0nat,
{
    if fuel == 0 {
        None
    } else {
        match t {
            TypedefFieldType::PrimitiveOrPubkey(s) => match primitive_kind(s@) {
                Some(k) => dec_prim(k, b),
                None => None,
            },
            TypedefFieldType::defined(name) => match lookup(defs, name@) {
                Some(td) => match td.ty {
                    TypedefType::Struct(st) => match dec_fields(defs, st.fields@, b, (fuel - 1) as nat) {
                        Some((vs, k)) => Some((Val::Struct(vs), k)),
                        None => None,
                    },
                    TypedefType::Enum(en) => if b.len() >= 1 && (b[0] as nat) < en.variants@.len() {
                        Some((Val::Variant(b[0] as nat), 1))
                    } else {
                        None
                    },
                },
                None => None,
            },
            TypedefFieldType::array(a) => match dec_elems(defs, *a.0, a.1 as nat, b, (fuel - 1) as nat) {
                Some((vs, k)) => Some((Val::Array(vs), k)),
                None => None,
            },
            TypedefFieldType::vec(e) => if b.len() >= 4 {
                match dec_elems(defs, *e, le_value(b.take(4)), b.skip(4), (fuel - 1) as nat) {
                    Some((vs, k)) => Some((Val::Vector(vs), 4 + k)),
                    None => None,
                }
            } else {
                None
            },
            TypedefFieldType::option(o) => if b.len() >= 1 && b[0] == 0 {
                Some((Val::Absent, 1))
            } else if b.len() >= 1 && b[0] == 1 {
                match dec(defs, *o, b.skip(1), (fuel - 1) as nat) {
                    Some((x, k)) => Some((Val::Present(Box::new(x)), 1 + k)),
                    None => None,
                }
            } else {
                None
            },
        }
    }
}

/// Reads `n` values of type `t`, one after another.
pub open spec fn dec_elems(defs: Seq<NamedType>, t: TypedefFieldType, n: nat, b: Seq<u8>, fuel: nat) -> Option<(Seq<Val>, nat)>
    decreases fuel, n + 1,
{
    if n == 0 {
        Some((Seq::empty(), 0))
    } else {
        match dec(defs, t, b, fuel) {
            Some((x, k)) => if k <= b.len() {
                match dec_elems(defs, t, (n - 1) as nat, b.skip(k as int), fuel) {
                    Some((xs, k2)) => Some((seq![x] + xs, k + k2)),
                    None => None,
                }
            } else {
                None
            },
            None => None,
        }
    }
}

/// Reads one value per field, in declared field order.
pub open spec fn dec_fields(defs: Seq<NamedType>, fs: Seq<TypedefField>, b: Seq<u8>, fuel: nat) -> Option<(Seq<Val>, nat)>
    decreases fuel, fs.len() + 1,
{
    if fs.len() == 0 {
        Some((Seq::empty(), 0))
    } else {
        match dec(defs, fs[0].ty, b, fuel) {
            Some((x, k)) => if k <= b.len() {
                match dec_fields(defs, fs.skip(1), b.skip(k as int), fuel) {
                    Some((xs, k2)) => Some((seq![x] + xs, k + k2)),
                    None => None,
                }
            } else {
                None
            },
            None => None,
        }
    }
}


pub proof fn lemma_pow256_positive(w: nat)
    ensures
        pow256(w) > 0,
        w > 0 ==> pow256(w) % 2 == 0,
    decreases w,
{
    if w > 0 {
        lemma_pow256_positive((w - 1) as nat);
    }
}

/// `w` little-endian bytes hold any `n` below `256^w` exactly.
pub proof fn lemma_le_round_trip(n: nat, w: nat)
    ensures
        le_bytes(n, w).len() == w,
        n < pow256(w) ==> le_value(le_bytes(n, w)) == n,
    decreases w,
{
    if w > 0 {
        let p = pow256((w - 1) as nat);
        lemma_le_round_trip(n / 256, (w - 1) as nat);
        let b = le_bytes(n, w);
        assert(b.skip(1) =~= le_bytes(n / 256, (w - 1) as nat));
        if n < pow256(w) {
            assert(n / 256 < p) by (nonlinear_arith)
                requires
                    n < 256 * p,
            ;
        }
    }
}

/// Decoding the wire form of a primitive value gives the value back, and
/// uses exactly its bytes.
pub proof fn lemma_prim_round_trip(k: PrimitiveKind, v: Val, rest: Seq<u8>)
    ensures
        enc_prim(k, v) matches Some(b) ==> dec_prim(k, b + rest) == Some((v, b.len())),
{
    match enc_prim(k, v) {
        Some(b) => {
            let all = b + rest;
            match (k, v) {
                (PrimitiveKind::Bool, Val::Bool(x)) => {
                    assert(all[0] == b[0]);
                },
                (PrimitiveKind::Unsigned(w), Val::Unsigned(n)) => {
                    lemma_le_round_trip(n as nat, w as nat);
                    assert(all.take(w as int) =~= b);
                },
                (PrimitiveKind::Signed(w), Val::Signed(n)) => {
                    let pw = pow256(w as nat);
                    let m = (if n < 0 { n + pw } else { n }) as nat;
                    lemma_pow256_positive(w as nat);
                    lemma_le_round_trip(m, w as nat);
                    assert(all.take(w as int) =~= b);
                },
                (PrimitiveKind::Text, Val::Text(t)) => {
                    lemma_le_round_trip(t.len(), 4);
                    assert(all.take(4) =~= le_bytes(t.len(), 4));
                    assert(all.subrange(4, 4 + t.len() as int) =~= t);
                },
                (PrimitiveKind::Pubkey, Val::Key(t)) => {
                    assert(all.take(32) =~= b);
                },
                _ => {},
            }
        },
        None => {},
    }
}

/// Decoding the wire form of a value of type `t` gives the value back, and
/// uses exactly its bytes, whatever follows them.
pub proof fn lemma_round_trip(defs: Seq<NamedType>, t: TypedefFieldType, v: Val, fuel: nat, rest: Seq<u8>)
    ensures
        enc(defs, t, v, fuel) matches Some(b) ==> dec(defs, t, b + rest, fuel) == Some((v, b.len())),
    decreases fuel, 0nat,
{
    if fuel > 0 {
        match enc(defs, t, v, fuel) {
            Some(b) => {
                let all = b + rest;
                match t {
                    TypedefFieldType::PrimitiveOrPubkey(s) => {
                        lemma_prim_round_trip(primitive_kind(s@)->Some_0, v, rest);
                    },
                    TypedefFieldType::defined(name) => {
                        let td = lookup(defs, name@)->Some_0;
                        match (td.ty, v) {
                            (TypedefType::Struct(st), Val::Struct(vs)) => {
                                lemma_fields_round_trip(defs, st.fields@, vs, (fuel - 1) as nat, rest);
                            },
                            (TypedefType::Enum(en), Val::Variant(i)) => {
                                assert(all[0] == b[0]);
                            },
                            _ => {},
                        }
                    },
                    TypedefFieldType::array(a) => {
                        let vs = v->Array_0;
                        lemma_elems_round_trip(defs, *a.0, vs, (fuel - 1) as nat, rest);
                    },
                    TypedefFieldType::vec(e) => {
                        let vs = v->Vector_0;
                        let eb = enc_elems(defs, *e, vs, (fuel - 1) as nat)->Some_0;
                        lemma_le_round_trip(vs.len(), 4);
                        assert(all.take(4) =~= le_bytes(vs.len(), 4));
                        assert(all.skip(4) =~= eb + rest);
                        lemma_elems_round_trip(defs, *e, vs, (fuel - 1) as nat, rest);
                    },
                    TypedefFieldType::option(o) => {
                        match v {
                            Val::Present(x) => {
                                let xb = enc(defs, *o, *x, (fuel - 1) as nat)->Some_0;
                                assert(all[0] == 1u8);
                                assert(all.skip(1) =~= xb + rest);
                                lemma_round_trip(defs, *o, *x, (fuel - 1) as nat, rest);
                            },
                            _ => {
                                assert(all[0] == 0u8);
                            },
                        }
                    },
                }
            },
            None => {},
        }
    }
}

pub proof fn lemma_elems_round_trip(defs: Seq<NamedType>, t: TypedefFieldType, vs: Seq<Val>, fuel: nat, rest: Seq<u8>)
    ensures
        enc_elems(defs, t, vs, fuel) matches Some(b) ==> dec_elems(defs, t, vs.len(), b + rest, fuel) == Some((vs, b.len())),
    decreases fuel, vs.len() + 1,
{
    if vs.len() > 0 {
        match enc_elems(defs, t, vs, fuel) {
            Some(b) => {
                let a = enc(defs, t, vs[0], fuel)->Some_0;
                let b2 = enc_elems(defs, t, vs.skip(1), fuel)->Some_0;
                assert(b + rest =~= a + (b2 + rest));
                lemma_round_trip(defs, t, vs[0], fuel, b2 + rest);
                assert((b + rest).skip(a.len() as int) =~= b2 + rest);
                lemma_elems_round_trip(defs, t, vs.skip(1), fuel, rest);
                assert(seq![vs[0]] + vs.skip(1) =~= vs);
            },
            None => {},
        }
    }
}

pub proof fn lemma_fields_round_trip(defs: Seq<NamedType>, fs: Seq<TypedefField>, vs: Seq<Val>, fuel: nat, rest: Seq<u8>)
    ensures
        enc_fields(defs, fs, vs, fuel) matches Some(b) ==> dec_fields(defs, fs, b + rest, fuel) == Some((vs, b.len())),
    decreases fuel, fs.len() + 1,
{
    if fs.len() > 0 && vs.len() > 0 {
        match enc_fields(defs, fs, vs, fuel) {
            Some(b) => {
                let a = enc(defs, fs[0].ty, vs[0], fuel)->Some_0;
                let b2 = enc_fields(defs, fs.skip(1), vs.skip(1), fuel)->Some_0;
                assert(b + rest =~= a + (b2 + rest));
                lemma_round_trip(defs, fs[0].ty, vs[0], fuel, b2 + rest);
                assert((b + rest).skip(a.len() as int) =~= b2 + rest);
                lemma_fields_round_trip(defs, fs.skip(1), vs.skip(1), fuel, rest);
                assert(seq![vs[0]] + vs.skip(1) =~= vs);
            },
            None => {},
        }
    }
}


/// A value of a schema type.
#[derive(Debug, PartialEq)]
pub enum ArgValue {
    Bool(bool),
    Unsigned(u128),
    Signed(i128),
    /// The UTF-8 bytes of a text.
    Text(Vec<u8>),
    Key(Pubkey),
    Array(Vec<ArgValue>),
    Vector(Vec<ArgValue>),
    Optional(Option<Box<ArgValue>>),
    Struct(Vec<ArgValue>),
    Variant(u8),
}

/// The mathematical value an [`ArgValue`] stands for.
pub open spec fn model(v: ArgValue) -> Val
    decreases v,
{
    match v {
        ArgValue::Bool(b) => Val::Bool(b),
        ArgValue::Unsigned(n) => Val::Unsigned(n as int),
        ArgValue::Signed(n) => Val::Signed(n as int),
        ArgValue::Text(t) => Val::Text(t@),
        ArgValue::Key(k) => Val::Key(k.0@),
        ArgValue::Array(vs) => Val::Array(models(vs@)),
        ArgValue::Vector(vs) => Val::Vector(models(vs@)),
        ArgValue::Optional(o) => match o {
            Some(x) => Val::Present(Box::new(model(*x))),
            None => Val::Absent,
        },
        ArgValue::Struct(vs) => Val::Struct(models(vs@)),
        ArgValue::Variant(i) => Val::Variant(i as nat),
    }
}

pub open spec fn models(vs: Seq<ArgValue>) -> Seq<Val>
    decreases vs,
{
    if vs.len() == 0 {
        Seq::empty()
    } else {
        models(vs.drop_last()).push(model(vs.last()))
    }
}

pub proof fn lemma_models(vs: Seq<ArgValue>)
    ensures
        models(vs).len() == vs.len(),
        forall|i: int| 0 <= i < vs.len() ==> #[trigger] models(vs)[i] == model(vs[i]),
    decreases vs.len(),
{
    if vs.len() > 0 {
        lemma_models(vs.drop_last());
    }
}

/// The deepest nesting of values the codec handles.
pub const MAX_NESTING: u64 = 32;

fn width_max(w: u8) -> (r: u128)
    requires
        w == 1 || w == 2 || w == 4 || w == 8 || w == 16,
    ensures
        r as int + 1 == pow256(w as nat),
{
    proof {
        reveal_with_fuel(pow256, 17);
    }
    if w == 1 {
        0xff
    } else if w == 2 {
        0xffff
    } else if w == 4 {
        0xffff_ffff
    } else if w == 8 {
        0xffff_ffff_ffff_ffff
    } else {
        0xffff_ffff_ffff_ffff_ffff_ffff_ffff_ffff
    }
}

fn push_le(out: &mut Vec<u8>, n: u128, w: u8)
    ensures
        final(out)@ == old(out)@ + le_bytes(n as nat, w as nat),
{
    let ghost start = old(out)@;
    let mut x = n;
    let mut i: u8 = 0;
    while i < w
        invariant
            i <= w,
            start + le_bytes(n as nat, w as nat) == out@ + le_bytes(x as nat, (w - i) as nat),
        decreases w - i,
    {
        let ghost before = out@;
        let ghost k = (w - i) as nat;
        proof {
            assert(le_bytes(x as nat, k) == seq![(x as nat % 256) as u8] + le_bytes(x as nat / 256, (k - 1) as nat));
        }
        out.push((x % 256) as u8);
        proof {
            assert(before + le_bytes(x as nat, k) =~= out@ + le_bytes((x / 256) as nat, (k - 1) as nat));
        }
        x = x / 256;
        i = i + 1;
    }
    proof {
        assert(out@ + le_bytes(x as nat, 0) =~= out@);
    }
}

/// The first typedef named `name` is the one the codec looks up.
proof fn lemma_lookup(defs: Seq<NamedType>, name: Seq<char>, i: int)
    requires
        first_named(defs, name, i),
    ensures
        lookup(defs, name) == Some(defs[i]),
{
    let j = choose|j: int| first_named(defs, name, j);
    if j < i {
        assert(defs[j].name@ != name);
    } else if i < j {
        assert(defs[i].name@ != name);
    }
}

fn find_def<'a>(defs: &'a Vec<NamedType>, name: &str) -> (r: Option<&'a NamedType>)
    ensures
        match r {
            Some(td) => lookup(defs@, name@) == Some(*td),
            None => lookup(defs@, name@) is None,
        },
{
    match find_typedef(defs, name) {
        Some(i) => {
            proof {
                lemma_lookup(defs@, name@, i as int);
            }
            Some(&defs[i])
        },
        None => None,
    }
}

proof fn lemma_fields_len(defs: Seq<NamedType>, fs: Seq<TypedefField>, vs: Seq<Val>, fuel: nat)
    ensures
        enc_fields(defs, fs, vs, fuel) is Some ==> fs.len() == vs.len(),
    decreases fs.len(),
{
    if fs.len() > 0 && vs.len() > 0 {
        lemma_fields_len(defs, fs.skip(1), vs.skip(1), fuel);
    }
}

/// Whether a primitive kind is one the primitive table gives.
pub open spec fn table_kind(k: PrimitiveKind) -> bool {
    match k {
        PrimitiveKind::Unsigned(w) => w == 1 || w == 2 || w == 4 || w == 8 || w == 16,
        PrimitiveKind::Signed(w) => w == 1 || w == 2 || w == 4 || w == 8 || w == 16,
        _ => true,
    }
}

fn push_bytes(out: &mut Vec<u8>, b: &Vec<u8>)
    ensures
        final(out)@ == old(out)@ + b@,
{
    let ghost start = old(out)@;
    let mut i: usize = 0;
    while i < b.len()
        invariant
            i <= b@.len(),
            out@ == start + b@.take(i as int),
        decreases b@.len() - i,
    {
        out.push(b[i]);
        proof {
            assert(start + b@.take(i + 1) =~= out@);
        }
        i = i + 1;
    }
    proof {
        assert(b@.take(i as int) =~= b@);
    }
}

fn encode_prim(k: PrimitiveKind, v: &ArgValue, out: &mut Vec<u8>) -> (ok: bool)
    requires
        table_kind(k),
    ensures
        ok == enc_prim(k, model(*v)) is Some,
        ok ==> final(out)@ == old(out)@ + enc_prim(k, model(*v))->Some_0,
{
    match (k, v) {
        (PrimitiveKind::Bool, ArgValue::Bool(b)) => {
            out.push(if *b { 1u8 } else { 0u8 });
            proof {
                assert(out@ =~= old(out)@ + enc_prim(k, model(*v))->Some_0);
            }
            true
        },
        (PrimitiveKind::Unsigned(w), ArgValue::Unsigned(n)) => {
            let maxw = width_max(w);
            if *n > maxw {
                false
            } else {
                push_le(out, *n, w);
                true
            }
        },
        (PrimitiveKind::Signed(w), ArgValue::Signed(n)) => {
            let maxw = width_max(w);
            let half = maxw / 2;
            proof {
                lemma_pow256_positive(w as nat);
            }
            if *n >= 0 {
                if (*n as u128) > half {
                    false
                } else {
                    push_le(out, *n as u128, w);
                    true
                }
            } else {
                let m = (-(*n + 1)) as u128;
                if m > half {
                    false
                } else {
                    push_le(out, maxw - m, w);
                    true
                }
            }
        },
        (PrimitiveKind::Text, ArgValue::Text(t)) => {
            proof {
                reveal_with_fuel(pow256, 5);
            }
            if t.len() > 0xffff_ffff {
                false
            } else {
                push_le(out, t.len() as u128, 4);
                push_bytes(out, t);
                proof {
                    assert(out@ =~= old(out)@ + enc_prim(k, model(*v))->Some_0);
                }
                true
            }
        },
        (PrimitiveKind::Pubkey, ArgValue::Key(key)) => {
            let ghost start = old(out)@;
            let mut i: usize = 0;
            while i < 32
                invariant
                    i <= 32,
                    key.0@.len() == 32,
                    out@ == start + key.0@.take(i as int),
                decreases 32 - i,
            {
                out.push(key.0[i]);
                proof {
                    assert(start + key.0@.take(i + 1) =~= out@);
                }
                i = i + 1;
            }
            proof {
                assert(key.0@.take(32) =~= key.0@);
            }
            true
        },
        _ => false,
    }
}

proof fn lemma_table_kind(s: Seq<char>)
    ensures
        primitive_kind(s) matches Some(k) ==> table_kind(k),
{
}

/// Appends the wire form of `v` as a value of type `t`; `false`, with `out`
/// left in no particular state, if `v` is not such a value.
fn encode_value(defs: &Vec<NamedType>, t: &TypedefFieldType, v: &ArgValue, fuel: u64, out: &mut Vec<u8>) -> (ok: bool)
    ensures
        ok == enc(defs@, *t, model(*v), fuel as nat) is Some,
        ok ==> final(out)@ == old(out)@ + enc(defs@, *t, model(*v), fuel as nat)->Some_0,
    decreases fuel, 0nat,
{
    if fuel == 0 {
        return false;
    }
    match t {
        TypedefFieldType::PrimitiveOrPubkey(s) => match primitive_kind_of(s.as_str()) {
            Some(k) => {
                proof {
                    lemma_table_kind(s@);
                }
                encode_prim(k, v, out)
            },
            None => false,
        },
        TypedefFieldType::defined(name) => match find_def(defs, name.as_str()) {
            Some(td) => match (&td.ty, v) {
                (TypedefType::Struct(st), ArgValue::Struct(vs)) => encode_fields(defs, &st.fields, vs, fuel - 1, out),
                (TypedefType::Enum(en), ArgValue::Variant(i)) => {
                    if (*i as usize) < en.variants.len() {
                        out.push(*i);
                        proof {
                            assert(out@ =~= old(out)@ + enc(defs@, *t, model(*v), fuel as nat)->Some_0);
                        }
                        true
                    } else {
                        false
                    }
                },
                _ => false,
            },
            None => false,
        },
        TypedefFieldType::array(a) => match v {
            ArgValue::Array(vs) => {
                proof {
                    lemma_models(vs@);
                }
                if vs.len() as u64 != a.1 as u64 {
                    false
                } else {
                    encode_elems(defs, &a.0, vs, fuel - 1, out)
                }
            },
            _ => false,
        },
        TypedefFieldType::vec(e) => match v {
            ArgValue::Vector(vs) => {
                proof {
                    lemma_models(vs@);
                    reveal_with_fuel(pow256, 5);
                }
                if vs.len() > 0xffff_ffff {
                    false
                } else {
                    let ghost start = old(out)@;
                    push_le(out, vs.len() as u128, 4);
                    let ghost mid = out@;
                    let ok = encode_elems(defs, e, vs, fuel - 1, out);
                    proof {
                        if ok {
                            assert(out@ =~= start + enc(defs@, *t, model(*v), fuel as nat)->Some_0);
                        }
                    }
                    ok
                }
            },
            _ => false,
        },
        TypedefFieldType::option(o) => match v {
            ArgValue::Optional(None) => {
                out.push(0u8);
                proof {
                    assert(out@ =~= old(out)@ + enc(defs@, *t, model(*v), fuel as nat)->Some_0);
                }
                true
            },
            ArgValue::Optional(Some(x)) => {
                let ghost start = old(out)@;
                out.push(1u8);
                let ok = encode_value(defs, o, x, fuel - 1, out);
                proof {
                    if ok {
                        assert(out@ =~= start + enc(defs@, *t, model(*v), fuel as nat)->Some_0);
                    }
                }
                ok
            },
            _ => false,
        },
    }
}

fn encode_elems(defs: &Vec<NamedType>, t: &TypedefFieldType, vs: &Vec<ArgValue>, fuel: u64, out: &mut Vec<u8>) -> (ok: bool)
    ensures
        ok == enc_elems(defs@, *t, models(vs@), fuel as nat) is Some,
        ok ==> final(out)@ == old(out)@ + enc_elems(defs@, *t, models(vs@), fuel as nat)->Some_0,
    decreases fuel, 1nat,
{
    let ghost ms = models(vs@);
    let ghost start = old(out)@;
    proof {
        lemma_models(vs@);
    }
    proof {
        assert(ms.skip(0) =~= ms);
        assert(out@.skip(start.len() as int) =~= Seq::<u8>::empty());
        match enc_elems(defs@, *t, ms, fuel as nat) {
            Some(r) => {
                assert(Seq::<u8>::empty() + r =~= r);
            },
            None => {},
        }
    }
    let mut i: usize = 0;
    while i < vs.len()
        invariant
            i <= vs@.len(),
            ms == models(vs@),
            ms.len() == vs@.len(),
            forall|j: int| 0 <= j < vs@.len() ==> #[trigger] ms[j] == model(vs@[j]),
            start.len() <= out@.len(),
            out@.take(start.len() as int) == start,
            enc_elems(defs@, *t, ms, fuel as nat) == match enc_elems(defs@, *t, ms.skip(i as int), fuel as nat) {
                Some(r) => Some(out@.skip(start.len() as int) + r),
                None => None::<Seq<u8>>,
            },
        decreases vs@.len() - i,
    {
        let ghost before = out@;
        proof {
            assert(ms.skip(i as int)[0] == ms[i as int]);
            assert(ms.skip(i as int).skip(1) =~= ms.skip(i + 1));
        }
        let ok = encode_value(defs, t, &vs[i], fuel, out);
        if !ok {
            return false;
        }
        proof {
            assert(out@.take(start.len() as int) =~= start);
            assert(out@.skip(start.len() as int) =~= before.skip(start.len() as int) + enc(defs@, *t, ms[i as int], fuel as nat)->Some_0);
        }
        i = i + 1;
    }
    proof {
        assert(ms.skip(i as int) =~= Seq::<Val>::empty());
        assert(out@ =~= start + out@.skip(start.len() as int));
    }
    true
}

fn encode_fields(defs: &Vec<NamedType>, fs: &Vec<TypedefField>, vs: &Vec<ArgValue>, fuel: u64, out: &mut Vec<u8>) -> (ok: bool)
    ensures
        ok == enc_fields(defs@, fs@, models(vs@), fuel as nat) is Some,
        ok ==> final(out)@ == old(out)@ + enc_fields(defs@, fs@, models(vs@), fuel as nat)->Some_0,
    decreases fuel, 1nat,
{
    let ghost ms = models(vs@);
    let ghost start = old(out)@;
    proof {
        lemma_models(vs@);
        lemma_fields_len(defs@, fs@, ms, fuel as nat);
    }
    if fs.len() != vs.len() {
        return false;
    }
    proof {
        assert(ms.skip(0) =~= ms);
        assert(fs@.skip(0) =~= fs@);
        assert(out@.skip(start.len() as int) =~= Seq::<u8>::empty());
        match enc_fields(defs@, fs@, ms, fuel as nat) {
            Some(r) => {
                assert(Seq::<u8>::empty() + r =~= r);
            },
            None => {},
        }
    }
    let mut i: usize = 0;
    while i < vs.len()
        invariant
            i <= vs@.len(),
            fs@.len() == vs@.len(),
            ms == models(vs@),
            ms.len() == vs@.len(),
            forall|j: int| 0 <= j < vs@.len() ==> #[trigger] ms[j] == model(vs@[j]),
            start.len() <= out@.len(),
            out@.take(start.len() as int) == start,
            enc_fields(defs@, fs@, ms, fuel as nat) == match enc_fields(defs@, fs@.skip(i as int), ms.skip(i as int), fuel as nat) {
                Some(r) => Some(out@.skip(start.len() as int) + r),
                None => None::<Seq<u8>>,
            },
        decreases vs@.len() - i,
    {
        let ghost before = out@;
        proof {
            assert(ms.skip(i as int)[0] == ms[i as int]);
            assert(ms.skip(i as int).skip(1) =~= ms.skip(i + 1));
            assert(fs@.skip(i as int)[0] == fs@[i as int]);
            assert(fs@.skip(i as int).skip(1) =~= fs@.skip(i + 1));
        }
        let ok = encode_value(defs, &fs[i].ty, &vs[i], fuel, out);
        if !ok {
            return false;
        }
        proof {
            assert(out@.take(start.len() as int) =~= start);
            assert(out@.skip(start.len() as int) =~= before.skip(start.len() as int) + enc(defs@, fs@[i as int].ty, ms[i as int], fuel as nat)->Some_0);
        }
        i = i + 1;
    }
    proof {
        assert(ms.skip(i as int) =~= Seq::<Val>::empty());
        assert(fs@.skip(i as int) =~= Seq::<TypedefField>::empty());
        assert(out@ =~= start + out@.skip(start.len() as int));
    }
    true
}


pub proof fn lemma_pow256_mono(a: nat, b: nat)
    requires
        a <= b,
    ensures
        pow256(a) <= pow256(b),
    decreases b,
{
    if a < b {
        lemma_pow256_mono(a, (b - 1) as nat);
        lemma_pow256_positive((b - 1) as nat);
    }
}

/// Reads `w` little-endian bytes at `pos`.
fn read_le(b: &Vec<u8>, pos: usize, w: u8) -> (r: u128)
    requires
        pos + w <= b@.len(),
        w <= 16,
    ensures
        r as nat == le_value(b@.subrange(pos as int, pos + w)),
        (r as nat) < pow256(w as nat),
{
    let len = b.len();
    let mut acc: u128 = 0;
    let mut j: u8 = w;
    proof {
        assert(b@.subrange(pos + w, pos + w) =~= Seq::<u8>::empty());
    }
    while j > 0
        invariant
            j <= w <= 16,
            pos + w <= b@.len(),
            len == b@.len(),
            acc as nat == le_value(b@.subrange(pos + j, pos + w)),
            (acc as nat) < pow256((w - j) as nat),
        decreases j,
    {
        j = j - 1;
        let byte = b[pos + j as usize];
        proof {
            let s = b@.subrange(pos + j, pos + w);
            assert(s[0] == byte);
            assert(s.skip(1) =~= b@.subrange(pos + j + 1, pos + w));
            lemma_pow256_mono((w - j) as nat, 16);
            reveal_with_fuel(pow256, 17);
            let p = pow256((w - j - 1) as nat);
            assert(pow256((w - j) as nat) == 256 * p);
            assert(acc * 256 + byte < 256 * p) by (nonlinear_arith)
                requires
                    acc < p,
                    byte < 256,
            ;
        }
        acc = acc * 256 + byte as u128;
    }
    acc
}

fn decode_prim(k: PrimitiveKind, b: &Vec<u8>, pos: usize) -> (r: Option<(ArgValue, usize)>)
    requires
        table_kind(k),
        pos <= b@.len(),
    ensures
        match dec_prim(k, b@.skip(pos as int)) {
            Some((v, n)) => r matches Some((x, p)) && model(x) == v && p == pos + n && p <= b@.len(),
            None => r is None,
        },
{
    let ghost rest = b@.skip(pos as int);
    let avail = b.len() - pos;
    match k {
        PrimitiveKind::Bool => {
            if avail >= 1 && b[pos] <= 1 {
                Some((ArgValue::Bool(b[pos] == 1), pos + 1))
            } else {
                None
            }
        },
        PrimitiveKind::Unsigned(w) => {
            if avail >= w as usize {
                let u = read_le(b, pos, w);
                proof {
                    assert(rest.take(w as int) =~= b@.subrange(pos as int, pos + w));
                }
                Some((ArgValue::Unsigned(u), pos + w as usize))
            } else {
                None
            }
        },
        PrimitiveKind::Signed(w) => {
            if avail >= w as usize {
                let u = read_le(b, pos, w);
                let maxw = width_max(w);
                let half = maxw / 2;
                proof {
                    assert(rest.take(w as int) =~= b@.subrange(pos as int, pos + w));
                    lemma_pow256_positive(w as nat);
                }
                let n: i128 = if u <= half {
                    u as i128
                } else {
                    -((maxw - u) as i128) - 1
                };
                Some((ArgValue::Signed(n), pos + w as usize))
            } else {
                None
            }
        },
        PrimitiveKind::Text => {
            proof {
                reveal_with_fuel(pow256, 5);
            }
            if avail >= 4 {
                let n = read_le(b, pos, 4);
                proof {
                    assert(rest.take(4) =~= b@.subrange(pos as int, pos + 4));
                }
                if ((avail - 4) as u128) >= n {
                    let start = pos + 4;
                    let end = start + n as usize;
                    let mut t: Vec<u8> = Vec::new();
                    let mut i: usize = start;
                    while i < end
                        invariant
                            start <= i <= end <= b@.len(),
                            t@ == b@.subrange(start as int, i as int),
                        decreases end - i,
                    {
                        t.push(b[i]);
                        proof {
                            assert(t@ =~= b@.subrange(start as int, i + 1));
                        }
                        i = i + 1;
                    }
                    proof {
                        assert(rest.subrange(4, 4 + n as int) =~= b@.subrange(start as int, end as int));
                    }
                    Some((ArgValue::Text(t), end))
                } else {
                    None
                }
            } else {
                None
            }
        },
        PrimitiveKind::Pubkey => {
            if avail >= 32 {
                let mut key = [0u8; 32];
                let mut i: usize = 0;
                while i < 32
                    invariant
                        i <= 32,
                        pos + 32 <= b@.len(),
                        b@.len() <= usize::MAX,
                        key@.len() == 32,
                        forall|j: int| 0 <= j < i ==> key@[j] == b@[pos + j],
                    decreases 32 - i,
                {
                    key[i] = b[pos + i];
                    i = i + 1;
                }
                proof {
                    assert(key@ =~= rest.take(32));
                }
                Some((ArgValue::Key(Pubkey(key)), pos + 32))
            } else {
                None
            }
        },
    }
}

/// Reads a value of type `t` at `pos`: the value and the position after it.
fn decode_value(defs: &Vec<NamedType>, t: &TypedefFieldType, b: &Vec<u8>, pos: usize, fuel: u64) -> (r: Option<(ArgValue, usize)>)
    requires
        pos <= b@.len(),
    ensures
        match dec(defs@, *t, b@.skip(pos as int), fuel as nat) {
            Some((v, n)) => r matches Some((x, p)) && model(x) == v && p == pos + n && p <= b@.len(),
            None => r is None,
        },
    decreases fuel, 0nat,
{
    if fuel == 0 {
        return None;
    }
    let ghost rest = b@.skip(pos as int);
    match t {
        TypedefFieldType::PrimitiveOrPubkey(s) => match primitive_kind_of(s.as_str()) {
            Some(k) => {
                proof {
                    lemma_table_kind(s@);
                }
                decode_prim(k, b, pos)
            },
            None => None,
        },
        TypedefFieldType::defined(name) => match find_def(defs, name.as_str()) {
            Some(td) => match &td.ty {
                TypedefType::Struct(st) => match decode_fields(defs, &st.fields, b, pos, fuel - 1) {
                    Some((vs, p)) => Some((ArgValue::Struct(vs), p)),
                    None => None,
                },
                TypedefType::Enum(en) => {
                    if pos < b.len() && (b[pos] as usize) < en.variants.len() {
                        Some((ArgValue::Variant(b[pos]), pos + 1))
                    } else {
                        None
                    }
                },
            },
            None => None,
        },
        TypedefFieldType::array(a) => match decode_elems(defs, &a.0, a.1 as usize, b, pos, fuel - 1) {
            Some((vs, p)) => Some((ArgValue::Array(vs), p)),
            None => None,
        },
        TypedefFieldType::vec(e) => {
            if b.len() - pos >= 4 {
                let n = read_le(b, pos, 4);
                proof {
                    reveal_with_fuel(pow256, 5);
                    assert(rest.take(4) =~= b@.subrange(pos as int, pos + 4));
                    assert(rest.skip(4) =~= b@.skip(pos + 4));
                }
                match decode_elems(defs, e, n as usize, b, pos + 4, fuel - 1) {
                    Some((vs, p)) => Some((ArgValue::Vector(vs), p)),
                    None => None,
                }
            } else {
                None
            }
        },
        TypedefFieldType::option(o) => {
            if pos < b.len() && b[pos] == 0 {
                Some((ArgValue::Optional(None), pos + 1))
            } else if pos < b.len() && b[pos] == 1 {
                proof {
                    assert(rest.skip(1) =~= b@.skip(pos + 1));
                }
                match decode_value(defs, o, b, pos + 1, fuel - 1) {
                    Some((x, p)) => Some((ArgValue::Optional(Some(Box::new(x))), p)),
                    None => None,
                }
            } else {
                None
            }
        },
    }
}

fn decode_elems(defs: &Vec<NamedType>, t: &TypedefFieldType, n: usize, b: &Vec<u8>, pos: usize, fuel: u64) -> (r: Option<(Vec<ArgValue>, usize)>)
    requires
        pos <= b@.len(),
    ensures
        match dec_elems(defs@, *t, n as nat, b@.skip(pos as int), fuel as nat) {
            Some((vs, k)) => r matches Some((xs, p)) && models(xs@) == vs && p == pos + k && p <= b@.len(),
            None => r is None,
        },
    decreases fuel, 1nat,
{
    let ghost whole = dec_elems(defs@, *t, n as nat, b@.skip(pos as int), fuel as nat);
    let mut out: Vec<ArgValue> = Vec::new();
    let mut p = pos;
    let mut i: usize = 0;
    proof {
        match whole {
            Some((xs, k2)) => {
                assert(Seq::<Val>::empty() + xs =~= xs);
            },
            None => {},
        }
    }
    while i < n
        invariant
            i <= n,
            pos <= p <= b@.len(),
            whole == dec_elems(defs@, *t, n as nat, b@.skip(pos as int), fuel as nat),
            whole == match dec_elems(defs@, *t, (n - i) as nat, b@.skip(p as int), fuel as nat) {
                Some((xs, k2)) => Some((models(out@) + xs, ((p - pos) + k2) as nat)),
                None => None::<(Seq<Val>, nat)>,
            },
        decreases n - i,
    {
        match decode_value(defs, t, b, p, fuel) {
            Some((x, p2)) => {
                let ghost before = out@;
                proof {
                    assert(b@.skip(p as int).skip(p2 - p) =~= b@.skip(p2 as int));
                }
                out.push(x);
                proof {
                    assert(out@.drop_last() =~= before);
                    match dec_elems(defs@, *t, (n - i - 1) as nat, b@.skip(p2 as int), fuel as nat) {
                        Some((xs, k2)) => {
                            assert(models(before) + (seq![model(x)] + xs) =~= models(out@) + xs);
                        },
                        None => {},
                    }
                }
                p = p2;
            },
            None => {
                return None;
            },
        }
        i = i + 1;
    }
    proof {
        assert(models(out@) + Seq::<Val>::empty() =~= models(out@));
    }
    Some((out, p))
}

fn decode_fields(defs: &Vec<NamedType>, fs: &Vec<TypedefField>, b: &Vec<u8>, pos: usize, fuel: u64) -> (r: Option<(Vec<ArgValue>, usize)>)
    requires
        pos <= b@.len(),
    ensures
        match dec_fields(defs@, fs@, b@.skip(pos as int), fuel as nat) {
            Some((vs, k)) => r matches Some((xs, p)) && models(xs@) == vs && p == pos + k && p <= b@.len(),
            None => r is None,
        },
    decreases fuel, 1nat,
{
    let ghost whole = dec_fields(defs@, fs@, b@.skip(pos as int), fuel as nat);
    let mut out: Vec<ArgValue> = Vec::new();
    let mut p = pos;
    let mut i: usize = 0;
    proof {
        assert(fs@.skip(0) =~= fs@);
        match whole {
            Some((xs, k2)) => {
                assert(Seq::<Val>::empty() + xs =~= xs);
            },
            None => {},
        }
    }
    while i < fs.len()
        invariant
            i <= fs@.len(),
            pos <= p <= b@.len(),
            whole == dec_fields(defs@, fs@, b@.skip(pos as int), fuel as nat),
            whole == match dec_fields(defs@, fs@.skip(i as int), b@.skip(p as int), fuel as nat) {
                Some((xs, k2)) => Some((models(out@) + xs, ((p - pos) + k2) as nat)),
                None => None::<(Seq<Val>, nat)>,
            },
        decreases fs@.len() - i,
    {
        proof {
            assert(fs@.skip(i as int)[0] == fs@[i as int]);
            assert(fs@.skip(i as int).skip(1) =~= fs@.skip(i + 1));
        }
        match decode_value(defs, &fs[i].ty, b, p, fuel) {
            Some((x, p2)) => {
                let ghost before = out@;
                proof {
                    assert(b@.skip(p as int).skip(p2 - p) =~= b@.skip(p2 as int));
                }
                out.push(x);
                proof {
                    assert(out@.drop_last() =~= before);
                    match dec_fields(defs@, fs@.skip(i + 1), b@.skip(p2 as int), fuel as nat) {
                        Some((xs, k2)) => {
                            assert(models(before) + (seq![model(x)] + xs) =~= models(out@) + xs);
                        },
                        None => {},
                    }
                }
                p = p2;
            },
            None => {
                return None;
            },
        }
        i = i + 1;
    }
    proof {
        assert(fs@.skip(i as int) =~= Seq::<TypedefField>::empty());
        assert(models(out@) + Seq::<Val>::empty() =~= models(out@));
    }
    Some((out, p))
}


/// Why a payload did not decode.
#[derive(Debug, PartialEq, Eq)]
pub enum DecodeError {
    /// The instruction declares no discriminant.
    MissingDiscriminant,
    /// The payload's leading bytes are not the instruction's discriminant.
    DiscriminantMismatch { expected: Vec<u8>, received: Vec<u8> },
    /// No instruction's discriminant leads the payload.
    UnknownDiscriminant,
    /// The bytes after the discriminant hold no arguments of the declared types.
    Malformed,
}

pub ghost enum DecodeFault {
    MissingDiscriminant,
    DiscriminantMismatch { expected: Seq<u8>, received: Seq<u8> },
    UnknownDiscriminant,
    Malformed,
}

impl View for DecodeError {
    type V = DecodeFault;

    open spec fn view(&self) -> DecodeFault {
        match self {
            DecodeError::MissingDiscriminant => DecodeFault::MissingDiscriminant,
            DecodeError::DiscriminantMismatch { expected, received } => DecodeFault::DiscriminantMismatch {
                expected: expected@,
                received: received@,
            },
            DecodeError::UnknownDiscriminant => DecodeFault::UnknownDiscriminant,
            DecodeError::Malformed => DecodeFault::Malformed,
        }
    }
}

/// The payload of an instruction: its discriminant, then its arguments in
/// declared order; `None` without a discriminant or if the values are not
/// arguments of the declared types.
pub open spec fn ix_payload(types: Seq<NamedType>, ix: NamedInstruction, args: Seq<Val>) -> Option<Seq<u8>> {
    match (discm_of(ix), enc_fields(types, ix.args@, args, MAX_NESTING as nat)) {
        (Some(d), Some(b)) => Some(d + b),
        _ => None,
    }
}

/// What decoding `bytes` as a payload of `ix` gives: the discriminant is read
/// and checked first; then the arguments, in declared order. Bytes after
/// the arguments are left unread.
pub open spec fn decode_payload(types: Seq<NamedType>, ix: NamedInstruction, bytes: Seq<u8>) -> Result<Seq<Val>, DecodeFault> {
    match discm_of(ix) {
        None => Err(DecodeFault::MissingDiscriminant),
        Some(d) => if bytes.len() < d.len() {
            Err(DecodeFault::DiscriminantMismatch { expected: d, received: bytes })
        } else if bytes.take(d.len() as int) != d {
            Err(DecodeFault::DiscriminantMismatch { expected: d, received: bytes.take(d.len() as int) })
        } else {
            match dec_fields(types, ix.args@, bytes.skip(d.len() as int), MAX_NESTING as nat) {
                Some((vs, _)) => Ok(vs),
                None => Err(DecodeFault::Malformed),
            }
        },
    }
}

pub open spec fn decoded(r: Result<Vec<ArgValue>, DecodeError>) -> Result<Seq<Val>, DecodeFault> {
    match r {
        Ok(vs) => Ok(models(vs@)),
        Err(e) => Err(e@),
    }
}

fn copy_prefix(b: &Vec<u8>, n: usize) -> (r: Vec<u8>)
    requires
        n <= b@.len(),
    ensures
        r@ == b@.take(n as int),
{
    let mut out: Vec<u8> = Vec::new();
    let mut i: usize = 0;
    while i < n
        invariant
            i <= n <= b@.len(),
            out@ == b@.take(i as int),
        decreases n - i,
    {
        out.push(b[i]);
        proof {
            assert(out@ =~= b@.take(i + 1));
        }
        i = i + 1;
    }
    out
}

fn clone_bytes(b: &Vec<u8>) -> (r: Vec<u8>)
    ensures
        r@ == b@,
{
    let r = copy_prefix(b, b.len());
    proof {
        assert(b@.take(b@.len() as int) =~= b@);
    }
    r
}

/// Encodes the payload of an instruction.
pub fn encode_ix_data(ix: &NamedInstruction, types: &Vec<NamedType>, args: &Vec<ArgValue>) -> (r: Option<Vec<u8>>)
    ensures
        match ix_payload(types@, *ix, models(args@)) {
            Some(p) => r matches Some(b) && b@ == p,
            None => r is None,
        },
{
    match &ix.discriminant {
        Some(d) => {
            let mut out = clone_bytes(&d.value);
            if encode_fields(types, &ix.args, args, MAX_NESTING, &mut out) {
                Some(out)
            } else {
                None
            }
        },
        None => None,
    }
}

/// Decodes the payload of an instruction: checks the discriminant, then
/// reads the arguments.
pub fn decode_ix_data(ix: &NamedInstruction, types: &Vec<NamedType>, bytes: &Vec<u8>) -> (r: Result<Vec<ArgValue>, DecodeError>)
    ensures
        decoded(r) == decode_payload(types@, *ix, bytes@),
{
    match &ix.discriminant {
        None => Err(DecodeError::MissingDiscriminant),
        Some(d) => {
            let w = d.value.len();
            if bytes.len() < w {
                return Err(DecodeError::DiscriminantMismatch { expected: clone_bytes(&d.value), received: clone_bytes(bytes) });
            }
            let head = copy_prefix(bytes, w);
            if !same_bytes(&head, &d.value) {
                return Err(DecodeError::DiscriminantMismatch { expected: clone_bytes(&d.value), received: head });
            }
            match decode_fields(types, &ix.args, bytes, w, MAX_NESTING) {
                Some((vs, _)) => Ok(vs),
                None => Err(DecodeError::Malformed),
            }
        },
    }
}

/// Round trip: the payload of any well-typed arguments begins with exactly
/// the instruction's discriminant, and decodes back to those arguments,
/// whatever bytes follow it.
pub proof fn lemma_ix_data_round_trip(types: Seq<NamedType>, ix: NamedInstruction, args: Seq<Val>, rest: Seq<u8>)
    requires
        ix_payload(types, ix, args) is Some,
    ensures
        ix_payload(types, ix, args)->Some_0.take(discm_of(ix)->Some_0.len() as int) == discm_of(ix)->Some_0,
        decode_payload(types, ix, ix_payload(types, ix, args)->Some_0 + rest) == Ok::<Seq<Val>, DecodeFault>(args),
{
    let d = discm_of(ix)->Some_0;
    let b = enc_fields(types, ix.args@, args, MAX_NESTING as nat)->Some_0;
    let all = d + b + rest;
    assert((d + b).take(d.len() as int) =~= d);
    assert(all.take(d.len() as int) =~= d);
    assert(all.skip(d.len() as int) =~= b + rest);
    lemma_fields_round_trip(types, ix.args@, args, MAX_NESTING as nat, rest);
}

/// Discriminant gate: a payload whose leading bytes are not the
/// instruction's discriminant is refused as a mismatch carrying both, and
/// nothing after them is decoded.
pub proof fn lemma_discriminant_gate(types: Seq<NamedType>, ix: NamedInstruction, bytes: Seq<u8>)
    requires
        discm_of(ix) is Some,
        bytes.len() >= discm_of(ix)->Some_0.len(),
        bytes.take(discm_of(ix)->Some_0.len() as int) != discm_of(ix)->Some_0,
    ensures
        decode_payload(types, ix, bytes) == Err::<Seq<Val>, DecodeFault>(
            DecodeFault::DiscriminantMismatch {
                expected: discm_of(ix)->Some_0,
                received: bytes.take(discm_of(ix)->Some_0.len() as int),
            },
        ),
{
}

/// The concatenation of `parts`, first to last.
pub open spec fn concat_parts(parts: Seq<Seq<u8>>) -> Seq<u8>
    decreases parts.len(),
{
    if parts.len() == 0 {
        Seq::empty()
    } else {
        parts[0] + concat_parts(parts.skip(1))
    }
}

/// The wire forms of field values, one per field.
pub open spec fn field_parts(defs: Seq<NamedType>, fs: Seq<TypedefField>, vs: Seq<Val>, fuel: nat) -> Seq<Seq<u8>> {
    Seq::new(fs.len(), |i: int| enc(defs, fs[i].ty, vs[i], fuel)->Some_0)
}

/// Field order is wire order: the wire form of a field list is the wire
/// form of each field, in declared order, one after another, whatever the
/// fields are named.
pub proof fn lemma_field_order(defs: Seq<NamedType>, fs: Seq<TypedefField>, vs: Seq<Val>, fuel: nat)
    requires
        enc_fields(defs, fs, vs, fuel) is Some,
    ensures
        fs.len() == vs.len(),
        forall|i: int| 0 <= i < fs.len() ==> (#[trigger] enc(defs, fs[i].ty, vs[i], fuel)) is Some,
        enc_fields(defs, fs, vs, fuel)->Some_0 == concat_parts(field_parts(defs, fs, vs, fuel)),
    decreases fs.len(),
{
    lemma_fields_len(defs, fs, vs, fuel);
    if fs.len() > 0 {
        lemma_field_order(defs, fs.skip(1), vs.skip(1), fuel);
        assert forall|i: int| 0 <= i < fs.len() implies (#[trigger] enc(defs, fs[i].ty, vs[i], fuel)) is Some by {
            if i > 0 {
                assert(fs.skip(1)[i - 1] == fs[i]);
                assert(vs.skip(1)[i - 1] == vs[i]);
            }
        }
        assert(field_parts(defs, fs, vs, fuel).skip(1) =~= field_parts(defs, fs.skip(1), vs.skip(1), fuel));
    }
}

/// Whether `bytes` begin with the discriminant of `ix`.
pub open spec fn leads_with(ix: NamedInstruction, bytes: Seq<u8>) -> bool {
    discm_of(ix) matches Some(d) && bytes.len() >= d.len() && bytes.take(d.len() as int) == d
}

/// The first instruction below `n` whose discriminant leads `bytes`.
pub open spec fn dispatch(ixs: Seq<NamedInstruction>, bytes: Seq<u8>, n: nat) -> Option<nat>
    decreases n,
{
    if n == 0 {
        None
    } else {
        match dispatch(ixs, bytes, (n - 1) as nat) {
            Some(i) => Some(i),
            None => if leads_with(ixs[n - 1], bytes) {
                Some((n - 1) as nat)
            } else {
                None
            },
        }
    }
}

/// What decoding `bytes` as a payload of some instruction of the program
/// gives: the instruction whose discriminant leads them, and its arguments.
pub open spec fn decode_program_payload(types: Seq<NamedType>, ixs: Seq<NamedInstruction>, bytes: Seq<u8>) -> Result<(nat, Seq<Val>), DecodeFault> {
    match dispatch(ixs, bytes, ixs.len()) {
        None => Err(DecodeFault::UnknownDiscriminant),
        Some(i) => match decode_payload(types, ixs[i as int], bytes) {
            Ok(vs) => Ok((i, vs)),
            Err(e) => Err(e),
        },
    }
}

/// Decodes a payload of any instruction of a program: the index of the
/// instruction whose discriminant leads it, and its arguments.
pub fn decode_program_ix(ixs: &Vec<NamedInstruction>, types: &Vec<NamedType>, bytes: &Vec<u8>) -> (r: Result<(usize, Vec<ArgValue>), DecodeError>)
    ensures
        match decode_program_payload(types@, ixs@, bytes@) {
            Ok((i, vs)) => r matches Ok((j, xs)) && j == i && models(xs@) == vs,
            Err(e) => r matches Err(f) && f@ == e,
        },
{
    let mut i: usize = 0;
    while i < ixs.len()
        invariant
            i <= ixs@.len(),
            dispatch(ixs@, bytes@, i as nat) is None,
        decreases ixs@.len() - i,
    {
        let leads = match &ixs[i].discriminant {
            Some(d) => {
                if bytes.len() >= d.value.len() {
                    let head = copy_prefix(bytes, d.value.len());
                    same_bytes(&head, &d.value)
                } else {
                    false
                }
            },
            None => false,
        };
        if leads {
            proof {
                assert(dispatch(ixs@, bytes@, (i + 1) as nat) == Some(i as nat));
                lemma_dispatch_sticks(ixs@, bytes@, (i + 1) as nat, ixs@.len());
            }
            return match decode_ix_data(&ixs[i], types, bytes) {
                Ok(vs) => Ok((i, vs)),
                Err(e) => Err(e),
            };
        }
        i = i + 1;
    }
    Err(DecodeError::UnknownDiscriminant)
}

proof fn lemma_dispatch_sticks(ixs: Seq<NamedInstruction>, bytes: Seq<u8>, m: nat, n: nat)
    requires
        m <= n,
        dispatch(ixs, bytes, m) is Some,
    ensures
        dispatch(ixs, bytes, n) == dispatch(ixs, bytes, m),
    decreases n - m,
{
    if m < n {
        lemma_dispatch_sticks(ixs, bytes, m, (n - 1) as nat);
    }
}

} // verus!
