//! Laws relating serialization and reading back.
use vstd::prelude::*;
use crate::value::{Val, val_ty, no_nul};
use crate::types::{Ty, type_text, types_text, prim_code, fixed_size, lemma_parse_spec_complete, lemma_fixed_size};
use vstd::utf8::encode_utf8;
use crate::text::lemma_text_nul_free;
use crate::serial::{ser, le_bytes, byte_of};
use crate::decode::{deser, read_le, read_checked, deser_text, nul_free_bytes, last_nul, deser_var_array, deser_fixed_elems};

verus! {

/// Byte `i` of `x` is the `i`-th base-256 digit.
proof fn lemma_byte_of(x: u64, i: nat)
    requires
        i < 8,
    ensures
        byte_of(x, i) as nat == (x as nat / pow2_8(i)) % 256,
{
    let s = (8 * i) as u64;
    assert(byte_of(x, i) == ((x >> s) & 0xffu64) as u8);
    assert(((x >> s) & 0xffu64) as u8 as u64 == (x >> s) & 0xffu64) by (bit_vector);
    assert((x >> s) & 0xffu64 == (x >> s) % 256) by (bit_vector);
    vstd::bits::lemma_u64_shr_is_div(x, s);
    assert(vstd::arithmetic::power2::pow2(s as nat) == pow2_8(i)) by {
        lemma_pow2_8(i);
    }
}

/// `256` to the power `i`.
pub open spec fn pow2_8(i: nat) -> nat
    decreases i,
{
    if i == 0 { 1 } else { 256 * pow2_8((i - 1) as nat) }
}

proof fn lemma_pow2_8(i: nat)
    ensures
        vstd::arithmetic::power2::pow2(8 * i) == pow2_8(i),
    decreases i,
{
    vstd::arithmetic::power2::lemma2_to64();
    if i > 0 {
        let j = (i - 1) as nat;
        lemma_pow2_8(j);
        vstd::arithmetic::power2::lemma_pow2_adds(8 * j, 8);
        assert(8 * i == 8 * j + 8);
        assert(pow2_8(i) == 256 * pow2_8(j));
    }
}

/// Reading the `n` low bytes of `x` gives `x` modulo `256^n`.
proof fn lemma_read_le_bytes(x: u64, n: nat, i: nat)
    requires
        i <= n <= 8,
    ensures
        read_le(le_bytes(x, n).subrange(i as int, n as int)) == (x as nat / pow2_8(i)) % pow2_8((n - i) as nat),
    decreases n - i,
{
    let b = le_bytes(x, n).subrange(i as int, n as int);
    if i == n {
        assert(b.len() == 0);
    } else {
        lemma_read_le_bytes(x, n, i + 1);
        assert(b.drop_first() =~= le_bytes(x, n).subrange(i as int + 1, n as int));
        lemma_byte_of(x, i);
        lemma_pow2_8_pos(i);
        let q = x as nat / pow2_8(i);
        assert(q >= 0);
        let m = pow2_8((n - i - 1) as nat);
        assert(pow2_8((n - i) as nat) == 256 * m);
        assert(x as nat / pow2_8(i + 1) == q / 256) by {
            lemma_pow2_8_pos(i);
            vstd::arithmetic::div_mod::lemma_div_denominator(x as int, pow2_8(i) as int, 256);
            assert(pow2_8(i + 1) == pow2_8(i) * 256);
        }
        lemma_pow2_8_pos((n - i - 1) as nat);
        assert(m > 0);
        vstd::arithmetic::div_mod::lemma_breakdown(q as int, 256, m as int);
        assert(q % 256 == byte_of(x, i) as nat);
    }
}

proof fn lemma_pow2_8_pos(i: nat)
    ensures
        pow2_8(i) > 0,
    decreases i,
{
    if i > 0 {
        lemma_pow2_8_pos((i - 1) as nat);
    }
}

/// The `n` low bytes of `x` read back as `x` when it fits.
proof fn lemma_read_le_round(x: u64, n: nat)
    requires
        n <= 8,
        x < pow2_8(n),
    ensures
        read_le(le_bytes(x, n)) == x,
{
    lemma_read_le_bytes(x, n, 0);
    lemma_pow2_8_pos(n);
    assert(pow2_8(0) == 1);
    assert(x as nat / 1 == x as nat);
    assert(le_bytes(x, n).subrange(0, n as int) =~= le_bytes(x, n));
    vstd::arithmetic::div_mod::lemma_small_mod(x as nat, pow2_8(n));
}

/// A fixed-width scalar reads back from its serialized form as itself.
pub proof fn lemma_scalar_round_trip(v: Val)
    requires
        v is Boolean || v is Byte || v is Int16 || v is UInt16 || v is Int32 || v is UInt32 || v is Int64
            || v is UInt64 || v is Double,
    ensures
        deser(val_ty(v), ser(v)) == Some(v),
        read_checked(val_ty(v), ser(v)) == v,
{
    reveal(deser);
    match v {
        Val::Int16(x) => {
            let u = x as u16 as u64;
            reveal_with_fuel(pow2_8, 3);
            lemma_read_le_round(u, 2);
            assert((u as u16) as i16 == x) by (bit_vector) requires u == x as u16 as u64;
        },
        Val::UInt16(x) => {
            reveal_with_fuel(pow2_8, 3);
            lemma_read_le_round(x as u64, 2);
        },
        Val::Int32(x) => {
            let u = x as u32 as u64;
            reveal_with_fuel(pow2_8, 5);
            lemma_read_le_round(u, 4);
            assert((u as u32) as i32 == x) by (bit_vector) requires u == x as u32 as u64;
        },
        Val::UInt32(x) => {
            reveal_with_fuel(pow2_8, 5);
            lemma_read_le_round(x as u64, 4);
        },
        Val::Int64(x) => {
            reveal_with_fuel(pow2_8, 9);
            lemma_read_le_round(x as u64, 8);
            assert((x as u64) as i64 == x) by (bit_vector);
        },
        Val::UInt64(x) => {
            reveal_with_fuel(pow2_8, 9);
            lemma_read_le_round(x, 8);
        },
        Val::Double(x) => {
            reveal_with_fuel(pow2_8, 9);
            lemma_read_le_round(x, 8);
        },
        _ => {},
    }
}


/// A string value reads back from its serialized form as itself; so do
/// object paths and signatures. Every such value held in a `Variant` holds
/// no nul (its invariant), which is what this asks.
pub proof fn lemma_text_round_trip(v: Val)
    requires
        v matches Val::Str(s) ==> no_nul(s),
        v matches Val::ObjectPath(s) ==> no_nul(s),
        v matches Val::Signature(s) ==> no_nul(s),
        v is Str || v is ObjectPath || v is Signature,
    ensures
        deser(val_ty(v), ser(v)) == Some(v),
        read_checked(val_ty(v), ser(v)) == v,
{
    reveal(deser);
    let s = match v {
        Val::Str(s) => s,
        Val::ObjectPath(s) => s,
        Val::Signature(s) => s,
        _ => Seq::empty(),
    };
    let b = encode_utf8(s).push(0u8);
    assert(b.drop_last() =~= encode_utf8(s));
    lemma_text_nul_free(s);
    vstd::utf8::encode_utf8_valid_utf8(s);
    vstd::utf8::encode_utf8_decode_utf8(s);
    assert(deser_text(b) == Some(s));
}


/// No signature's text holds the nul character.
proof fn lemma_type_text_no_nul(t: Ty)
    ensures
        no_nul(type_text(t)),
    decreases t,
{
    match t {
        Ty::Array(e) => lemma_type_text_no_nul(*e),
        Ty::Maybe(e) => lemma_type_text_no_nul(*e),
        Ty::DictEntry(k, v) => {
            lemma_type_text_no_nul(*k);
            lemma_type_text_no_nul(*v);
        },
        Ty::Tuple(ts) => lemma_types_text_no_nul(ts),
        _ => {},
    }
}

proof fn lemma_types_text_no_nul(ts: Seq<Ty>)
    ensures
        no_nul(types_text(ts)),
    decreases ts,
{
    if ts.len() > 0 {
        lemma_types_text_no_nul(ts.drop_last());
        lemma_type_text_no_nul(ts.last());
    }
}

/// The last nul of bytes that end in a nul-free run after a nul is that nul.
proof fn lemma_last_nul_before(a: Seq<u8>, c: Seq<u8>)
    requires
        nul_free_bytes(c),
    ensures
        last_nul(a.push(0u8) + c) == Some(a.len()),
    decreases c.len(),
{
    let b = a.push(0u8) + c;
    if c.len() == 0 {
        assert(b =~= a.push(0u8));
    } else {
        assert(b.last() == c.last());
        assert(b.drop_last() =~= a.push(0u8) + c.drop_last());
        lemma_last_nul_before(a, c.drop_last());
    }
}

/// A boxed value reads back from its serialized form when the value inside
/// does.
pub proof fn lemma_boxed_round_trip(x: Val)
    requires
        deser(val_ty(x), ser(x)) == Some(x),
    ensures
        deser(Ty::Variant, ser(Val::Boxed(Box::new(x)))) == Some(Val::Boxed(Box::new(x))),
        read_checked(Ty::Variant, ser(Val::Boxed(Box::new(x)))) == Val::Boxed(Box::new(x)),
{
    reveal(deser);
    let t = val_ty(x);
    let a = ser(x);
    let c = encode_utf8(type_text(t));
    let b = a.push(0u8) + c;
    assert(ser(Val::Boxed(Box::new(x))) == b);
    lemma_type_text_no_nul(t);
    lemma_text_nul_free(type_text(t));
    lemma_last_nul_before(a, c);
    assert(b.subrange(a.len() as int + 1, b.len() as int) =~= c);
    assert(b.subrange(0, a.len() as int) =~= a);
    vstd::utf8::encode_utf8_valid_utf8(type_text(t));
    vstd::utf8::encode_utf8_decode_utf8(type_text(t));
    lemma_parse_spec_complete(t);
}

/// An empty maybe reads back from its serialized form, and so does one that
/// holds a scalar or a variable-sized value that reads back.
pub proof fn lemma_maybe_round_trip(e: Ty, o: Option<Box<Val>>)
    requires
        o matches Some(x) ==> val_ty(*x) == e && (fixed_size(e) is None || is_scalar_ty(e))
            && deser(e, ser(*x)) == Some(*x),
    ensures
        deser(Ty::Maybe(Box::new(e)), ser(Val::Maybe(e, o))) == Some(Val::Maybe(e, o)),
{
    reveal(deser);
    if let Some(x) = o {
        let a = ser(*x);
        if is_scalar_ty(e) {
            lemma_scalar_size(*x);
        } else {
            assert(a.push(0u8).drop_last() =~= a);
        }
    }
}

/// An empty array reads back from its serialized form.
pub proof fn lemma_empty_array_round_trip(e: Ty)
    ensures
        deser(Ty::Array(Box::new(e)), ser(Val::Array(e, Seq::empty()))) == Some(Val::Array(e, Seq::empty())),
{
    reveal(deser);
    reveal(deser_var_array);
    reveal(deser_fixed_elems);
    reveal(crate::decode::deser_var_elems);
    reveal(crate::decode::deser_tuple);
    reveal(crate::decode::deser_members);
    reveal(crate::decode::deser_dict_entry);
    lemma_fixed_size(e);
    let xs = Seq::<Val>::empty();
    let ab = crate::serial::array_body(xs, crate::types::alignment(e));
    assert(ab == (Seq::<u8>::empty(), Seq::<nat>::empty()));
    let k = crate::serial::offset_size(0, 0);
    assert(crate::serial::offsets_bytes(Seq::<nat>::empty(), k) == Seq::<u8>::empty());
    assert(crate::serial::framed(ab.0, ab.1) =~= Seq::<u8>::empty());
    assert(ser(Val::Array(e, xs)) =~= Seq::<u8>::empty());
    if let Some(n) = fixed_size(e) {
        assert(0nat % n == 0);
        assert(deser_fixed_elems(e, n, Seq::<u8>::empty()) == Some(Seq::<Val>::empty()));
        assert(deser(Ty::Array(Box::new(e)), Seq::<u8>::empty()) == Some(Val::Array(e, Seq::empty())));
    } else {
        assert(deser_var_array(e, Seq::<u8>::empty()) == Some(Val::Array(e, Seq::empty())));
        assert(deser(Ty::Array(Box::new(e)), Seq::<u8>::empty()) == Some(Val::Array(e, Seq::empty())));
    }
}


/// True for the types of fixed-width scalars.
pub open spec fn is_scalar_ty(t: Ty) -> bool {
    t is Boolean || t is Byte || t is Int16 || t is UInt16 || t is Int32 || t is UInt32 || t is Int64 || t is UInt64
        || t is Double
}

/// A scalar's serialized form is as long as its alignment, which is its
/// fixed size.
proof fn lemma_scalar_size(v: Val)
    requires
        is_scalar_ty(val_ty(v)),
    ensures
        fixed_size(val_ty(v)) == Some(ser(v).len()),
        crate::types::alignment(val_ty(v)) == ser(v).len(),
{
}

/// The serialized forms of `xs`, one after another.
pub open spec fn flat(xs: Seq<Val>) -> Seq<u8>
    decreases xs.len(),
{
    if xs.len() == 0 {
        Seq::empty()
    } else {
        flat(xs.drop_last()) + ser(xs.last())
    }
}

proof fn lemma_flat_len(xs: Seq<Val>, e: Ty)
    requires
        is_scalar_ty(e),
        forall|i: int| 0 <= i < xs.len() ==> val_ty(#[trigger] xs[i]) == e,
    ensures
        flat(xs).len() == xs.len() * crate::types::alignment(e),
    decreases xs.len(),
{
    if xs.len() > 0 {
        lemma_flat_len(xs.drop_last(), e);
        lemma_scalar_size(xs.last());
        assert(xs.len() * crate::types::alignment(e) == (xs.len() - 1) * crate::types::alignment(e) + crate::types::alignment(e))
            by (nonlinear_arith);
    }
}

/// Scalars of one type lie one after another in an array body, with no
/// padding.
proof fn lemma_array_body_flat(xs: Seq<Val>, e: Ty)
    requires
        is_scalar_ty(e),
        forall|i: int| 0 <= i < xs.len() ==> val_ty(#[trigger] xs[i]) == e,
    ensures
        crate::serial::array_body(xs, crate::types::alignment(e)).0 == flat(xs),
    decreases xs.len(),
{
    if xs.len() > 0 {
        let a = crate::types::alignment(e);
        lemma_array_body_flat(xs.drop_last(), e);
        lemma_flat_len(xs.drop_last(), e);
        let m = flat(xs.drop_last()).len();
        assert(m % a == 0) by {
            vstd::arithmetic::div_mod::lemma_mod_multiples_basic((xs.len() - 1) as int, a as int);
        }
        assert(crate::serial::padding(m, a) =~= Seq::<u8>::empty());
        assert(flat(xs.drop_last()) + Seq::<u8>::empty() =~= flat(xs.drop_last()));
    }
}

/// `flat` seen from the front.
proof fn lemma_flat_front(xs: Seq<Val>)
    requires
        xs.len() > 0,
    ensures
        flat(xs) == ser(xs[0]) + flat(xs.drop_first()),
    decreases xs.len(),
{
    if xs.len() == 1 {
        assert(xs.drop_last() =~= Seq::<Val>::empty());
        assert(xs.drop_first() =~= Seq::<Val>::empty());
        assert(Seq::<u8>::empty() + ser(xs[0]) =~= ser(xs[0]) + Seq::<u8>::empty());
    } else {
        lemma_flat_front(xs.drop_last());
        assert(xs.drop_last().drop_first() =~= xs.drop_first().drop_last());
        assert(xs.drop_first().last() == xs.last());
        assert(xs.drop_last()[0] == xs[0]);
        assert(ser(xs[0]) + flat(xs.drop_last().drop_first()) + ser(xs.last())
            =~= ser(xs[0]) + (flat(xs.drop_first().drop_last()) + ser(xs.drop_first().last())));
    }
}

proof fn lemma_fixed_elems_round_trip(xs: Seq<Val>, e: Ty)
    requires
        is_scalar_ty(e),
        forall|i: int| 0 <= i < xs.len() ==> val_ty(#[trigger] xs[i]) == e,
    ensures
        deser_fixed_elems(e, crate::types::alignment(e), flat(xs)) == Some(xs),
    decreases xs.len(),
{
    reveal(deser);
    reveal(deser_var_array);
    reveal(deser_fixed_elems);
    reveal(crate::decode::deser_var_elems);
    reveal(crate::decode::deser_tuple);
    reveal(crate::decode::deser_members);
    reveal(crate::decode::deser_dict_entry);
    let a = crate::types::alignment(e);
    if xs.len() == 0 {
    } else {
        lemma_flat_front(xs);
        lemma_scalar_size(xs[0]);
        let b = flat(xs);
        let x0 = ser(xs[0]);
        let rest = flat(xs.drop_first());
        assert(b.subrange(0, a as int) =~= x0);
        assert(b.subrange(a as int, b.len() as int) =~= rest);
        lemma_scalar_round_trip(xs[0]);
        assert forall|i: int| 0 <= i < xs.drop_first().len() implies val_ty(#[trigger] xs.drop_first()[i]) == e by {
            assert(xs.drop_first()[i] == xs[i + 1]);
        }
        lemma_fixed_elems_round_trip(xs.drop_first(), e);
        assert(seq![xs[0]] + xs.drop_first() =~= xs);
    }
}

/// An array of fixed-width scalars reads back from its serialized form as
/// itself.
pub proof fn lemma_scalar_array_round_trip(e: Ty, xs: Seq<Val>)
    requires
        is_scalar_ty(e),
        forall|i: int| 0 <= i < xs.len() ==> val_ty(#[trigger] xs[i]) == e,
    ensures
        deser(Ty::Array(Box::new(e)), ser(Val::Array(e, xs))) == Some(Val::Array(e, xs)),
        read_checked(Ty::Array(Box::new(e)), ser(Val::Array(e, xs))) == Val::Array(e, xs),
{
    reveal(deser);
    reveal(deser_var_array);
    reveal(deser_fixed_elems);
    reveal(crate::decode::deser_var_elems);
    reveal(crate::decode::deser_tuple);
    reveal(crate::decode::deser_members);
    reveal(crate::decode::deser_dict_entry);
    let a = crate::types::alignment(e);
    lemma_array_body_flat(xs, e);
    lemma_flat_len(xs, e);
    lemma_fixed_elems_round_trip(xs, e);
    assert(flat(xs).len() % a == 0) by {
        vstd::arithmetic::div_mod::lemma_mod_multiples_basic(xs.len() as int, a as int);
    }
    assert(ser(Val::Array(e, xs)) == flat(xs));
}

} // verus!
