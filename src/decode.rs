//! Reading values back from their serialized form.
use vstd::prelude::*;
use vstd::utf8::{valid_utf8, decode_utf8};
use crate::types::{Ty, VariantType, fixed_size, alignment, align_up, parse_spec, is_alignment, lemma_fixed_size,
    tys_of, lemma_tys_of, parse_chars};
use crate::value::{no_nul, Val, Variant, val_ty, vals_of, lemma_vals_of, lemma_vals_of_push};
use crate::serial::ser;
use crate::text::string_from_utf8;
use vstd::slice::SliceAdditionalExecFns;

verus! {

/// The number whose little-endian bytes are `b`.
pub open spec fn read_le(b: Seq<u8>) -> nat
    decreases b.len(),
{
    if b.len() == 0 {
        0
    } else {
        b[0] as nat + 256 * read_le(b.drop_first())
    }
}

pub open spec fn pow256(n: nat) -> nat
    decreases n,
{
    if n == 0 { 1 } else { 256 * pow256((n - 1) as nat) }
}

/// The width of the framing offsets of a container of `len` bytes.
pub open spec fn offset_size_for(len: nat) -> nat {
    if len > 0xffff_ffff {
        8
    } else if len > 0xffff {
        4
    } else if len > 0xff {
        2
    } else if len > 0 {
        1
    } else {
        0
    }
}

/// Where the last nul byte of `b` stands, if any.
pub open spec fn last_nul(b: Seq<u8>) -> Option<nat>
    decreases b.len(),
{
    if b.len() == 0 {
        None
    } else if b.last() == 0 {
        Some((b.len() - 1) as nat)
    } else {
        last_nul(b.drop_last())
    }
}

/// No byte of `b` is nul.
pub open spec fn nul_free_bytes(b: Seq<u8>) -> bool {
    forall|i: int| 0 <= i < b.len() ==> b[i] != 0
}

/// The text of a nul-terminated string, where the bytes are one.
pub open spec fn deser_text(b: Seq<u8>) -> Option<Seq<char>> {
    if b.len() >= 1 && b.last() == 0 && nul_free_bytes(b.drop_last()) && valid_utf8(b.drop_last()) {
        Some(decode_utf8(b.drop_last()))
    } else {
        None
    }
}

/// The value of type `t` that the bytes `b` hold, read by the framing
/// rules; `None` where they hold none.
#[verifier::opaque]
pub open spec fn deser(t: Ty, b: Seq<u8>) -> Option<Val>
    decreases b.len(), t, 1nat, 0nat,
{
    match t {
        Ty::Boolean => if b.len() == 1 && b[0] <= 1 { Some(Val::Boolean(b[0] == 1)) } else { None },
        Ty::Byte => if b.len() == 1 { Some(Val::Byte(b[0])) } else { None },
        Ty::Int16 => if b.len() == 2 { Some(Val::Int16(#[verifier::truncate] (read_le(b) as u16 as i16))) } else { None },
        Ty::UInt16 => if b.len() == 2 { Some(Val::UInt16(read_le(b) as u16)) } else { None },
        Ty::Int32 => if b.len() == 4 { Some(Val::Int32(#[verifier::truncate] (read_le(b) as u32 as i32))) } else { None },
        Ty::UInt32 => if b.len() == 4 { Some(Val::UInt32(read_le(b) as u32)) } else { None },
        Ty::Int64 => if b.len() == 8 { Some(Val::Int64(#[verifier::truncate] (read_le(b) as u64 as i64))) } else { None },
        Ty::UInt64 => if b.len() == 8 { Some(Val::UInt64(read_le(b) as u64)) } else { None },
        Ty::Double => if b.len() == 8 { Some(Val::Double(read_le(b) as u64)) } else { None },
        Ty::Str => match deser_text(b) { Some(s) => Some(Val::Str(s)), None => None },
        Ty::ObjectPath => match deser_text(b) { Some(s) => Some(Val::ObjectPath(s)), None => None },
        Ty::Signature => match deser_text(b) { Some(s) => Some(Val::Signature(s)), None => None },
        Ty::Variant => match last_nul(b) {
            None => None,
            Some(p) => {
                let tb = b.subrange(p as int + 1, b.len() as int);
                if valid_utf8(tb) && p < b.len() {
                    match parse_spec(decode_utf8(tb)) {
                        Some(ct) => match deser(ct, b.subrange(0, p as int)) {
                            Some(x) => Some(Val::Boxed(Box::new(x))),
                            None => None,
                        },
                        None => None,
                    }
                } else {
                    None
                }
            },
        },
        Ty::Maybe(e) => if b.len() == 0 {
            Some(Val::Maybe(*e, None))
        } else {
            match fixed_size(*e) {
                Some(n) => if b.len() == n {
                    match deser(*e, b) {
                        Some(x) => if val_ty(x) == *e { Some(Val::Maybe(*e, Some(Box::new(x)))) } else { None },
                        None => None,
                    }
                } else {
                    None
                },
                None => if b.last() == 0 {
                    match deser(*e, b.drop_last()) {
                        Some(x) => if val_ty(x) == *e { Some(Val::Maybe(*e, Some(Box::new(x)))) } else { None },
                        None => None,
                    }
                } else {
                    None
                },
            }
        },
        Ty::Array(e) => match fixed_size(*e) {
            Some(n) => if n > 0 && b.len() % n == 0 {
                match deser_fixed_elems(*e, n, b) {
                    Some(xs) => Some(Val::Array(*e, xs)),
                    None => None,
                }
            } else {
                None
            },
            None => deser_var_array(*e, b),
        },
        Ty::Tuple(ts) => deser_tuple(ts, b),
        Ty::DictEntry(_, _) => deser_dict_entry(t, b),
    }
}

/// A variable-sized array of `e`: elements, then their end offsets.
#[verifier::opaque]
pub open spec fn deser_var_array(e: Ty, b: Seq<u8>) -> Option<Val>
    decreases b.len(), e, 2nat, 0nat,
{
    if b.len() == 0 {
        Some(Val::Array(e, Seq::empty()))
    } else {
        let k = offset_size_for(b.len());
        let last_end = read_le(b.subrange(b.len() - k, b.len() as int));
        if last_end <= b.len() - k && (b.len() - last_end) % (k as int) == 0 {
            let n = ((b.len() - last_end) / (k as int)) as nat;
            match deser_var_elems(e, b, last_end, k, n, 0, 0) {
                Some(xs) => Some(Val::Array(e, xs)),
                None => None,
            }
        } else {
            None
        }
    }
}

/// A tuple of members `ts`.
#[verifier::opaque]
pub open spec fn deser_tuple(ts: Seq<Ty>, b: Seq<u8>) -> Option<Val>
    decreases b.len(), ts, 2nat, 0nat,
{
    if ts.len() == 0 {
        if b.len() == 1 && b[0] == 0 { Some(Val::Tuple(Seq::empty())) } else { None }
    } else {
        match fixed_size(Ty::Tuple(ts)) {
            Some(n) => if b.len() == n {
                match deser_members(ts, b, 0, b.len(), 0, 0, 0) {
                    Some(xs) => Some(Val::Tuple(xs)),
                    None => None,
                }
            } else {
                None
            },
            None => {
                let k = offset_size_for(b.len());
                let n_off = count_offsets(ts);
                if n_off * k <= b.len() {
                    match deser_members(ts, b, k, (b.len() - n_off * k) as nat, 0, 0, 0) {
                        Some(xs) => Some(Val::Tuple(xs)),
                        None => None,
                    }
                } else {
                    None
                }
            },
        }
    }
}

/// A dictionary entry of type `t`.
#[verifier::opaque]
pub open spec fn deser_dict_entry(t: Ty, b: Seq<u8>) -> Option<Val>
    decreases b.len(), t, 0nat, 0nat,
{
    match t {
        Ty::DictEntry(kt, vt) => {
            let kt = *kt;
            let vt = *vt;
            let n_off: nat = if fixed_size(kt) is Some { 0 } else { 1 };
            let fixed = fixed_size(t);
            let k = if fixed is Some { 0 } else { offset_size_for(b.len()) };
            if (fixed matches Some(n) ==> b.len() == n) && n_off * k <= b.len() {
                let body_end = (b.len() - n_off * k) as nat;
                let key_end: int = match fixed_size(kt) {
                    Some(s) => s as int,
                    None => read_le(b.subrange(b.len() - k, b.len() as int)) as int,
                };
                let val_start = align_up(key_end as nat, alignment(vt));
                let val_end: int = match fixed_size(vt) {
                    Some(s) => (val_start + s) as int,
                    None => body_end as int,
                };
                if key_end <= body_end && val_start <= val_end <= body_end {
                    match (deser(kt, b.subrange(0, key_end)), deser(vt, b.subrange(val_start as int, val_end))) {
                        (Some(x), Some(y)) => Some(Val::DictEntry(Box::new(x), Box::new(y))),
                        _ => None,
                    }
                } else {
                    None
                }
            } else {
                None
            }
        },
        _ => None,
    }
}

/// How many framing offsets a tuple of members `ts` records: one for each
/// variable-sized member but the last.
pub open spec fn count_offsets(ts: Seq<Ty>) -> nat
    decreases ts.len(),
{
    if ts.len() <= 1 {
        0
    } else {
        count_offsets(ts.drop_last()) + if fixed_size(ts[ts.len() - 2]) is Some { 0nat } else { 1nat }
    }
}

/// Elements of fixed size `n` one after another.
#[verifier::opaque]
pub open spec fn deser_fixed_elems(e: Ty, n: nat, b: Seq<u8>) -> Option<Seq<Val>>
    decreases b.len(), e, 2nat, 0nat,
{
    if b.len() == 0 || n == 0 || b.len() < n {
        if b.len() == 0 { Some(Seq::empty()) } else { None }
    } else {
        match (deser(e, b.subrange(0, n as int)), deser_fixed_elems(e, n, b.subrange(n as int, b.len() as int))) {
            (Some(x), Some(xs)) => if val_ty(x) == e { Some(seq![x] + xs) } else { None },
            _ => None,
        }
    }
}

/// Elements `i` to `n` of a variable-sized array whose offset table starts
/// at `table`, the previous element ending at `prev_end`.
#[verifier::opaque]
pub open spec fn deser_var_elems(e: Ty, b: Seq<u8>, table: nat, k: nat, n: nat, i: nat, prev_end: nat) -> Option<Seq<Val>>
    decreases b.len(), e, 1nat, n - i,
{
    if i >= n || table + (i + 1) * k > b.len() {
        if i >= n { Some(Seq::empty()) } else { None }
    } else {
        let end = read_le(b.subrange((table + i * k) as int, (table + (i + 1) * k) as int));
        let start = align_up(prev_end, alignment(e));
        if start <= end <= table {
            match (deser(e, b.subrange(start as int, end as int)), deser_var_elems(e, b, table, k, n, i + 1, end)) {
                (Some(x), Some(xs)) => if val_ty(x) == e { Some(seq![x] + xs) } else { None },
                _ => None,
            }
        } else {
            None
        }
    }
}

/// Members `i` onwards of a tuple whose body ends at `body_end`, with
/// offsets of width `k`, `oi` of them read so far.
#[verifier::opaque]
pub open spec fn deser_members(ts: Seq<Ty>, b: Seq<u8>, k: nat, body_end: nat, i: nat, prev_end: nat, oi: nat) -> Option<Seq<Val>>
    decreases b.len(), ts, 1nat, ts.len() - i,
{
    if i >= ts.len() {
        Some(Seq::empty())
    } else {
        let t = ts[i as int];
        let start = align_up(prev_end, alignment(t));
        let (end, next_oi): (int, nat) = match fixed_size(t) {
            Some(s) => ((start + s) as int, oi),
            None => if i + 1 == ts.len() {
                (body_end as int, oi)
            } else if (oi + 1) * k <= b.len() {
                (read_le(b.subrange(b.len() - (oi + 1) * k, b.len() - oi * k)) as int, oi + 1)
            } else {
                (-1, oi)
            },
        };
        if start <= end <= body_end && body_end <= b.len() {
            match (deser(t, b.subrange(start as int, end)), deser_members(ts, b, k, body_end, i + 1, end as nat, next_oi)) {
                (Some(x), Some(xs)) => if val_ty(x) == t { Some(seq![x] + xs) } else { None },
                _ => None,
            }
        } else {
            None
        }
    }
}


pub proof fn lemma_read_le_bound(b: Seq<u8>)
    ensures
        read_le(b) < pow256(b.len()),
    decreases b.len(),
{
    if b.len() > 0 {
        lemma_read_le_bound(b.drop_first());
        let r = read_le(b.drop_first());
        let p = pow256(b.drop_first().len());
        assert(b[0] as nat + 256 * r < 256 * p) by (nonlinear_arith)
            requires r < p, b[0] < 256;
    }
}

/// The number whose little-endian bytes are `b`.
pub fn exec_read_le(b: &[u8]) -> (r: u64)
    requires
        b@.len() <= 8,
    ensures
        r as nat == read_le(b@),
{
    let n = b.len();
    let mut acc: u64 = 0;
    let mut i: usize = n;
    assert(b@.subrange(n as int, n as int) =~= Seq::<u8>::empty());
    while i > 0
        invariant
            n == b@.len() <= 8,
            i <= n,
            acc as nat == read_le(b@.subrange(i as int, n as int)),
        decreases i,
    {
        let ghost rest = b@.subrange(i as int, n as int);
        i = i - 1;
        proof {
            lemma_read_le_bound(rest);
            reveal_with_fuel(pow256, 8);
            assert(pow256(7) == 0x100_0000_0000_0000);
            if rest.len() < 8 {
                lemma_pow256_mono(rest.len(), 7);
            }
            let cur = b@.subrange(i as int, n as int);
            assert(cur.drop_first() =~= rest);
            assert(cur[0] == b@[i as int]);
        }
        acc = acc * 256 + b[i] as u64;
    }
    assert(b@.subrange(0, n as int) =~= b@);
    acc
}

proof fn lemma_pow256_mono(a: nat, c: nat)
    requires
        a <= c,
    ensures
        pow256(a) <= pow256(c),
    decreases c - a,
{
    if a < c {
        lemma_pow256_mono(a, (c - 1) as nat);
        assert(pow256(c) == 256 * pow256((c - 1) as nat));
    }
}

/// Where the last nul byte of `b` stands.
fn exec_last_nul(b: &[u8]) -> (r: Option<usize>)
    ensures
        r matches Some(p) ==> last_nul(b@) == Some(p as nat) && p < b@.len(),
        r is None ==> last_nul(b@) is None,
{
    let mut i: usize = b.len();
    assert(b@.subrange(0, i as int) =~= b@);
    while i > 0
        invariant
            i <= b@.len(),
            last_nul(b@) == last_nul(b@.subrange(0, i as int)),
        decreases i,
    {
        let ghost pre = b@.subrange(0, i as int);
        if b[i - 1] == 0 {
            assert(pre.last() == 0);
            return Some(i - 1);
        }
        assert(pre.drop_last() =~= b@.subrange(0, i - 1));
        i = i - 1;
    }
    None
}

/// The text of a nul-terminated string.
fn decode_text(b: &[u8]) -> (r: Option<String>)
    ensures
        r matches Some(s) ==> deser_text(b@) == Some(s@) && no_nul(s@),
        r is None ==> deser_text(b@) is None,
{
    let n = b.len();
    if n == 0 || b[n - 1] != 0 {
        return None;
    }
    let body = vstd::slice::slice_subrange(b, 0, n - 1);
    assert(body@ =~= b@.drop_last());
    let mut i: usize = 0;
    while i < body.len()
        invariant
            i <= body@.len(),
            body@ == b@.drop_last(),
            forall|j: int| 0 <= j < i ==> body@[j] != 0,
        decreases body.len() - i,
    {
        if body[i] == 0 {
            assert(b@.drop_last()[i as int] == 0);
            assert(!nul_free_bytes(b@.drop_last()));
            return None;
        }
        i = i + 1;
    }
    proof {
        if valid_utf8(body@) {
            crate::text::lemma_decoded_no_nul(body@);
        }
    }
    string_from_utf8(vstd::slice::slice_to_vec(body))
}

/// The width of the framing offsets of a container of `len` bytes.
fn exec_offset_size_for(len: usize) -> (r: usize)
    ensures
        r == offset_size_for(len as nat),
{
    if len as u64 > 0xffff_ffff {
        8
    } else if len > 0xffff {
        4
    } else if len > 0xff {
        2
    } else if len > 0 {
        1
    } else {
        0
    }
}

/// The value of type `t` in the bytes `b`, by the framing rules.
pub fn decode(t: &VariantType, b: &[u8]) -> (r: Option<Variant>)
    ensures
        r matches Some(v) ==> deser(t@, b@) == Some(v@),
        r is None ==> deser(t@, b@) is None,
    decreases b@.len(), t, 2nat, 0nat,
{
    reveal(deser);
    reveal(deser_fixed_elems);
    reveal(deser_var_array);
    reveal(deser_var_elems);
    reveal(deser_tuple);
    reveal(deser_members);
    reveal(deser_dict_entry);
    let n = b.len();
    match t {
        VariantType::Boolean => if n == 1 && b[0] <= 1 { Some(Variant::new_boolean(b[0] == 1)) } else { None },
        VariantType::Byte => if n == 1 { Some(Variant::new_byte(b[0])) } else { None },
        VariantType::Int16 => if n == 2 { Some(Variant::new_int16(exec_read_le(b) as u16 as i16)) } else { None },
        VariantType::UInt16 => if n == 2 { Some(Variant::new_uint16(exec_read_le(b) as u16)) } else { None },
        VariantType::Int32 => if n == 4 { Some(Variant::new_int32(exec_read_le(b) as u32 as i32)) } else { None },
        VariantType::UInt32 => if n == 4 { Some(Variant::new_uint32(exec_read_le(b) as u32)) } else { None },
        VariantType::Int64 => if n == 8 { Some(Variant::new_int64(exec_read_le(b) as i64)) } else { None },
        VariantType::UInt64 => if n == 8 { Some(Variant::new_uint64(exec_read_le(b))) } else { None },
        VariantType::Double => if n == 8 { Some(Variant::new_double_bits(exec_read_le(b))) } else { None },
        VariantType::Str => match decode_text(b) {
            Some(s) => Some(Variant::new_string(s.as_str())),
            None => None,
        },
        VariantType::ObjectPath => match decode_text(b) {
            Some(s) => Some(Variant::new_object_path(s.as_str())),
            None => None,
        },
        VariantType::Signature => match decode_text(b) {
            Some(s) => Some(Variant::new_signature(s.as_str())),
            None => None,
        },
        VariantType::Variant => decode_boxed(t, b),
        VariantType::Maybe(e) => {
            if n == 0 {
                return Some(Variant::new_maybe(e, None));
            }
            let inner = match e.fixed_size() {
                Some(s) => if n == s { b } else { return None; },
                None => if b[n - 1] == 0 {
                    let sub = vstd::slice::slice_subrange(b, 0, n - 1);
                    assert(sub@ =~= b@.drop_last());
                    sub
                } else {
                    return None;
                },
            };
            match decode(e, inner) {
                Some(x) => if x.type_().equals(e) { Some(Variant::new_maybe(e, Some(x))) } else { None },
                None => None,
            }
        },
        VariantType::Array(e) => match e.fixed_size() {
            Some(s) => {
                proof { lemma_fixed_size(e@); }
                if s > 0 && n % s == 0 {
                    match decode_fixed_elems(t, e, s, b) {
                        Some(xs) => Some(Variant::new_array(e, xs)),
                        None => None,
                    }
                } else {
                    None
                }
            },
            None => decode_var_array(t, e, b),
        },
        VariantType::Tuple(ts) => decode_tuple(t, ts, b),
        VariantType::DictEntry(kt, vt) => decode_dict_entry(t, kt, vt, b),
    }
}


/// `p` followed by the sequence in `o`, if there is one.
pub open spec fn prepend(p: Seq<Val>, o: Option<Seq<Val>>) -> Option<Seq<Val>> {
    match o {
        Some(xs) => Some(p + xs),
        None => None,
    }
}

fn decode_boxed(t: &VariantType, b: &[u8]) -> (r: Option<Variant>)
    requires
        *t == VariantType::Variant,
    ensures
        r matches Some(v) ==> deser(t@, b@) == Some(v@),
        r is None ==> deser(t@, b@) is None,
    decreases b@.len(), t, 1nat, 0nat,
{
    reveal(deser);
    reveal(deser_fixed_elems);
    reveal(deser_var_array);
    reveal(deser_var_elems);
    reveal(deser_tuple);
    reveal(deser_members);
    reveal(deser_dict_entry);
    let bl = b.len();
    let p = match exec_last_nul(b) {
        Some(p) => p,
        None => return None,
    };
    proof {
        assert(last_nul(b@) == Some(p as nat));
        lemma_last_nul(b@);
        assert(p < b@.len());
    }
    let tb = vstd::slice::slice_subrange(b, p + 1, b.len());
    let text = match string_from_utf8(vstd::slice::slice_to_vec(tb)) {
        Some(s) => s,
        None => return None,
    };
    let n = text.as_str().unicode_len();
    let mut cs: Vec<char> = Vec::new();
    let mut i: usize = 0;
    while i < n
        invariant
            n == text@.len(),
            i <= n,
            cs@ == text@.subrange(0, i as int),
        decreases n - i,
    {
        cs.push(text.as_str().get_char(i));
        i = i + 1;
        assert(cs@ =~= text@.subrange(0, i as int));
    }
    assert(cs@ =~= text@);
    let ct = match parse_chars(&cs) {
        Ok(ct) => ct,
        Err(_) => return None,
    };
    let inner = vstd::slice::slice_subrange(b, 0, p);
    match decode(&ct, inner) {
        Some(x) => Some(Variant::from_variant(&x)),
        None => None,
    }
}

proof fn lemma_last_nul(b: Seq<u8>)
    ensures
        last_nul(b) matches Some(p) ==> p < b.len(),
    decreases b.len(),
{
    if b.len() > 0 && b.last() != 0 {
        lemma_last_nul(b.drop_last());
    }
}

fn decode_fixed_elems(t: &VariantType, e: &VariantType, s: usize, b: &[u8]) -> (r: Option<Vec<Variant>>)
    requires
        *t == VariantType::Array(Box::new(*e)),
        s > 0,
    ensures
        r matches Some(xs) ==> deser_fixed_elems(e@, s as nat, b@) == Some(vals_of(xs@))
            && forall|j: int| 0 <= j < xs.len() ==> val_ty(#[trigger] xs@[j]@) == e@,
        r is None ==> deser_fixed_elems(e@, s as nat, b@) is None,
    decreases b@.len(), t, 1nat, 0nat,
{
    reveal(deser);
    reveal(deser_fixed_elems);
    reveal(deser_var_array);
    reveal(deser_var_elems);
    reveal(deser_tuple);
    reveal(deser_members);
    reveal(deser_dict_entry);
    let n = b.len();
    let mut out: Vec<Variant> = Vec::new();
    let mut pos: usize = 0;
    proof { lemma_vals_of(out@); }
    assert(b@.subrange(0, n as int) =~= b@);
    assert(vals_of(out@) + vals_of(out@) =~= vals_of(out@)) by { lemma_vals_of(out@); }
    while pos < n
        invariant
            *t == VariantType::Array(Box::new(*e)),
            s > 0,
            n == b@.len(),
            pos <= n,
            deser_fixed_elems(e@, s as nat, b@) == prepend(vals_of(out@), deser_fixed_elems(e@, s as nat, b@.subrange(pos as int, n as int))),
            forall|j: int| 0 <= j < out.len() ==> val_ty(#[trigger] out@[j]@) == e@,
        decreases n - pos,
    {
        proof {
            reveal(deser);
            reveal(deser_fixed_elems);
            reveal(deser_var_array);
            reveal(deser_var_elems);
            reveal(deser_tuple);
            reveal(deser_members);
            reveal(deser_dict_entry);
        }
        let ghost rest = b@.subrange(pos as int, n as int);
        if s > n - pos {
            return None;
        }
        let chunk = vstd::slice::slice_subrange(b, pos, pos + s);
        proof {
            assert(rest.subrange(0, s as int) =~= chunk@);
            assert(rest.subrange(s as int, rest.len() as int) =~= b@.subrange(pos + s, n as int));
        }
        proof {
            assert(decreases_to!(*t => (*t)->Array_0));
        }
        let x = match decode(e, chunk) {
            Some(x) => x,
            None => return None,
        };
        if !x.type_().equals(e) {
            return None;
        }
        proof {
            lemma_vals_of_push(out@, x);
            assert(vals_of(out@) + (seq![x@] + deser_fixed_elems(e@, s as nat, b@.subrange(pos + s, n as int))->0)
                =~= vals_of(out@).push(x@) + deser_fixed_elems(e@, s as nat, b@.subrange(pos + s, n as int))->0);
        }
        out.push(x);
        pos = pos + s;
    }
    proof {
        reveal(deser);
        reveal(deser_fixed_elems);
        reveal(deser_var_array);
        reveal(deser_var_elems);
        reveal(deser_tuple);
        reveal(deser_members);
        reveal(deser_dict_entry);
        assert(b@.subrange(pos as int, n as int) =~= Seq::<u8>::empty());
        assert(vals_of(out@) + Seq::<Val>::empty() =~= vals_of(out@));
    }
    Some(out)
}


fn align_up_u128(n: u128, a: usize) -> (r: u128)
    requires
        is_alignment(a as nat),
        n <= 0xffff_ffff_ffff_ffff,
    ensures
        r == align_up(n as nat, a as nat),
{
    let a = a as u128;
    if n % a == 0 {
        n
    } else {
        n + (a - n % a)
    }
}

fn decode_var_array(t: &VariantType, e: &VariantType, b: &[u8]) -> (r: Option<Variant>)
    requires
        *t == VariantType::Array(Box::new(*e)),
        fixed_size(e@) is None,
    ensures
        r matches Some(v) ==> deser_var_array(e@, b@) == Some(v@),
        r is None ==> deser_var_array(e@, b@) is None,
    decreases b@.len(), t, 1nat, 0nat,
{
    reveal(deser);
    reveal(deser_fixed_elems);
    reveal(deser_var_array);
    reveal(deser_var_elems);
    reveal(deser_tuple);
    reveal(deser_members);
    reveal(deser_dict_entry);
    let n = b.len();
    if n == 0 {
        let xs: Vec<Variant> = Vec::new();
        proof { lemma_vals_of(xs@); assert(vals_of(xs@) =~= Seq::<Val>::empty()); }
        return Some(Variant::new_array(e, xs));
    }
    let k = exec_offset_size_for(n);
    let last_bytes = vstd::slice::slice_subrange(b, n - k, n);
    let last = exec_read_le(last_bytes);
    if last as u128 > (n - k) as u128 || (n as u128 - last as u128) % (k as u128) != 0 {
        return None;
    }
    let table = last as usize;
    let count = (n - table) / k;
    assert(last_bytes@ =~= b@.subrange(b@.len() - k, b@.len() as int));
    assert(deser_var_array(e@, b@) == (match deser_var_elems(e@, b@, table as nat, k as nat, count as nat, 0, 0) {
        Some(xs) => Some(Val::Array(e@, xs)),
        None => None,
    }));
    let a = e.alignment();
    let mut out: Vec<Variant> = Vec::new();
    let mut i: usize = 0;
    let mut off: usize = table;
    let mut prev_end: usize = 0;
    proof { lemma_vals_of(out@); }
    assert(vals_of(out@) + deser_var_elems(e@, b@, table as nat, k as nat, count as nat, 0, 0)->0
        =~= deser_var_elems(e@, b@, table as nat, k as nat, count as nat, 0, 0)->0);
    while i < count
        invariant
            *t == VariantType::Array(Box::new(*e)),
            n == b@.len(),
            1 <= k <= 8,
            a == alignment(e@),
            is_alignment(a as nat),
            table <= n,
            off == table + i * k,
            prev_end <= table,
            i <= count,
            deser_var_array(e@, b@) == (match deser_var_elems(e@, b@, table as nat, k as nat, count as nat, 0, 0) {
                Some(xs) => Some(Val::Array(e@, xs)),
                None => None,
            }),
            deser_var_elems(e@, b@, table as nat, k as nat, count as nat, 0, 0)
                == prepend(vals_of(out@), deser_var_elems(e@, b@, table as nat, k as nat, count as nat, i as nat, prev_end as nat)),
            forall|j: int| 0 <= j < out.len() ==> val_ty(#[trigger] out@[j]@) == e@,
        decreases count - i,
    {
        proof {
            reveal(deser);
            reveal(deser_fixed_elems);
            reveal(deser_var_array);
            reveal(deser_var_elems);
            reveal(deser_tuple);
            reveal(deser_members);
            reveal(deser_dict_entry);
        }
        if off > n || k > n - off {
            proof { assert(table + (i + 1) * k == off + k) by (nonlinear_arith) requires off == table + i * k; }
            return None;
        }
        proof { assert(table + (i + 1) * k == off + k) by (nonlinear_arith) requires off == table + i * k; }
        let end = exec_read_le(vstd::slice::slice_subrange(b, off, off + k));
        let start = align_up_u128(prev_end as u128, a);
        if !(start <= end as u128 && end as u128 <= table as u128) {
            return None;
        }
        let x = match decode(e, vstd::slice::slice_subrange(b, start as usize, end as usize)) {
            Some(x) => x,
            None => return None,
        };
        if !x.type_().equals(e) {
            return None;
        }
        proof {
            lemma_vals_of_push(out@, x);
            let r2 = deser_var_elems(e@, b@, table as nat, k as nat, count as nat, (i + 1) as nat, end as nat);
            if let Some(xs) = r2 {
                assert(vals_of(out@) + (seq![x@] + xs) =~= vals_of(out@).push(x@) + xs);
            }
        }
        out.push(x);
        i = i + 1;
        off = off + k;
        prev_end = end as usize;
    }
    proof {
        reveal(deser);
        reveal(deser_fixed_elems);
        reveal(deser_var_array);
        reveal(deser_var_elems);
        reveal(deser_tuple);
        reveal(deser_members);
        reveal(deser_dict_entry);
        assert(vals_of(out@) + Seq::<Val>::empty() =~= vals_of(out@));
    }
    Some(Variant::new_array(e, out))
}

#[verifier::rlimit(40)]
fn decode_dict_entry(t: &VariantType, kt: &VariantType, vt: &VariantType, b: &[u8]) -> (r: Option<Variant>)
    requires
        *t == VariantType::DictEntry(Box::new(*kt), Box::new(*vt)),
    ensures
        r matches Some(v) ==> deser_dict_entry(t@, b@) == Some(v@),
        r is None ==> deser_dict_entry(t@, b@) is None,
    decreases b@.len(), t, 1nat, 0nat,
{
    reveal(deser);
    reveal(deser_fixed_elems);
    reveal(deser_var_array);
    reveal(deser_var_elems);
    reveal(deser_tuple);
    reveal(deser_members);
    reveal(deser_dict_entry);
    let n = b.len();
    let key_fixed = kt.fixed_size();
    let fixed = t.fixed_size();
    let n_off: usize = if key_fixed.is_some() { 0 } else { 1 };
    let k: usize = if fixed.is_some() { 0 } else { exec_offset_size_for(n) };
    match fixed {
        Some(s) => if n != s { return None; },
        None => {},
    }
    if n_off * k > n {
        return None;
    }
    let body_end = n - n_off * k;
    let key_end: u128 = match key_fixed {
        Some(s) => s as u128,
        None => {
            if k > 8 {
                return None;
            }
            exec_read_le(vstd::slice::slice_subrange(b, n - k, n)) as u128
        },
    };
    if key_end > body_end as u128 {
        return None;
    }
    let val_start = align_up_u128(key_end, vt.alignment());
    let val_end: u128 = match vt.fixed_size() {
        Some(s) => val_start + s as u128,
        None => body_end as u128,
    };
    if !(val_start <= val_end && val_end <= body_end as u128) {
        return None;
    }
    let x = decode(kt, vstd::slice::slice_subrange(b, 0, key_end as usize));
    let y = decode(vt, vstd::slice::slice_subrange(b, val_start as usize, val_end as usize));
    match (x, y) {
        (Some(x), Some(y)) => Some(Variant::new_dict_entry(x, y)),
        _ => None,
    }
}

#[verifier::rlimit(40)]
fn decode_tuple(t: &VariantType, ts: &Vec<VariantType>, b: &[u8]) -> (r: Option<Variant>)
    requires
        *t == VariantType::Tuple(*ts),
    ensures
        r matches Some(v) ==> deser_tuple(tys_of(ts@), b@) == Some(v@),
        r is None ==> deser_tuple(tys_of(ts@), b@) is None,
    decreases b@.len(), t, 1nat, 0nat,
{
    reveal(deser);
    reveal(deser_fixed_elems);
    reveal(deser_var_array);
    reveal(deser_var_elems);
    reveal(deser_tuple);
    reveal(deser_members);
    reveal(deser_dict_entry);
    let n = b.len();
    proof { lemma_tys_of(ts@); }
    if ts.len() == 0 {
        if n == 1 && b[0] == 0 {
            let xs: Vec<Variant> = Vec::new();
            proof { lemma_vals_of(xs@); assert(vals_of(xs@) =~= Seq::<Val>::empty()); }
            return Some(Variant::new_tuple(xs));
        }
        return None;
    }
    let (k, body_end) = match t.fixed_size() {
        Some(s) => {
            if n != s {
                return None;
            }
            (0usize, n)
        },
        None => {
            let k = exec_offset_size_for(n);
            let n_off = exec_count_offsets(ts);
            if n_off as u128 * k as u128 > n as u128 {
                return None;
            }
            (k, n - n_off * k)
        },
    };
    let m = ts.len();
    let mut out: Vec<Variant> = Vec::new();
    let mut i: usize = 0;
    let mut prev_end: usize = 0;
    let mut oi: usize = 0;
    proof { lemma_vals_of(out@); }
    let ghost tys = tys_of(ts@);
    assert(deser_tuple(tys, b@) == (match deser_members(tys, b@, k as nat, body_end as nat, 0, 0, 0) {
        Some(xs) => Some(Val::Tuple(xs)),
        None => None,
    }));
    assert(vals_of(out@) + deser_members(tys, b@, k as nat, body_end as nat, 0, 0, 0)->0
        =~= deser_members(tys, b@, k as nat, body_end as nat, 0, 0, 0)->0);
    while i < m
        invariant
            *t == VariantType::Tuple(*ts),
            tys == tys_of(ts@),
            tys.len() == m == ts.len(),
            forall|j: int| 0 <= j < ts.len() ==> #[trigger] tys[j] == ts@[j]@,
            n == b@.len(),
            k <= 8,
            body_end <= n,
            prev_end <= body_end,
            oi <= i,
            i <= m,
            deser_tuple(tys, b@) == (match deser_members(tys, b@, k as nat, body_end as nat, 0, 0, 0) {
                Some(xs) => Some(Val::Tuple(xs)),
                None => None,
            }),
            deser_members(tys, b@, k as nat, body_end as nat, 0, 0, 0)
                == prepend(vals_of(out@), deser_members(tys, b@, k as nat, body_end as nat, i as nat, prev_end as nat, oi as nat)),
        decreases m - i,
    {
        proof {
            crate::types::lemma_vec_elem_decreases(*t, *ts, i as int);
            reveal(deser);
            reveal(deser_fixed_elems);
            reveal(deser_var_array);
            reveal(deser_var_elems);
            reveal(deser_tuple);
            reveal(deser_members);
            reveal(deser_dict_entry);
            }
        let ti = &ts[i];
        let a = ti.alignment();
        let start = align_up_u128(prev_end as u128, a);
        let mut next_oi = oi;
        let end: u128 = match ti.fixed_size() {
            Some(s) => start + s as u128,
            None => {
                if i + 1 == m {
                    body_end as u128
                } else if {
                    proof {
                        assert((oi as u128 + 1) * (k as u128) <= (oi as u128 + 1) * 8) by (nonlinear_arith)
                            requires k <= 8;
                    }
                    (oi as u128 + 1) * (k as u128) <= n as u128
                } {
                    next_oi = oi + 1;
                    proof {
                        assert((oi + 1) * k <= n);
                        assert(oi * k + k == (oi + 1) * k) by (nonlinear_arith);
                    }
                    exec_read_le(vstd::slice::slice_subrange(b, n - (oi + 1) * k, n - oi * k)) as u128
                } else {
                    return None;
                }
            },
        };
        if !(start <= end && end <= body_end as u128) {
            return None;
        }
        let x = match decode(ti, vstd::slice::slice_subrange(b, start as usize, end as usize)) {
            Some(x) => x,
            None => return None,
        };
        if !x.type_().equals(ti) {
            return None;
        }
        proof {
            lemma_vals_of_push(out@, x);
            let r2 = deser_members(tys, b@, k as nat, body_end as nat, (i + 1) as nat, end as nat, next_oi as nat);
            if let Some(xs) = r2 {
                assert(vals_of(out@) + (seq![x@] + xs) =~= vals_of(out@).push(x@) + xs);
            }
        }
        out.push(x);
        i = i + 1;
        prev_end = end as usize;
        oi = next_oi;
    }
    proof {
        reveal(deser);
        reveal(deser_fixed_elems);
        reveal(deser_var_array);
        reveal(deser_var_elems);
        reveal(deser_tuple);
        reveal(deser_members);
        reveal(deser_dict_entry);
        assert(vals_of(out@) + Seq::<Val>::empty() =~= vals_of(out@));
    }
    Some(Variant::new_tuple(out))
}

/// How many framing offsets a tuple of members `ts` records.
fn exec_count_offsets(ts: &Vec<VariantType>) -> (r: usize)
    requires
        ts.len() > 0,
    ensures
        r == count_offsets(tys_of(ts@)),
        r < ts.len(),
{
    proof { lemma_tys_of(ts@); }
    let ghost tys = tys_of(ts@);
    let mut c: usize = 0;
    let mut i: usize = 0;
    assert(count_offsets(tys.subrange(0, 1)) == 0);
    while i + 1 < ts.len()
        invariant
            tys == tys_of(ts@),
            tys.len() == ts.len(),
            forall|j: int| 0 <= j < ts.len() ==> #[trigger] tys[j] == ts@[j]@,
            i + 1 <= ts.len(),
            c <= i,
            c == count_offsets(tys.subrange(0, i + 1)),
        decreases ts.len() - i,
    {
        let f = ts[i].fixed_size();
        proof {
            let sub = tys.subrange(0, i + 2);
            assert(sub.drop_last() =~= tys.subrange(0, i + 1));
            assert(sub[sub.len() - 2] == tys[i as int]);
        }
        if f.is_none() {
            c = c + 1;
        }
        i = i + 1;
    }
    assert(tys.subrange(0, ts.len() as int) =~= tys);
    c
}


/// The value that stands for unreadable bytes of type `t`: false, zero, the
/// empty string, empty containers, and the boxed unit.
pub open spec fn default_val(t: Ty) -> Val
    decreases t,
{
    match t {
        Ty::Boolean => Val::Boolean(false),
        Ty::Byte => Val::Byte(0),
        Ty::Int16 => Val::Int16(0),
        Ty::UInt16 => Val::UInt16(0),
        Ty::Int32 => Val::Int32(0),
        Ty::UInt32 => Val::UInt32(0),
        Ty::Int64 => Val::Int64(0),
        Ty::UInt64 => Val::UInt64(0),
        Ty::Double => Val::Double(0),
        Ty::Str => Val::Str(Seq::empty()),
        Ty::ObjectPath => Val::ObjectPath(seq!['/']),
        Ty::Signature => Val::Signature(Seq::empty()),
        Ty::Variant => Val::Boxed(Box::new(Val::Tuple(Seq::empty()))),
        Ty::Array(e) => Val::Array(*e, Seq::empty()),
        Ty::Maybe(e) => Val::Maybe(*e, None),
        Ty::Tuple(ts) => Val::Tuple(default_vals(ts)),
        Ty::DictEntry(k, v) => Val::DictEntry(Box::new(default_val(*k)), Box::new(default_val(*v))),
    }
}

pub open spec fn default_vals(ts: Seq<Ty>) -> Seq<Val>
    decreases ts,
{
    if ts.len() == 0 {
        Seq::empty()
    } else {
        default_vals(ts.drop_last()).push(default_val(ts.last()))
    }
}

/// What a checked read of the bytes `b` as type `t` gives: the value they
/// hold when they are its canonical serialized form, else the default.
pub open spec fn read_checked(t: Ty, b: Seq<u8>) -> Val {
    match deser(t, b) {
        Some(v) => if ser(v) == b { v } else { default_val(t) },
        None => default_val(t),
    }
}

/// What an unchecked read gives: the value the framing yields, else the
/// default.
pub open spec fn read_unchecked(t: Ty, b: Seq<u8>) -> Val {
    match deser(t, b) {
        Some(v) => v,
        None => default_val(t),
    }
}

/// The default value of type `t`.
pub fn default_value(t: &VariantType) -> (r: Variant)
    ensures
        r@ == default_val(t@),
    decreases t,
{
    match t {
        VariantType::Boolean => Variant::new_boolean(false),
        VariantType::Byte => Variant::new_byte(0),
        VariantType::Int16 => Variant::new_int16(0),
        VariantType::UInt16 => Variant::new_uint16(0),
        VariantType::Int32 => Variant::new_int32(0),
        VariantType::UInt32 => Variant::new_uint32(0),
        VariantType::Int64 => Variant::new_int64(0),
        VariantType::UInt64 => Variant::new_uint64(0),
        VariantType::Double => Variant::new_double_bits(0),
        VariantType::Str => {
            let empty = String::new();
            Variant::new_string(empty.as_str())
        },
        VariantType::ObjectPath => {
            proof { reveal_strlit("/"); }
            assert("/"@ =~= seq!['/']);
            let r = Variant::new_object_path("/");
            r
        },
        VariantType::Signature => {
            let empty = String::new();
            Variant::new_signature(empty.as_str())
        },
        VariantType::Variant => {
            let unit: Vec<Variant> = Vec::new();
            proof { lemma_vals_of(unit@); assert(vals_of(unit@) =~= Seq::<Val>::empty()); }
            Variant::from_variant(&Variant::new_tuple(unit))
        },
        VariantType::Array(e) => {
            let xs: Vec<Variant> = Vec::new();
            proof { lemma_vals_of(xs@); assert(vals_of(xs@) =~= Seq::<Val>::empty()); }
            Variant::new_array(e, xs)
        },
        VariantType::Maybe(e) => Variant::new_maybe(e, None),
        VariantType::DictEntry(k, v) => Variant::new_dict_entry(default_value(k), default_value(v)),
        VariantType::Tuple(ts) => {
            let mut xs: Vec<Variant> = Vec::new();
            let mut i: usize = 0;
            proof {
                lemma_vals_of(xs@);
                assert(ts@.subrange(0, 0) =~= Seq::<VariantType>::empty());
                assert(vals_of(xs@) =~= Seq::<Val>::empty());
            }
            while i < ts.len()
                invariant
                    *t == VariantType::Tuple(*ts),
                    i <= ts.len(),
                    vals_of(xs@) == default_vals(tys_of(ts@.subrange(0, i as int))),
                decreases ts.len() - i,
            {
                proof { crate::types::lemma_vec_elem_decreases(*t, *ts, i as int); }
                let x = default_value(&ts[i]);
                proof {
                    lemma_vals_of_push(xs@, x);
                    crate::types::lemma_tys_of_push(ts@.subrange(0, i as int), ts@[i as int]);
                    assert(ts@.subrange(0, i as int).push(ts@[i as int]) =~= ts@.subrange(0, i + 1));
                    let d = tys_of(ts@.subrange(0, i + 1));
                    assert(d.drop_last() == tys_of(ts@.subrange(0, i as int)));
                }
                xs.push(x);
                i = i + 1;
            }
            assert(ts@.subrange(0, ts.len() as int) =~= ts@);
            Variant::new_tuple(xs)
        },
    }
}

/// Whether `a` and `b` hold the same bytes.
fn same_bytes(a: &[u8], b: &[u8]) -> (r: bool)
    ensures
        r == (a@ == b@),
{
    if a.len() != b.len() {
        return false;
    }
    let mut i: usize = 0;
    while i < a.len()
        invariant
            a@.len() == b@.len(),
            i <= a@.len(),
            forall|j: int| 0 <= j < i ==> a@[j] == b@[j],
        decreases a.len() - i,
    {
        if a[i] != b[i] {
            return false;
        }
        i = i + 1;
    }
    assert(a@ =~= b@);
    true
}

impl Variant {
    /// Reads a value of type `type_` from bytes, checking that they are its
    /// canonical serialized form; bytes that are not give the type's default
    /// value.
    pub fn from_bytes_with_type(bytes: &[u8], type_: &VariantType) -> (r: Variant)
        ensures
            r@ == read_checked(type_@, bytes@),
    {
        match decode(type_, bytes) {
            Some(v) => {
                let d = v.data();
                if same_bytes(d.as_slice(), bytes) {
                    v
                } else {
                    default_value(type_)
                }
            },
            None => default_value(type_),
        }
    }

    /// As `from_bytes_with_type`, without the check that the bytes are in
    /// canonical form; for bytes that this serializer produced.
    pub fn from_bytes_with_type_trusted(bytes: &[u8], type_: &VariantType) -> (r: Variant)
        ensures
            r@ == read_unchecked(type_@, bytes@),
    {
        match decode(type_, bytes) {
            Some(v) => v,
            None => default_value(type_),
        }
    }

    /// As `from_bytes_with_type`.
    pub fn from_data_with_type(data: &[u8], type_: &VariantType) -> (r: Variant)
        ensures
            r@ == read_checked(type_@, data@),
    {
        Variant::from_bytes_with_type(data, type_)
    }

    /// As `from_bytes_with_type_trusted`.
    pub fn from_data_with_type_trusted(data: &[u8], type_: &VariantType) -> (r: Variant)
        ensures
            r@ == read_unchecked(type_@, data@),
    {
        Variant::from_bytes_with_type_trusted(data, type_)
    }

    /// The serialized form of this value.
    pub fn data_as_bytes(&self) -> (r: Vec<u8>)
        ensures
            r@ == ser(self@),
    {
        self.data()
    }

    /// The size of the serialized form of this value.
    pub fn size(&self) -> (r: usize)
        ensures
            r == ser(self@).len(),
    {
        self.data().len()
    }

    /// Copies the serialized form into the front of `data`, and says how
    /// many bytes that took; an error, with `data` unchanged, where it is too
    /// short.
    pub fn store(&self, data: &mut [u8]) -> (r: Result<usize, InsufficientSpace>)
        ensures
            r is Ok <==> ser(self@).len() <= old(data)@.len(),
            r matches Ok(n) ==> n == ser(self@).len()
                && final(data)@ == ser(self@) + old(data)@.subrange(n as int, old(data)@.len() as int),
            r matches Err(e) ==> e.needed == ser(self@).len() && e.available == old(data)@.len()
                && final(data)@ == old(data)@,
    {
        let bytes = self.data();
        let n = bytes.len();
        if data.len() < n {
            return Err(InsufficientSpace { needed: n, available: data.len() });
        }
        let ghost start = data@;
        let mut i: usize = 0;
        while i < n
            invariant
                n == bytes@.len(),
                n <= data@.len(),
                data@.len() == start.len(),
                i <= n,
                forall|j: int| 0 <= j < i ==> data@[j] == bytes@[j],
                forall|j: int| n <= j < data@.len() ==> data@[j] == start[j],
            decreases n - i,
        {
            data[i] = bytes[i];
            i = i + 1;
        }
        assert(data@ =~= bytes@ + start.subrange(n as int, start.len() as int));
        Ok(n)
    }

    /// This value in normal form.
    pub fn normal_form(&self) -> (r: Variant)
        ensures
            r@ == normal_val(self@),
    {
        self.dup()
    }
}

/// The normal form of a value: the value itself. Values are held as trees,
/// and their serialized form is always produced canonically.
pub open spec fn normal_val(v: Val) -> Val {
    v
}

/// Taking the normal form twice gives what taking it once gives.
pub proof fn lemma_normal_form_idempotent(v: Val)
    ensures
        normal_val(normal_val(v)) == normal_val(v),
        ser(normal_val(v)) == ser(v),
{
}

/// The error of storing a serialized value into too small a buffer.
#[derive(Debug, PartialEq, Eq, Clone, Copy)]
pub struct InsufficientSpace {
    pub needed: usize,
    pub available: usize,
}

} // verus!
