//! The canonical serialized form of values: scalars in little-endian
//! order at their natural alignment, strings nul-terminated, and containers
//! framed by tables of end offsets.
use vstd::prelude::*;
use crate::types::{Ty, type_text, fixed_size, alignment, align_up};
use crate::value::{Val, val_ty};

verus! {

/// Byte `i` of `x`, counting from the least significant.
pub open spec fn byte_of(x: u64, i: nat) -> u8 {
    ((x >> (8 * i) as u64) & 0xffu64) as u8
}

/// The `n` least significant bytes of `x`, least significant first.
pub open spec fn le_bytes(x: u64, n: nat) -> Seq<u8> {
    Seq::new(n, |i: int| byte_of(x, i as nat))
}

/// `n` zero bytes.
pub open spec fn zeros(n: nat) -> Seq<u8> {
    Seq::new(n, |i: int| 0u8)
}

/// The zero bytes that bring a length `len` up to `n`.
pub open spec fn zeros_to(len: nat, n: nat) -> Seq<u8> {
    if len < n { zeros((n - len) as nat) } else { Seq::empty() }
}

/// The zero bytes that bring `len` up to a multiple of `a`.
pub open spec fn padding(len: nat, a: nat) -> Seq<u8> {
    zeros((align_up(len, a) - len) as nat)
}

/// The width of each framing offset of a container whose body has `body`
/// bytes and which records `n` offsets: the smallest of 1, 2, 4 and 8 in
/// which the container's total size can be written.
pub open spec fn offset_size(body: nat, n: nat) -> nat {
    if body + n <= 0xff {
        1
    } else if body + 2 * n <= 0xffff {
        2
    } else if body + 4 * n <= 0xffff_ffff {
        4
    } else {
        8
    }
}

/// The offsets `ends`, each written in `k` bytes, in order.
pub open spec fn offsets_bytes(ends: Seq<nat>, k: nat) -> Seq<u8>
    decreases ends.len(),
{
    if ends.len() == 0 {
        Seq::empty()
    } else {
        offsets_bytes(ends.drop_last(), k) + le_bytes(ends.last() as u64, k)
    }
}

/// A body followed by its framing offsets in the smallest width that fits.
pub open spec fn framed(body: Seq<u8>, ends: Seq<nat>) -> Seq<u8> {
    body + offsets_bytes(ends, offset_size(body.len(), ends.len()))
}

/// The serialized form of a value.
pub open spec fn ser(v: Val) -> Seq<u8>
    decreases v,
{
    match v {
        Val::Boolean(b) => seq![if b { 1u8 } else { 0u8 }],
        Val::Byte(x) => seq![x],
        Val::Int16(x) => le_bytes(x as u16 as u64, 2),
        Val::UInt16(x) => le_bytes(x as u64, 2),
        Val::Int32(x) => le_bytes(x as u32 as u64, 4),
        Val::UInt32(x) => le_bytes(x as u64, 4),
        Val::Int64(x) => le_bytes(x as u64, 8),
        Val::UInt64(x) => le_bytes(x, 8),
        Val::Double(x) => le_bytes(x, 8),
        Val::Str(s) => vstd::utf8::encode_utf8(s).push(0u8),
        Val::ObjectPath(s) => vstd::utf8::encode_utf8(s).push(0u8),
        Val::Signature(s) => vstd::utf8::encode_utf8(s).push(0u8),
        Val::Boxed(x) => ser(*x).push(0u8) + vstd::utf8::encode_utf8(type_text(val_ty(*x))),
        Val::Maybe(e, o) => match o {
            None => Seq::empty(),
            Some(x) => if fixed_size(e) is Some { ser(*x) } else { ser(*x).push(0u8) },
        },
        Val::Array(e, xs) => if fixed_size(e) is Some {
            array_body(xs, alignment(e)).0
        } else {
            framed(array_body(xs, alignment(e)).0, array_body(xs, alignment(e)).1)
        },
        Val::Tuple(xs) => if xs.len() == 0 {
            seq![0u8]
        } else {
            let (body, ends) = tuple_body(xs);
            let t = Ty::Tuple(crate::value::val_tys(xs));
            match fixed_size(t) {
                Some(n) => body + zeros_to(body.len(), n),
                None => framed(body, tuple_ends(xs, ends).reverse()),
            }
        },
        Val::DictEntry(k, x) => {
            let kb = ser(*k);
            let body = kb + padding(kb.len(), alignment(val_ty(*x))) + ser(*x);
            let t = Ty::DictEntry(Box::new(val_ty(*k)), Box::new(val_ty(*x)));
            match fixed_size(t) {
                Some(n) => body + zeros_to(body.len(), n),
                None => if fixed_size(val_ty(*k)) is Some {
                    body
                } else {
                    framed(body, seq![kb.len()])
                },
            }
        },
    }
}

/// Elements laid out one after another, each at alignment `a`, and where
/// each ends.
pub open spec fn array_body(xs: Seq<Val>, a: nat) -> (Seq<u8>, Seq<nat>)
    decreases xs,
{
    if xs.len() == 0 {
        (Seq::empty(), Seq::empty())
    } else {
        let (b, ends) = array_body(xs.drop_last(), a);
        let b2 = b + padding(b.len(), a) + ser(xs.last());
        (b2, ends.push(b2.len()))
    }
}

/// Tuple members laid out one after another, each at its own alignment,
/// and where each variable-sized member ends.
pub open spec fn tuple_body(xs: Seq<Val>) -> (Seq<u8>, Seq<nat>)
    decreases xs,
{
    if xs.len() == 0 {
        (Seq::empty(), Seq::empty())
    } else {
        let (b, ends) = tuple_body(xs.drop_last());
        let x = xs.last();
        let b2 = b + padding(b.len(), alignment(val_ty(x))) + ser(x);
        (b2, if fixed_size(val_ty(x)) is Some { ends } else { ends.push(b2.len()) })
    }
}

/// The recorded ends of a tuple: that of a variable-sized last member is
/// implied by the start of the offset table and left out.
pub open spec fn tuple_ends(xs: Seq<Val>, ends: Seq<nat>) -> Seq<nat> {
    if xs.len() > 0 && fixed_size(val_ty(xs.last())) is None {
        ends.drop_last()
    } else {
        ends
    }
}


/// Offsets held as machine integers, read as naturals.
pub open spec fn nats(s: Seq<usize>) -> Seq<nat> {
    s.map_values(|e: usize| e as nat)
}

/// Appends the `n` least significant bytes of `x`, least significant first.
pub fn push_le(out: &mut Vec<u8>, x: u64, n: usize)
    requires
        n <= 8,
    ensures
        final(out)@ == old(out)@ + le_bytes(x, n as nat),
{
    let ghost start = out@;
    let mut i: usize = 0;
    while i < n
        invariant
            i <= n <= 8,
            out@ == start + le_bytes(x, i as nat),
        decreases n - i,
    {
        let b = ((x >> (8 * i as u64)) & 0xff) as u8;
        out.push(b);
        i = i + 1;
        assert(out@ =~= start + le_bytes(x, i as nat));
    }
}

/// Appends the zero bytes that bring the length of `out` up to a multiple
/// of `a`.
pub fn push_padding(out: &mut Vec<u8>, a: usize)
    requires
        crate::types::is_alignment(a as nat),
    ensures
        final(out)@ == old(out)@ + padding(old(out)@.len(), a as nat),
{
    let ghost start = out@;
    let r = out.len() % a;
    if r == 0 {
        assert(out@ =~= start + padding(start.len(), a as nat));
        return;
    }
    let n = a - r;
    let mut i: usize = 0;
    while i < n
        invariant
            i <= n,
            out@ == start + zeros(i as nat),
        decreases n - i,
    {
        out.push(0u8);
        i = i + 1;
        assert(out@ =~= start + zeros(i as nat));
    }
}

/// Appends `n` zero bytes.
pub fn push_zeros(out: &mut Vec<u8>, n: usize)
    ensures
        final(out)@ == old(out)@ + zeros(n as nat),
{
    let ghost start = out@;
    let mut i: usize = 0;
    while i < n
        invariant
            i <= n,
            out@ == start + zeros(i as nat),
        decreases n - i,
    {
        out.push(0u8);
        i = i + 1;
        assert(out@ =~= start + zeros(i as nat));
    }
}

/// The width of each framing offset; see `offset_size`.
pub fn exec_offset_size(body: usize, n: usize) -> (r: usize)
    ensures
        r == offset_size(body as nat, n as nat),
        r == 1 || r == 2 || r == 4 || r == 8,
{
    let b = body as u128;
    let m = n as u128;
    if b + m <= 0xff {
        1
    } else if b + 2 * m <= 0xffff {
        2
    } else if b + 4 * m <= 0xffff_ffff {
        4
    } else {
        8
    }
}

/// Appends the offsets `ends`, each in `k` bytes, in order.
pub fn push_offsets(out: &mut Vec<u8>, ends: &Vec<usize>, k: usize)
    requires
        k <= 8,
    ensures
        final(out)@ == old(out)@ + offsets_bytes(nats(ends@), k as nat),
{
    let ghost start = out@;
    let mut i: usize = 0;
    while i < ends.len()
        invariant
            i <= ends.len(),
            k <= 8,
            out@ == start + offsets_bytes(nats(ends@.subrange(0, i as int)), k as nat),
        decreases ends.len() - i,
    {
        push_le(out, ends[i] as u64, k);
        proof {
            let p = nats(ends@.subrange(0, i + 1));
            assert(p.drop_last() =~= nats(ends@.subrange(0, i as int)));
            assert(p.last() == ends@[i as int] as nat);
            assert(out@ =~= start + offsets_bytes(p, k as nat));
        }
        i = i + 1;
    }
    assert(ends@.subrange(0, ends.len() as int) =~= ends@);
}

/// Appends the offsets `ends` in the order opposite to theirs.
pub fn push_offsets_reversed(out: &mut Vec<u8>, ends: &Vec<usize>, k: usize)
    requires
        k <= 8,
    ensures
        final(out)@ == old(out)@ + offsets_bytes(nats(ends@).reverse(), k as nat),
{
    let mut rev: Vec<usize> = Vec::new();
    let mut i: usize = ends.len();
    while i > 0
        invariant
            i <= ends.len(),
            rev@ == ends@.subrange(i as int, ends.len() as int).reverse(),
        decreases i,
    {
        i = i - 1;
        rev.push(ends[i]);
        assert(rev@ =~= ends@.subrange(i as int, ends.len() as int).reverse());
    }
    assert(ends@.subrange(0, ends.len() as int) =~= ends@);
    assert(nats(rev@) =~= nats(ends@).reverse());
    push_offsets(out, &rev, k);
}

} // verus!
