//! A deterministic text rendering of values, in the style of the GVariant
//! text format. It is meant to be read, not parsed back.
use vstd::prelude::*;
use crate::value::{Val, Variant, VariantClass, children, is_container_val};

verus! {

/// The digit of value `d` (below sixteen).
pub open spec fn digit(d: nat) -> char {
    seq!['0', '1', '2', '3', '4', '5', '6', '7', '8', '9', 'a', 'b', 'c', 'd', 'e', 'f'][d as int]
}

/// `n` in decimal.
pub open spec fn dec(n: nat) -> Seq<char>
    decreases n,
{
    if n < 10 {
        seq![digit(n)]
    } else {
        dec(n / 10) + seq![digit(n % 10)]
    }
}

/// The `w` least significant hexadecimal digits of `n`.
pub open spec fn hex(n: nat, w: nat) -> Seq<char>
    decreases w,
{
    if w == 0 {
        Seq::empty()
    } else {
        hex(n / 16, (w - 1) as nat) + seq![digit(n % 16)]
    }
}

/// An integer in decimal, with a minus sign where it is negative.
pub open spec fn int_text(i: int) -> Seq<char> {
    if i < 0 { seq!['-'] + dec((-i) as nat) } else { dec(i as nat) }
}

/// Text between single quotes.
pub open spec fn quoted(s: Seq<char>) -> Seq<char> {
    seq!['\''] + s + seq!['\'']
}

/// The rendering of a value: booleans as `true` or `false`, bytes in
/// hexadecimal, other integers in decimal, doubles by their bits, strings
/// quoted, `<x>` for a boxed value, `nothing` or `just x` for a maybe,
/// `[..]` for an array, `(..)` for a tuple (`(x,)` for one member) and
/// `{k: v}` for a dictionary entry.
pub open spec fn text_of(v: Val) -> Seq<char>
    decreases v,
{
    match v {
        Val::Boolean(b) => if b { seq!['t', 'r', 'u', 'e'] } else { seq!['f', 'a', 'l', 's', 'e'] },
        Val::Byte(x) => seq!['0', 'x'] + hex(x as nat, 2),
        Val::Int16(x) => int_text(x as int),
        Val::UInt16(x) => int_text(x as int),
        Val::Int32(x) => int_text(x as int),
        Val::UInt32(x) => int_text(x as int),
        Val::Int64(x) => int_text(x as int),
        Val::UInt64(x) => int_text(x as int),
        Val::Double(x) => seq!['d', 'o', 'u', 'b', 'l', 'e', ' ', '0', 'x'] + hex(x as nat, 16),
        Val::Str(s) => quoted(s),
        Val::ObjectPath(s) => seq!['o', 'b', 'j', 'e', 'c', 't', 'p', 'a', 't', 'h', ' '] + quoted(s),
        Val::Signature(s) => seq!['s', 'i', 'g', 'n', 'a', 't', 'u', 'r', 'e', ' '] + quoted(s),
        Val::Boxed(x) => seq!['<'] + text_of(*x) + seq!['>'],
        Val::Maybe(_, o) => match o {
            None => seq!['n', 'o', 't', 'h', 'i', 'n', 'g'],
            Some(x) => seq!['j', 'u', 's', 't', ' '] + text_of(*x),
        },
        Val::Array(_, xs) => seq!['['] + joined(xs) + seq![']'],
        Val::Tuple(xs) => seq!['('] + joined(xs) + (if xs.len() == 1 { seq![','] } else { Seq::empty() }) + seq![')'],
        Val::DictEntry(k, x) => seq!['{'] + text_of(*k) + seq![':', ' '] + text_of(*x) + seq!['}'],
    }
}

/// The renderings of `xs`, separated by `, `.
pub open spec fn joined(xs: Seq<Val>) -> Seq<char>
    decreases xs,
{
    if xs.len() == 0 {
        Seq::empty()
    } else if xs.len() == 1 {
        text_of(xs[0])
    } else {
        joined(xs.drop_last()) + seq![',', ' '] + text_of(xs.last())
    }
}

fn digit_str(d: u64) -> (r: &'static str)
    requires
        d < 16,
    ensures
        r@ == seq![digit(d as nat)],
{
    match d {
        0 => {
            proof { reveal_strlit("0"); }
            "0"
        },
        1 => {
            proof { reveal_strlit("1"); }
            "1"
        },
        2 => {
            proof { reveal_strlit("2"); }
            "2"
        },
        3 => {
            proof { reveal_strlit("3"); }
            "3"
        },
        4 => {
            proof { reveal_strlit("4"); }
            "4"
        },
        5 => {
            proof { reveal_strlit("5"); }
            "5"
        },
        6 => {
            proof { reveal_strlit("6"); }
            "6"
        },
        7 => {
            proof { reveal_strlit("7"); }
            "7"
        },
        8 => {
            proof { reveal_strlit("8"); }
            "8"
        },
        9 => {
            proof { reveal_strlit("9"); }
            "9"
        },
        10 => {
            proof { reveal_strlit("a"); }
            "a"
        },
        11 => {
            proof { reveal_strlit("b"); }
            "b"
        },
        12 => {
            proof { reveal_strlit("c"); }
            "c"
        },
        13 => {
            proof { reveal_strlit("d"); }
            "d"
        },
        14 => {
            proof { reveal_strlit("e"); }
            "e"
        },
        15 => {
            proof { reveal_strlit("f"); }
            "f"
        },
        _ => {
            proof { reveal_strlit("f"); }
            "f"
        },
    }
}

/// Appends `n` in decimal.
fn push_dec(out: &mut String, n: u64)
    ensures
        final(out)@ == old(out)@ + dec(n as nat),
    decreases n,
{
    let ghost start = out@;
    if n >= 10 {
        push_dec(out, n / 10);
    }
    out.append(digit_str(n % 10));
    assert(out@ =~= start + dec(n as nat));
}

/// Appends the `w` least significant hexadecimal digits of `n`.
fn push_hex(out: &mut String, n: u64, w: usize)
    ensures
        final(out)@ == old(out)@ + hex(n as nat, w as nat),
    decreases w,
{
    let ghost start = out@;
    if w > 0 {
        push_hex(out, n / 16, w - 1);
        out.append(digit_str(n % 16));
    }
    assert(out@ =~= start + hex(n as nat, w as nat));
}

/// Appends an integer in decimal.
fn push_int(out: &mut String, x: i128)
    requires
        -0x1_0000_0000_0000_0000 < x < 0x1_0000_0000_0000_0000,
    ensures
        final(out)@ == old(out)@ + int_text(x as int),
{
    let ghost start = out@;
    if x < 0 {
        proof { reveal_strlit("-"); }
        out.append("-");
        push_dec(out, (-x) as u64);
    } else {
        push_dec(out, x as u64);
    }
    assert(out@ =~= start + int_text(x as int));
}

/// Appends `s` between single quotes.
fn push_quoted(out: &mut String, s: &str)
    ensures
        final(out)@ == old(out)@ + quoted(s@),
{
    let ghost start = out@;
    proof { reveal_strlit("'"); }
    out.append("'");
    out.append(s);
    out.append("'");
    assert(out@ =~= start + quoted(s@));
}

/// Appends the renderings of the children of a container, separated by `, `.
fn push_children(v: &Variant, out: &mut String)
    requires
        is_container_val(v@),
    ensures
        final(out)@ == old(out)@ + joined(children(v@)),
    decreases v@, 0nat,
{
    let ghost start = out@;
    let n = v.n_children();
    let mut i: usize = 0;
    proof { reveal_strlit(", "); }
    assert(children(v@).subrange(0, 0) =~= Seq::<Val>::empty());
    assert(out@ =~= start + joined(children(v@).subrange(0, 0)));
    while i < n
        invariant
            is_container_val(v@),
            n == children(v@).len(),
            i <= n,
            out@ == start + joined(children(v@).subrange(0, i as int)),
        decreases n - i,
    {
        let c = v.child_value(i);
        proof {
            lemma_child_decreases(v@, i as int);
            reveal_strlit(", ");
        }
        let ghost before = out@;
        if i > 0 {
            out.append(", ");
        }
        write_text(&c, out);
        proof {
            let p = children(v@).subrange(0, i + 1);
            assert(p.drop_last() =~= children(v@).subrange(0, i as int));
            assert(p.last() == c@);
            if i == 0 {
                assert(p.len() == 1 && p[0] == c@);
                assert(joined(children(v@).subrange(0, 0)) == Seq::<char>::empty());
                assert(out@ =~= start + text_of(c@));
            } else {
                assert(out@ =~= before + seq![',', ' '] + text_of(c@));
                assert(joined(p) == joined(p.drop_last()) + seq![',', ' '] + text_of(p.last()));
            }
        }
        i = i + 1;
        assert(out@ =~= start + joined(children(v@).subrange(0, i as int)));
    }
    assert(children(v@).subrange(0, n as int) =~= children(v@));
}

/// A child of a container is smaller than the container.
proof fn lemma_child_decreases(v: Val, i: int)
    requires
        is_container_val(v),
        0 <= i < children(v).len(),
    ensures
        decreases_to!(v => children(v)[i]),
{
    match v {
        Val::Array(e, xs) => {
            assert(decreases_to!(v => xs));
            assert(decreases_to!(xs => xs[i]));
        },
        Val::Tuple(xs) => {
            assert(decreases_to!(v => xs));
            assert(decreases_to!(xs => xs[i]));
        },
        Val::Maybe(e, o) => {
            assert(decreases_to!(v => o));
            assert(decreases_to!(o => o->Some_0));
        },
        Val::DictEntry(k, x) => {
            assert(decreases_to!(v => k));
            assert(decreases_to!(v => x));
        },
        _ => {},
    }
}

/// Appends the rendering of `v`.
fn write_text(v: &Variant, out: &mut String)
    ensures
        final(out)@ == old(out)@ + text_of(v@),
    decreases v@, 1nat,
{
    let ghost start = out@;
    match v.classify() {
        VariantClass::Boolean => {
            proof { reveal_strlit("true"); reveal_strlit("false"); }
            if v.get_boolean().unwrap() { out.append("true"); } else { out.append("false"); }
        },
        VariantClass::Byte => {
            proof { reveal_strlit("0x"); }
            out.append("0x");
            push_hex(out, v.get_byte().unwrap() as u64, 2);
        },
        VariantClass::Int16 => push_int(out, v.get_int16().unwrap() as i128),
        VariantClass::UInt16 => push_int(out, v.get_uint16().unwrap() as i128),
        VariantClass::Int32 => push_int(out, v.get_int32().unwrap() as i128),
        VariantClass::UInt32 => push_int(out, v.get_uint32().unwrap() as i128),
        VariantClass::Int64 => push_int(out, v.get_int64().unwrap() as i128),
        VariantClass::UInt64 => push_int(out, v.get_uint64().unwrap() as i128),
        VariantClass::Double => {
            proof { reveal_strlit("double 0x"); }
            out.append("double 0x");
            push_hex(out, v.get_double_bits().unwrap(), 16);
        },
        VariantClass::String => push_quoted(out, v.str().unwrap()),
        VariantClass::ObjectPath => {
            proof { reveal_strlit("objectpath "); }
            out.append("objectpath ");
            push_quoted(out, v.str().unwrap());
        },
        VariantClass::Signature => {
            proof { reveal_strlit("signature "); }
            out.append("signature ");
            push_quoted(out, v.str().unwrap());
        },
        VariantClass::Variant => {
            let x = v.as_variant().unwrap();
            proof {
                reveal_strlit("<");
                reveal_strlit(">");
                assert(decreases_to!(v@ => v@->Boxed_0));
            }
            out.append("<");
            write_text(&x, out);
            out.append(">");
        },
        VariantClass::Maybe => {
            proof { reveal_strlit("nothing"); reveal_strlit("just "); }
            if v.n_children() == 0 {
                out.append("nothing");
            } else {
                let x = v.child_value(0);
                proof { lemma_child_decreases(v@, 0); }
                out.append("just ");
                write_text(&x, out);
            }
        },
        VariantClass::Array => {
            proof { reveal_strlit("["); reveal_strlit("]"); }
            out.append("[");
            push_children(v, out);
            out.append("]");
        },
        VariantClass::Tuple => {
            proof { reveal_strlit("("); reveal_strlit(")"); reveal_strlit(","); }
            out.append("(");
            push_children(v, out);
            if v.n_children() == 1 {
                out.append(",");
            }
            out.append(")");
        },
        VariantClass::DictEntry => {
            proof { reveal_strlit("{"); reveal_strlit("}"); reveal_strlit(": "); }
            let k = v.child_value(0);
            let x = v.child_value(1);
            proof {
                lemma_child_decreases(v@, 0);
                lemma_child_decreases(v@, 1);
            }
            out.append("{");
            write_text(&k, out);
            out.append(": ");
            write_text(&x, out);
            out.append("}");
        },
    }
    assert(out@ =~= start + text_of(v@));
}

impl Variant {
    /// A deterministic, readable rendering of this value; see `text_of`.
    pub fn print(&self) -> (r: String)
        ensures
            r@ == text_of(self@),
    {
        let mut out = String::new();
        write_text(self, &mut out);
        assert(out@ =~= text_of(self@));
        out
    }
}

} // verus!
