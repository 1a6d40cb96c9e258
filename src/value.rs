//! Values: the mathematical model `Val`, its typing rules, and the
//! executable `Variant`.
use vstd::prelude::*;
use std::cmp::Ordering;
use crate::serial::{ser, array_body, tuple_body, tuple_ends, framed, nats, push_le, push_padding, push_zeros, exec_offset_size, push_offsets, push_offsets_reversed};
use crate::types::{fixed_size, alignment, Ty, VariantType, tys_of, lemma_tys_of_push, is_container_ty};

verus! {

/// The mathematical model of a value.
pub enum Val {
    Boolean(bool),
    Byte(u8),
    Int16(i16),
    UInt16(u16),
    Int32(i32),
    UInt32(u32),
    Int64(i64),
    UInt64(u64),
    /// A double, held as its IEEE-754 bits.
    Double(u64),
    Str(Seq<char>),
    ObjectPath(Seq<char>),
    Signature(Seq<char>),
    /// A value boxed into the variant type `v`.
    Boxed(Box<Val>),
    /// An array: its element type and its elements.
    Array(Ty, Seq<Val>),
    /// A maybe: its element type and its content, if any.
    Maybe(Ty, Option<Box<Val>>),
    Tuple(Seq<Val>),
    DictEntry(Box<Val>, Box<Val>),
}

/// The type of a value.
pub open spec fn val_ty(v: Val) -> Ty
    decreases v,
{
    match v {
        Val::Boolean(_) => Ty::Boolean,
        Val::Byte(_) => Ty::Byte,
        Val::Int16(_) => Ty::Int16,
        Val::UInt16(_) => Ty::UInt16,
        Val::Int32(_) => Ty::Int32,
        Val::UInt32(_) => Ty::UInt32,
        Val::Int64(_) => Ty::Int64,
        Val::UInt64(_) => Ty::UInt64,
        Val::Double(_) => Ty::Double,
        Val::Str(_) => Ty::Str,
        Val::ObjectPath(_) => Ty::ObjectPath,
        Val::Signature(_) => Ty::Signature,
        Val::Boxed(_) => Ty::Variant,
        Val::Array(e, _) => Ty::Array(Box::new(e)),
        Val::Maybe(e, _) => Ty::Maybe(Box::new(e)),
        Val::Tuple(xs) => Ty::Tuple(val_tys(xs)),
        Val::DictEntry(k, x) => Ty::DictEntry(Box::new(val_ty(*k)), Box::new(val_ty(*x))),
    }
}

/// The types of several values.
pub open spec fn val_tys(xs: Seq<Val>) -> Seq<Ty>
    decreases xs,
{
    if xs.len() == 0 {
        Seq::empty()
    } else {
        val_tys(xs.drop_last()).push(val_ty(xs.last()))
    }
}

pub proof fn lemma_val_tys(xs: Seq<Val>)
    ensures
        val_tys(xs).len() == xs.len(),
        forall|i: int| 0 <= i < xs.len() ==> #[trigger] val_tys(xs)[i] == val_ty(xs[i]),
    decreases xs.len(),
{
    if xs.len() > 0 {
        lemma_val_tys(xs.drop_last());
    }
}

/// No character of `s` is the nul character, which ends a serialized string.
pub open spec fn no_nul(s: Seq<char>) -> bool {
    forall|i: int| 0 <= i < s.len() ==> s[i] != '\0'
}

/// A value is well-formed: strings hold no nul, and every child of an
/// array or maybe has the declared element type.
pub open spec fn well_formed(v: Val) -> bool
    decreases v,
{
    match v {
        Val::Str(s) => no_nul(s),
        Val::ObjectPath(s) => no_nul(s),
        Val::Signature(s) => no_nul(s),
        Val::Boxed(x) => well_formed(*x),
        Val::Array(e, xs) => all_well_formed(xs) && all_of_type(xs, e),
        Val::Maybe(e, o) => match o {
            Some(x) => well_formed(*x) && val_ty(*x) == e,
            None => true,
        },
        Val::Tuple(xs) => all_well_formed(xs),
        Val::DictEntry(k, x) => well_formed(*k) && well_formed(*x),
        _ => true,
    }
}

pub open spec fn all_well_formed(xs: Seq<Val>) -> bool
    decreases xs,
{
    if xs.len() == 0 {
        true
    } else {
        all_well_formed(xs.drop_last()) && well_formed(xs.last())
    }
}

pub open spec fn all_of_type(xs: Seq<Val>, e: Ty) -> bool {
    forall|i: int| 0 <= i < xs.len() ==> val_ty(#[trigger] xs[i]) == e
}

pub proof fn lemma_all_well_formed(xs: Seq<Val>)
    ensures
        all_well_formed(xs) <==> forall|i: int| 0 <= i < xs.len() ==> well_formed(#[trigger] xs[i]),
    decreases xs.len(),
{
    if xs.len() > 0 {
        lemma_all_well_formed(xs.drop_last());
        if forall|i: int| 0 <= i < xs.len() ==> well_formed(#[trigger] xs[i]) {
            assert forall|i: int| 0 <= i < xs.drop_last().len() implies well_formed(#[trigger] xs.drop_last()[i]) by {
                assert(xs.drop_last()[i] == xs[i]);
            }
        }
        if all_well_formed(xs) {
            assert forall|i: int| 0 <= i < xs.len() implies well_formed(#[trigger] xs[i]) by {
                if i < xs.len() - 1 {
                    assert(xs.drop_last()[i] == xs[i]);
                }
            }
        }
    }
}

/// True for the values whose type is a container type.
pub open spec fn is_container_val(v: Val) -> bool {
    v is Array || v is Maybe || v is Tuple || v is DictEntry
}

/// The children of a container value, in order; empty for other values.
pub open spec fn children(v: Val) -> Seq<Val> {
    match v {
        Val::Array(_, xs) => xs,
        Val::Maybe(_, o) => match o {
            Some(x) => seq![*x],
            None => Seq::empty(),
        },
        Val::Tuple(xs) => xs,
        Val::DictEntry(k, x) => seq![*k, *x],
        _ => Seq::empty(),
    }
}


/// The executable form of a value; see `Variant`.
#[derive(Debug, Hash)]
pub(crate) enum Repr {
    Boolean(bool),
    Byte(u8),
    Int16(i16),
    UInt16(u16),
    Int32(i32),
    UInt32(u32),
    Int64(i64),
    UInt64(u64),
    Double(u64),
    Str(String),
    ObjectPath(String),
    Signature(String),
    Boxed(Box<Variant>),
    Array(VariantType, Vec<Variant>),
    Maybe(VariantType, Option<Box<Variant>>),
    Tuple(Vec<Variant>),
    DictEntry(Box<Variant>, Box<Variant>),
}

/// An immutable, dynamically typed value: its type is fixed when it is made
/// and never changes.
#[derive(Debug, Hash)]
pub struct Variant {
    pub(crate) repr: Repr,
}

pub closed spec fn val_of(v: &Variant) -> Val
    decreases v,
{
    match &v.repr {
        Repr::Boolean(b) => Val::Boolean(*b),
        Repr::Byte(x) => Val::Byte(*x),
        Repr::Int16(x) => Val::Int16(*x),
        Repr::UInt16(x) => Val::UInt16(*x),
        Repr::Int32(x) => Val::Int32(*x),
        Repr::UInt32(x) => Val::UInt32(*x),
        Repr::Int64(x) => Val::Int64(*x),
        Repr::UInt64(x) => Val::UInt64(*x),
        Repr::Double(x) => Val::Double(*x),
        Repr::Str(s) => Val::Str(s@),
        Repr::ObjectPath(s) => Val::ObjectPath(s@),
        Repr::Signature(s) => Val::Signature(s@),
        Repr::Boxed(x) => Val::Boxed(Box::new(val_of(x))),
        Repr::Array(e, xs) => Val::Array(e@, vals_of(xs@)),
        Repr::Maybe(e, o) => Val::Maybe(e@, match o {
            Some(x) => Some(Box::new(val_of(x))),
            None => None,
        }),
        Repr::Tuple(xs) => Val::Tuple(vals_of(xs@)),
        Repr::DictEntry(k, x) => Val::DictEntry(Box::new(val_of(k)), Box::new(val_of(x))),
    }
}

pub closed spec fn vals_of(xs: Seq<Variant>) -> Seq<Val>
    decreases xs,
{
    if xs.len() == 0 {
        Seq::empty()
    } else {
        vals_of(xs.drop_last()).push(val_of(&xs.last()))
    }
}

impl View for Variant {
    type V = Val;

    open spec fn view(&self) -> Val {
        val_of(self)
    }
}

pub proof fn lemma_vals_of(xs: Seq<Variant>)
    ensures
        vals_of(xs).len() == xs.len(),
        forall|i: int| 0 <= i < xs.len() ==> #[trigger] vals_of(xs)[i] == xs[i]@,
    decreases xs.len(),
{
    if xs.len() > 0 {
        lemma_vals_of(xs.drop_last());
    }
}

pub proof fn lemma_vals_of_push(xs: Seq<Variant>, x: Variant)
    ensures
        vals_of(xs.push(x)) == vals_of(xs).push(x@),
{
    assert(xs.push(x).drop_last() =~= xs);
}

impl Variant {
    /// Every `Variant` is well-formed.
    #[verifier::type_invariant]
    pub open spec fn inv(&self) -> bool {
        well_formed(self@)
    }

    pub(crate) fn from_repr(repr: Repr) -> (r: Variant)
        requires
            well_formed(val_of(&Variant { repr })),
        ensures
            r@ == val_of(&Variant { repr }),
    {
        Variant { repr }
    }
}


/// The classification of a value, read off the first character of its
/// type's text.
#[derive(Clone, Copy, Debug, PartialEq, Eq, Hash, Structural)]
pub enum VariantClass {
    Boolean,
    Byte,
    Int16,
    UInt16,
    Int32,
    UInt32,
    Int64,
    UInt64,
    Double,
    String,
    ObjectPath,
    Signature,
    Variant,
    Maybe,
    Array,
    Tuple,
    DictEntry,
}

/// The classification of each value.
pub open spec fn class_of(v: Val) -> VariantClass {
    match v {
        Val::Boolean(_) => VariantClass::Boolean,
        Val::Byte(_) => VariantClass::Byte,
        Val::Int16(_) => VariantClass::Int16,
        Val::UInt16(_) => VariantClass::UInt16,
        Val::Int32(_) => VariantClass::Int32,
        Val::UInt32(_) => VariantClass::UInt32,
        Val::Int64(_) => VariantClass::Int64,
        Val::UInt64(_) => VariantClass::UInt64,
        Val::Double(_) => VariantClass::Double,
        Val::Str(_) => VariantClass::String,
        Val::ObjectPath(_) => VariantClass::ObjectPath,
        Val::Signature(_) => VariantClass::Signature,
        Val::Boxed(_) => VariantClass::Variant,
        Val::Maybe(_, _) => VariantClass::Maybe,
        Val::Array(_, _) => VariantClass::Array,
        Val::Tuple(_) => VariantClass::Tuple,
        Val::DictEntry(_, _) => VariantClass::DictEntry,
    }
}

/// An element of a list of children is smaller than the value holding it.
pub(crate) proof fn lemma_elem_decreases(v: Variant, xs: Vec<Variant>, i: int)
    requires
        v.repr == Repr::Tuple(xs) || v.repr == Repr::Array(v.repr->Array_0, xs),
        0 <= i < xs.len(),
    ensures
        decreases_to!(v => xs[i]),
{
    assert(decreases_to!(v => v.repr));
    if v.repr is Tuple {
        assert(decreases_to!(v.repr => v.repr->Tuple_0));
    } else {
        assert(decreases_to!(v.repr => v.repr->Array_1));
    }
    assert(decreases_to!(xs => xs@));
    assert(decreases_to!(xs@ => xs@[i]));
}

/// Copies `xs` one by one.
fn dup_all(v: &Variant, xs: &Vec<Variant>) -> (r: Vec<Variant>)
    requires
        v.repr == Repr::Tuple(*xs) || v.repr == Repr::Array(v.repr->Array_0, *xs),
    ensures
        vals_of(r@) == vals_of(xs@),
    decreases v, 0nat,
{
    let mut out: Vec<Variant> = Vec::new();
    let mut i: usize = 0;
    while i < xs.len()
        invariant
            v.repr == Repr::Tuple(*xs) || v.repr == Repr::Array(v.repr->Array_0, *xs),
            i <= xs.len(),
            vals_of(out@) == vals_of(xs@.subrange(0, i as int)),
        decreases xs.len() - i,
    {
        proof { lemma_elem_decreases(*v, *xs, i as int); }
        let c = xs[i].dup();
        proof {
            lemma_vals_of_push(out@, c);
            lemma_vals_of_push(xs@.subrange(0, i as int), xs@[i as int]);
            assert(xs@.subrange(0, i as int).push(xs@[i as int]) =~= xs@.subrange(0, i + 1));
        }
        out.push(c);
        i = i + 1;
    }
    assert(xs@.subrange(0, xs.len() as int) =~= xs@);
    out
}

impl Variant {
    /// A copy of this value.
    pub fn dup(&self) -> (r: Variant)
        ensures
            r@ == self@,
        decreases self, 1nat,
    {
        proof { use_type_invariant(self); }
        let repr = match &self.repr {
            Repr::Boolean(x) => Repr::Boolean(*x),
            Repr::Byte(x) => Repr::Byte(*x),
            Repr::Int16(x) => Repr::Int16(*x),
            Repr::UInt16(x) => Repr::UInt16(*x),
            Repr::Int32(x) => Repr::Int32(*x),
            Repr::UInt32(x) => Repr::UInt32(*x),
            Repr::Int64(x) => Repr::Int64(*x),
            Repr::UInt64(x) => Repr::UInt64(*x),
            Repr::Double(x) => Repr::Double(*x),
            Repr::Str(x) => Repr::Str(x.clone()),
            Repr::ObjectPath(x) => Repr::ObjectPath(x.clone()),
            Repr::Signature(x) => Repr::Signature(x.clone()),
            Repr::Boxed(x) => Repr::Boxed(Box::new(x.dup())),
            Repr::Maybe(e, o) => Repr::Maybe(e.dup(), match o {
                Some(x) => Some(Box::new(x.dup())),
                None => None,
            }),
            Repr::DictEntry(k, x) => Repr::DictEntry(Box::new(k.dup()), Box::new(x.dup())),
            Repr::Array(e, xs) => Repr::Array(e.dup(), dup_all(self, xs)),
            Repr::Tuple(xs) => Repr::Tuple(dup_all(self, xs)),
        };
        Variant::from_repr(repr)
    }

    /// The type of this value.
    pub fn type_(&self) -> (r: VariantType)
        ensures
            r@ == val_ty(self@),
        decreases self,
    {
        match &self.repr {
            Repr::Boolean(_) => VariantType::Boolean,
            Repr::Byte(_) => VariantType::Byte,
            Repr::Int16(_) => VariantType::Int16,
            Repr::UInt16(_) => VariantType::UInt16,
            Repr::Int32(_) => VariantType::Int32,
            Repr::UInt32(_) => VariantType::UInt32,
            Repr::Int64(_) => VariantType::Int64,
            Repr::UInt64(_) => VariantType::UInt64,
            Repr::Double(_) => VariantType::Double,
            Repr::Str(_) => VariantType::Str,
            Repr::ObjectPath(_) => VariantType::ObjectPath,
            Repr::Signature(_) => VariantType::Signature,
            Repr::Boxed(_) => VariantType::Variant,
            Repr::Array(e, _) => e.as_array(),
            Repr::Maybe(e, _) => VariantType::new_maybe(e),
            Repr::DictEntry(k, x) => VariantType::DictEntry(Box::new(k.type_()), Box::new(x.type_())),
            Repr::Tuple(xs) => {
                let mut ts: Vec<VariantType> = Vec::new();
                let mut i: usize = 0;
                while i < xs.len()
                    invariant
                        self.repr == Repr::Tuple(*xs),
                        i <= xs.len(),
                        tys_of(ts@) == val_tys(vals_of(xs@.subrange(0, i as int))),
                    decreases xs.len() - i,
                {
                    proof { lemma_elem_decreases(*self, *xs, i as int); }
                    let t = xs[i].type_();
                    proof {
                        lemma_tys_of_push(ts@, t);
                        lemma_vals_of_push(xs@.subrange(0, i as int), xs@[i as int]);
                        assert(xs@.subrange(0, i as int).push(xs@[i as int]) =~= xs@.subrange(0, i + 1));
                        let vs = vals_of(xs@.subrange(0, i + 1));
                        assert(vs.drop_last() == vals_of(xs@.subrange(0, i as int)));
                    }
                    ts.push(t);
                    i = i + 1;
                }
                assert(xs@.subrange(0, xs.len() as int) =~= xs@);
                VariantType::Tuple(ts)
            },
        }
    }

    /// The classification of this value.
    pub fn classify(&self) -> (r: VariantClass)
        ensures
            r == class_of(self@),
    {
        match &self.repr {
            Repr::Boolean(_) => VariantClass::Boolean,
            Repr::Byte(_) => VariantClass::Byte,
            Repr::Int16(_) => VariantClass::Int16,
            Repr::UInt16(_) => VariantClass::UInt16,
            Repr::Int32(_) => VariantClass::Int32,
            Repr::UInt32(_) => VariantClass::UInt32,
            Repr::Int64(_) => VariantClass::Int64,
            Repr::UInt64(_) => VariantClass::UInt64,
            Repr::Double(_) => VariantClass::Double,
            Repr::Str(_) => VariantClass::String,
            Repr::ObjectPath(_) => VariantClass::ObjectPath,
            Repr::Signature(_) => VariantClass::Signature,
            Repr::Boxed(_) => VariantClass::Variant,
            Repr::Maybe(_, _) => VariantClass::Maybe,
            Repr::Array(_, _) => VariantClass::Array,
            Repr::Tuple(_) => VariantClass::Tuple,
            Repr::DictEntry(_, _) => VariantClass::DictEntry,
        }
    }

    /// True for arrays, maybes, tuples and dictionary entries; a boxed
    /// value is no container.
    pub fn is_container(&self) -> (r: bool)
        ensures
            r == is_container_val(self@),
            r == is_container_ty(val_ty(self@)),
    {
        match &self.repr {
            Repr::Array(_, _) | Repr::Maybe(_, _) | Repr::Tuple(_) | Repr::DictEntry(_, _) => true,
            _ => false,
        }
    }

    /// The number of children of a container.
    pub fn n_children(&self) -> (r: usize)
        requires
            is_container_val(self@),
        ensures
            r == children(self@).len(),
    {
        match &self.repr {
            Repr::Array(_, xs) => {
                proof { lemma_vals_of(xs@); }
                xs.len()
            },
            Repr::Tuple(xs) => {
                proof { lemma_vals_of(xs@); }
                xs.len()
            },
            Repr::Maybe(_, o) => match o {
                Some(_) => 1,
                None => 0,
            },
            _ => 2,
        }
    }

    /// The child at `index` of a container, or `None` where this is no
    /// container or has no such child.
    pub fn try_child_value(&self, index: usize) -> (r: Option<Variant>)
        ensures
            r matches Some(c) ==> index < children(self@).len() && c@ == children(self@)[index as int],
            r is None ==> index >= children(self@).len(),
    {
        match &self.repr {
            Repr::Array(_, xs) => {
                proof { lemma_vals_of(xs@); }
                if index < xs.len() { Some(xs[index].dup()) } else { None }
            },
            Repr::Tuple(xs) => {
                proof { lemma_vals_of(xs@); }
                if index < xs.len() { Some(xs[index].dup()) } else { None }
            },
            Repr::Maybe(_, o) => match o {
                Some(x) => if index == 0 { Some(x.dup()) } else { None },
                None => None,
            },
            Repr::DictEntry(k, x) => {
                if index == 0 {
                    Some(k.dup())
                } else if index == 1 {
                    Some(x.dup())
                } else {
                    None
                }
            },
            _ => None,
        }
    }

    /// The child at `index` of a container.
    pub fn child_value(&self, index: usize) -> (r: Variant)
        requires
            is_container_val(self@),
            index < children(self@).len(),
        ensures
            r@ == children(self@)[index as int],
    {
        self.try_child_value(index).unwrap()
    }

    /// The children of a container, in order.
    pub fn iter(&self) -> (r: Vec<Variant>)
        requires
            is_container_val(self@),
        ensures
            vals_of(r@) == children(self@),
    {
        let n = self.n_children();
        let mut out: Vec<Variant> = Vec::new();
        let mut i: usize = 0;
        while i < n
            invariant
                n == children(self@).len(),
                i <= n,
                vals_of(out@) == children(self@).subrange(0, i as int),
            decreases n - i,
        {
            let c = self.child_value(i);
            proof { lemma_vals_of_push(out@, c); }
            out.push(c);
            i = i + 1;
            assert(vals_of(out@) =~= children(self@).subrange(0, i as int));
        }
        assert(children(self@).subrange(0, n as int) =~= children(self@));
        out
    }

    /// Boxes `value` into a value of type `v`.
    pub fn from_variant(value: &Variant) -> (r: Variant)
        ensures
            r@ == Val::Boxed(Box::new(value@)),
    {
        proof { use_type_invariant(value); }
        Variant::from_repr(Repr::Boxed(Box::new(value.dup())))
    }

    /// The boxed value, where this is a value of type `v`.
    pub fn as_variant(&self) -> (r: Option<Variant>)
        ensures
            r matches Some(x) ==> self@ == Val::Boxed(Box::new(x@)),
            r is None <==> !(self@ is Boxed),
    {
        match &self.repr {
            Repr::Boxed(x) => Some(x.dup()),
            _ => None,
        }
    }

    /// The text of a string, object-path or signature value.
    pub fn str(&self) -> (r: Option<&str>)
        ensures
            r matches Some(s) ==> (self@ == Val::Str(s@) || self@ == Val::ObjectPath(s@) || self@ == Val::Signature(s@)),
            r is None <==> !(self@ is Str || self@ is ObjectPath || self@ is Signature),
    {
        match &self.repr {
            Repr::Str(s) => Some(s.as_str()),
            Repr::ObjectPath(s) => Some(s.as_str()),
            Repr::Signature(s) => Some(s.as_str()),
            _ => None,
        }
    }
}


/// Compares two children lists of the same kind, one by one.
fn equals_all(v: &Variant, w: &Variant, xs: &Vec<Variant>, ys: &Vec<Variant>) -> (r: bool)
    requires
        v.repr == Repr::Tuple(*xs) || v.repr == Repr::Array(v.repr->Array_0, *xs),
    ensures
        r == (vals_of(xs@) == vals_of(ys@)),
    decreases v, 0nat,
{
    proof {
        lemma_vals_of(xs@);
        lemma_vals_of(ys@);
    }
    if xs.len() != ys.len() {
        return false;
    }
    let mut i: usize = 0;
    while i < xs.len()
        invariant
            v.repr == Repr::Tuple(*xs) || v.repr == Repr::Array(v.repr->Array_0, *xs),
            i <= xs.len(),
            xs.len() == ys.len(),
            vals_of(xs@).len() == xs.len(),
            vals_of(ys@).len() == ys.len(),
            forall|j: int| 0 <= j < xs.len() ==> #[trigger] vals_of(xs@)[j] == xs@[j]@,
            forall|j: int| 0 <= j < ys.len() ==> #[trigger] vals_of(ys@)[j] == ys@[j]@,
            forall|j: int| 0 <= j < i ==> xs@[j]@ == ys@[j]@,
        decreases xs.len() - i,
    {
        proof { lemma_elem_decreases(*v, *xs, i as int); }
        if !xs[i].equals(&ys[i]) {
            assert(vals_of(xs@)[i as int] != vals_of(ys@)[i as int]);
            return false;
        }
        i = i + 1;
    }
    assert(vals_of(xs@) =~= vals_of(ys@));
    true
}

/// Two byte sequences in lexicographic order.
pub open spec fn lex_cmp(a: Seq<u8>, b: Seq<u8>) -> Ordering
    decreases a.len(),
{
    if a.len() == 0 {
        if b.len() == 0 { Ordering::Equal } else { Ordering::Less }
    } else if b.len() == 0 {
        Ordering::Greater
    } else if a[0] < b[0] {
        Ordering::Less
    } else if a[0] > b[0] {
        Ordering::Greater
    } else {
        lex_cmp(a.drop_first(), b.drop_first())
    }
}

pub open spec fn int_cmp(a: int, b: int) -> Ordering {
    if a < b { Ordering::Less } else if a == b { Ordering::Equal } else { Ordering::Greater }
}

/// True for the bits of a not-a-number double.
pub open spec fn is_nan_bits(x: u64) -> bool {
    (x & 0x7ff0_0000_0000_0000u64) == 0x7ff0_0000_0000_0000u64 && (x & 0x000f_ffff_ffff_ffffu64) != 0
}

/// The order of doubles given by their bits: the numeric order, where
/// both zeros are equal and any comparison with not-a-number is `Greater`.
pub open spec fn double_cmp(a: u64, b: u64) -> Ordering {
    if is_nan_bits(a) || is_nan_bits(b) {
        Ordering::Greater
    } else {
        int_cmp(double_key(a), double_key(b))
    }
}

pub open spec fn double_key(x: u64) -> int {
    let mag = (x & 0x7fff_ffff_ffff_ffffu64) as int;
    if x >= 0x8000_0000_0000_0000u64 { -mag } else { mag }
}

/// The order between two values: defined only for values of the same
/// classification that are neither containers nor boxed values.
pub open spec fn val_cmp(a: Val, b: Val) -> Option<Ordering> {
    match (a, b) {
        (Val::Boolean(x), Val::Boolean(y)) => Some(int_cmp(if x { 1 } else { 0 }, if y { 1 } else { 0 })),
        (Val::Byte(x), Val::Byte(y)) => Some(int_cmp(x as int, y as int)),
        (Val::Int16(x), Val::Int16(y)) => Some(int_cmp(x as int, y as int)),
        (Val::UInt16(x), Val::UInt16(y)) => Some(int_cmp(x as int, y as int)),
        (Val::Int32(x), Val::Int32(y)) => Some(int_cmp(x as int, y as int)),
        (Val::UInt32(x), Val::UInt32(y)) => Some(int_cmp(x as int, y as int)),
        (Val::Int64(x), Val::Int64(y)) => Some(int_cmp(x as int, y as int)),
        (Val::UInt64(x), Val::UInt64(y)) => Some(int_cmp(x as int, y as int)),
        (Val::Double(x), Val::Double(y)) => Some(double_cmp(x, y)),
        (Val::Str(x), Val::Str(y)) => Some(lex_cmp(vstd::utf8::encode_utf8(x), vstd::utf8::encode_utf8(y))),
        (Val::ObjectPath(x), Val::ObjectPath(y)) => Some(lex_cmp(vstd::utf8::encode_utf8(x), vstd::utf8::encode_utf8(y))),
        (Val::Signature(x), Val::Signature(y)) => Some(lex_cmp(vstd::utf8::encode_utf8(x), vstd::utf8::encode_utf8(y))),
        _ => None,
    }
}

fn exec_int_cmp(a: i128, b: i128) -> (r: Ordering)
    ensures
        r == int_cmp(a as int, b as int),
{
    if a < b {
        Ordering::Less
    } else if a == b {
        Ordering::Equal
    } else {
        Ordering::Greater
    }
}

fn exec_lex_cmp(a: &[u8], b: &[u8]) -> (r: Ordering)
    ensures
        r == lex_cmp(a@, b@),
{
    let mut i: usize = 0;
    assert(a@.subrange(0, a@.len() as int) =~= a@);
    assert(b@.subrange(0, b@.len() as int) =~= b@);
    while i < a.len() && i < b.len()
        invariant
            i <= a.len(),
            i <= b.len(),
            lex_cmp(a@, b@) == lex_cmp(a@.subrange(i as int, a@.len() as int), b@.subrange(i as int, b@.len() as int)),
        decreases a.len() - i,
    {
        let ghost sa = a@.subrange(i as int, a@.len() as int);
        let ghost sb = b@.subrange(i as int, b@.len() as int);
        assert(sa[0] == a@[i as int]);
        assert(sb[0] == b@[i as int]);
        if a[i] < b[i] {
            return Ordering::Less;
        }
        if a[i] > b[i] {
            return Ordering::Greater;
        }
        assert(sa.drop_first() =~= a@.subrange(i + 1, a@.len() as int));
        assert(sb.drop_first() =~= b@.subrange(i + 1, b@.len() as int));
        i = i + 1;
    }
    if i < a.len() {
        Ordering::Greater
    } else if i < b.len() {
        Ordering::Less
    } else {
        Ordering::Equal
    }
}

fn exec_double_cmp(a: u64, b: u64) -> (r: Ordering)
    ensures
        r == double_cmp(a, b),
{
    let nan_a = (a & 0x7ff0_0000_0000_0000u64) == 0x7ff0_0000_0000_0000u64 && (a & 0x000f_ffff_ffff_ffffu64) != 0;
    let nan_b = (b & 0x7ff0_0000_0000_0000u64) == 0x7ff0_0000_0000_0000u64 && (b & 0x000f_ffff_ffff_ffffu64) != 0;
    if nan_a || nan_b {
        return Ordering::Greater;
    }
    let ma = (a & 0x7fff_ffff_ffff_ffffu64) as i128;
    let mb = (b & 0x7fff_ffff_ffff_ffffu64) as i128;
    let ka: i128 = if a >= 0x8000_0000_0000_0000u64 { -ma } else { ma };
    let kb: i128 = if b >= 0x8000_0000_0000_0000u64 { -mb } else { mb };
    exec_int_cmp(ka, kb)
}

impl Variant {
    /// Value equality: same type and same content.
    pub fn equals(&self, other: &Variant) -> (r: bool)
        ensures
            r == (self@ == other@),
        decreases self, 1nat,
    {
        match (&self.repr, &other.repr) {
            (Repr::Boolean(a), Repr::Boolean(b)) => *a == *b,
            (Repr::Byte(a), Repr::Byte(b)) => *a == *b,
            (Repr::Int16(a), Repr::Int16(b)) => *a == *b,
            (Repr::UInt16(a), Repr::UInt16(b)) => *a == *b,
            (Repr::Int32(a), Repr::Int32(b)) => *a == *b,
            (Repr::UInt32(a), Repr::UInt32(b)) => *a == *b,
            (Repr::Int64(a), Repr::Int64(b)) => *a == *b,
            (Repr::UInt64(a), Repr::UInt64(b)) => *a == *b,
            (Repr::Double(a), Repr::Double(b)) => *a == *b,
            (Repr::Str(a), Repr::Str(b)) => *a == *b,
            (Repr::ObjectPath(a), Repr::ObjectPath(b)) => *a == *b,
            (Repr::Signature(a), Repr::Signature(b)) => *a == *b,
            (Repr::Boxed(a), Repr::Boxed(b)) => a.equals(b),
            (Repr::DictEntry(k1, v1), Repr::DictEntry(k2, v2)) => k1.equals(k2) && v1.equals(v2),
            (Repr::Maybe(e1, o1), Repr::Maybe(e2, o2)) => {
                e1.equals(e2) && match (o1, o2) {
                    (Some(a), Some(b)) => a.equals(b),
                    (None, None) => true,
                    _ => false,
                }
            },
            (Repr::Array(e1, xs), Repr::Array(e2, ys)) => e1.equals(e2) && equals_all(self, other, xs, ys),
            (Repr::Tuple(xs), Repr::Tuple(ys)) => equals_all(self, other, xs, ys),
            _ => false,
        }
    }

    /// The order of two values of the same non-container, non-boxed
    /// classification; `None` for any other pair.
    pub fn compare(&self, other: &Variant) -> (r: Option<Ordering>)
        ensures
            r == val_cmp(self@, other@),
    {
        match (&self.repr, &other.repr) {
            (Repr::Boolean(a), Repr::Boolean(b)) => Some(exec_int_cmp(if *a { 1 } else { 0 }, if *b { 1 } else { 0 })),
            (Repr::Byte(a), Repr::Byte(b)) => Some(exec_int_cmp(*a as i128, *b as i128)),
            (Repr::Int16(a), Repr::Int16(b)) => Some(exec_int_cmp(*a as i128, *b as i128)),
            (Repr::UInt16(a), Repr::UInt16(b)) => Some(exec_int_cmp(*a as i128, *b as i128)),
            (Repr::Int32(a), Repr::Int32(b)) => Some(exec_int_cmp(*a as i128, *b as i128)),
            (Repr::UInt32(a), Repr::UInt32(b)) => Some(exec_int_cmp(*a as i128, *b as i128)),
            (Repr::Int64(a), Repr::Int64(b)) => Some(exec_int_cmp(*a as i128, *b as i128)),
            (Repr::UInt64(a), Repr::UInt64(b)) => Some(exec_int_cmp(*a as i128, *b as i128)),
            (Repr::Double(a), Repr::Double(b)) => Some(exec_double_cmp(*a, *b)),
            (Repr::Str(a), Repr::Str(b)) => Some(exec_lex_cmp(a.as_str().as_bytes(), b.as_str().as_bytes())),
            (Repr::ObjectPath(a), Repr::ObjectPath(b)) => Some(exec_lex_cmp(a.as_str().as_bytes(), b.as_str().as_bytes())),
            (Repr::Signature(a), Repr::Signature(b)) => Some(exec_lex_cmp(a.as_str().as_bytes(), b.as_str().as_bytes())),
            _ => None,
        }
    }
}

impl PartialEq for Variant {
    fn eq(&self, other: &Variant) -> (r: bool) {
        self.equals(other)
    }
}

impl vstd::std_specs::cmp::PartialEqSpecImpl for Variant {
    open spec fn obeys_eq_spec() -> bool {
        true
    }

    open spec fn eq_spec(&self, other: &Variant) -> bool {
        self@ == other@
    }
}

impl Eq for Variant {
}

impl PartialOrd for Variant {
    fn partial_cmp(&self, other: &Variant) -> (r: Option<Ordering>) {
        self.compare(other)
    }
}

impl vstd::std_specs::cmp::PartialOrdSpecImpl for Variant {
    open spec fn obeys_partial_cmp_spec() -> bool {
        true
    }

    open spec fn partial_cmp_spec(&self, other: &Variant) -> Option<Ordering> {
        val_cmp(self@, other@)
    }
}


/// The bytes of a 16-bit integer in the other order.
pub open spec fn swap16(x: u16) -> u16 {
    (((x & 0xffu16) << 8u16) | (x >> 8u16)) as u16
}

pub open spec fn swap32(x: u32) -> u32 {
    (((x & 0xffu32) << 24u32) | (((x >> 8u32) & 0xffu32) << 16u32) | (((x >> 16u32) & 0xffu32) << 8u32) | (x >> 24u32)) as u32
}

pub open spec fn swap64(x: u64) -> u64 {
    ((swap32((x & 0xffff_ffffu64) as u32) as u64) << 32u64) | (swap32((x >> 32u64) as u32) as u64)
}

/// Every fixed-width scalar of `v` with its bytes in the other order;
/// strings and structure stay.
pub open spec fn byteswap_val(v: Val) -> Val
    decreases v,
{
    match v {
        Val::Int16(x) => Val::Int16(#[verifier::truncate] (swap16(#[verifier::truncate] (x as u16)) as i16)),
        Val::UInt16(x) => Val::UInt16(swap16(x)),
        Val::Int32(x) => Val::Int32(#[verifier::truncate] (swap32(#[verifier::truncate] (x as u32)) as i32)),
        Val::UInt32(x) => Val::UInt32(swap32(x)),
        Val::Int64(x) => Val::Int64(#[verifier::truncate] (swap64(#[verifier::truncate] (x as u64)) as i64)),
        Val::UInt64(x) => Val::UInt64(swap64(x)),
        Val::Double(x) => Val::Double(swap64(x)),
        Val::Boxed(x) => Val::Boxed(Box::new(byteswap_val(*x))),
        Val::Array(e, xs) => Val::Array(e, byteswap_vals(xs)),
        Val::Maybe(e, o) => Val::Maybe(e, match o {
            Some(x) => Some(Box::new(byteswap_val(*x))),
            None => None,
        }),
        Val::Tuple(xs) => Val::Tuple(byteswap_vals(xs)),
        Val::DictEntry(k, x) => Val::DictEntry(Box::new(byteswap_val(*k)), Box::new(byteswap_val(*x))),
        _ => v,
    }
}

pub open spec fn byteswap_vals(xs: Seq<Val>) -> Seq<Val>
    decreases xs,
{
    if xs.len() == 0 {
        Seq::empty()
    } else {
        byteswap_vals(xs.drop_last()).push(byteswap_val(xs.last()))
    }
}

pub proof fn lemma_byteswap_vals(xs: Seq<Val>)
    ensures
        byteswap_vals(xs).len() == xs.len(),
        forall|i: int| 0 <= i < xs.len() ==> #[trigger] byteswap_vals(xs)[i] == byteswap_val(xs[i]),
    decreases xs.len(),
{
    if xs.len() > 0 {
        lemma_byteswap_vals(xs.drop_last());
    }
}

proof fn lemma_swaps()
    ensures
        forall|x: u16| #[trigger] swap16(swap16(x)) == x,
        forall|x: u32| #[trigger] swap32(swap32(x)) == x,
        forall|x: u64| #[trigger] swap64(swap64(x)) == x,
{
    assert forall|x: u16| #[trigger] swap16(swap16(x)) == x by {
        assert((((((x & 0xffu16) << 8u16) | (x >> 8u16)) & 0xffu16) << 8u16) | ((((x & 0xffu16) << 8u16) | (x >> 8u16)) >> 8u16) == x) by (bit_vector);
    }
    assert forall|x: u32| #[trigger] swap32(swap32(x)) == x by {
        let y = swap32(x);
        assert(y == (((x & 0xffu32) << 24u32) | (((x >> 8u32) & 0xffu32) << 16u32) | (((x >> 16u32) & 0xffu32) << 8u32) | (x >> 24u32)));
        assert(((((x & 0xffu32) << 24u32) | (((x >> 8u32) & 0xffu32) << 16u32) | (((x >> 16u32) & 0xffu32) << 8u32) | (x >> 24u32)) == y) ==>
            ((((y & 0xffu32) << 24u32) | (((y >> 8u32) & 0xffu32) << 16u32) | (((y >> 16u32) & 0xffu32) << 8u32) | (y >> 24u32)) == x)) by (bit_vector);
    }
    assert forall|x: u64| #[trigger] swap64(swap64(x)) == x by {
        let lo = (x & 0xffff_ffffu64) as u32;
        let hi = (x >> 32u64) as u32;
        let y = swap64(x);
        assert(y == ((swap32(lo) as u64) << 32u64) | (swap32(hi) as u64));
        let a = swap32(lo);
        let b = swap32(hi);
        assert((y & 0xffff_ffffu64) as u32 == b && (y >> 32u64) as u32 == a) by (bit_vector)
            requires y == ((a as u64) << 32u64) | (b as u64);
        assert(swap32(a) == lo && swap32(b) == hi);
        assert(((hi as u64) << 32u64) | (lo as u64) == swap64(y));
        assert(((hi as u64) << 32u64) | (lo as u64) == x) by (bit_vector)
            requires lo == (x & 0xffff_ffffu64) as u32, hi == (x >> 32u64) as u32;
    }
}

/// Swapping byte order twice gives back the value.
pub proof fn lemma_byteswap_involution(v: Val)
    ensures
        byteswap_val(byteswap_val(v)) == v,
    decreases v,
{
    lemma_swaps();
    match v {
        Val::Int16(x) => {
            let y = swap16(x as u16);
            assert((y as i16) as u16 == y) by (bit_vector);
            assert((x as u16) as i16 == x) by (bit_vector);
        },
        Val::Int32(x) => {
            let y = swap32(x as u32);
            assert((y as i32) as u32 == y) by (bit_vector);
            assert((x as u32) as i32 == x) by (bit_vector);
        },
        Val::Int64(x) => {
            let y = swap64(x as u64);
            assert((y as i64) as u64 == y) by (bit_vector);
            assert((x as u64) as i64 == x) by (bit_vector);
        },
        Val::Boxed(x) => lemma_byteswap_involution(*x),
        Val::Maybe(e, o) => {
            if let Some(x) = o {
                lemma_byteswap_involution(*x);
            }
        },
        Val::DictEntry(k, x) => {
            lemma_byteswap_involution(*k);
            lemma_byteswap_involution(*x);
        },
        Val::Array(e, xs) => lemma_byteswap_vals_involution(xs),
        Val::Tuple(xs) => lemma_byteswap_vals_involution(xs),
        _ => {},
    }
}

pub proof fn lemma_byteswap_vals_involution(xs: Seq<Val>)
    ensures
        byteswap_vals(byteswap_vals(xs)) == xs,
    decreases xs,
{
    lemma_byteswap_vals(xs);
    lemma_byteswap_vals(byteswap_vals(xs));
    assert forall|i: int| 0 <= i < xs.len() implies byteswap_vals(byteswap_vals(xs))[i] == xs[i] by {
        lemma_byteswap_involution(xs[i]);
    }
    assert(byteswap_vals(byteswap_vals(xs)) =~= xs);
}

/// Byte order swapping keeps the type and well-formedness.
pub proof fn lemma_byteswap_typed(v: Val)
    ensures
        val_ty(byteswap_val(v)) == val_ty(v),
        well_formed(v) ==> well_formed(byteswap_val(v)),
    decreases v,
{
    match v {
        Val::Boxed(x) => lemma_byteswap_typed(*x),
        Val::Maybe(e, o) => {
            if let Some(x) = o {
                lemma_byteswap_typed(*x);
            }
        },
        Val::DictEntry(k, x) => {
            lemma_byteswap_typed(*k);
            lemma_byteswap_typed(*x);
        },
        Val::Array(e, xs) => {
            lemma_byteswap_vals(xs);
            lemma_all_well_formed(xs);
            lemma_all_well_formed(byteswap_vals(xs));
            assert forall|i: int| 0 <= i < xs.len() implies
                val_ty(byteswap_vals(xs)[i]) == val_ty(xs[i])
                && (well_formed(xs[i]) ==> well_formed(#[trigger] byteswap_vals(xs)[i])) by {
                lemma_byteswap_typed(xs[i]);
            }
        },
        Val::Tuple(xs) => {
            lemma_byteswap_vals(xs);
            lemma_val_tys(xs);
            lemma_val_tys(byteswap_vals(xs));
            lemma_all_well_formed(xs);
            lemma_all_well_formed(byteswap_vals(xs));
            assert forall|i: int| 0 <= i < xs.len() implies
                val_ty(byteswap_vals(xs)[i]) == val_ty(xs[i])
                && (well_formed(xs[i]) ==> well_formed(#[trigger] byteswap_vals(xs)[i])) by {
                lemma_byteswap_typed(xs[i]);
            }
            assert(val_tys(byteswap_vals(xs)) =~= val_tys(xs));
        },
        _ => {},
    }
}

fn exec_swap16(x: u16) -> (r: u16)
    ensures
        r == swap16(x),
{
    ((x & 0xff) << 8) | (x >> 8)
}

fn exec_swap32(x: u32) -> (r: u32)
    ensures
        r == swap32(x),
{
    ((x & 0xff) << 24) | (((x >> 8) & 0xff) << 16) | (((x >> 16) & 0xff) << 8) | (x >> 24)
}

fn exec_swap64(x: u64) -> (r: u64)
    ensures
        r == swap64(x),
{
    ((exec_swap32((x & 0xffff_ffff) as u32) as u64) << 32) | (exec_swap32((x >> 32) as u32) as u64)
}

/// Swaps the byte order in each of `xs`.
fn byteswap_all(v: &Variant, xs: &Vec<Variant>) -> (r: Vec<Variant>)
    requires
        v.repr == Repr::Tuple(*xs) || v.repr == Repr::Array(v.repr->Array_0, *xs),
    ensures
        vals_of(r@) == byteswap_vals(vals_of(xs@)),
    decreases v, 0nat,
{
    let mut out: Vec<Variant> = Vec::new();
    let mut i: usize = 0;
    while i < xs.len()
        invariant
            v.repr == Repr::Tuple(*xs) || v.repr == Repr::Array(v.repr->Array_0, *xs),
            i <= xs.len(),
            vals_of(out@) == byteswap_vals(vals_of(xs@.subrange(0, i as int))),
        decreases xs.len() - i,
    {
        proof { lemma_elem_decreases(*v, *xs, i as int); }
        let c = xs[i].byteswap();
        proof {
            lemma_vals_of_push(out@, c);
            lemma_vals_of_push(xs@.subrange(0, i as int), xs@[i as int]);
            assert(xs@.subrange(0, i as int).push(xs@[i as int]) =~= xs@.subrange(0, i + 1));
            let vs = vals_of(xs@.subrange(0, i + 1));
            assert(vs.drop_last() == vals_of(xs@.subrange(0, i as int)));
        }
        out.push(c);
        i = i + 1;
    }
    assert(xs@.subrange(0, xs.len() as int) =~= xs@);
    out
}

/// Every value in a list is well-formed, so the list is.
fn children_well_formed(children: &Vec<Variant>)
    ensures
        all_well_formed(vals_of(children@)),
{
    let mut i: usize = 0;
    while i < children.len()
        invariant
            i <= children.len(),
            forall|j: int| 0 <= j < i ==> well_formed(#[trigger] children@[j]@),
        decreases children.len() - i,
    {
        let c = &children[i];
        proof { use_type_invariant(c); }
        i = i + 1;
    }
    proof {
        lemma_vals_of(children@);
        lemma_all_well_formed(vals_of(children@));
    }
}

impl Variant {
    /// A value of type `b`.
    pub fn new_boolean(x: bool) -> (r: Variant)
        ensures
            r@ == Val::Boolean(x),
    {
        Variant { repr: Repr::Boolean(x) }
    }

    /// The content of a value of type `b`.
    pub fn get_boolean(&self) -> (r: Option<bool>)
        ensures
            r == (match self@ {
                Val::Boolean(x) => Some(x),
                _ => None,
            }),
    {
        match &self.repr {
            Repr::Boolean(x) => Some(*x),
            _ => None,
        }
    }

    /// A value of type `y`.
    pub fn new_byte(x: u8) -> (r: Variant)
        ensures
            r@ == Val::Byte(x),
    {
        Variant { repr: Repr::Byte(x) }
    }

    /// The content of a value of type `y`.
    pub fn get_byte(&self) -> (r: Option<u8>)
        ensures
            r == (match self@ {
                Val::Byte(x) => Some(x),
                _ => None,
            }),
    {
        match &self.repr {
            Repr::Byte(x) => Some(*x),
            _ => None,
        }
    }

    /// A value of type `n`.
    pub fn new_int16(x: i16) -> (r: Variant)
        ensures
            r@ == Val::Int16(x),
    {
        Variant { repr: Repr::Int16(x) }
    }

    /// The content of a value of type `n`.
    pub fn get_int16(&self) -> (r: Option<i16>)
        ensures
            r == (match self@ {
                Val::Int16(x) => Some(x),
                _ => None,
            }),
    {
        match &self.repr {
            Repr::Int16(x) => Some(*x),
            _ => None,
        }
    }

    /// A value of type `q`.
    pub fn new_uint16(x: u16) -> (r: Variant)
        ensures
            r@ == Val::UInt16(x),
    {
        Variant { repr: Repr::UInt16(x) }
    }

    /// The content of a value of type `q`.
    pub fn get_uint16(&self) -> (r: Option<u16>)
        ensures
            r == (match self@ {
                Val::UInt16(x) => Some(x),
                _ => None,
            }),
    {
        match &self.repr {
            Repr::UInt16(x) => Some(*x),
            _ => None,
        }
    }

    /// A value of type `i`.
    pub fn new_int32(x: i32) -> (r: Variant)
        ensures
            r@ == Val::Int32(x),
    {
        Variant { repr: Repr::Int32(x) }
    }

    /// The content of a value of type `i`.
    pub fn get_int32(&self) -> (r: Option<i32>)
        ensures
            r == (match self@ {
                Val::Int32(x) => Some(x),
                _ => None,
            }),
    {
        match &self.repr {
            Repr::Int32(x) => Some(*x),
            _ => None,
        }
    }

    /// A value of type `u`.
    pub fn new_uint32(x: u32) -> (r: Variant)
        ensures
            r@ == Val::UInt32(x),
    {
        Variant { repr: Repr::UInt32(x) }
    }

    /// The content of a value of type `u`.
    pub fn get_uint32(&self) -> (r: Option<u32>)
        ensures
            r == (match self@ {
                Val::UInt32(x) => Some(x),
                _ => None,
            }),
    {
        match &self.repr {
            Repr::UInt32(x) => Some(*x),
            _ => None,
        }
    }

    /// A value of type `x`.
    pub fn new_int64(x: i64) -> (r: Variant)
        ensures
            r@ == Val::Int64(x),
    {
        Variant { repr: Repr::Int64(x) }
    }

    /// The content of a value of type `x`.
    pub fn get_int64(&self) -> (r: Option<i64>)
        ensures
            r == (match self@ {
                Val::Int64(x) => Some(x),
                _ => None,
            }),
    {
        match &self.repr {
            Repr::Int64(x) => Some(*x),
            _ => None,
        }
    }

    /// A value of type `t`.
    pub fn new_uint64(x: u64) -> (r: Variant)
        ensures
            r@ == Val::UInt64(x),
    {
        Variant { repr: Repr::UInt64(x) }
    }

    /// The content of a value of type `t`.
    pub fn get_uint64(&self) -> (r: Option<u64>)
        ensures
            r == (match self@ {
                Val::UInt64(x) => Some(x),
                _ => None,
            }),
    {
        match &self.repr {
            Repr::UInt64(x) => Some(*x),
            _ => None,
        }
    }

    /// A value of type `d`.
    pub fn new_double_bits(x: u64) -> (r: Variant)
        ensures
            r@ == Val::Double(x),
    {
        Variant { repr: Repr::Double(x) }
    }

    /// The content of a value of type `d`.
    pub fn get_double_bits(&self) -> (r: Option<u64>)
        ensures
            r == (match self@ {
                Val::Double(x) => Some(x),
                _ => None,
            }),
    {
        match &self.repr {
            Repr::Double(x) => Some(*x),
            _ => None,
        }
    }

    /// A string value of type `s`.
    pub fn new_string(s: &str) -> (r: Variant)
        requires
            no_nul(s@),
        ensures
            r@ == Val::Str(s@),
    {
        Variant { repr: Repr::Str(String::from_str(s)) }
    }

    /// A value of type `o`.
    pub fn new_object_path(s: &str) -> (r: Variant)
        requires
            no_nul(s@),
        ensures
            r@ == Val::ObjectPath(s@),
    {
        Variant { repr: Repr::ObjectPath(String::from_str(s)) }
    }

    /// A value of type `g`.
    pub fn new_signature(s: &str) -> (r: Variant)
        requires
            no_nul(s@),
        ensures
            r@ == Val::Signature(s@),
    {
        Variant { repr: Repr::Signature(String::from_str(s)) }
    }

    /// An array of `children`, each of type `elem`.
    pub fn new_array(elem: &VariantType, children: Vec<Variant>) -> (r: Variant)
        requires
            forall|i: int| 0 <= i < children.len() ==> val_ty(#[trigger] children@[i]@) == elem@,
        ensures
            r@ == Val::Array(elem@, vals_of(children@)),
    {
        children_well_formed(&children);
        proof { lemma_vals_of(children@); }
        Variant { repr: Repr::Array(elem.dup(), children) }
    }

    /// A tuple of `children`, in order.
    pub fn new_tuple(children: Vec<Variant>) -> (r: Variant)
        ensures
            r@ == Val::Tuple(vals_of(children@)),
    {
        children_well_formed(&children);
        Variant { repr: Repr::Tuple(children) }
    }

    /// A maybe of type `m` + `elem`, holding `child` if any.
    pub fn new_maybe(elem: &VariantType, child: Option<Variant>) -> (r: Variant)
        requires
            child matches Some(c) ==> val_ty(c@) == elem@,
        ensures
            r@ == Val::Maybe(elem@, match child {
                Some(c) => Some(Box::new(c@)),
                None => None,
            }),
    {
        match child {
            Some(c) => {
                proof { use_type_invariant(&c); }
                Variant { repr: Repr::Maybe(elem.dup(), Some(Box::new(c))) }
            },
            None => Variant { repr: Repr::Maybe(elem.dup(), None) },
        }
    }

    /// A dictionary entry.
    pub fn new_dict_entry(key: Variant, value: Variant) -> (r: Variant)
        ensures
            r@ == Val::DictEntry(Box::new(key@), Box::new(value@)),
    {
        proof {
            use_type_invariant(&key);
            use_type_invariant(&value);
        }
        Variant { repr: Repr::DictEntry(Box::new(key), Box::new(value)) }
    }

    /// A copy with every fixed-width scalar in the other byte order.
    pub fn byteswap(&self) -> (r: Variant)
        ensures
            r@ == byteswap_val(self@),
        decreases self, 1nat,
    {
        proof {
            use_type_invariant(self);
            lemma_byteswap_typed(self@);
        }
        let repr = match &self.repr {
            Repr::Boolean(x) => Repr::Boolean(*x),
            Repr::Byte(x) => Repr::Byte(*x),
            Repr::Int16(x) => Repr::Int16(exec_swap16(*x as u16) as i16),
            Repr::UInt16(x) => Repr::UInt16(exec_swap16(*x)),
            Repr::Int32(x) => Repr::Int32(exec_swap32(*x as u32) as i32),
            Repr::UInt32(x) => Repr::UInt32(exec_swap32(*x)),
            Repr::Int64(x) => Repr::Int64(exec_swap64(*x as u64) as i64),
            Repr::UInt64(x) => Repr::UInt64(exec_swap64(*x)),
            Repr::Double(x) => Repr::Double(exec_swap64(*x)),
            Repr::Str(x) => Repr::Str(x.clone()),
            Repr::ObjectPath(x) => Repr::ObjectPath(x.clone()),
            Repr::Signature(x) => Repr::Signature(x.clone()),
            Repr::Boxed(x) => Repr::Boxed(Box::new(x.byteswap())),
            Repr::Maybe(e, o) => Repr::Maybe(e.dup(), match o {
                Some(x) => Some(Box::new(x.byteswap())),
                None => None,
            }),
            Repr::DictEntry(k, x) => Repr::DictEntry(Box::new(k.byteswap()), Box::new(x.byteswap())),
            Repr::Array(e, xs) => Repr::Array(e.dup(), byteswap_all(self, xs)),
            Repr::Tuple(xs) => Repr::Tuple(byteswap_all(self, xs)),
        };
        Variant::from_repr(repr)
    }
}


/// The string's UTF-8 bytes followed by a nul.
fn string_bytes(s: &String) -> (r: Vec<u8>)
    ensures
        r@ == vstd::utf8::encode_utf8(s@).push(0u8),
{
    let mut out = vstd::slice::slice_to_vec(s.as_str().as_bytes());
    out.push(0u8);
    out
}

/// Lays out `xs` one after another at alignment `a`.
fn exec_array_body(v: &Variant, xs: &Vec<Variant>, a: usize) -> (r: (Vec<u8>, Vec<usize>))
    requires
        v.repr == Repr::Array(v.repr->Array_0, *xs),
        crate::types::is_alignment(a as nat),
    ensures
        (r.0@, nats(r.1@)) == array_body(vals_of(xs@), a as nat),
    decreases v, 0nat,
{
    let mut out: Vec<u8> = Vec::new();
    let mut ends: Vec<usize> = Vec::new();
    let mut i: usize = 0;
    while i < xs.len()
        invariant
            v.repr == Repr::Array(v.repr->Array_0, *xs),
            crate::types::is_alignment(a as nat),
            i <= xs.len(),
            (out@, nats(ends@)) == array_body(vals_of(xs@.subrange(0, i as int)), a as nat),
        decreases xs.len() - i,
    {
        proof { lemma_elem_decreases(*v, *xs, i as int); }
        let ghost ends0 = ends@;
        push_padding(&mut out, a);
        let mut c = xs[i].data();
        out.append(&mut c);
        ends.push(out.len());
        proof {
            assert(ends@.drop_last() =~= ends0);
            lemma_vals_of_push(xs@.subrange(0, i as int), xs@[i as int]);
            assert(xs@.subrange(0, i as int).push(xs@[i as int]) =~= xs@.subrange(0, i + 1));
            let vs = vals_of(xs@.subrange(0, i + 1));
            assert(vs.drop_last() == vals_of(xs@.subrange(0, i as int)));
            assert(nats(ends@) =~= nats(ends@.drop_last()).push(out@.len()));
        }
        i = i + 1;
    }
    assert(xs@.subrange(0, xs.len() as int) =~= xs@);
    (out, ends)
}


/// Lays out tuple members one after another, each at its own alignment.
fn exec_tuple_body(v: &Variant, xs: &Vec<Variant>) -> (r: (Vec<u8>, Vec<usize>))
    requires
        v.repr == Repr::Tuple(*xs),
    ensures
        (r.0@, nats(r.1@)) == tuple_body(vals_of(xs@)),
    decreases v, 0nat,
{
    let mut out: Vec<u8> = Vec::new();
    let mut ends: Vec<usize> = Vec::new();
    let mut i: usize = 0;
    while i < xs.len()
        invariant
            v.repr == Repr::Tuple(*xs),
            i <= xs.len(),
            (out@, nats(ends@)) == tuple_body(vals_of(xs@.subrange(0, i as int))),
        decreases xs.len() - i,
    {
        proof { lemma_elem_decreases(*v, *xs, i as int); }
        let ghost ends0 = ends@;
        let t = xs[i].type_();
        push_padding(&mut out, t.alignment());
        let mut c = xs[i].data();
        out.append(&mut c);
        if t.fixed_size().is_none() {
            ends.push(out.len());
        }
        proof {
            lemma_vals_of_push(xs@.subrange(0, i as int), xs@[i as int]);
            assert(xs@.subrange(0, i as int).push(xs@[i as int]) =~= xs@.subrange(0, i + 1));
            let vs = vals_of(xs@.subrange(0, i + 1));
            assert(vs.drop_last() == vals_of(xs@.subrange(0, i as int)));
            if ends@.len() > ends0.len() {
                assert(ends@.drop_last() =~= ends0);
                assert(nats(ends@) =~= nats(ends0).push(out@.len()));
            }
        }
        i = i + 1;
    }
    assert(xs@.subrange(0, xs.len() as int) =~= xs@);
    (out, ends)
}

/// A body followed by its framing offsets.
fn exec_framed(body: Vec<u8>, ends: &Vec<usize>, reversed: bool) -> (r: Vec<u8>)
    ensures
        r@ == framed(body@, if reversed { nats(ends@).reverse() } else { nats(ends@) }),
{
    let k = exec_offset_size(body.len(), ends.len());
    let mut out = body;
    if reversed {
        push_offsets_reversed(&mut out, ends, k);
    } else {
        push_offsets(&mut out, ends, k);
    }
    out
}

fn ser_boxed(v: &Variant, x: &Variant) -> (r: Vec<u8>)
    requires
        v.repr == Repr::Boxed(Box::new(*x)),
    ensures
        r@ == ser(v@),
    decreases v, 1nat,
{
    let mut out = x.data();
    out.push(0u8);
    let text = x.type_().as_str();
    let mut tb = vstd::slice::slice_to_vec(text.as_str().as_bytes());
    out.append(&mut tb);
    out
}

fn ser_maybe(v: &Variant, e: &VariantType, o: &Option<Box<Variant>>) -> (r: Vec<u8>)
    requires
        v.repr == Repr::Maybe(*e, *o),
    ensures
        r@ == ser(v@),
    decreases v, 1nat,
{
    match o {
        None => Vec::new(),
        Some(x) => {
            proof {
                assert(decreases_to!(v => v.repr));
                assert(decreases_to!(v.repr => v.repr->Maybe_1));
                assert(decreases_to!(v.repr->Maybe_1 => v.repr->Maybe_1->Some_0));
            }
            let mut out = x.data();
            if e.fixed_size().is_none() {
                out.push(0u8);
            }
            out
        },
    }
}

fn ser_array(v: &Variant, e: &VariantType, xs: &Vec<Variant>) -> (r: Vec<u8>)
    requires
        v.repr == Repr::Array(*e, *xs),
    ensures
        r@ == ser(v@),
    decreases v, 1nat,
{
    let (body, ends) = exec_array_body(v, xs, e.alignment());
    if e.fixed_size().is_some() {
        body
    } else {
        exec_framed(body, &ends, false)
    }
}

fn ser_tuple(v: &Variant, xs: &Vec<Variant>) -> (r: Vec<u8>)
    requires
        v.repr == Repr::Tuple(*xs),
    ensures
        r@ == ser(v@),
    decreases v, 1nat,
{
    if xs.len() == 0 {
        let mut out: Vec<u8> = Vec::new();
        out.push(0u8);
        return out;
    }
    let (body, ends) = exec_tuple_body(v, xs);
    let t = v.type_();
    proof { lemma_vals_of(xs@); }
    match t.fixed_size() {
        Some(n) => {
            let blen = body.len();
            let mut out = body;
            if n > blen {
                push_zeros(&mut out, n - blen);
            }
            out
        },
        None => {
            let last_fixed = xs[xs.len() - 1].type_().fixed_size().is_some();
            let mut recorded = ends;
            if !last_fixed {
                recorded.pop();
                proof {
                    assert(nats(recorded@) =~= nats(ends@).drop_last());
                }
            }
            assert(nats(recorded@) == tuple_ends(vals_of(xs@), nats(ends@)));
            exec_framed(body, &recorded, true)
        },
    }
}

fn ser_dict_entry(v: &Variant, k: &Variant, x: &Variant) -> (r: Vec<u8>)
    requires
        v.repr == Repr::DictEntry(Box::new(*k), Box::new(*x)),
    ensures
        r@ == ser(v@),
    decreases v, 1nat,
{
    let kb = k.data();
    let klen = kb.len();
    let mut body = kb;
    push_padding(&mut body, x.type_().alignment());
    proof {
        assert(decreases_to!(v => v.repr));
        assert(decreases_to!(v.repr => v.repr->DictEntry_1));
    }
    let mut xb = x.data();
    body.append(&mut xb);
    let t = v.type_();
    match t.fixed_size() {
        Some(n) => {
            let blen = body.len();
            let mut out = body;
            if n > blen {
                push_zeros(&mut out, n - blen);
            }
            out
        },
        None => {
            if k.type_().fixed_size().is_some() {
                body
            } else {
                let mut ends: Vec<usize> = Vec::new();
                ends.push(klen);
                assert(nats(ends@) =~= seq![klen as nat]);
                exec_framed(body, &ends, false)
            }
        },
    }
}

impl Variant {
    /// The serialized form of this value.
    pub fn data(&self) -> (r: Vec<u8>)
        ensures
            r@ == ser(self@),
        decreases self, 2nat,
    {
        let mut out: Vec<u8> = Vec::new();
        match &self.repr {
            Repr::Boolean(b) => out.push(if *b { 1u8 } else { 0u8 }),
            Repr::Byte(x) => out.push(*x),
            Repr::Int16(x) => push_le(&mut out, *x as u16 as u64, 2),
            Repr::UInt16(x) => push_le(&mut out, *x as u64, 2),
            Repr::Int32(x) => push_le(&mut out, *x as u32 as u64, 4),
            Repr::UInt32(x) => push_le(&mut out, *x as u64, 4),
            Repr::Int64(x) => push_le(&mut out, *x as u64, 8),
            Repr::UInt64(x) => push_le(&mut out, *x, 8),
            Repr::Double(x) => push_le(&mut out, *x, 8),
            Repr::Str(s) => out = string_bytes(s),
            Repr::ObjectPath(s) => out = string_bytes(s),
            Repr::Signature(s) => out = string_bytes(s),
            Repr::Boxed(x) => out = ser_boxed(self, x),
            Repr::Maybe(e, o) => out = ser_maybe(self, e, o),
            Repr::Array(e, xs) => out = ser_array(self, e, xs),
            Repr::Tuple(xs) => out = ser_tuple(self, xs),
            Repr::DictEntry(k, x) => out = ser_dict_entry(self, k, x),
        }
        out
    }
}

} // verus!
