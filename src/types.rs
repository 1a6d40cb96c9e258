//! Type signatures: the mathematical model `Ty`, the executable
//! `VariantType`, and their textual form.
use vstd::prelude::*;

verus! {

/// The mathematical model of a type signature.
pub enum Ty {
    Boolean,
    Byte,
    Int16,
    UInt16,
    Int32,
    UInt32,
    Int64,
    UInt64,
    Double,
    Str,
    ObjectPath,
    Signature,
    Variant,
    Array(Box<Ty>),
    Maybe(Box<Ty>),
    Tuple(Seq<Ty>),
    DictEntry(Box<Ty>, Box<Ty>),
}

/// A type signature.
#[derive(Debug, Hash)]
pub enum VariantType {
    Boolean,
    Byte,
    Int16,
    UInt16,
    Int32,
    UInt32,
    Int64,
    UInt64,
    Double,
    Str,
    ObjectPath,
    Signature,
    Variant,
    Array(Box<VariantType>),
    Maybe(Box<VariantType>),
    Tuple(Vec<VariantType>),
    DictEntry(Box<VariantType>, Box<VariantType>),
}

pub open spec fn ty_of(t: &VariantType) -> Ty
    decreases t,
{
    match t {
        VariantType::Boolean => Ty::Boolean,
        VariantType::Byte => Ty::Byte,
        VariantType::Int16 => Ty::Int16,
        VariantType::UInt16 => Ty::UInt16,
        VariantType::Int32 => Ty::Int32,
        VariantType::UInt32 => Ty::UInt32,
        VariantType::Int64 => Ty::Int64,
        VariantType::UInt64 => Ty::UInt64,
        VariantType::Double => Ty::Double,
        VariantType::Str => Ty::Str,
        VariantType::ObjectPath => Ty::ObjectPath,
        VariantType::Signature => Ty::Signature,
        VariantType::Variant => Ty::Variant,
        VariantType::Array(e) => Ty::Array(Box::new(ty_of(e))),
        VariantType::Maybe(e) => Ty::Maybe(Box::new(ty_of(e))),
        VariantType::Tuple(ts) => Ty::Tuple(tys_of(ts@)),
        VariantType::DictEntry(k, v) => Ty::DictEntry(Box::new(ty_of(k)), Box::new(ty_of(v))),
    }
}

pub open spec fn tys_of(ts: Seq<VariantType>) -> Seq<Ty>
    decreases ts,
{
    if ts.len() == 0 {
        Seq::empty()
    } else {
        tys_of(ts.drop_last()).push(ty_of(&ts.last()))
    }
}

impl View for VariantType {
    type V = Ty;

    open spec fn view(&self) -> Ty {
        ty_of(self)
    }
}


/// `tys_of` keeps the length and maps each member.
pub proof fn lemma_tys_of(ts: Seq<VariantType>)
    ensures
        tys_of(ts).len() == ts.len(),
        forall|i: int| 0 <= i < ts.len() ==> #[trigger] tys_of(ts)[i] == ty_of(&ts[i]),
    decreases ts.len(),
{
    if ts.len() > 0 {
        lemma_tys_of(ts.drop_last());
    }
}

pub proof fn lemma_tys_of_push(ts: Seq<VariantType>, t: VariantType)
    ensures
        tys_of(ts.push(t)) == tys_of(ts).push(ty_of(&t)),
{
    assert(ts.push(t).drop_last() =~= ts);
}

/// The one-character code of each primitive type.
pub open spec fn prim_code(t: Ty) -> Option<char> {
    match t {
        Ty::Boolean => Some('b'),
        Ty::Byte => Some('y'),
        Ty::Int16 => Some('n'),
        Ty::UInt16 => Some('q'),
        Ty::Int32 => Some('i'),
        Ty::UInt32 => Some('u'),
        Ty::Int64 => Some('x'),
        Ty::UInt64 => Some('t'),
        Ty::Double => Some('d'),
        Ty::Str => Some('s'),
        Ty::ObjectPath => Some('o'),
        Ty::Signature => Some('g'),
        Ty::Variant => Some('v'),
        _ => None,
    }
}

/// The canonical text of a type signature.
pub open spec fn type_text(t: Ty) -> Seq<char>
    decreases t,
{
    match t {
        Ty::Array(e) => seq!['a'] + type_text(*e),
        Ty::Maybe(e) => seq!['m'] + type_text(*e),
        Ty::Tuple(ts) => seq!['('] + types_text(ts) + seq![')'],
        Ty::DictEntry(k, v) => seq!['{'] + type_text(*k) + type_text(*v) + seq!['}'],
        _ => seq![prim_code(t).unwrap()],
    }
}

/// The texts of several signatures, one after another.
pub open spec fn types_text(ts: Seq<Ty>) -> Seq<char>
    decreases ts,
{
    if ts.len() == 0 {
        Seq::empty()
    } else {
        types_text(ts.drop_last()) + type_text(ts.last())
    }
}

/// Container signatures: arrays, maybes, tuples and dictionary entries.
pub open spec fn is_container_ty(t: Ty) -> bool {
    t is Array || t is Maybe || t is Tuple || t is DictEntry
}

/// The largest value of any fixed size; a larger composition counts as
/// variable-sized.
pub const FIXED_SIZE_CAP: usize = 0x3fff_ffff;

/// Alignment in bytes of the serialized form of a value of type `t`.
pub open spec fn alignment(t: Ty) -> nat
    decreases t,
{
    match t {
        Ty::Boolean | Ty::Byte | Ty::Str | Ty::ObjectPath | Ty::Signature => 1,
        Ty::Int16 | Ty::UInt16 => 2,
        Ty::Int32 | Ty::UInt32 => 4,
        Ty::Int64 | Ty::UInt64 | Ty::Double | Ty::Variant => 8,
        Ty::Array(e) => alignment(*e),
        Ty::Maybe(e) => alignment(*e),
        Ty::Tuple(ts) => alignment_max(ts),
        Ty::DictEntry(k, v) => max_nat(alignment(*k), alignment(*v)),
    }
}

pub open spec fn alignment_max(ts: Seq<Ty>) -> nat
    decreases ts,
{
    if ts.len() == 0 {
        1
    } else {
        max_nat(alignment_max(ts.drop_last()), alignment(ts.last()))
    }
}

pub open spec fn max_nat(a: nat, b: nat) -> nat {
    if a >= b { a } else { b }
}

/// An alignment is one of 1, 2, 4 and 8.
pub open spec fn is_alignment(a: nat) -> bool {
    a == 1 || a == 2 || a == 4 || a == 8
}

/// `n` rounded up to a multiple of `a`.
pub open spec fn align_up(n: nat, a: nat) -> nat {
    if a == 0 || n % a == 0 { n } else { (n + (a - n % a)) as nat }
}

/// Size of the serialized form of every value of `t`, where that is the
/// same for all values; `None` for variable-sized types.
pub open spec fn fixed_size(t: Ty) -> Option<nat>
    decreases t,
{
    match t {
        Ty::Boolean | Ty::Byte => Some(1),
        Ty::Int16 | Ty::UInt16 => Some(2),
        Ty::Int32 | Ty::UInt32 => Some(4),
        Ty::Int64 | Ty::UInt64 | Ty::Double => Some(8),
        Ty::Str | Ty::ObjectPath | Ty::Signature | Ty::Variant | Ty::Array(_) | Ty::Maybe(_) => None,
        Ty::Tuple(ts) => match members_end(ts) {
            Some(e) => if ts.len() == 0 { Some(1) } else { Some(align_up(e, alignment_max(ts))) },
            None => None,
        },
        Ty::DictEntry(k, v) => match (fixed_size(*k), fixed_size(*v)) {
            (Some(ks), Some(vs)) => {
                let e = align_up(ks, alignment(*v)) + vs;
                if e > FIXED_SIZE_CAP { None } else { Some(align_up(e, max_nat(alignment(*k), alignment(*v)))) }
            },
            _ => None,
        },
    }
}

/// Where the last of `ts` ends when all are fixed-size and laid out one
/// after another, each at its alignment.
pub open spec fn members_end(ts: Seq<Ty>) -> Option<nat>
    decreases ts,
{
    if ts.len() == 0 {
        Some(0)
    } else {
        match (members_end(ts.drop_last()), fixed_size(ts.last())) {
            (Some(e), Some(s)) => {
                let o = align_up(e, alignment(ts.last())) + s;
                if o > FIXED_SIZE_CAP { None } else { Some(o) }
            },
            _ => None,
        }
    }
}


pub proof fn lemma_alignment(t: Ty)
    ensures
        is_alignment(alignment(t)),
    decreases t,
{
    match t {
        Ty::Array(e) => lemma_alignment(*e),
        Ty::Maybe(e) => lemma_alignment(*e),
        Ty::Tuple(ts) => lemma_alignment_max(ts),
        Ty::DictEntry(k, v) => {
            lemma_alignment(*k);
            lemma_alignment(*v);
        },
        _ => {},
    }
}

pub proof fn lemma_alignment_max(ts: Seq<Ty>)
    ensures
        is_alignment(alignment_max(ts)),
    decreases ts,
{
    if ts.len() > 0 {
        lemma_alignment_max(ts.drop_last());
        lemma_alignment(ts.last());
    }
}

pub proof fn lemma_align_up(n: nat, a: nat)
    requires
        is_alignment(a),
    ensures
        n <= align_up(n, a) < n + a,
        align_up(n, a) % a == 0,
{
    if n % a != 0 {
        assert((n + (a - n % a)) % (a as int) == 0) by (nonlinear_arith)
            requires a > 0, n % a != 0;
    }
}

pub proof fn lemma_fixed_size(t: Ty)
    ensures
        fixed_size(t) matches Some(s) ==> 0 < s <= FIXED_SIZE_CAP + 8,
    decreases t,
{
    match t {
        Ty::Tuple(ts) => {
            lemma_members_end(ts);
            lemma_alignment_max(ts);
            if let Some(e) = members_end(ts) {
                lemma_align_up(e, alignment_max(ts));
            }
        },
        Ty::DictEntry(k, v) => {
            lemma_fixed_size(*k);
            lemma_fixed_size(*v);
            lemma_alignment(*k);
            lemma_alignment(*v);
            if let (Some(ks), Some(vs)) = (fixed_size(*k), fixed_size(*v)) {
                lemma_align_up(ks, alignment(*v));
                let e = align_up(ks, alignment(*v)) + vs;
                lemma_align_up(e, max_nat(alignment(*k), alignment(*v)));
            }
        },
        _ => {},
    }
}

pub proof fn lemma_members_end(ts: Seq<Ty>)
    ensures
        members_end(ts) matches Some(e) ==> e <= FIXED_SIZE_CAP,
        members_end(ts) matches Some(e) ==> (ts.len() > 0 ==> e > 0),
    decreases ts,
{
    if ts.len() > 0 {
        lemma_members_end(ts.drop_last());
        lemma_fixed_size(ts.last());
        lemma_alignment(ts.last());
        if let Some(e) = members_end(ts.drop_last()) {
            lemma_align_up(e, alignment(ts.last()));
        }
    }
}

/// Why a text is not a type signature.
#[derive(Debug, PartialEq, Eq, Clone, Copy)]
pub enum TypeParseError {
    /// The text ends inside a signature.
    UnexpectedEnd,
    /// A character that cannot stand where it stands.
    InvalidCharacter,
    /// One complete signature is followed by more text.
    TrailingCharacters,
}

/// `n` rounded up to a multiple of the alignment `a`.
pub fn exec_align_up(n: usize, a: usize) -> (r: usize)
    requires
        is_alignment(a as nat),
        n <= FIXED_SIZE_CAP * 2 + 16,
    ensures
        r == align_up(n as nat, a as nat),
{
    if n % a == 0 {
        n
    } else {
        assert(n % a < a);
        n + (a - n % a)
    }
}

impl VariantType {
    /// A deep copy.
    pub fn dup(&self) -> (r: VariantType)
        ensures
            r@ == self@,
        decreases self,
    {
        match self {
            VariantType::Boolean => VariantType::Boolean,
            VariantType::Byte => VariantType::Byte,
            VariantType::Int16 => VariantType::Int16,
            VariantType::UInt16 => VariantType::UInt16,
            VariantType::Int32 => VariantType::Int32,
            VariantType::UInt32 => VariantType::UInt32,
            VariantType::Int64 => VariantType::Int64,
            VariantType::UInt64 => VariantType::UInt64,
            VariantType::Double => VariantType::Double,
            VariantType::Str => VariantType::Str,
            VariantType::ObjectPath => VariantType::ObjectPath,
            VariantType::Signature => VariantType::Signature,
            VariantType::Variant => VariantType::Variant,
            VariantType::Array(e) => VariantType::Array(Box::new(e.dup())),
            VariantType::Maybe(e) => VariantType::Maybe(Box::new(e.dup())),
            VariantType::DictEntry(k, v) => VariantType::DictEntry(Box::new(k.dup()), Box::new(v.dup())),
            VariantType::Tuple(ts) => {
                let mut out: Vec<VariantType> = Vec::new();
                let mut i: usize = 0;
                while i < ts.len()
                    invariant
                        *self == VariantType::Tuple(*ts),
                        i <= ts.len(),
                        tys_of(out@) == tys_of(ts@.subrange(0, i as int)),
                    decreases ts.len() - i,
                {
                    proof { lemma_vec_elem_decreases(*self, *ts, i as int); }
                    let c = ts[i].dup();
                    proof {
                        lemma_tys_of_push(out@, c);
                        lemma_tys_of_push(ts@.subrange(0, i as int), ts@[i as int]);
                        assert(ts@.subrange(0, i as int).push(ts@[i as int]) =~= ts@.subrange(0, i + 1));
                    }
                    out.push(c);
                    i = i + 1;
                }
                assert(ts@.subrange(0, ts.len() as int) =~= ts@);
                VariantType::Tuple(out)
            },
        }
    }

    /// Equality of signatures, which is equality of their texts.
    pub fn equals(&self, other: &VariantType) -> (r: bool)
        ensures
            r == (self@ == other@),
        decreases self,
    {
        match (self, other) {
            (VariantType::Array(a), VariantType::Array(b)) => a.equals(b),
            (VariantType::Maybe(a), VariantType::Maybe(b)) => a.equals(b),
            (VariantType::DictEntry(k1, v1), VariantType::DictEntry(k2, v2)) => k1.equals(k2) && v1.equals(v2),
            (VariantType::Tuple(a), VariantType::Tuple(b)) => {
                proof {
                    lemma_tys_of(a@);
                    lemma_tys_of(b@);
                }
                if a.len() != b.len() {
                    return false;
                }
                let mut i: usize = 0;
                while i < a.len()
                    invariant
                        *self == VariantType::Tuple(*a),
                        *other == VariantType::Tuple(*b),
                        i <= a.len(),
                        a.len() == b.len(),
                        tys_of(a@).len() == a.len(),
                        tys_of(b@).len() == b.len(),
                        forall|j: int| 0 <= j < a.len() ==> #[trigger] tys_of(a@)[j] == ty_of(&a@[j]),
                        forall|j: int| 0 <= j < b.len() ==> #[trigger] tys_of(b@)[j] == ty_of(&b@[j]),
                        forall|j: int| 0 <= j < i ==> ty_of(&a@[j]) == ty_of(&b@[j]),
                    decreases a.len() - i,
                {
                    proof { lemma_vec_elem_decreases(*self, *a, i as int); }
                    if !a[i].equals(&b[i]) {
                        assert(tys_of(a@)[i as int] != tys_of(b@)[i as int]);
                        return false;
                    }
                    i = i + 1;
                }
                assert(tys_of(a@) =~= tys_of(b@));
                true
            },
            (VariantType::Boolean, VariantType::Boolean) => true,
            (VariantType::Byte, VariantType::Byte) => true,
            (VariantType::Int16, VariantType::Int16) => true,
            (VariantType::UInt16, VariantType::UInt16) => true,
            (VariantType::Int32, VariantType::Int32) => true,
            (VariantType::UInt32, VariantType::UInt32) => true,
            (VariantType::Int64, VariantType::Int64) => true,
            (VariantType::UInt64, VariantType::UInt64) => true,
            (VariantType::Double, VariantType::Double) => true,
            (VariantType::Str, VariantType::Str) => true,
            (VariantType::ObjectPath, VariantType::ObjectPath) => true,
            (VariantType::Signature, VariantType::Signature) => true,
            (VariantType::Variant, VariantType::Variant) => true,
            _ => false,
        }
    }

    /// True for arrays, maybes, tuples and dictionary entries.
    pub fn is_container(&self) -> (r: bool)
        ensures
            r == is_container_ty(self@),
    {
        match self {
            VariantType::Array(_) | VariantType::Maybe(_) | VariantType::Tuple(_) | VariantType::DictEntry(_, _) => true,
            _ => false,
        }
    }

    /// True for tuple signatures, the unit `()` included.
    pub fn is_tuple(&self) -> (r: bool)
        ensures
            r == (self@ is Tuple),
    {
        match self {
            VariantType::Tuple(_) => true,
            _ => false,
        }
    }

    /// True for dictionary-entry signatures.
    pub fn is_dict_entry(&self) -> (r: bool)
        ensures
            r == (self@ is DictEntry),
    {
        match self {
            VariantType::DictEntry(_, _) => true,
            _ => false,
        }
    }

    /// The array signature whose elements have this signature.
    pub fn as_array(&self) -> (r: VariantType)
        ensures
            r@ == Ty::Array(Box::new(self@)),
    {
        VariantType::Array(Box::new(self.dup()))
    }

    /// The signature `a{sv}`: a dictionary from strings to boxed values.
    pub fn vardict() -> (r: VariantType)
        ensures
            r@ == Ty::Array(Box::new(Ty::DictEntry(Box::new(Ty::Str), Box::new(Ty::Variant)))),
    {
        VariantType::new_dict_entry(&VariantType::Str, &VariantType::Variant).as_array()
    }

    /// The maybe signature over `elem`.
    pub fn new_maybe(elem: &VariantType) -> (r: VariantType)
        ensures
            r@ == Ty::Maybe(Box::new(elem@)),
    {
        VariantType::Maybe(Box::new(elem.dup()))
    }

    /// The dictionary-entry signature with the given key and value.
    pub fn new_dict_entry(key: &VariantType, value: &VariantType) -> (r: VariantType)
        ensures
            r@ == Ty::DictEntry(Box::new(key@), Box::new(value@)),
    {
        VariantType::DictEntry(Box::new(key.dup()), Box::new(value.dup()))
    }

    /// The tuple signature whose members are `members`, in order.
    pub fn new_tuple(members: Vec<VariantType>) -> (r: VariantType)
        ensures
            r@ == Ty::Tuple(tys_of(members@)),
    {
        VariantType::Tuple(members)
    }

    /// Alignment in bytes of serialized values of this signature.
    pub fn alignment(&self) -> (r: usize)
        ensures
            r == alignment(self@),
            is_alignment(r as nat),
        decreases self,
    {
        proof { lemma_alignment(self@); }
        match self {
            VariantType::Boolean | VariantType::Byte | VariantType::Str | VariantType::ObjectPath
            | VariantType::Signature => 1,
            VariantType::Int16 | VariantType::UInt16 => 2,
            VariantType::Int32 | VariantType::UInt32 => 4,
            VariantType::Int64 | VariantType::UInt64 | VariantType::Double | VariantType::Variant => 8,
            VariantType::Array(e) => e.alignment(),
            VariantType::Maybe(e) => e.alignment(),
            VariantType::DictEntry(k, v) => {
                let a = k.alignment();
                let b = v.alignment();
                if a >= b { a } else { b }
            },
            VariantType::Tuple(ts) => {
                let mut m: usize = 1;
                let mut i: usize = 0;
                while i < ts.len()
                    invariant
                        *self == VariantType::Tuple(*ts),
                        i <= ts.len(),
                        m == alignment_max(tys_of(ts@.subrange(0, i as int))),
                    decreases ts.len() - i,
                {
                    proof { lemma_vec_elem_decreases(*self, *ts, i as int); }
                    let a = ts[i].alignment();
                    proof {
                        lemma_tys_of_push(ts@.subrange(0, i as int), ts@[i as int]);
                        assert(ts@.subrange(0, i as int).push(ts@[i as int]) =~= ts@.subrange(0, i + 1));
                        let s = tys_of(ts@.subrange(0, i + 1));
                        assert(s.drop_last() == tys_of(ts@.subrange(0, i as int)));
                    }
                    if a > m {
                        m = a;
                    }
                    i = i + 1;
                }
                assert(ts@.subrange(0, ts.len() as int) =~= ts@);
                m
            },
        }
    }

    /// The size shared by all serialized values of this signature, or
    /// `None` where the size varies.
    pub fn fixed_size(&self) -> (r: Option<usize>)
        ensures
            r matches Some(n) ==> fixed_size(self@) == Some(n as nat),
            r is None ==> fixed_size(self@) is None,
        decreases self,
    {
        proof { lemma_fixed_size(self@); }
        match self {
            VariantType::Boolean | VariantType::Byte => Some(1),
            VariantType::Int16 | VariantType::UInt16 => Some(2),
            VariantType::Int32 | VariantType::UInt32 => Some(4),
            VariantType::Int64 | VariantType::UInt64 | VariantType::Double => Some(8),
            VariantType::Str | VariantType::ObjectPath | VariantType::Signature | VariantType::Variant
            | VariantType::Array(_) | VariantType::Maybe(_) => None,
            VariantType::DictEntry(k, v) => {
                proof {
                    lemma_fixed_size(k@);
                    lemma_fixed_size(v@);
                }
                match (k.fixed_size(), v.fixed_size()) {
                    (Some(ks), Some(vs)) => {
                        let va = v.alignment();
                        let ka = k.alignment();
                        let e = exec_align_up(ks, va) + vs;
                        if e > FIXED_SIZE_CAP {
                            None
                        } else {
                            Some(exec_align_up(e, if ka >= va { ka } else { va }))
                        }
                    },
                    _ => None,
                }
            },
            VariantType::Tuple(ts) => {
                let mut end: usize = 0;
                let mut i: usize = 0;
                while i < ts.len()
                    invariant
                        *self == VariantType::Tuple(*ts),
                        i <= ts.len(),
                        members_end(tys_of(ts@.subrange(0, i as int))) == Some(end as nat),
                        end <= FIXED_SIZE_CAP,
                    decreases ts.len() - i,
                {
                    proof {
                        lemma_tys_of_push(ts@.subrange(0, i as int), ts@[i as int]);
                        assert(ts@.subrange(0, i as int).push(ts@[i as int]) =~= ts@.subrange(0, i + 1));
                        let s = tys_of(ts@.subrange(0, i + 1));
                        assert(s.drop_last() == tys_of(ts@.subrange(0, i as int)));
                        lemma_fixed_size(ts@[i as int]@);
                    }
                    proof {
                        lemma_vec_elem_decreases(*self, *ts, i as int);
                        lemma_tys_of_prefix(ts@, i + 1);
                        lemma_tys_of(ts@);
                    }
                    match ts[i].fixed_size() {
                        None => {
                            proof {
                                assert(ts@.subrange(0, i + 1) =~= ts@.subrange(0, i + 1));
                                lemma_members_none(tys_of(ts@), (i + 1) as int, tys_of(ts@.subrange(0, i + 1)));
                            }
                            return None;
                        },
                        Some(s) => {
                            let a = ts[i].alignment();
                            let o = exec_align_up(end, a) + s;
                            if o > FIXED_SIZE_CAP {
                                proof {
                                    lemma_members_none(tys_of(ts@), (i + 1) as int, tys_of(ts@.subrange(0, i + 1)));
                                }
                                return None;
                            }
                            end = o;
                        },
                    }
                    i = i + 1;
                }
                assert(ts@.subrange(0, ts.len() as int) =~= ts@);
                if ts.len() == 0 {
                    Some(1)
                } else {
                    let a = self.alignment();
                    Some(exec_align_up(end, a))
                }
            },
        }
    }
}

/// A member of a tuple signature is smaller than the tuple.
pub proof fn lemma_vec_elem_decreases(t: VariantType, ts: Vec<VariantType>, i: int)
    requires
        t == VariantType::Tuple(ts),
        0 <= i < ts.len(),
    ensures
        decreases_to!(t => ts[i]),
{
    assert(decreases_to!(t => t->Tuple_0));
    assert(decreases_to!(ts => ts@));
    assert(decreases_to!(ts@ => ts@[i]));
}

/// The model of a prefix is the prefix of the model.
pub proof fn lemma_tys_of_prefix(ts: Seq<VariantType>, n: int)
    requires
        0 <= n <= ts.len(),
    ensures
        tys_of(ts.subrange(0, n)) == tys_of(ts).subrange(0, n),
{
    lemma_tys_of(ts);
    lemma_tys_of(ts.subrange(0, n));
    assert(tys_of(ts.subrange(0, n)) =~= tys_of(ts).subrange(0, n));
}

impl PartialEq for VariantType {
    fn eq(&self, other: &VariantType) -> (r: bool) {
        self.equals(other)
    }
}

impl vstd::std_specs::cmp::PartialEqSpecImpl for VariantType {
    open spec fn obeys_eq_spec() -> bool {
        true
    }

    open spec fn eq_spec(&self, other: &VariantType) -> bool {
        self@ == other@
    }
}

impl Eq for VariantType {
}

/// Once a prefix of members has no fixed end, no longer prefix has one.
pub proof fn lemma_members_none(all: Seq<Ty>, n: int, prefix: Seq<Ty>)
    requires
        0 <= n <= all.len(),
        prefix == all.subrange(0, n),
        members_end(prefix) is None,
    ensures
        members_end(all) is None,
    decreases all.len() - n,
{
    if n < all.len() {
        let next = all.subrange(0, n + 1);
        assert(next.drop_last() =~= prefix);
        lemma_members_none(all, n + 1, next);
    } else {
        assert(prefix =~= all);
    }
}


impl VariantType {
    /// The code of a primitive signature; the empty text for containers.
    fn code(&self) -> (r: &'static str)
        ensures
            prim_code(self@) matches Some(c) ==> r@ == seq![c],
    {
        match self {
            VariantType::Boolean => {
                proof { reveal_strlit("b"); }
                "b"
            },
            VariantType::Byte => {
                proof { reveal_strlit("y"); }
                "y"
            },
            VariantType::Int16 => {
                proof { reveal_strlit("n"); }
                "n"
            },
            VariantType::UInt16 => {
                proof { reveal_strlit("q"); }
                "q"
            },
            VariantType::Int32 => {
                proof { reveal_strlit("i"); }
                "i"
            },
            VariantType::UInt32 => {
                proof { reveal_strlit("u"); }
                "u"
            },
            VariantType::Int64 => {
                proof { reveal_strlit("x"); }
                "x"
            },
            VariantType::UInt64 => {
                proof { reveal_strlit("t"); }
                "t"
            },
            VariantType::Double => {
                proof { reveal_strlit("d"); }
                "d"
            },
            VariantType::Str => {
                proof { reveal_strlit("s"); }
                "s"
            },
            VariantType::ObjectPath => {
                proof { reveal_strlit("o"); }
                "o"
            },
            VariantType::Signature => {
                proof { reveal_strlit("g"); }
                "g"
            },
            VariantType::Variant => {
                proof { reveal_strlit("v"); }
                "v"
            },
            _ => "",
        }
    }

    /// Appends the text of this signature to `out`.
    pub fn write_text(&self, out: &mut String)
        ensures
            final(out)@ == old(out)@ + type_text(self@),
        decreases self,
    {
        let ghost start = out@;
        match self {
            VariantType::Array(e) => {
                proof { reveal_strlit("a"); }
                out.append("a");
                e.write_text(out);
                assert(out@ =~= start + type_text(self@));
            },
            VariantType::Maybe(e) => {
                proof { reveal_strlit("m"); }
                out.append("m");
                e.write_text(out);
                assert(out@ =~= start + type_text(self@));
            },
            VariantType::DictEntry(k, v) => {
                proof { reveal_strlit("{"); reveal_strlit("}"); }
                out.append("{");
                k.write_text(out);
                v.write_text(out);
                out.append("}");
                assert(out@ =~= start + type_text(self@));
            },
            VariantType::Tuple(ts) => {
                proof { reveal_strlit("("); reveal_strlit(")"); }
                out.append("(");
                let mut i: usize = 0;
                while i < ts.len()
                    invariant
                        *self == VariantType::Tuple(*ts),
                        i <= ts.len(),
                        out@ == start + seq!['('] + types_text(tys_of(ts@.subrange(0, i as int))),
                    decreases ts.len() - i,
                {
                    proof { lemma_vec_elem_decreases(*self, *ts, i as int); }
                    let ghost before = out@;
                    ts[i].write_text(out);
                    proof {
                        lemma_tys_of_push(ts@.subrange(0, i as int), ts@[i as int]);
                        assert(ts@.subrange(0, i as int).push(ts@[i as int]) =~= ts@.subrange(0, i + 1));
                        let m = tys_of(ts@.subrange(0, i + 1));
                        assert(m.drop_last() == tys_of(ts@.subrange(0, i as int)));
                        assert(out@ =~= start + seq!['('] + types_text(m));
                    }
                    i = i + 1;
                }
                out.append(")");
                assert(ts@.subrange(0, ts.len() as int) =~= ts@);
                assert(out@ =~= start + type_text(self@));
            },
            _ => {
                let c = self.code();
                out.append(c);
            },
        }
    }

    /// The canonical text of this signature, such as `a{sv}` or `(syu)`.
    pub fn as_str(&self) -> (r: String)
        ensures
            r@ == type_text(self@),
    {
        let mut out = String::new();
        self.write_text(&mut out);
        assert(out@ =~= type_text(self@));
        out
    }

    /// Reads a signature from its text.
    pub fn parse(text: &str) -> (r: Result<VariantType, TypeParseError>)
        ensures
            r matches Ok(t) ==> type_text(t@) == text@,
            r is Err <==> !(exists|t: Ty| type_text(t) == text@),
    {
        let n = text.unicode_len();
        let mut cs: Vec<char> = Vec::new();
        let mut i: usize = 0;
        while i < n
            invariant
                n == text@.len(),
                i <= n,
                cs@ == text@.subrange(0, i as int),
            decreases n - i,
        {
            cs.push(text.get_char(i));
            i = i + 1;
            assert(cs@ =~= text@.subrange(0, i as int));
        }
        assert(cs@ =~= text@);
        let r = parse_chars(&cs);
        proof {
            if exists|t: Ty| type_text(t) == text@ {
                let t = choose|t: Ty| type_text(t) == text@;
                lemma_parse_spec_complete(t);
            }
        }
        r
    }
}

/// The primitive signature written as `c`.
pub open spec fn prim_of_code(c: char) -> Option<Ty> {
    if c == 'b' { Some(Ty::Boolean) }
    else if c == 'y' { Some(Ty::Byte) }
    else if c == 'n' { Some(Ty::Int16) }
    else if c == 'q' { Some(Ty::UInt16) }
    else if c == 'i' { Some(Ty::Int32) }
    else if c == 'u' { Some(Ty::UInt32) }
    else if c == 'x' { Some(Ty::Int64) }
    else if c == 't' { Some(Ty::UInt64) }
    else if c == 'd' { Some(Ty::Double) }
    else if c == 's' { Some(Ty::Str) }
    else if c == 'o' { Some(Ty::ObjectPath) }
    else if c == 'g' { Some(Ty::Signature) }
    else if c == 'v' { Some(Ty::Variant) }
    else { None }
}

/// Reads one signature starting at `pos`: the signature and where it ends.
pub open spec fn parse_one_spec(cs: Seq<char>, pos: nat) -> Option<(Ty, nat)>
    decreases cs.len() - pos, 0nat,
{
    if pos >= cs.len() {
        None
    } else {
        let c = cs[pos as int];
        if c == 'a' || c == 'm' {
            match parse_one_spec(cs, pos + 1) {
                Some((e, end)) => Some((if c == 'a' { Ty::Array(Box::new(e)) } else { Ty::Maybe(Box::new(e)) }, end)),
                None => None,
            }
        } else if c == '{' {
            match parse_one_spec(cs, pos + 1) {
                Some((k, e1)) => if e1 <= pos || e1 > cs.len() {
                    None
                } else {
                    match parse_one_spec(cs, e1) {
                        Some((v, e2)) => if e2 < cs.len() && cs[e2 as int] == '}' {
                            Some((Ty::DictEntry(Box::new(k), Box::new(v)), e2 + 1))
                        } else {
                            None
                        },
                        None => None,
                    }
                },
                None => None,
            }
        } else if c == '(' {
            match parse_members_spec(cs, pos + 1) {
                Some((ts, p)) => Some((Ty::Tuple(ts), p + 1)),
                None => None,
            }
        } else {
            match prim_of_code(c) {
                Some(t) => Some((t, pos + 1)),
                None => None,
            }
        }
    }
}

/// Reads tuple members from `pos` up to the closing parenthesis: the
/// members and where the parenthesis stands.
pub open spec fn parse_members_spec(cs: Seq<char>, pos: nat) -> Option<(Seq<Ty>, nat)>
    decreases cs.len() - pos, 1nat,
{
    if pos >= cs.len() {
        None
    } else if cs[pos as int] == ')' {
        Some((Seq::empty(), pos))
    } else {
        match parse_one_spec(cs, pos) {
            Some((t, e)) => if e <= pos || e > cs.len() {
                None
            } else {
                match parse_members_spec(cs, e) {
                    Some((ts, q)) => Some((seq![t] + ts, q)),
                    None => None,
                }
            },
            None => None,
        }
    }
}

/// The signature whose text is exactly `cs`, as the parser reads it.
pub open spec fn parse_spec(cs: Seq<char>) -> Option<Ty> {
    match parse_one_spec(cs, 0) {
        Some((t, e)) => if e == cs.len() { Some(t) } else { None },
        None => None,
    }
}

/// The primitive signature written as `c`.
fn prim_from_code(c: char) -> (r: Option<VariantType>)
    ensures
        r matches Some(t) ==> prim_code(t@) == Some(c) && prim_of_code(c) == Some(t@),
        r is None ==> prim_of_code(c) is None,
{
    match c {
        'b' => Some(VariantType::Boolean),
        'y' => Some(VariantType::Byte),
        'n' => Some(VariantType::Int16),
        'q' => Some(VariantType::UInt16),
        'i' => Some(VariantType::Int32),
        'u' => Some(VariantType::UInt32),
        'x' => Some(VariantType::Int64),
        't' => Some(VariantType::UInt64),
        'd' => Some(VariantType::Double),
        's' => Some(VariantType::Str),
        'o' => Some(VariantType::ObjectPath),
        'g' => Some(VariantType::Signature),
        'v' => Some(VariantType::Variant),
        _ => None,
    }
}

/// Reads a whole signature from characters.
pub fn parse_chars(cs: &Vec<char>) -> (r: Result<VariantType, TypeParseError>)
    ensures
        r matches Ok(t) ==> type_text(t@) == cs@ && parse_spec(cs@) == Some(t@),
        r is Err <==> parse_spec(cs@) is None,
{
    match parse_one(cs, 0) {
        None => Err(if cs.len() == 0 { TypeParseError::UnexpectedEnd } else { TypeParseError::InvalidCharacter }),
        Some((t, e)) => {
            if e == cs.len() {
                assert(cs@.subrange(0, e as int) =~= cs@);
                Ok(t)
            } else {
                Err(TypeParseError::TrailingCharacters)
            }
        },
    }
}

/// Reads one complete signature that starts at `pos`, and where it ends.
pub fn parse_one(cs: &Vec<char>, pos: usize) -> (r: Option<(VariantType, usize)>)
    requires
        pos <= cs.len(),
    ensures
        r matches Some((t, e)) ==> pos < e <= cs.len() && cs@.subrange(pos as int, e as int) == type_text(t@)
            && parse_one_spec(cs@, pos as nat) == Some((t@, e as nat)),
        r is None <==> parse_one_spec(cs@, pos as nat) is None,
    decreases cs.len() - pos, 0nat,
{
    if pos >= cs.len() {
        return None;
    }
    let c = cs[pos];
    if c == 'a' || c == 'm' {
        match parse_one(cs, pos + 1) {
            None => None,
            Some((e, end)) => {
                assert(cs@.subrange(pos as int, end as int) =~= seq![c] + cs@.subrange(pos + 1, end as int));
                if c == 'a' {
                    Some((VariantType::Array(Box::new(e)), end))
                } else {
                    Some((VariantType::Maybe(Box::new(e)), end))
                }
            },
        }
    } else if c == '{' {
        match parse_one(cs, pos + 1) {
            None => None,
            Some((k, e1)) => match parse_one(cs, e1) {
                None => None,
                Some((v, e2)) => {
                    if e2 < cs.len() && cs[e2] == '}' {
                        assert(cs@.subrange(pos as int, e2 + 1) =~= seq!['{'] + cs@.subrange(pos + 1, e1 as int)
                            + cs@.subrange(e1 as int, e2 as int) + seq!['}']);
                        Some((VariantType::DictEntry(Box::new(k), Box::new(v)), e2 + 1))
                    } else {
                        None
                    }
                },
            },
        }
    } else if c == '(' {
        match parse_members(cs, pos + 1) {
            None => None,
            Some((members, p)) => {
                assert(cs@.subrange(pos as int, p + 1) =~= seq!['('] + cs@.subrange(pos + 1, p as int) + seq![')']);
                Some((VariantType::Tuple(members), p + 1))
            },
        }
    } else {
        match prim_from_code(c) {
            None => None,
            Some(t) => {
                assert(cs@.subrange(pos as int, pos + 1) =~= seq![c]);
                Some((t, pos + 1))
            },
        }
    }
}

/// Reads tuple members from `pos`, and where the closing parenthesis
/// stands.
fn parse_members(cs: &Vec<char>, pos: usize) -> (r: Option<(Vec<VariantType>, usize)>)
    requires
        pos <= cs.len(),
    ensures
        r matches Some((ms, p)) ==> pos <= p < cs.len() && cs@[p as int] == ')'
            && cs@.subrange(pos as int, p as int) == types_text(tys_of(ms@))
            && parse_members_spec(cs@, pos as nat) == Some((tys_of(ms@), p as nat)),
        r is None <==> parse_members_spec(cs@, pos as nat) is None,
    decreases cs.len() - pos, 1nat,
{
    if pos >= cs.len() {
        return None;
    }
    if cs[pos] == ')' {
        let ms: Vec<VariantType> = Vec::new();
        assert(tys_of(ms@) =~= Seq::<Ty>::empty());
        assert(cs@.subrange(pos as int, pos as int) =~= Seq::<char>::empty());
        return Some((ms, pos));
    }
    match parse_one(cs, pos) {
        None => None,
        Some((t, e)) => match parse_members(cs, e) {
            None => None,
            Some((rest, p)) => {
                let ghost rv = rest@;
                let mut ms = rest;
                ms.insert(0, t);
                proof {
                    lemma_tys_of(ms@);
                    lemma_tys_of(rv);
                    assert(tys_of(ms@) =~= seq![t@] + tys_of(rv));
                    lemma_types_text_cons(t@, tys_of(rv));
                    assert(cs@.subrange(pos as int, p as int) =~= cs@.subrange(pos as int, e as int) + cs@.subrange(e as int, p as int));
                }
                Some((ms, p))
            },
        },
    }
}

/// The text of a prefix of `cs` at `p` is that of `t`.
pub open spec fn text_at(cs: Seq<char>, p: int, t: Seq<char>) -> bool {
    0 <= p && p + t.len() <= cs.len() && cs.subrange(p, p + t.len()) == t
}

/// A piece of a text that stands at `p` stands at the matching place.
proof fn lemma_text_at_sub(cs: Seq<char>, p: int, t: Seq<char>, a: int, b: int)
    requires
        text_at(cs, p, t),
        0 <= a <= b <= t.len(),
    ensures
        text_at(cs, p + a, t.subrange(a, b)),
{
    assert(cs.subrange(p + a, p + b) =~= t.subrange(a, b)) by {
        assert forall|i: int| 0 <= i < b - a implies cs.subrange(p + a, p + b)[i] == t.subrange(a, b)[i] by {
            assert(cs.subrange(p, p + t.len())[a + i] == cs[p + a + i]);
        }
    }
}

/// The parser reads every signature back from its text, wherever the text
/// stands.
pub proof fn lemma_parse_one_complete(cs: Seq<char>, p: int, t: Ty)
    requires
        text_at(cs, p, type_text(t)),
    ensures
        parse_one_spec(cs, p as nat) == Some((t, (p + type_text(t).len()) as nat)),
    decreases t,
{
    let tt = type_text(t);
    lemma_type_text_nonempty(t);
    assert(cs[p] == tt[0]) by {
        assert(cs.subrange(p, p + tt.len())[0] == cs[p]);
    }
    match t {
        Ty::Array(e) => {
            assert(text_at(cs, p + 1, type_text(*e))) by {
                lemma_text_at_sub(cs, p, tt, 1, tt.len() as int);
                assert(tt.subrange(1, tt.len() as int) =~= type_text(*e));
            }
            lemma_parse_one_complete(cs, p + 1, *e);
        },
        Ty::Maybe(e) => {
            assert(text_at(cs, p + 1, type_text(*e))) by {
                lemma_text_at_sub(cs, p, tt, 1, tt.len() as int);
                assert(tt.subrange(1, tt.len() as int) =~= type_text(*e));
            }
            lemma_parse_one_complete(cs, p + 1, *e);
        },
        Ty::DictEntry(k, v) => {
            let kt = type_text(*k);
            let vt = type_text(*v);
            assert(tt =~= seq!['{'] + kt + vt + seq!['}']);
            assert(text_at(cs, p + 1, kt)) by {
                lemma_text_at_sub(cs, p, tt, 1, 1 + kt.len() as int);
                assert(tt.subrange(1, 1 + kt.len() as int) =~= kt);
            }
            lemma_parse_one_complete(cs, p + 1, *k);
            lemma_type_text_nonempty(*k);
            assert(text_at(cs, p + 1 + kt.len(), vt)) by {
                lemma_text_at_sub(cs, p, tt, 1 + kt.len() as int, 1 + kt.len() as int + vt.len());
                assert(tt.subrange(1 + kt.len() as int, 1 + kt.len() as int + vt.len()) =~= vt);
            }
            lemma_parse_one_complete(cs, p + 1 + kt.len(), *v);
            assert(cs[p + 1 + kt.len() + vt.len()] == tt[1 + kt.len() as int + vt.len()]) by {
                assert(cs.subrange(p, p + tt.len())[1 + kt.len() as int + vt.len()] == cs[p + 1 + kt.len() + vt.len()]);
            }
        },
        Ty::Tuple(ts) => {
            let mt = types_text(ts);
            assert(tt =~= seq!['('] + mt + seq![')']);
            assert(text_at(cs, p + 1, mt)) by {
                lemma_text_at_sub(cs, p, tt, 1, 1 + mt.len() as int);
                assert(tt.subrange(1, 1 + mt.len() as int) =~= mt);
            }
            assert(cs[p + 1 + mt.len()] == ')') by {
                assert(cs.subrange(p, p + tt.len())[1 + mt.len() as int] == cs[p + 1 + mt.len()]);
            }
            lemma_parse_members_complete(cs, p + 1, ts);
        },
        _ => {
            assert(prim_of_code(prim_code(t).unwrap()) == Some(t));
        },
    }
}

/// The parser reads the members of a tuple back from their text, up to the
/// closing parenthesis.
pub proof fn lemma_parse_members_complete(cs: Seq<char>, p: int, ts: Seq<Ty>)
    requires
        text_at(cs, p, types_text(ts)),
        p + types_text(ts).len() < cs.len(),
        cs[p + types_text(ts).len()] == ')',
    ensures
        parse_members_spec(cs, p as nat) == Some((ts, (p + types_text(ts).len()) as nat)),
    decreases ts,
{
    if ts.len() == 0 {
        assert(types_text(ts) == Seq::<char>::empty());
    } else {
        let t0 = ts[0];
        let rest = ts.drop_first();
        assert(ts =~= seq![t0] + rest);
        lemma_types_text_cons(t0, rest);
        let a = type_text(t0);
        let b = types_text(rest);
        lemma_type_text_nonempty(t0);
        assert(text_at(cs, p, a)) by {
            lemma_text_at_sub(cs, p, a + b, 0, a.len() as int);
            assert((a + b).subrange(0, a.len() as int) =~= a);
        }
        assert(cs[p] != ')') by {
            assert(cs.subrange(p, p + a.len())[0] == cs[p]);
            lemma_type_text_head(t0);
        }
        lemma_parse_one_complete(cs, p, t0);
        assert(text_at(cs, p + a.len(), b)) by {
            lemma_text_at_sub(cs, p, a + b, a.len() as int, (a + b).len() as int);
            assert((a + b).subrange(a.len() as int, (a + b).len() as int) =~= b);
        }
        assert(decreases_to!(ts => rest)) by {
            assert(rest =~= ts.subrange(1, ts.len() as int));
        }
        lemma_parse_members_complete(cs, p + a.len(), rest);
        assert(seq![t0] + rest =~= ts);
    }
}

/// Every signature's text is non-empty.
pub proof fn lemma_type_text_nonempty(t: Ty)
    ensures
        type_text(t).len() > 0,
{
}

/// No signature's text starts with a closing parenthesis.
pub proof fn lemma_type_text_head(t: Ty)
    ensures
        type_text(t)[0] != ')',
{
    match t {
        Ty::Array(e) => {},
        Ty::Maybe(e) => {},
        Ty::Tuple(ts) => {},
        Ty::DictEntry(k, v) => {},
        _ => {},
    }
}

/// A text is read as a signature exactly when it is the text of one.
pub proof fn lemma_parse_spec_complete(t: Ty)
    ensures
        parse_spec(type_text(t)) == Some(t),
{
    let cs = type_text(t);
    assert(cs.subrange(0, cs.len() as int) =~= cs);
    lemma_parse_one_complete(cs, 0, t);
}

/// The text of members with one more in front.
pub proof fn lemma_types_text_cons(t: Ty, ts: Seq<Ty>)
    ensures
        types_text(seq![t] + ts) == type_text(t) + types_text(ts),
    decreases ts.len(),
{
    if ts.len() == 0 {
        assert(seq![t] + ts =~= seq![t]);
        assert(seq![t].drop_last() =~= Seq::<Ty>::empty());
        assert(types_text(Seq::<Ty>::empty()) == Seq::<char>::empty());
        assert(seq![t].last() == t);
        assert(types_text(seq![t]) == types_text(seq![t].drop_last()) + type_text(seq![t].last()));
        assert(type_text(t) + Seq::<char>::empty() =~= type_text(t));
        assert(Seq::<char>::empty() + type_text(t) =~= type_text(t));
    } else {
        lemma_types_text_cons(t, ts.drop_last());
        assert((seq![t] + ts).drop_last() =~= seq![t] + ts.drop_last());
        assert((seq![t] + ts).last() == ts.last());
        assert(type_text(t) + types_text(ts.drop_last()) + type_text(ts.last()) =~= type_text(t) + (types_text(ts.drop_last()) + type_text(ts.last())));
    }
}

} // verus!
