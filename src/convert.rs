//! Typed conversions between native values and variants.
use vstd::prelude::*;
use std::collections::{BTreeMap, HashMap};
use std::collections::hash_map::RandomState;
use std::hash::{BuildHasher, Hash};
use vstd::std_specs::iter::IteratorSpec;
use crate::text::{cut_nul, first_nul, lemma_first_nul, text_before_nul};
use crate::types::{Ty, VariantType, tys_of, lemma_tys_of};
use crate::value::{Val, Variant, val_ty, val_tys, lemma_val_tys, vals_of, lemma_vals_of, children, is_container_val, well_formed};

verus! {

/// The error of a typed extraction whose type does not match the value's.
#[derive(Debug, PartialEq, Eq)]
pub struct VariantTypeMismatchError {
    pub actual: VariantType,
    pub expected: VariantType,
}

impl VariantTypeMismatchError {
    pub fn new(actual: VariantType, expected: VariantType) -> (r: Self)
        ensures
            r.actual@ == actual@,
            r.expected@ == expected@,
    {
        Self { actual, expected }
    }

    /// The message of this error.
    pub fn to_string(&self) -> (r: String)
        ensures
            r@ == seq!['T', 'y', 'p', 'e', ' ', 'm', 'i', 's', 'm', 'a', 't', 'c', 'h', ':', ' ', 'E', 'x', 'p', 'e', 'c', 't', 'e', 'd', ' ', '\'']
                + crate::types::type_text(self.expected@) + seq!['\'', ' ', 'g', 'o', 't', ' ', '\'']
                + crate::types::type_text(self.actual@) + seq!['\''],
    {
        let mut out = String::new();
        proof {
            reveal_strlit("Type mismatch: Expected '");
            reveal_strlit("' got '");
            reveal_strlit("'");
        }
        out.append("Type mismatch: Expected '");
        self.expected.write_text(&mut out);
        out.append("' got '");
        self.actual.write_text(&mut out);
        out.append("'");
        assert(out@ =~= seq!['T', 'y', 'p', 'e', ' ', 'm', 'i', 's', 'm', 'a', 't', 'c', 'h', ':', ' ', 'E', 'x', 'p', 'e', 'c', 't', 'e', 'd', ' ', '\'']
                + crate::types::type_text(self.expected@) + seq!['\'', ' ', 'g', 'o', 't', ' ', '\'']
                + crate::types::type_text(self.actual@) + seq!['\'']);
        out
    }
}

/// A native type with a fixed variant type.
pub trait StaticVariantType {
    /// The variant type of every value of `Self`.
    spec fn static_ty() -> Ty;

    fn static_variant_type() -> (r: VariantType)
        ensures
            r@ == Self::static_ty();
}

/// A native type whose values convert to variants.
pub trait ToVariant: StaticVariantType {
    /// `v` is the variant form of `self`.
    spec fn encodes(&self, v: Val) -> bool;

    fn to_variant(&self) -> (r: Variant)
        ensures
            val_ty(r@) == Self::static_ty(),
            self.encodes(r@);
}

/// A native type whose values can be read from variants of its type.
pub trait FromVariant: Sized + StaticVariantType {
    /// `x` is what is read from `v`.
    spec fn decodes(v: Val, x: Self) -> bool;

    /// Reads a value; `None` exactly when the variant's type is not the
    /// type of `Self`.
    fn from_variant(variant: &Variant) -> (r: Option<Self>)
        ensures
            r is Some <==> val_ty(variant@) == Self::static_ty(),
            r matches Some(x) ==> Self::decodes(variant@, x);
}

/// The element types whose arrays have a contiguous fixed-size layout.
pub trait FixedSizeVariantType: StaticVariantType + FromVariant {
}

impl StaticVariantType for u8 {
    open spec fn static_ty() -> Ty {
        Ty::Byte
    }

    fn static_variant_type() -> (r: VariantType) {
        VariantType::Byte
    }
}

impl ToVariant for u8 {
    open spec fn encodes(&self, v: Val) -> bool {
        v == Val::Byte(*self)
    }

    fn to_variant(&self) -> (r: Variant) {
        Variant::new_byte(*self)
    }
}

impl FromVariant for u8 {
    open spec fn decodes(v: Val, x: Self) -> bool {
        v == Val::Byte(x)
    }

    fn from_variant(variant: &Variant) -> (r: Option<Self>) {
        variant.get_byte()
    }
}

impl FixedSizeVariantType for u8 {
}

impl StaticVariantType for i16 {
    open spec fn static_ty() -> Ty {
        Ty::Int16
    }

    fn static_variant_type() -> (r: VariantType) {
        VariantType::Int16
    }
}

impl ToVariant for i16 {
    open spec fn encodes(&self, v: Val) -> bool {
        v == Val::Int16(*self)
    }

    fn to_variant(&self) -> (r: Variant) {
        Variant::new_int16(*self)
    }
}

impl FromVariant for i16 {
    open spec fn decodes(v: Val, x: Self) -> bool {
        v == Val::Int16(x)
    }

    fn from_variant(variant: &Variant) -> (r: Option<Self>) {
        variant.get_int16()
    }
}

impl FixedSizeVariantType for i16 {
}

impl StaticVariantType for u16 {
    open spec fn static_ty() -> Ty {
        Ty::UInt16
    }

    fn static_variant_type() -> (r: VariantType) {
        VariantType::UInt16
    }
}

impl ToVariant for u16 {
    open spec fn encodes(&self, v: Val) -> bool {
        v == Val::UInt16(*self)
    }

    fn to_variant(&self) -> (r: Variant) {
        Variant::new_uint16(*self)
    }
}

impl FromVariant for u16 {
    open spec fn decodes(v: Val, x: Self) -> bool {
        v == Val::UInt16(x)
    }

    fn from_variant(variant: &Variant) -> (r: Option<Self>) {
        variant.get_uint16()
    }
}

impl FixedSizeVariantType for u16 {
}

impl StaticVariantType for i32 {
    open spec fn static_ty() -> Ty {
        Ty::Int32
    }

    fn static_variant_type() -> (r: VariantType) {
        VariantType::Int32
    }
}

impl ToVariant for i32 {
    open spec fn encodes(&self, v: Val) -> bool {
        v == Val::Int32(*self)
    }

    fn to_variant(&self) -> (r: Variant) {
        Variant::new_int32(*self)
    }
}

impl FromVariant for i32 {
    open spec fn decodes(v: Val, x: Self) -> bool {
        v == Val::Int32(x)
    }

    fn from_variant(variant: &Variant) -> (r: Option<Self>) {
        variant.get_int32()
    }
}

impl FixedSizeVariantType for i32 {
}

impl StaticVariantType for u32 {
    open spec fn static_ty() -> Ty {
        Ty::UInt32
    }

    fn static_variant_type() -> (r: VariantType) {
        VariantType::UInt32
    }
}

impl ToVariant for u32 {
    open spec fn encodes(&self, v: Val) -> bool {
        v == Val::UInt32(*self)
    }

    fn to_variant(&self) -> (r: Variant) {
        Variant::new_uint32(*self)
    }
}

impl FromVariant for u32 {
    open spec fn decodes(v: Val, x: Self) -> bool {
        v == Val::UInt32(x)
    }

    fn from_variant(variant: &Variant) -> (r: Option<Self>) {
        variant.get_uint32()
    }
}

impl FixedSizeVariantType for u32 {
}

impl StaticVariantType for i64 {
    open spec fn static_ty() -> Ty {
        Ty::Int64
    }

    fn static_variant_type() -> (r: VariantType) {
        VariantType::Int64
    }
}

impl ToVariant for i64 {
    open spec fn encodes(&self, v: Val) -> bool {
        v == Val::Int64(*self)
    }

    fn to_variant(&self) -> (r: Variant) {
        Variant::new_int64(*self)
    }
}

impl FromVariant for i64 {
    open spec fn decodes(v: Val, x: Self) -> bool {
        v == Val::Int64(x)
    }

    fn from_variant(variant: &Variant) -> (r: Option<Self>) {
        variant.get_int64()
    }
}

impl FixedSizeVariantType for i64 {
}

impl StaticVariantType for u64 {
    open spec fn static_ty() -> Ty {
        Ty::UInt64
    }

    fn static_variant_type() -> (r: VariantType) {
        VariantType::UInt64
    }
}

impl ToVariant for u64 {
    open spec fn encodes(&self, v: Val) -> bool {
        v == Val::UInt64(*self)
    }

    fn to_variant(&self) -> (r: Variant) {
        Variant::new_uint64(*self)
    }
}

impl FromVariant for u64 {
    open spec fn decodes(v: Val, x: Self) -> bool {
        v == Val::UInt64(x)
    }

    fn from_variant(variant: &Variant) -> (r: Option<Self>) {
        variant.get_uint64()
    }
}

impl FixedSizeVariantType for u64 {
}

impl StaticVariantType for bool {
    open spec fn static_ty() -> Ty {
        Ty::Boolean
    }

    fn static_variant_type() -> (r: VariantType) {
        VariantType::Boolean
    }
}

impl ToVariant for bool {
    open spec fn encodes(&self, v: Val) -> bool {
        v == Val::Boolean(*self)
    }

    fn to_variant(&self) -> (r: Variant) {
        Variant::new_boolean(*self)
    }
}

impl FromVariant for bool {
    open spec fn decodes(v: Val, x: Self) -> bool {
        v == Val::Boolean(x)
    }

    fn from_variant(variant: &Variant) -> (r: Option<Self>) {
        variant.get_boolean()
    }
}

impl FixedSizeVariantType for bool {
}

impl StaticVariantType for () {
    open spec fn static_ty() -> Ty {
        Ty::Tuple(Seq::empty())
    }

    fn static_variant_type() -> (r: VariantType) {
        let v: Vec<VariantType> = Vec::new();
        proof { assert(tys_of(v@) =~= Seq::<Ty>::empty()); }
        VariantType::Tuple(v)
    }
}

impl ToVariant for () {
    open spec fn encodes(&self, v: Val) -> bool {
        v == Val::Tuple(Seq::empty())
    }

    fn to_variant(&self) -> (r: Variant) {
        let v: Vec<Variant> = Vec::new();
        proof {
            lemma_vals_of(v@);
            assert(vals_of(v@) =~= Seq::<Val>::empty());
            assert(val_tys(Seq::<Val>::empty()) =~= Seq::<Ty>::empty());
        }
        Variant::new_tuple(v)
    }
}

impl FromVariant for () {
    open spec fn decodes(v: Val, x: Self) -> bool {
        v == Val::Tuple(Seq::empty())
    }

    fn from_variant(variant: &Variant) -> (r: Option<Self>) {
        let t = variant.type_();
        let u = <()>::static_variant_type();
        if t.equals(&u) {
            proof {
                if let Val::Tuple(xs) = variant@ {
                    lemma_val_tys(xs);
                    assert(xs =~= Seq::<Val>::empty());
                }
            }
            Some(())
        } else {
            None
        }
    }
}

impl StaticVariantType for String {
    open spec fn static_ty() -> Ty {
        Ty::Str
    }

    fn static_variant_type() -> (r: VariantType) {
        VariantType::Str
    }
}

impl ToVariant for String {
    /// A string value holds the text before the first nul.
    open spec fn encodes(&self, v: Val) -> bool {
        v == Val::Str(cut_nul(self@))
    }

    fn to_variant(&self) -> (r: Variant) {
        self.as_str().to_variant()
    }
}

impl FromVariant for String {
    open spec fn decodes(v: Val, x: Self) -> bool {
        v == Val::Str(x@)
    }

    fn from_variant(variant: &Variant) -> (r: Option<Self>) {
        if variant.classify() == crate::value::VariantClass::String {
            match variant.str() {
                Some(s) => Some(String::from_str(s)),
                None => None,
            }
        } else {
            None
        }
    }
}

impl StaticVariantType for str {
    open spec fn static_ty() -> Ty {
        Ty::Str
    }

    fn static_variant_type() -> (r: VariantType) {
        VariantType::Str
    }
}

impl ToVariant for str {
    /// A string value holds the text before the first nul.
    open spec fn encodes(&self, v: Val) -> bool {
        v == Val::Str(cut_nul(self@))
    }

    fn to_variant(&self) -> (r: Variant) {
        let t = text_before_nul(self);
        proof { lemma_first_nul(self@); }
        Variant::new_string(t.as_str())
    }
}

impl<'a, T: ?Sized + StaticVariantType> StaticVariantType for &'a T {
    open spec fn static_ty() -> Ty {
        T::static_ty()
    }

    fn static_variant_type() -> (r: VariantType) {
        T::static_variant_type()
    }
}

impl<'a, T: ?Sized + ToVariant> ToVariant for &'a T {
    open spec fn encodes(&self, v: Val) -> bool {
        (**self).encodes(v)
    }

    fn to_variant(&self) -> (r: Variant) {
        (**self).to_variant()
    }
}

impl StaticVariantType for Variant {
    open spec fn static_ty() -> Ty {
        Ty::Variant
    }

    fn static_variant_type() -> (r: VariantType) {
        VariantType::Variant
    }
}

impl ToVariant for Variant {
    open spec fn encodes(&self, v: Val) -> bool {
        v == Val::Boxed(Box::new(self@))
    }

    fn to_variant(&self) -> (r: Variant) {
        Variant::from_variant(self)
    }
}

impl FromVariant for Variant {
    open spec fn decodes(v: Val, x: Self) -> bool {
        v == Val::Boxed(Box::new(x@))
    }

    fn from_variant(variant: &Variant) -> (r: Option<Self>) {
        variant.as_variant()
    }
}


impl Variant {
    /// True when this value has the type of `T`.
    pub fn is<T: StaticVariantType>(&self) -> (r: bool)
        ensures
            r == (val_ty(self@) == T::static_ty()),
    {
        self.type_().equals(&T::static_variant_type())
    }

    /// Reads a `T`; `None` when the types differ.
    pub fn get<T: FromVariant>(&self) -> (r: Option<T>)
        ensures
            r is Some <==> val_ty(self@) == T::static_ty(),
            r matches Some(x) ==> T::decodes(self@, x),
    {
        T::from_variant(self)
    }

    /// Reads a `T`, or says which types differ.
    pub fn try_get<T: FromVariant>(&self) -> (r: Result<T, VariantTypeMismatchError>)
        ensures
            r is Ok <==> val_ty(self@) == T::static_ty(),
            r matches Ok(x) ==> T::decodes(self@, x),
            r matches Err(e) ==> e.actual@ == val_ty(self@) && e.expected@ == T::static_ty(),
    {
        match T::from_variant(self) {
            Some(x) => Ok(x),
            None => Err(VariantTypeMismatchError::new(self.type_(), T::static_variant_type())),
        }
    }

    /// Reads the child at `index` as a `T`: `Ok(None)` when there is no
    /// such child, an error when its type is not that of `T`.
    pub fn try_child_get<T: StaticVariantType + FromVariant>(&self, index: usize) -> (r: Result<Option<T>, VariantTypeMismatchError>)
        ensures
            r matches Ok(None) <==> index >= children(self@).len(),
            r matches Ok(Some(x)) ==> index < children(self@).len() && T::decodes(children(self@)[index as int], x),
            r is Err <==> index < children(self@).len() && val_ty(children(self@)[index as int]) != T::static_ty(),
            r matches Err(e) ==> e.actual@ == val_ty(children(self@)[index as int]) && e.expected@ == T::static_ty(),
    {
        match self.try_child_value(index) {
            None => Ok(None),
            Some(c) => match c.try_get::<T>() {
                Ok(x) => Ok(Some(x)),
                Err(e) => Err(e),
            },
        }
    }

    /// Reads the child at `index` of a container as a `T`.
    pub fn child_get<T: StaticVariantType + FromVariant>(&self, index: usize) -> (r: T)
        requires
            is_container_val(self@),
            index < children(self@).len(),
            val_ty(children(self@)[index as int]) == T::static_ty(),
        ensures
            T::decodes(children(self@)[index as int], r),
    {
        self.child_value(index).get::<T>().unwrap()
    }

    /// The elements of an array of `T`, read as native values.
    pub fn fixed_array<T: FixedSizeVariantType>(&self) -> (r: Result<Vec<T>, VariantTypeMismatchError>)
        ensures
            r is Ok <==> val_ty(self@) == Ty::Array(Box::new(T::static_ty())),
            r matches Ok(xs) ==> xs.len() == children(self@).len()
                && forall|i: int| 0 <= i < xs.len() ==> T::decodes(children(self@)[i], #[trigger] xs@[i]),
            r matches Err(e) ==> e.actual@ == val_ty(self@) && e.expected@ == Ty::Array(Box::new(T::static_ty())),
    {
        let expected = T::static_variant_type().as_array();
        let actual = self.type_();
        if !actual.equals(&expected) {
            return Err(VariantTypeMismatchError::new(actual, expected));
        }
        Ok(read_elements::<T>(self))
    }

    /// An array of `children`, each of the type of `T`.
    pub fn array_from_iter<T: StaticVariantType>(children: Vec<Variant>) -> (r: Variant)
        requires
            forall|i: int| 0 <= i < children.len() ==> val_ty(#[trigger] children@[i]@) == T::static_ty(),
        ensures
            r@ == Val::Array(T::static_ty(), vals_of(children@)),
    {
        Variant::new_array(&T::static_variant_type(), children)
    }

    /// A tuple of `children`, in order.
    pub fn tuple_from_iter(children: Vec<Variant>) -> (r: Variant)
        ensures
            r@ == Val::Tuple(vals_of(children@)),
    {
        Variant::new_tuple(children)
    }

    /// A maybe over the type of `T`, holding a copy of `child` if any.
    pub fn from_maybe<T: StaticVariantType>(child: Option<&Variant>) -> (r: Variant)
        requires
            child matches Some(c) ==> val_ty(c@) == T::static_ty(),
        ensures
            r@ == Val::Maybe(T::static_ty(), match child {
                Some(c) => Some(Box::new(c@)),
                None => None,
            }),
    {
        let t = T::static_variant_type();
        match child {
            Some(c) => Variant::new_maybe(&t, Some(c.dup())),
            None => Variant::new_maybe(&t, None),
        }
    }

    /// Reads a value of the type of `T` from its canonical serialized form;
    /// other bytes give that type's default value.
    pub fn from_bytes<T: StaticVariantType>(bytes: &[u8]) -> (r: Variant)
        ensures
            r@ == crate::decode::read_checked(T::static_ty(), bytes@),
    {
        Variant::from_bytes_with_type(bytes, &T::static_variant_type())
    }

    /// As `from_bytes`, without the check that the bytes are canonical.
    pub fn from_bytes_trusted<T: StaticVariantType>(bytes: &[u8]) -> (r: Variant)
        ensures
            r@ == crate::decode::read_unchecked(T::static_ty(), bytes@),
    {
        Variant::from_bytes_with_type_trusted(bytes, &T::static_variant_type())
    }

    /// As `from_bytes`.
    pub fn from_data<T: StaticVariantType>(data: &[u8]) -> (r: Variant)
        ensures
            r@ == crate::decode::read_checked(T::static_ty(), data@),
    {
        Variant::from_bytes_with_type(data, &T::static_variant_type())
    }

    /// As `from_bytes_trusted`.
    pub fn from_data_trusted<T: StaticVariantType>(data: &[u8]) -> (r: Variant)
        ensures
            r@ == crate::decode::read_unchecked(T::static_ty(), data@),
    {
        Variant::from_bytes_with_type_trusted(data, &T::static_variant_type())
    }

    /// The strings of an array of strings (type `as`).
    pub fn array_iter_str(&self) -> (r: Result<Vec<String>, VariantTypeMismatchError>)
        ensures
            r is Ok <==> val_ty(self@) == Ty::Array(Box::new(Ty::Str)),
            r matches Ok(xs) ==> xs.len() == children(self@).len()
                && forall|i: int| 0 <= i < xs.len() ==> children(self@)[i] == Val::Str(#[trigger] xs@[i]@),
            r matches Err(e) ==> e.actual@ == val_ty(self@) && e.expected@ == Ty::Array(Box::new(Ty::Str)),
    {
        let expected = String::static_variant_type().as_array();
        let actual = self.type_();
        if !actual.equals(&expected) {
            return Err(VariantTypeMismatchError::new(actual, expected));
        }
        Ok(read_elements::<String>(self))
    }
}

/// Reads every element of an array of `T`.
fn read_elements<T: FromVariant>(v: &Variant) -> (r: Vec<T>)
    requires
        val_ty(v@) == Ty::Array(Box::new(T::static_ty())),
    ensures
        r.len() == children(v@).len(),
        forall|i: int| 0 <= i < r.len() ==> T::decodes(children(v@)[i], #[trigger] r@[i]),
{
    proof { use_type_invariant(v); }
    let n = v.n_children();
    let mut out: Vec<T> = Vec::new();
    let mut i: usize = 0;
    while i < n
        invariant
            val_ty(v@) == Ty::Array(Box::new(T::static_ty())),
            well_formed(v@),
            n == children(v@).len(),
            i <= n,
            out.len() == i,
            forall|j: int| 0 <= j < i ==> T::decodes(children(v@)[j], #[trigger] out@[j]),
        decreases n - i,
    {
        let c = v.child_value(i);
        let x = T::from_variant(&c).unwrap();
        out.push(x);
        i = i + 1;
    }
    out
}

impl<T: StaticVariantType> StaticVariantType for Option<T> {
    open spec fn static_ty() -> Ty {
        Ty::Maybe(Box::new(T::static_ty()))
    }

    fn static_variant_type() -> (r: VariantType) {
        VariantType::new_maybe(&T::static_variant_type())
    }
}

impl<T: StaticVariantType + ToVariant> ToVariant for Option<T> {
    open spec fn encodes(&self, v: Val) -> bool {
        match self {
            None => v == Val::Maybe(T::static_ty(), None),
            Some(x) => v matches Val::Maybe(e, Some(c)) && e == T::static_ty() && x.encodes(*c),
        }
    }

    fn to_variant(&self) -> (r: Variant) {
        let t = T::static_variant_type();
        match self {
            Some(x) => Variant::new_maybe(&t, Some(x.to_variant())),
            None => Variant::new_maybe(&t, None),
        }
    }
}

impl<T: StaticVariantType + FromVariant> FromVariant for Option<T> {
    open spec fn decodes(v: Val, x: Self) -> bool {
        match x {
            None => v matches Val::Maybe(_, None),
            Some(y) => v matches Val::Maybe(_, Some(c)) && T::decodes(*c, y),
        }
    }

    fn from_variant(variant: &Variant) -> (r: Option<Self>) {
        if !variant.is::<Self>() {
            return None;
        }
        proof { use_type_invariant(variant); }
        if variant.n_children() == 0 {
            Some(None)
        } else {
            let c = variant.child_value(0);
            match T::from_variant(&c) {
                Some(y) => Some(Some(y)),
                None => None,
            }
        }
    }
}

impl<T: StaticVariantType> StaticVariantType for [T] {
    open spec fn static_ty() -> Ty {
        Ty::Array(Box::new(T::static_ty()))
    }

    fn static_variant_type() -> (r: VariantType) {
        T::static_variant_type().as_array()
    }
}

/// The variant forms of `xs`, one by one, in order.
pub open spec fn encodes_all<T: ToVariant>(xs: Seq<T>, cs: Seq<Val>) -> bool {
    xs.len() == cs.len() && forall|i: int| 0 <= i < xs.len() ==> #[trigger] xs[i].encodes(cs[i])
}

impl<T: StaticVariantType + ToVariant> ToVariant for [T] {
    open spec fn encodes(&self, v: Val) -> bool {
        v matches Val::Array(e, cs) && e == T::static_ty() && encodes_all(self@, cs)
    }

    fn to_variant(&self) -> (r: Variant) {
        let mut cs: Vec<Variant> = Vec::new();
        let mut i: usize = 0;
        while i < self.len()
            invariant
                i <= self@.len(),
                cs.len() == i,
                forall|j: int| 0 <= j < i ==> val_ty(#[trigger] cs@[j]@) == T::static_ty() && self@[j].encodes(cs@[j]@),
            decreases self@.len() - i,
        {
            let c = self[i].to_variant();
            cs.push(c);
            i = i + 1;
        }
        proof { lemma_vals_of(cs@); }
        Variant::new_array(&T::static_variant_type(), cs)
    }
}

impl<T: StaticVariantType> StaticVariantType for Vec<T> {
    open spec fn static_ty() -> Ty {
        Ty::Array(Box::new(T::static_ty()))
    }

    fn static_variant_type() -> (r: VariantType) {
        T::static_variant_type().as_array()
    }
}

impl<T: StaticVariantType + ToVariant> ToVariant for Vec<T> {
    open spec fn encodes(&self, v: Val) -> bool {
        v matches Val::Array(e, cs) && e == T::static_ty() && encodes_all(self@, cs)
    }

    fn to_variant(&self) -> (r: Variant) {
        self.as_slice().to_variant()
    }
}

impl<T: FromVariant> FromVariant for Vec<T> {
    open spec fn decodes(v: Val, x: Self) -> bool {
        v matches Val::Array(_, cs) && cs.len() == x@.len()
            && forall|i: int| 0 <= i < cs.len() ==> T::decodes(cs[i], #[trigger] x@[i])
    }

    fn from_variant(variant: &Variant) -> (r: Option<Self>) {
        if !variant.is::<Self>() {
            return None;
        }
        Some(read_elements::<T>(variant))
    }
}

/// A key and a value: one entry of a dictionary.
pub struct DictEntry<K, V> {
    key: K,
    value: V,
}

impl<K, V> DictEntry<K, V> {
    pub closed spec fn spec_key(&self) -> K {
        self.key
    }

    pub closed spec fn spec_value(&self) -> V {
        self.value
    }
}

impl<K: StaticVariantType + ToVariant, V: StaticVariantType + ToVariant> DictEntry<K, V> {
    pub fn new(key: K, value: V) -> (r: Self)
        ensures
            r.spec_key() == key,
            r.spec_value() == value,
    {
        Self { key, value }
    }

    pub fn key(&self) -> (r: &K)
        ensures
            *r == self.spec_key(),
    {
        &self.key
    }

    pub fn value(&self) -> (r: &V)
        ensures
            *r == self.spec_value(),
    {
        &self.value
    }
}

impl<K: StaticVariantType, V: StaticVariantType> StaticVariantType for DictEntry<K, V> {
    open spec fn static_ty() -> Ty {
        Ty::DictEntry(Box::new(K::static_ty()), Box::new(V::static_ty()))
    }

    fn static_variant_type() -> (r: VariantType) {
        VariantType::new_dict_entry(&K::static_variant_type(), &V::static_variant_type())
    }
}

impl<K: StaticVariantType + ToVariant, V: StaticVariantType + ToVariant> ToVariant for DictEntry<K, V> {
    open spec fn encodes(&self, v: Val) -> bool {
        v matches Val::DictEntry(k, x) && self.spec_key().encodes(*k) && self.spec_value().encodes(*x)
    }

    fn to_variant(&self) -> (r: Variant) {
        Variant::new_dict_entry(self.key.to_variant(), self.value.to_variant())
    }
}

impl<K: FromVariant, V: FromVariant> FromVariant for DictEntry<K, V> {
    open spec fn decodes(v: Val, x: Self) -> bool {
        v matches Val::DictEntry(k, y) && K::decodes(*k, x.spec_key()) && V::decodes(*y, x.spec_value())
    }

    fn from_variant(variant: &Variant) -> (r: Option<Self>) {
        if !variant.is::<Self>() {
            return None;
        }
        let k = variant.child_value(0);
        let x = variant.child_value(1);
        match (K::from_variant(&k), V::from_variant(&x)) {
            (Some(key), Some(value)) => Some(DictEntry { key, value }),
            _ => None,
        }
    }
}


impl<T0: StaticVariantType> StaticVariantType for (T0,) {
    open spec fn static_ty() -> Ty {
        Ty::Tuple(seq![T0::static_ty()])
    }

    fn static_variant_type() -> (r: VariantType) {
        let mut ts: Vec<VariantType> = Vec::new();
        ts.push(T0::static_variant_type());
        proof {
            lemma_tys_of(ts@);
            assert(tys_of(ts@) =~= seq![T0::static_ty()]);
        }
        VariantType::Tuple(ts)
    }
}

impl<T0: ToVariant> ToVariant for (T0,) {
    open spec fn encodes(&self, v: Val) -> bool {
        v matches Val::Tuple(cs) && cs.len() == 1 && self.0.encodes(cs[0])
    }

    fn to_variant(&self) -> (r: Variant) {
        let mut cs: Vec<Variant> = Vec::new();
        cs.push(self.0.to_variant());
        proof {
            lemma_vals_of(cs@);
            lemma_val_tys(vals_of(cs@));
            assert(val_tys(vals_of(cs@)) =~= seq![T0::static_ty()]);
        }
        Variant::new_tuple(cs)
    }
}

impl<T0: FromVariant> FromVariant for (T0,) {
    open spec fn decodes(v: Val, x: Self) -> bool {
        v matches Val::Tuple(cs) && cs.len() == 1 && T0::decodes(cs[0], x.0)
    }

    fn from_variant(variant: &Variant) -> (r: Option<Self>) {
        if !variant.is::<Self>() {
            return None;
        }
        proof {
            if let Val::Tuple(cs) = variant@ {
                lemma_val_tys(cs);
                assert(val_tys(cs)[0] == val_ty(cs[0]));
            }
        }
        let x0 = match T0::from_variant(&variant.child_value(0)) {
            Some(x) => x,
            None => return None,
        };
        Some((x0,))
    }
}

impl<T0: StaticVariantType, T1: StaticVariantType> StaticVariantType for (T0, T1,) {
    open spec fn static_ty() -> Ty {
        Ty::Tuple(seq![T0::static_ty(), T1::static_ty()])
    }

    fn static_variant_type() -> (r: VariantType) {
        let mut ts: Vec<VariantType> = Vec::new();
        ts.push(T0::static_variant_type());
        ts.push(T1::static_variant_type());
        proof {
            lemma_tys_of(ts@);
            assert(tys_of(ts@) =~= seq![T0::static_ty(), T1::static_ty()]);
        }
        VariantType::Tuple(ts)
    }
}

impl<T0: ToVariant, T1: ToVariant> ToVariant for (T0, T1,) {
    open spec fn encodes(&self, v: Val) -> bool {
        v matches Val::Tuple(cs) && cs.len() == 2 && self.0.encodes(cs[0]) && self.1.encodes(cs[1])
    }

    fn to_variant(&self) -> (r: Variant) {
        let mut cs: Vec<Variant> = Vec::new();
        cs.push(self.0.to_variant());
        cs.push(self.1.to_variant());
        proof {
            lemma_vals_of(cs@);
            lemma_val_tys(vals_of(cs@));
            assert(val_tys(vals_of(cs@)) =~= seq![T0::static_ty(), T1::static_ty()]);
        }
        Variant::new_tuple(cs)
    }
}

impl<T0: FromVariant, T1: FromVariant> FromVariant for (T0, T1,) {
    open spec fn decodes(v: Val, x: Self) -> bool {
        v matches Val::Tuple(cs) && cs.len() == 2 && T0::decodes(cs[0], x.0) && T1::decodes(cs[1], x.1)
    }

    fn from_variant(variant: &Variant) -> (r: Option<Self>) {
        if !variant.is::<Self>() {
            return None;
        }
        proof {
            if let Val::Tuple(cs) = variant@ {
                lemma_val_tys(cs);
                assert(val_tys(cs)[0] == val_ty(cs[0]));
                assert(val_tys(cs)[1] == val_ty(cs[1]));
            }
        }
        let x0 = match T0::from_variant(&variant.child_value(0)) {
            Some(x) => x,
            None => return None,
        };
        let x1 = match T1::from_variant(&variant.child_value(1)) {
            Some(x) => x,
            None => return None,
        };
        Some((x0, x1,))
    }
}

impl<T0: StaticVariantType, T1: StaticVariantType, T2: StaticVariantType> StaticVariantType for (T0, T1, T2,) {
    open spec fn static_ty() -> Ty {
        Ty::Tuple(seq![T0::static_ty(), T1::static_ty(), T2::static_ty()])
    }

    fn static_variant_type() -> (r: VariantType) {
        let mut ts: Vec<VariantType> = Vec::new();
        ts.push(T0::static_variant_type());
        ts.push(T1::static_variant_type());
        ts.push(T2::static_variant_type());
        proof {
            lemma_tys_of(ts@);
            assert(tys_of(ts@) =~= seq![T0::static_ty(), T1::static_ty(), T2::static_ty()]);
        }
        VariantType::Tuple(ts)
    }
}

impl<T0: ToVariant, T1: ToVariant, T2: ToVariant> ToVariant for (T0, T1, T2,) {
    open spec fn encodes(&self, v: Val) -> bool {
        v matches Val::Tuple(cs) && cs.len() == 3 && self.0.encodes(cs[0]) && self.1.encodes(cs[1]) && self.2.encodes(cs[2])
    }

    fn to_variant(&self) -> (r: Variant) {
        let mut cs: Vec<Variant> = Vec::new();
        cs.push(self.0.to_variant());
        cs.push(self.1.to_variant());
        cs.push(self.2.to_variant());
        proof {
            lemma_vals_of(cs@);
            lemma_val_tys(vals_of(cs@));
            assert(val_tys(vals_of(cs@)) =~= seq![T0::static_ty(), T1::static_ty(), T2::static_ty()]);
        }
        Variant::new_tuple(cs)
    }
}

impl<T0: FromVariant, T1: FromVariant, T2: FromVariant> FromVariant for (T0, T1, T2,) {
    open spec fn decodes(v: Val, x: Self) -> bool {
        v matches Val::Tuple(cs) && cs.len() == 3 && T0::decodes(cs[0], x.0) && T1::decodes(cs[1], x.1) && T2::decodes(cs[2], x.2)
    }

    fn from_variant(variant: &Variant) -> (r: Option<Self>) {
        if !variant.is::<Self>() {
            return None;
        }
        proof {
            if let Val::Tuple(cs) = variant@ {
                lemma_val_tys(cs);
                assert(val_tys(cs)[0] == val_ty(cs[0]));
                assert(val_tys(cs)[1] == val_ty(cs[1]));
                assert(val_tys(cs)[2] == val_ty(cs[2]));
            }
        }
        let x0 = match T0::from_variant(&variant.child_value(0)) {
            Some(x) => x,
            None => return None,
        };
        let x1 = match T1::from_variant(&variant.child_value(1)) {
            Some(x) => x,
            None => return None,
        };
        let x2 = match T2::from_variant(&variant.child_value(2)) {
            Some(x) => x,
            None => return None,
        };
        Some((x0, x1, x2,))
    }
}

impl<T0: StaticVariantType, T1: StaticVariantType, T2: StaticVariantType, T3: StaticVariantType> StaticVariantType for (T0, T1, T2, T3,) {
    open spec fn static_ty() -> Ty {
        Ty::Tuple(seq![T0::static_ty(), T1::static_ty(), T2::static_ty(), T3::static_ty()])
    }

    fn static_variant_type() -> (r: VariantType) {
        let mut ts: Vec<VariantType> = Vec::new();
        ts.push(T0::static_variant_type());
        ts.push(T1::static_variant_type());
        ts.push(T2::static_variant_type());
        ts.push(T3::static_variant_type());
        proof {
            lemma_tys_of(ts@);
            assert(tys_of(ts@) =~= seq![T0::static_ty(), T1::static_ty(), T2::static_ty(), T3::static_ty()]);
        }
        VariantType::Tuple(ts)
    }
}

impl<T0: ToVariant, T1: ToVariant, T2: ToVariant, T3: ToVariant> ToVariant for (T0, T1, T2, T3,) {
    open spec fn encodes(&self, v: Val) -> bool {
        v matches Val::Tuple(cs) && cs.len() == 4 && self.0.encodes(cs[0]) && self.1.encodes(cs[1]) && self.2.encodes(cs[2]) && self.3.encodes(cs[3])
    }

    fn to_variant(&self) -> (r: Variant) {
        let mut cs: Vec<Variant> = Vec::new();
        cs.push(self.0.to_variant());
        cs.push(self.1.to_variant());
        cs.push(self.2.to_variant());
        cs.push(self.3.to_variant());
        proof {
            lemma_vals_of(cs@);
            lemma_val_tys(vals_of(cs@));
            assert(val_tys(vals_of(cs@)) =~= seq![T0::static_ty(), T1::static_ty(), T2::static_ty(), T3::static_ty()]);
        }
        Variant::new_tuple(cs)
    }
}

impl<T0: FromVariant, T1: FromVariant, T2: FromVariant, T3: FromVariant> FromVariant for (T0, T1, T2, T3,) {
    open spec fn decodes(v: Val, x: Self) -> bool {
        v matches Val::Tuple(cs) && cs.len() == 4 && T0::decodes(cs[0], x.0) && T1::decodes(cs[1], x.1) && T2::decodes(cs[2], x.2) && T3::decodes(cs[3], x.3)
    }

    fn from_variant(variant: &Variant) -> (r: Option<Self>) {
        if !variant.is::<Self>() {
            return None;
        }
        proof {
            if let Val::Tuple(cs) = variant@ {
                lemma_val_tys(cs);
                assert(val_tys(cs)[0] == val_ty(cs[0]));
                assert(val_tys(cs)[1] == val_ty(cs[1]));
                assert(val_tys(cs)[2] == val_ty(cs[2]));
                assert(val_tys(cs)[3] == val_ty(cs[3]));
            }
        }
        let x0 = match T0::from_variant(&variant.child_value(0)) {
            Some(x) => x,
            None => return None,
        };
        let x1 = match T1::from_variant(&variant.child_value(1)) {
            Some(x) => x,
            None => return None,
        };
        let x2 = match T2::from_variant(&variant.child_value(2)) {
            Some(x) => x,
            None => return None,
        };
        let x3 = match T3::from_variant(&variant.child_value(3)) {
            Some(x) => x,
            None => return None,
        };
        Some((x0, x1, x2, x3,))
    }
}

impl<T0: StaticVariantType, T1: StaticVariantType, T2: StaticVariantType, T3: StaticVariantType, T4: StaticVariantType> StaticVariantType for (T0, T1, T2, T3, T4,) {
    open spec fn static_ty() -> Ty {
        Ty::Tuple(seq![T0::static_ty(), T1::static_ty(), T2::static_ty(), T3::static_ty(), T4::static_ty()])
    }

    fn static_variant_type() -> (r: VariantType) {
        let mut ts: Vec<VariantType> = Vec::new();
        ts.push(T0::static_variant_type());
        ts.push(T1::static_variant_type());
        ts.push(T2::static_variant_type());
        ts.push(T3::static_variant_type());
        ts.push(T4::static_variant_type());
        proof {
            lemma_tys_of(ts@);
            assert(tys_of(ts@) =~= seq![T0::static_ty(), T1::static_ty(), T2::static_ty(), T3::static_ty(), T4::static_ty()]);
        }
        VariantType::Tuple(ts)
    }
}

impl<T0: ToVariant, T1: ToVariant, T2: ToVariant, T3: ToVariant, T4: ToVariant> ToVariant for (T0, T1, T2, T3, T4,) {
    open spec fn encodes(&self, v: Val) -> bool {
        v matches Val::Tuple(cs) && cs.len() == 5 && self.0.encodes(cs[0]) && self.1.encodes(cs[1]) && self.2.encodes(cs[2]) && self.3.encodes(cs[3]) && self.4.encodes(cs[4])
    }

    fn to_variant(&self) -> (r: Variant) {
        let mut cs: Vec<Variant> = Vec::new();
        cs.push(self.0.to_variant());
        cs.push(self.1.to_variant());
        cs.push(self.2.to_variant());
        cs.push(self.3.to_variant());
        cs.push(self.4.to_variant());
        proof {
            lemma_vals_of(cs@);
            lemma_val_tys(vals_of(cs@));
            assert(val_tys(vals_of(cs@)) =~= seq![T0::static_ty(), T1::static_ty(), T2::static_ty(), T3::static_ty(), T4::static_ty()]);
        }
        Variant::new_tuple(cs)
    }
}

impl<T0: FromVariant, T1: FromVariant, T2: FromVariant, T3: FromVariant, T4: FromVariant> FromVariant for (T0, T1, T2, T3, T4,) {
    open spec fn decodes(v: Val, x: Self) -> bool {
        v matches Val::Tuple(cs) && cs.len() == 5 && T0::decodes(cs[0], x.0) && T1::decodes(cs[1], x.1) && T2::decodes(cs[2], x.2) && T3::decodes(cs[3], x.3) && T4::decodes(cs[4], x.4)
    }

    fn from_variant(variant: &Variant) -> (r: Option<Self>) {
        if !variant.is::<Self>() {
            return None;
        }
        proof {
            if let Val::Tuple(cs) = variant@ {
                lemma_val_tys(cs);
                assert(val_tys(cs)[0] == val_ty(cs[0]));
                assert(val_tys(cs)[1] == val_ty(cs[1]));
                assert(val_tys(cs)[2] == val_ty(cs[2]));
                assert(val_tys(cs)[3] == val_ty(cs[3]));
                assert(val_tys(cs)[4] == val_ty(cs[4]));
            }
        }
        let x0 = match T0::from_variant(&variant.child_value(0)) {
            Some(x) => x,
            None => return None,
        };
        let x1 = match T1::from_variant(&variant.child_value(1)) {
            Some(x) => x,
            None => return None,
        };
        let x2 = match T2::from_variant(&variant.child_value(2)) {
            Some(x) => x,
            None => return None,
        };
        let x3 = match T3::from_variant(&variant.child_value(3)) {
            Some(x) => x,
            None => return None,
        };
        let x4 = match T4::from_variant(&variant.child_value(4)) {
            Some(x) => x,
            None => return None,
        };
        Some((x0, x1, x2, x3, x4,))
    }
}

impl<T0: StaticVariantType, T1: StaticVariantType, T2: StaticVariantType, T3: StaticVariantType, T4: StaticVariantType, T5: StaticVariantType> StaticVariantType for (T0, T1, T2, T3, T4, T5,) {
    open spec fn static_ty() -> Ty {
        Ty::Tuple(seq![T0::static_ty(), T1::static_ty(), T2::static_ty(), T3::static_ty(), T4::static_ty(), T5::static_ty()])
    }

    fn static_variant_type() -> (r: VariantType) {
        let mut ts: Vec<VariantType> = Vec::new();
        ts.push(T0::static_variant_type());
        ts.push(T1::static_variant_type());
        ts.push(T2::static_variant_type());
        ts.push(T3::static_variant_type());
        ts.push(T4::static_variant_type());
        ts.push(T5::static_variant_type());
        proof {
            lemma_tys_of(ts@);
            assert(tys_of(ts@) =~= seq![T0::static_ty(), T1::static_ty(), T2::static_ty(), T3::static_ty(), T4::static_ty(), T5::static_ty()]);
        }
        VariantType::Tuple(ts)
    }
}

impl<T0: ToVariant, T1: ToVariant, T2: ToVariant, T3: ToVariant, T4: ToVariant, T5: ToVariant> ToVariant for (T0, T1, T2, T3, T4, T5,) {
    open spec fn encodes(&self, v: Val) -> bool {
        v matches Val::Tuple(cs) && cs.len() == 6 && self.0.encodes(cs[0]) && self.1.encodes(cs[1]) && self.2.encodes(cs[2]) && self.3.encodes(cs[3]) && self.4.encodes(cs[4]) && self.5.encodes(cs[5])
    }

    fn to_variant(&self) -> (r: Variant) {
        let mut cs: Vec<Variant> = Vec::new();
        cs.push(self.0.to_variant());
        cs.push(self.1.to_variant());
        cs.push(self.2.to_variant());
        cs.push(self.3.to_variant());
        cs.push(self.4.to_variant());
        cs.push(self.5.to_variant());
        proof {
            lemma_vals_of(cs@);
            lemma_val_tys(vals_of(cs@));
            assert(val_tys(vals_of(cs@)) =~= seq![T0::static_ty(), T1::static_ty(), T2::static_ty(), T3::static_ty(), T4::static_ty(), T5::static_ty()]);
        }
        Variant::new_tuple(cs)
    }
}

impl<T0: FromVariant, T1: FromVariant, T2: FromVariant, T3: FromVariant, T4: FromVariant, T5: FromVariant> FromVariant for (T0, T1, T2, T3, T4, T5,) {
    open spec fn decodes(v: Val, x: Self) -> bool {
        v matches Val::Tuple(cs) && cs.len() == 6 && T0::decodes(cs[0], x.0) && T1::decodes(cs[1], x.1) && T2::decodes(cs[2], x.2) && T3::decodes(cs[3], x.3) && T4::decodes(cs[4], x.4) && T5::decodes(cs[5], x.5)
    }

    fn from_variant(variant: &Variant) -> (r: Option<Self>) {
        if !variant.is::<Self>() {
            return None;
        }
        proof {
            if let Val::Tuple(cs) = variant@ {
                lemma_val_tys(cs);
                assert(val_tys(cs)[0] == val_ty(cs[0]));
                assert(val_tys(cs)[1] == val_ty(cs[1]));
                assert(val_tys(cs)[2] == val_ty(cs[2]));
                assert(val_tys(cs)[3] == val_ty(cs[3]));
                assert(val_tys(cs)[4] == val_ty(cs[4]));
                assert(val_tys(cs)[5] == val_ty(cs[5]));
            }
        }
        let x0 = match T0::from_variant(&variant.child_value(0)) {
            Some(x) => x,
            None => return None,
        };
        let x1 = match T1::from_variant(&variant.child_value(1)) {
            Some(x) => x,
            None => return None,
        };
        let x2 = match T2::from_variant(&variant.child_value(2)) {
            Some(x) => x,
            None => return None,
        };
        let x3 = match T3::from_variant(&variant.child_value(3)) {
            Some(x) => x,
            None => return None,
        };
        let x4 = match T4::from_variant(&variant.child_value(4)) {
            Some(x) => x,
            None => return None,
        };
        let x5 = match T5::from_variant(&variant.child_value(5)) {
            Some(x) => x,
            None => return None,
        };
        Some((x0, x1, x2, x3, x4, x5,))
    }
}

impl<T0: StaticVariantType, T1: StaticVariantType, T2: StaticVariantType, T3: StaticVariantType, T4: StaticVariantType, T5: StaticVariantType, T6: StaticVariantType> StaticVariantType for (T0, T1, T2, T3, T4, T5, T6,) {
    open spec fn static_ty() -> Ty {
        Ty::Tuple(seq![T0::static_ty(), T1::static_ty(), T2::static_ty(), T3::static_ty(), T4::static_ty(), T5::static_ty(), T6::static_ty()])
    }

    fn static_variant_type() -> (r: VariantType) {
        let mut ts: Vec<VariantType> = Vec::new();
        ts.push(T0::static_variant_type());
        ts.push(T1::static_variant_type());
        ts.push(T2::static_variant_type());
        ts.push(T3::static_variant_type());
        ts.push(T4::static_variant_type());
        ts.push(T5::static_variant_type());
        ts.push(T6::static_variant_type());
        proof {
            lemma_tys_of(ts@);
            assert(tys_of(ts@) =~= seq![T0::static_ty(), T1::static_ty(), T2::static_ty(), T3::static_ty(), T4::static_ty(), T5::static_ty(), T6::static_ty()]);
        }
        VariantType::Tuple(ts)
    }
}

impl<T0: ToVariant, T1: ToVariant, T2: ToVariant, T3: ToVariant, T4: ToVariant, T5: ToVariant, T6: ToVariant> ToVariant for (T0, T1, T2, T3, T4, T5, T6,) {
    open spec fn encodes(&self, v: Val) -> bool {
        v matches Val::Tuple(cs) && cs.len() == 7 && self.0.encodes(cs[0]) && self.1.encodes(cs[1]) && self.2.encodes(cs[2]) && self.3.encodes(cs[3]) && self.4.encodes(cs[4]) && self.5.encodes(cs[5]) && self.6.encodes(cs[6])
    }

    fn to_variant(&self) -> (r: Variant) {
        let mut cs: Vec<Variant> = Vec::new();
        cs.push(self.0.to_variant());
        cs.push(self.1.to_variant());
        cs.push(self.2.to_variant());
        cs.push(self.3.to_variant());
        cs.push(self.4.to_variant());
        cs.push(self.5.to_variant());
        cs.push(self.6.to_variant());
        proof {
            lemma_vals_of(cs@);
            lemma_val_tys(vals_of(cs@));
            assert(val_tys(vals_of(cs@)) =~= seq![T0::static_ty(), T1::static_ty(), T2::static_ty(), T3::static_ty(), T4::static_ty(), T5::static_ty(), T6::static_ty()]);
        }
        Variant::new_tuple(cs)
    }
}

impl<T0: FromVariant, T1: FromVariant, T2: FromVariant, T3: FromVariant, T4: FromVariant, T5: FromVariant, T6: FromVariant> FromVariant for (T0, T1, T2, T3, T4, T5, T6,) {
    open spec fn decodes(v: Val, x: Self) -> bool {
        v matches Val::Tuple(cs) && cs.len() == 7 && T0::decodes(cs[0], x.0) && T1::decodes(cs[1], x.1) && T2::decodes(cs[2], x.2) && T3::decodes(cs[3], x.3) && T4::decodes(cs[4], x.4) && T5::decodes(cs[5], x.5) && T6::decodes(cs[6], x.6)
    }

    fn from_variant(variant: &Variant) -> (r: Option<Self>) {
        if !variant.is::<Self>() {
            return None;
        }
        proof {
            if let Val::Tuple(cs) = variant@ {
                lemma_val_tys(cs);
                assert(val_tys(cs)[0] == val_ty(cs[0]));
                assert(val_tys(cs)[1] == val_ty(cs[1]));
                assert(val_tys(cs)[2] == val_ty(cs[2]));
                assert(val_tys(cs)[3] == val_ty(cs[3]));
                assert(val_tys(cs)[4] == val_ty(cs[4]));
                assert(val_tys(cs)[5] == val_ty(cs[5]));
                assert(val_tys(cs)[6] == val_ty(cs[6]));
            }
        }
        let x0 = match T0::from_variant(&variant.child_value(0)) {
            Some(x) => x,
            None => return None,
        };
        let x1 = match T1::from_variant(&variant.child_value(1)) {
            Some(x) => x,
            None => return None,
        };
        let x2 = match T2::from_variant(&variant.child_value(2)) {
            Some(x) => x,
            None => return None,
        };
        let x3 = match T3::from_variant(&variant.child_value(3)) {
            Some(x) => x,
            None => return None,
        };
        let x4 = match T4::from_variant(&variant.child_value(4)) {
            Some(x) => x,
            None => return None,
        };
        let x5 = match T5::from_variant(&variant.child_value(5)) {
            Some(x) => x,
            None => return None,
        };
        let x6 = match T6::from_variant(&variant.child_value(6)) {
            Some(x) => x,
            None => return None,
        };
        Some((x0, x1, x2, x3, x4, x5, x6,))
    }
}

impl<T0: StaticVariantType, T1: StaticVariantType, T2: StaticVariantType, T3: StaticVariantType, T4: StaticVariantType, T5: StaticVariantType, T6: StaticVariantType, T7: StaticVariantType> StaticVariantType for (T0, T1, T2, T3, T4, T5, T6, T7,) {
    open spec fn static_ty() -> Ty {
        Ty::Tuple(seq![T0::static_ty(), T1::static_ty(), T2::static_ty(), T3::static_ty(), T4::static_ty(), T5::static_ty(), T6::static_ty(), T7::static_ty()])
    }

    fn static_variant_type() -> (r: VariantType) {
        let mut ts: Vec<VariantType> = Vec::new();
        ts.push(T0::static_variant_type());
        ts.push(T1::static_variant_type());
        ts.push(T2::static_variant_type());
        ts.push(T3::static_variant_type());
        ts.push(T4::static_variant_type());
        ts.push(T5::static_variant_type());
        ts.push(T6::static_variant_type());
        ts.push(T7::static_variant_type());
        proof {
            lemma_tys_of(ts@);
            assert(tys_of(ts@) =~= seq![T0::static_ty(), T1::static_ty(), T2::static_ty(), T3::static_ty(), T4::static_ty(), T5::static_ty(), T6::static_ty(), T7::static_ty()]);
        }
        VariantType::Tuple(ts)
    }
}

impl<T0: ToVariant, T1: ToVariant, T2: ToVariant, T3: ToVariant, T4: ToVariant, T5: ToVariant, T6: ToVariant, T7: ToVariant> ToVariant for (T0, T1, T2, T3, T4, T5, T6, T7,) {
    open spec fn encodes(&self, v: Val) -> bool {
        v matches Val::Tuple(cs) && cs.len() == 8 && self.0.encodes(cs[0]) && self.1.encodes(cs[1]) && self.2.encodes(cs[2]) && self.3.encodes(cs[3]) && self.4.encodes(cs[4]) && self.5.encodes(cs[5]) && self.6.encodes(cs[6]) && self.7.encodes(cs[7])
    }

    fn to_variant(&self) -> (r: Variant) {
        let mut cs: Vec<Variant> = Vec::new();
        cs.push(self.0.to_variant());
        cs.push(self.1.to_variant());
        cs.push(self.2.to_variant());
        cs.push(self.3.to_variant());
        cs.push(self.4.to_variant());
        cs.push(self.5.to_variant());
        cs.push(self.6.to_variant());
        cs.push(self.7.to_variant());
        proof {
            lemma_vals_of(cs@);
            lemma_val_tys(vals_of(cs@));
            assert(val_tys(vals_of(cs@)) =~= seq![T0::static_ty(), T1::static_ty(), T2::static_ty(), T3::static_ty(), T4::static_ty(), T5::static_ty(), T6::static_ty(), T7::static_ty()]);
        }
        Variant::new_tuple(cs)
    }
}

impl<T0: FromVariant, T1: FromVariant, T2: FromVariant, T3: FromVariant, T4: FromVariant, T5: FromVariant, T6: FromVariant, T7: FromVariant> FromVariant for (T0, T1, T2, T3, T4, T5, T6, T7,) {
    open spec fn decodes(v: Val, x: Self) -> bool {
        v matches Val::Tuple(cs) && cs.len() == 8 && T0::decodes(cs[0], x.0) && T1::decodes(cs[1], x.1) && T2::decodes(cs[2], x.2) && T3::decodes(cs[3], x.3) && T4::decodes(cs[4], x.4) && T5::decodes(cs[5], x.5) && T6::decodes(cs[6], x.6) && T7::decodes(cs[7], x.7)
    }

    fn from_variant(variant: &Variant) -> (r: Option<Self>) {
        if !variant.is::<Self>() {
            return None;
        }
        proof {
            if let Val::Tuple(cs) = variant@ {
                lemma_val_tys(cs);
                assert(val_tys(cs)[0] == val_ty(cs[0]));
                assert(val_tys(cs)[1] == val_ty(cs[1]));
                assert(val_tys(cs)[2] == val_ty(cs[2]));
                assert(val_tys(cs)[3] == val_ty(cs[3]));
                assert(val_tys(cs)[4] == val_ty(cs[4]));
                assert(val_tys(cs)[5] == val_ty(cs[5]));
                assert(val_tys(cs)[6] == val_ty(cs[6]));
                assert(val_tys(cs)[7] == val_ty(cs[7]));
            }
        }
        let x0 = match T0::from_variant(&variant.child_value(0)) {
            Some(x) => x,
            None => return None,
        };
        let x1 = match T1::from_variant(&variant.child_value(1)) {
            Some(x) => x,
            None => return None,
        };
        let x2 = match T2::from_variant(&variant.child_value(2)) {
            Some(x) => x,
            None => return None,
        };
        let x3 = match T3::from_variant(&variant.child_value(3)) {
            Some(x) => x,
            None => return None,
        };
        let x4 = match T4::from_variant(&variant.child_value(4)) {
            Some(x) => x,
            None => return None,
        };
        let x5 = match T5::from_variant(&variant.child_value(5)) {
            Some(x) => x,
            None => return None,
        };
        let x6 = match T6::from_variant(&variant.child_value(6)) {
            Some(x) => x,
            None => return None,
        };
        let x7 = match T7::from_variant(&variant.child_value(7)) {
            Some(x) => x,
            None => return None,
        };
        Some((x0, x1, x2, x3, x4, x5, x6, x7,))
    }
}

impl<T0: StaticVariantType, T1: StaticVariantType, T2: StaticVariantType, T3: StaticVariantType, T4: StaticVariantType, T5: StaticVariantType, T6: StaticVariantType, T7: StaticVariantType, T8: StaticVariantType> StaticVariantType for (T0, T1, T2, T3, T4, T5, T6, T7, T8,) {
    open spec fn static_ty() -> Ty {
        Ty::Tuple(seq![T0::static_ty(), T1::static_ty(), T2::static_ty(), T3::static_ty(), T4::static_ty(), T5::static_ty(), T6::static_ty(), T7::static_ty(), T8::static_ty()])
    }

    fn static_variant_type() -> (r: VariantType) {
        let mut ts: Vec<VariantType> = Vec::new();
        ts.push(T0::static_variant_type());
        ts.push(T1::static_variant_type());
        ts.push(T2::static_variant_type());
        ts.push(T3::static_variant_type());
        ts.push(T4::static_variant_type());
        ts.push(T5::static_variant_type());
        ts.push(T6::static_variant_type());
        ts.push(T7::static_variant_type());
        ts.push(T8::static_variant_type());
        proof {
            lemma_tys_of(ts@);
            assert(tys_of(ts@) =~= seq![T0::static_ty(), T1::static_ty(), T2::static_ty(), T3::static_ty(), T4::static_ty(), T5::static_ty(), T6::static_ty(), T7::static_ty(), T8::static_ty()]);
        }
        VariantType::Tuple(ts)
    }
}

impl<T0: ToVariant, T1: ToVariant, T2: ToVariant, T3: ToVariant, T4: ToVariant, T5: ToVariant, T6: ToVariant, T7: ToVariant, T8: ToVariant> ToVariant for (T0, T1, T2, T3, T4, T5, T6, T7, T8,) {
    open spec fn encodes(&self, v: Val) -> bool {
        v matches Val::Tuple(cs) && cs.len() == 9 && self.0.encodes(cs[0]) && self.1.encodes(cs[1]) && self.2.encodes(cs[2]) && self.3.encodes(cs[3]) && self.4.encodes(cs[4]) && self.5.encodes(cs[5]) && self.6.encodes(cs[6]) && self.7.encodes(cs[7]) && self.8.encodes(cs[8])
    }

    fn to_variant(&self) -> (r: Variant) {
        let mut cs: Vec<Variant> = Vec::new();
        cs.push(self.0.to_variant());
        cs.push(self.1.to_variant());
        cs.push(self.2.to_variant());
        cs.push(self.3.to_variant());
        cs.push(self.4.to_variant());
        cs.push(self.5.to_variant());
        cs.push(self.6.to_variant());
        cs.push(self.7.to_variant());
        cs.push(self.8.to_variant());
        proof {
            lemma_vals_of(cs@);
            lemma_val_tys(vals_of(cs@));
            assert(val_tys(vals_of(cs@)) =~= seq![T0::static_ty(), T1::static_ty(), T2::static_ty(), T3::static_ty(), T4::static_ty(), T5::static_ty(), T6::static_ty(), T7::static_ty(), T8::static_ty()]);
        }
        Variant::new_tuple(cs)
    }
}

impl<T0: FromVariant, T1: FromVariant, T2: FromVariant, T3: FromVariant, T4: FromVariant, T5: FromVariant, T6: FromVariant, T7: FromVariant, T8: FromVariant> FromVariant for (T0, T1, T2, T3, T4, T5, T6, T7, T8,) {
    open spec fn decodes(v: Val, x: Self) -> bool {
        v matches Val::Tuple(cs) && cs.len() == 9 && T0::decodes(cs[0], x.0) && T1::decodes(cs[1], x.1) && T2::decodes(cs[2], x.2) && T3::decodes(cs[3], x.3) && T4::decodes(cs[4], x.4) && T5::decodes(cs[5], x.5) && T6::decodes(cs[6], x.6) && T7::decodes(cs[7], x.7) && T8::decodes(cs[8], x.8)
    }

    fn from_variant(variant: &Variant) -> (r: Option<Self>) {
        if !variant.is::<Self>() {
            return None;
        }
        proof {
            if let Val::Tuple(cs) = variant@ {
                lemma_val_tys(cs);
                assert(val_tys(cs)[0] == val_ty(cs[0]));
                assert(val_tys(cs)[1] == val_ty(cs[1]));
                assert(val_tys(cs)[2] == val_ty(cs[2]));
                assert(val_tys(cs)[3] == val_ty(cs[3]));
                assert(val_tys(cs)[4] == val_ty(cs[4]));
                assert(val_tys(cs)[5] == val_ty(cs[5]));
                assert(val_tys(cs)[6] == val_ty(cs[6]));
                assert(val_tys(cs)[7] == val_ty(cs[7]));
                assert(val_tys(cs)[8] == val_ty(cs[8]));
            }
        }
        let x0 = match T0::from_variant(&variant.child_value(0)) {
            Some(x) => x,
            None => return None,
        };
        let x1 = match T1::from_variant(&variant.child_value(1)) {
            Some(x) => x,
            None => return None,
        };
        let x2 = match T2::from_variant(&variant.child_value(2)) {
            Some(x) => x,
            None => return None,
        };
        let x3 = match T3::from_variant(&variant.child_value(3)) {
            Some(x) => x,
            None => return None,
        };
        let x4 = match T4::from_variant(&variant.child_value(4)) {
            Some(x) => x,
            None => return None,
        };
        let x5 = match T5::from_variant(&variant.child_value(5)) {
            Some(x) => x,
            None => return None,
        };
        let x6 = match T6::from_variant(&variant.child_value(6)) {
            Some(x) => x,
            None => return None,
        };
        let x7 = match T7::from_variant(&variant.child_value(7)) {
            Some(x) => x,
            None => return None,
        };
        let x8 = match T8::from_variant(&variant.child_value(8)) {
            Some(x) => x,
            None => return None,
        };
        Some((x0, x1, x2, x3, x4, x5, x6, x7, x8,))
    }
}

impl<T0: StaticVariantType, T1: StaticVariantType, T2: StaticVariantType, T3: StaticVariantType, T4: StaticVariantType, T5: StaticVariantType, T6: StaticVariantType, T7: StaticVariantType, T8: StaticVariantType, T9: StaticVariantType> StaticVariantType for (T0, T1, T2, T3, T4, T5, T6, T7, T8, T9,) {
    open spec fn static_ty() -> Ty {
        Ty::Tuple(seq![T0::static_ty(), T1::static_ty(), T2::static_ty(), T3::static_ty(), T4::static_ty(), T5::static_ty(), T6::static_ty(), T7::static_ty(), T8::static_ty(), T9::static_ty()])
    }

    fn static_variant_type() -> (r: VariantType) {
        let mut ts: Vec<VariantType> = Vec::new();
        ts.push(T0::static_variant_type());
        ts.push(T1::static_variant_type());
        ts.push(T2::static_variant_type());
        ts.push(T3::static_variant_type());
        ts.push(T4::static_variant_type());
        ts.push(T5::static_variant_type());
        ts.push(T6::static_variant_type());
        ts.push(T7::static_variant_type());
        ts.push(T8::static_variant_type());
        ts.push(T9::static_variant_type());
        proof {
            lemma_tys_of(ts@);
            assert(tys_of(ts@) =~= seq![T0::static_ty(), T1::static_ty(), T2::static_ty(), T3::static_ty(), T4::static_ty(), T5::static_ty(), T6::static_ty(), T7::static_ty(), T8::static_ty(), T9::static_ty()]);
        }
        VariantType::Tuple(ts)
    }
}

impl<T0: ToVariant, T1: ToVariant, T2: ToVariant, T3: ToVariant, T4: ToVariant, T5: ToVariant, T6: ToVariant, T7: ToVariant, T8: ToVariant, T9: ToVariant> ToVariant for (T0, T1, T2, T3, T4, T5, T6, T7, T8, T9,) {
    open spec fn encodes(&self, v: Val) -> bool {
        v matches Val::Tuple(cs) && cs.len() == 10 && self.0.encodes(cs[0]) && self.1.encodes(cs[1]) && self.2.encodes(cs[2]) && self.3.encodes(cs[3]) && self.4.encodes(cs[4]) && self.5.encodes(cs[5]) && self.6.encodes(cs[6]) && self.7.encodes(cs[7]) && self.8.encodes(cs[8]) && self.9.encodes(cs[9])
    }

    fn to_variant(&self) -> (r: Variant) {
        let mut cs: Vec<Variant> = Vec::new();
        cs.push(self.0.to_variant());
        cs.push(self.1.to_variant());
        cs.push(self.2.to_variant());
        cs.push(self.3.to_variant());
        cs.push(self.4.to_variant());
        cs.push(self.5.to_variant());
        cs.push(self.6.to_variant());
        cs.push(self.7.to_variant());
        cs.push(self.8.to_variant());
        cs.push(self.9.to_variant());
        proof {
            lemma_vals_of(cs@);
            lemma_val_tys(vals_of(cs@));
            assert(val_tys(vals_of(cs@)) =~= seq![T0::static_ty(), T1::static_ty(), T2::static_ty(), T3::static_ty(), T4::static_ty(), T5::static_ty(), T6::static_ty(), T7::static_ty(), T8::static_ty(), T9::static_ty()]);
        }
        Variant::new_tuple(cs)
    }
}

impl<T0: FromVariant, T1: FromVariant, T2: FromVariant, T3: FromVariant, T4: FromVariant, T5: FromVariant, T6: FromVariant, T7: FromVariant, T8: FromVariant, T9: FromVariant> FromVariant for (T0, T1, T2, T3, T4, T5, T6, T7, T8, T9,) {
    open spec fn decodes(v: Val, x: Self) -> bool {
        v matches Val::Tuple(cs) && cs.len() == 10 && T0::decodes(cs[0], x.0) && T1::decodes(cs[1], x.1) && T2::decodes(cs[2], x.2) && T3::decodes(cs[3], x.3) && T4::decodes(cs[4], x.4) && T5::decodes(cs[5], x.5) && T6::decodes(cs[6], x.6) && T7::decodes(cs[7], x.7) && T8::decodes(cs[8], x.8) && T9::decodes(cs[9], x.9)
    }

    fn from_variant(variant: &Variant) -> (r: Option<Self>) {
        if !variant.is::<Self>() {
            return None;
        }
        proof {
            if let Val::Tuple(cs) = variant@ {
                lemma_val_tys(cs);
                assert(val_tys(cs)[0] == val_ty(cs[0]));
                assert(val_tys(cs)[1] == val_ty(cs[1]));
                assert(val_tys(cs)[2] == val_ty(cs[2]));
                assert(val_tys(cs)[3] == val_ty(cs[3]));
                assert(val_tys(cs)[4] == val_ty(cs[4]));
                assert(val_tys(cs)[5] == val_ty(cs[5]));
                assert(val_tys(cs)[6] == val_ty(cs[6]));
                assert(val_tys(cs)[7] == val_ty(cs[7]));
                assert(val_tys(cs)[8] == val_ty(cs[8]));
                assert(val_tys(cs)[9] == val_ty(cs[9]));
            }
        }
        let x0 = match T0::from_variant(&variant.child_value(0)) {
            Some(x) => x,
            None => return None,
        };
        let x1 = match T1::from_variant(&variant.child_value(1)) {
            Some(x) => x,
            None => return None,
        };
        let x2 = match T2::from_variant(&variant.child_value(2)) {
            Some(x) => x,
            None => return None,
        };
        let x3 = match T3::from_variant(&variant.child_value(3)) {
            Some(x) => x,
            None => return None,
        };
        let x4 = match T4::from_variant(&variant.child_value(4)) {
            Some(x) => x,
            None => return None,
        };
        let x5 = match T5::from_variant(&variant.child_value(5)) {
            Some(x) => x,
            None => return None,
        };
        let x6 = match T6::from_variant(&variant.child_value(6)) {
            Some(x) => x,
            None => return None,
        };
        let x7 = match T7::from_variant(&variant.child_value(7)) {
            Some(x) => x,
            None => return None,
        };
        let x8 = match T8::from_variant(&variant.child_value(8)) {
            Some(x) => x,
            None => return None,
        };
        let x9 = match T9::from_variant(&variant.child_value(9)) {
            Some(x) => x,
            None => return None,
        };
        Some((x0, x1, x2, x3, x4, x5, x6, x7, x8, x9,))
    }
}

impl<T0: StaticVariantType, T1: StaticVariantType, T2: StaticVariantType, T3: StaticVariantType, T4: StaticVariantType, T5: StaticVariantType, T6: StaticVariantType, T7: StaticVariantType, T8: StaticVariantType, T9: StaticVariantType, T10: StaticVariantType> StaticVariantType for (T0, T1, T2, T3, T4, T5, T6, T7, T8, T9, T10,) {
    open spec fn static_ty() -> Ty {
        Ty::Tuple(seq![T0::static_ty(), T1::static_ty(), T2::static_ty(), T3::static_ty(), T4::static_ty(), T5::static_ty(), T6::static_ty(), T7::static_ty(), T8::static_ty(), T9::static_ty(), T10::static_ty()])
    }

    fn static_variant_type() -> (r: VariantType) {
        let mut ts: Vec<VariantType> = Vec::new();
        ts.push(T0::static_variant_type());
        ts.push(T1::static_variant_type());
        ts.push(T2::static_variant_type());
        ts.push(T3::static_variant_type());
        ts.push(T4::static_variant_type());
        ts.push(T5::static_variant_type());
        ts.push(T6::static_variant_type());
        ts.push(T7::static_variant_type());
        ts.push(T8::static_variant_type());
        ts.push(T9::static_variant_type());
        ts.push(T10::static_variant_type());
        proof {
            lemma_tys_of(ts@);
            assert(tys_of(ts@) =~= seq![T0::static_ty(), T1::static_ty(), T2::static_ty(), T3::static_ty(), T4::static_ty(), T5::static_ty(), T6::static_ty(), T7::static_ty(), T8::static_ty(), T9::static_ty(), T10::static_ty()]);
        }
        VariantType::Tuple(ts)
    }
}

impl<T0: ToVariant, T1: ToVariant, T2: ToVariant, T3: ToVariant, T4: ToVariant, T5: ToVariant, T6: ToVariant, T7: ToVariant, T8: ToVariant, T9: ToVariant, T10: ToVariant> ToVariant for (T0, T1, T2, T3, T4, T5, T6, T7, T8, T9, T10,) {
    open spec fn encodes(&self, v: Val) -> bool {
        v matches Val::Tuple(cs) && cs.len() == 11 && self.0.encodes(cs[0]) && self.1.encodes(cs[1]) && self.2.encodes(cs[2]) && self.3.encodes(cs[3]) && self.4.encodes(cs[4]) && self.5.encodes(cs[5]) && self.6.encodes(cs[6]) && self.7.encodes(cs[7]) && self.8.encodes(cs[8]) && self.9.encodes(cs[9]) && self.10.encodes(cs[10])
    }

    fn to_variant(&self) -> (r: Variant) {
        let mut cs: Vec<Variant> = Vec::new();
        cs.push(self.0.to_variant());
        cs.push(self.1.to_variant());
        cs.push(self.2.to_variant());
        cs.push(self.3.to_variant());
        cs.push(self.4.to_variant());
        cs.push(self.5.to_variant());
        cs.push(self.6.to_variant());
        cs.push(self.7.to_variant());
        cs.push(self.8.to_variant());
        cs.push(self.9.to_variant());
        cs.push(self.10.to_variant());
        proof {
            lemma_vals_of(cs@);
            lemma_val_tys(vals_of(cs@));
            assert(val_tys(vals_of(cs@)) =~= seq![T0::static_ty(), T1::static_ty(), T2::static_ty(), T3::static_ty(), T4::static_ty(), T5::static_ty(), T6::static_ty(), T7::static_ty(), T8::static_ty(), T9::static_ty(), T10::static_ty()]);
        }
        Variant::new_tuple(cs)
    }
}

impl<T0: FromVariant, T1: FromVariant, T2: FromVariant, T3: FromVariant, T4: FromVariant, T5: FromVariant, T6: FromVariant, T7: FromVariant, T8: FromVariant, T9: FromVariant, T10: FromVariant> FromVariant for (T0, T1, T2, T3, T4, T5, T6, T7, T8, T9, T10,) {
    open spec fn decodes(v: Val, x: Self) -> bool {
        v matches Val::Tuple(cs) && cs.len() == 11 && T0::decodes(cs[0], x.0) && T1::decodes(cs[1], x.1) && T2::decodes(cs[2], x.2) && T3::decodes(cs[3], x.3) && T4::decodes(cs[4], x.4) && T5::decodes(cs[5], x.5) && T6::decodes(cs[6], x.6) && T7::decodes(cs[7], x.7) && T8::decodes(cs[8], x.8) && T9::decodes(cs[9], x.9) && T10::decodes(cs[10], x.10)
    }

    fn from_variant(variant: &Variant) -> (r: Option<Self>) {
        if !variant.is::<Self>() {
            return None;
        }
        proof {
            if let Val::Tuple(cs) = variant@ {
                lemma_val_tys(cs);
                assert(val_tys(cs)[0] == val_ty(cs[0]));
                assert(val_tys(cs)[1] == val_ty(cs[1]));
                assert(val_tys(cs)[2] == val_ty(cs[2]));
                assert(val_tys(cs)[3] == val_ty(cs[3]));
                assert(val_tys(cs)[4] == val_ty(cs[4]));
                assert(val_tys(cs)[5] == val_ty(cs[5]));
                assert(val_tys(cs)[6] == val_ty(cs[6]));
                assert(val_tys(cs)[7] == val_ty(cs[7]));
                assert(val_tys(cs)[8] == val_ty(cs[8]));
                assert(val_tys(cs)[9] == val_ty(cs[9]));
                assert(val_tys(cs)[10] == val_ty(cs[10]));
            }
        }
        let x0 = match T0::from_variant(&variant.child_value(0)) {
            Some(x) => x,
            None => return None,
        };
        let x1 = match T1::from_variant(&variant.child_value(1)) {
            Some(x) => x,
            None => return None,
        };
        let x2 = match T2::from_variant(&variant.child_value(2)) {
            Some(x) => x,
            None => return None,
        };
        let x3 = match T3::from_variant(&variant.child_value(3)) {
            Some(x) => x,
            None => return None,
        };
        let x4 = match T4::from_variant(&variant.child_value(4)) {
            Some(x) => x,
            None => return None,
        };
        let x5 = match T5::from_variant(&variant.child_value(5)) {
            Some(x) => x,
            None => return None,
        };
        let x6 = match T6::from_variant(&variant.child_value(6)) {
            Some(x) => x,
            None => return None,
        };
        let x7 = match T7::from_variant(&variant.child_value(7)) {
            Some(x) => x,
            None => return None,
        };
        let x8 = match T8::from_variant(&variant.child_value(8)) {
            Some(x) => x,
            None => return None,
        };
        let x9 = match T9::from_variant(&variant.child_value(9)) {
            Some(x) => x,
            None => return None,
        };
        let x10 = match T10::from_variant(&variant.child_value(10)) {
            Some(x) => x,
            None => return None,
        };
        Some((x0, x1, x2, x3, x4, x5, x6, x7, x8, x9, x10,))
    }
}

impl<T0: StaticVariantType, T1: StaticVariantType, T2: StaticVariantType, T3: StaticVariantType, T4: StaticVariantType, T5: StaticVariantType, T6: StaticVariantType, T7: StaticVariantType, T8: StaticVariantType, T9: StaticVariantType, T10: StaticVariantType, T11: StaticVariantType> StaticVariantType for (T0, T1, T2, T3, T4, T5, T6, T7, T8, T9, T10, T11,) {
    open spec fn static_ty() -> Ty {
        Ty::Tuple(seq![T0::static_ty(), T1::static_ty(), T2::static_ty(), T3::static_ty(), T4::static_ty(), T5::static_ty(), T6::static_ty(), T7::static_ty(), T8::static_ty(), T9::static_ty(), T10::static_ty(), T11::static_ty()])
    }

    fn static_variant_type() -> (r: VariantType) {
        let mut ts: Vec<VariantType> = Vec::new();
        ts.push(T0::static_variant_type());
        ts.push(T1::static_variant_type());
        ts.push(T2::static_variant_type());
        ts.push(T3::static_variant_type());
        ts.push(T4::static_variant_type());
        ts.push(T5::static_variant_type());
        ts.push(T6::static_variant_type());
        ts.push(T7::static_variant_type());
        ts.push(T8::static_variant_type());
        ts.push(T9::static_variant_type());
        ts.push(T10::static_variant_type());
        ts.push(T11::static_variant_type());
        proof {
            lemma_tys_of(ts@);
            assert(tys_of(ts@) =~= seq![T0::static_ty(), T1::static_ty(), T2::static_ty(), T3::static_ty(), T4::static_ty(), T5::static_ty(), T6::static_ty(), T7::static_ty(), T8::static_ty(), T9::static_ty(), T10::static_ty(), T11::static_ty()]);
        }
        VariantType::Tuple(ts)
    }
}

impl<T0: ToVariant, T1: ToVariant, T2: ToVariant, T3: ToVariant, T4: ToVariant, T5: ToVariant, T6: ToVariant, T7: ToVariant, T8: ToVariant, T9: ToVariant, T10: ToVariant, T11: ToVariant> ToVariant for (T0, T1, T2, T3, T4, T5, T6, T7, T8, T9, T10, T11,) {
    open spec fn encodes(&self, v: Val) -> bool {
        v matches Val::Tuple(cs) && cs.len() == 12 && self.0.encodes(cs[0]) && self.1.encodes(cs[1]) && self.2.encodes(cs[2]) && self.3.encodes(cs[3]) && self.4.encodes(cs[4]) && self.5.encodes(cs[5]) && self.6.encodes(cs[6]) && self.7.encodes(cs[7]) && self.8.encodes(cs[8]) && self.9.encodes(cs[9]) && self.10.encodes(cs[10]) && self.11.encodes(cs[11])
    }

    fn to_variant(&self) -> (r: Variant) {
        let mut cs: Vec<Variant> = Vec::new();
        cs.push(self.0.to_variant());
        cs.push(self.1.to_variant());
        cs.push(self.2.to_variant());
        cs.push(self.3.to_variant());
        cs.push(self.4.to_variant());
        cs.push(self.5.to_variant());
        cs.push(self.6.to_variant());
        cs.push(self.7.to_variant());
        cs.push(self.8.to_variant());
        cs.push(self.9.to_variant());
        cs.push(self.10.to_variant());
        cs.push(self.11.to_variant());
        proof {
            lemma_vals_of(cs@);
            lemma_val_tys(vals_of(cs@));
            assert(val_tys(vals_of(cs@)) =~= seq![T0::static_ty(), T1::static_ty(), T2::static_ty(), T3::static_ty(), T4::static_ty(), T5::static_ty(), T6::static_ty(), T7::static_ty(), T8::static_ty(), T9::static_ty(), T10::static_ty(), T11::static_ty()]);
        }
        Variant::new_tuple(cs)
    }
}

impl<T0: FromVariant, T1: FromVariant, T2: FromVariant, T3: FromVariant, T4: FromVariant, T5: FromVariant, T6: FromVariant, T7: FromVariant, T8: FromVariant, T9: FromVariant, T10: FromVariant, T11: FromVariant> FromVariant for (T0, T1, T2, T3, T4, T5, T6, T7, T8, T9, T10, T11,) {
    open spec fn decodes(v: Val, x: Self) -> bool {
        v matches Val::Tuple(cs) && cs.len() == 12 && T0::decodes(cs[0], x.0) && T1::decodes(cs[1], x.1) && T2::decodes(cs[2], x.2) && T3::decodes(cs[3], x.3) && T4::decodes(cs[4], x.4) && T5::decodes(cs[5], x.5) && T6::decodes(cs[6], x.6) && T7::decodes(cs[7], x.7) && T8::decodes(cs[8], x.8) && T9::decodes(cs[9], x.9) && T10::decodes(cs[10], x.10) && T11::decodes(cs[11], x.11)
    }

    fn from_variant(variant: &Variant) -> (r: Option<Self>) {
        if !variant.is::<Self>() {
            return None;
        }
        proof {
            if let Val::Tuple(cs) = variant@ {
                lemma_val_tys(cs);
                assert(val_tys(cs)[0] == val_ty(cs[0]));
                assert(val_tys(cs)[1] == val_ty(cs[1]));
                assert(val_tys(cs)[2] == val_ty(cs[2]));
                assert(val_tys(cs)[3] == val_ty(cs[3]));
                assert(val_tys(cs)[4] == val_ty(cs[4]));
                assert(val_tys(cs)[5] == val_ty(cs[5]));
                assert(val_tys(cs)[6] == val_ty(cs[6]));
                assert(val_tys(cs)[7] == val_ty(cs[7]));
                assert(val_tys(cs)[8] == val_ty(cs[8]));
                assert(val_tys(cs)[9] == val_ty(cs[9]));
                assert(val_tys(cs)[10] == val_ty(cs[10]));
                assert(val_tys(cs)[11] == val_ty(cs[11]));
            }
        }
        let x0 = match T0::from_variant(&variant.child_value(0)) {
            Some(x) => x,
            None => return None,
        };
        let x1 = match T1::from_variant(&variant.child_value(1)) {
            Some(x) => x,
            None => return None,
        };
        let x2 = match T2::from_variant(&variant.child_value(2)) {
            Some(x) => x,
            None => return None,
        };
        let x3 = match T3::from_variant(&variant.child_value(3)) {
            Some(x) => x,
            None => return None,
        };
        let x4 = match T4::from_variant(&variant.child_value(4)) {
            Some(x) => x,
            None => return None,
        };
        let x5 = match T5::from_variant(&variant.child_value(5)) {
            Some(x) => x,
            None => return None,
        };
        let x6 = match T6::from_variant(&variant.child_value(6)) {
            Some(x) => x,
            None => return None,
        };
        let x7 = match T7::from_variant(&variant.child_value(7)) {
            Some(x) => x,
            None => return None,
        };
        let x8 = match T8::from_variant(&variant.child_value(8)) {
            Some(x) => x,
            None => return None,
        };
        let x9 = match T9::from_variant(&variant.child_value(9)) {
            Some(x) => x,
            None => return None,
        };
        let x10 = match T10::from_variant(&variant.child_value(10)) {
            Some(x) => x,
            None => return None,
        };
        let x11 = match T11::from_variant(&variant.child_value(11)) {
            Some(x) => x,
            None => return None,
        };
        Some((x0, x1, x2, x3, x4, x5, x6, x7, x8, x9, x10, x11,))
    }
}

impl<T0: StaticVariantType, T1: StaticVariantType, T2: StaticVariantType, T3: StaticVariantType, T4: StaticVariantType, T5: StaticVariantType, T6: StaticVariantType, T7: StaticVariantType, T8: StaticVariantType, T9: StaticVariantType, T10: StaticVariantType, T11: StaticVariantType, T12: StaticVariantType> StaticVariantType for (T0, T1, T2, T3, T4, T5, T6, T7, T8, T9, T10, T11, T12,) {
    open spec fn static_ty() -> Ty {
        Ty::Tuple(seq![T0::static_ty(), T1::static_ty(), T2::static_ty(), T3::static_ty(), T4::static_ty(), T5::static_ty(), T6::static_ty(), T7::static_ty(), T8::static_ty(), T9::static_ty(), T10::static_ty(), T11::static_ty(), T12::static_ty()])
    }

    fn static_variant_type() -> (r: VariantType) {
        let mut ts: Vec<VariantType> = Vec::new();
        ts.push(T0::static_variant_type());
        ts.push(T1::static_variant_type());
        ts.push(T2::static_variant_type());
        ts.push(T3::static_variant_type());
        ts.push(T4::static_variant_type());
        ts.push(T5::static_variant_type());
        ts.push(T6::static_variant_type());
        ts.push(T7::static_variant_type());
        ts.push(T8::static_variant_type());
        ts.push(T9::static_variant_type());
        ts.push(T10::static_variant_type());
        ts.push(T11::static_variant_type());
        ts.push(T12::static_variant_type());
        proof {
            lemma_tys_of(ts@);
            assert(tys_of(ts@) =~= seq![T0::static_ty(), T1::static_ty(), T2::static_ty(), T3::static_ty(), T4::static_ty(), T5::static_ty(), T6::static_ty(), T7::static_ty(), T8::static_ty(), T9::static_ty(), T10::static_ty(), T11::static_ty(), T12::static_ty()]);
        }
        VariantType::Tuple(ts)
    }
}

impl<T0: ToVariant, T1: ToVariant, T2: ToVariant, T3: ToVariant, T4: ToVariant, T5: ToVariant, T6: ToVariant, T7: ToVariant, T8: ToVariant, T9: ToVariant, T10: ToVariant, T11: ToVariant, T12: ToVariant> ToVariant for (T0, T1, T2, T3, T4, T5, T6, T7, T8, T9, T10, T11, T12,) {
    open spec fn encodes(&self, v: Val) -> bool {
        v matches Val::Tuple(cs) && cs.len() == 13 && self.0.encodes(cs[0]) && self.1.encodes(cs[1]) && self.2.encodes(cs[2]) && self.3.encodes(cs[3]) && self.4.encodes(cs[4]) && self.5.encodes(cs[5]) && self.6.encodes(cs[6]) && self.7.encodes(cs[7]) && self.8.encodes(cs[8]) && self.9.encodes(cs[9]) && self.10.encodes(cs[10]) && self.11.encodes(cs[11]) && self.12.encodes(cs[12])
    }

    fn to_variant(&self) -> (r: Variant) {
        let mut cs: Vec<Variant> = Vec::new();
        cs.push(self.0.to_variant());
        cs.push(self.1.to_variant());
        cs.push(self.2.to_variant());
        cs.push(self.3.to_variant());
        cs.push(self.4.to_variant());
        cs.push(self.5.to_variant());
        cs.push(self.6.to_variant());
        cs.push(self.7.to_variant());
        cs.push(self.8.to_variant());
        cs.push(self.9.to_variant());
        cs.push(self.10.to_variant());
        cs.push(self.11.to_variant());
        cs.push(self.12.to_variant());
        proof {
            lemma_vals_of(cs@);
            lemma_val_tys(vals_of(cs@));
            assert(val_tys(vals_of(cs@)) =~= seq![T0::static_ty(), T1::static_ty(), T2::static_ty(), T3::static_ty(), T4::static_ty(), T5::static_ty(), T6::static_ty(), T7::static_ty(), T8::static_ty(), T9::static_ty(), T10::static_ty(), T11::static_ty(), T12::static_ty()]);
        }
        Variant::new_tuple(cs)
    }
}

impl<T0: FromVariant, T1: FromVariant, T2: FromVariant, T3: FromVariant, T4: FromVariant, T5: FromVariant, T6: FromVariant, T7: FromVariant, T8: FromVariant, T9: FromVariant, T10: FromVariant, T11: FromVariant, T12: FromVariant> FromVariant for (T0, T1, T2, T3, T4, T5, T6, T7, T8, T9, T10, T11, T12,) {
    open spec fn decodes(v: Val, x: Self) -> bool {
        v matches Val::Tuple(cs) && cs.len() == 13 && T0::decodes(cs[0], x.0) && T1::decodes(cs[1], x.1) && T2::decodes(cs[2], x.2) && T3::decodes(cs[3], x.3) && T4::decodes(cs[4], x.4) && T5::decodes(cs[5], x.5) && T6::decodes(cs[6], x.6) && T7::decodes(cs[7], x.7) && T8::decodes(cs[8], x.8) && T9::decodes(cs[9], x.9) && T10::decodes(cs[10], x.10) && T11::decodes(cs[11], x.11) && T12::decodes(cs[12], x.12)
    }

    fn from_variant(variant: &Variant) -> (r: Option<Self>) {
        if !variant.is::<Self>() {
            return None;
        }
        proof {
            if let Val::Tuple(cs) = variant@ {
                lemma_val_tys(cs);
                assert(val_tys(cs)[0] == val_ty(cs[0]));
                assert(val_tys(cs)[1] == val_ty(cs[1]));
                assert(val_tys(cs)[2] == val_ty(cs[2]));
                assert(val_tys(cs)[3] == val_ty(cs[3]));
                assert(val_tys(cs)[4] == val_ty(cs[4]));
                assert(val_tys(cs)[5] == val_ty(cs[5]));
                assert(val_tys(cs)[6] == val_ty(cs[6]));
                assert(val_tys(cs)[7] == val_ty(cs[7]));
                assert(val_tys(cs)[8] == val_ty(cs[8]));
                assert(val_tys(cs)[9] == val_ty(cs[9]));
                assert(val_tys(cs)[10] == val_ty(cs[10]));
                assert(val_tys(cs)[11] == val_ty(cs[11]));
                assert(val_tys(cs)[12] == val_ty(cs[12]));
            }
        }
        let x0 = match T0::from_variant(&variant.child_value(0)) {
            Some(x) => x,
            None => return None,
        };
        let x1 = match T1::from_variant(&variant.child_value(1)) {
            Some(x) => x,
            None => return None,
        };
        let x2 = match T2::from_variant(&variant.child_value(2)) {
            Some(x) => x,
            None => return None,
        };
        let x3 = match T3::from_variant(&variant.child_value(3)) {
            Some(x) => x,
            None => return None,
        };
        let x4 = match T4::from_variant(&variant.child_value(4)) {
            Some(x) => x,
            None => return None,
        };
        let x5 = match T5::from_variant(&variant.child_value(5)) {
            Some(x) => x,
            None => return None,
        };
        let x6 = match T6::from_variant(&variant.child_value(6)) {
            Some(x) => x,
            None => return None,
        };
        let x7 = match T7::from_variant(&variant.child_value(7)) {
            Some(x) => x,
            None => return None,
        };
        let x8 = match T8::from_variant(&variant.child_value(8)) {
            Some(x) => x,
            None => return None,
        };
        let x9 = match T9::from_variant(&variant.child_value(9)) {
            Some(x) => x,
            None => return None,
        };
        let x10 = match T10::from_variant(&variant.child_value(10)) {
            Some(x) => x,
            None => return None,
        };
        let x11 = match T11::from_variant(&variant.child_value(11)) {
            Some(x) => x,
            None => return None,
        };
        let x12 = match T12::from_variant(&variant.child_value(12)) {
            Some(x) => x,
            None => return None,
        };
        Some((x0, x1, x2, x3, x4, x5, x6, x7, x8, x9, x10, x11, x12,))
    }
}

impl<T0: StaticVariantType, T1: StaticVariantType, T2: StaticVariantType, T3: StaticVariantType, T4: StaticVariantType, T5: StaticVariantType, T6: StaticVariantType, T7: StaticVariantType, T8: StaticVariantType, T9: StaticVariantType, T10: StaticVariantType, T11: StaticVariantType, T12: StaticVariantType, T13: StaticVariantType> StaticVariantType for (T0, T1, T2, T3, T4, T5, T6, T7, T8, T9, T10, T11, T12, T13,) {
    open spec fn static_ty() -> Ty {
        Ty::Tuple(seq![T0::static_ty(), T1::static_ty(), T2::static_ty(), T3::static_ty(), T4::static_ty(), T5::static_ty(), T6::static_ty(), T7::static_ty(), T8::static_ty(), T9::static_ty(), T10::static_ty(), T11::static_ty(), T12::static_ty(), T13::static_ty()])
    }

    fn static_variant_type() -> (r: VariantType) {
        let mut ts: Vec<VariantType> = Vec::new();
        ts.push(T0::static_variant_type());
        ts.push(T1::static_variant_type());
        ts.push(T2::static_variant_type());
        ts.push(T3::static_variant_type());
        ts.push(T4::static_variant_type());
        ts.push(T5::static_variant_type());
        ts.push(T6::static_variant_type());
        ts.push(T7::static_variant_type());
        ts.push(T8::static_variant_type());
        ts.push(T9::static_variant_type());
        ts.push(T10::static_variant_type());
        ts.push(T11::static_variant_type());
        ts.push(T12::static_variant_type());
        ts.push(T13::static_variant_type());
        proof {
            lemma_tys_of(ts@);
            assert(tys_of(ts@) =~= seq![T0::static_ty(), T1::static_ty(), T2::static_ty(), T3::static_ty(), T4::static_ty(), T5::static_ty(), T6::static_ty(), T7::static_ty(), T8::static_ty(), T9::static_ty(), T10::static_ty(), T11::static_ty(), T12::static_ty(), T13::static_ty()]);
        }
        VariantType::Tuple(ts)
    }
}

impl<T0: ToVariant, T1: ToVariant, T2: ToVariant, T3: ToVariant, T4: ToVariant, T5: ToVariant, T6: ToVariant, T7: ToVariant, T8: ToVariant, T9: ToVariant, T10: ToVariant, T11: ToVariant, T12: ToVariant, T13: ToVariant> ToVariant for (T0, T1, T2, T3, T4, T5, T6, T7, T8, T9, T10, T11, T12, T13,) {
    open spec fn encodes(&self, v: Val) -> bool {
        v matches Val::Tuple(cs) && cs.len() == 14 && self.0.encodes(cs[0]) && self.1.encodes(cs[1]) && self.2.encodes(cs[2]) && self.3.encodes(cs[3]) && self.4.encodes(cs[4]) && self.5.encodes(cs[5]) && self.6.encodes(cs[6]) && self.7.encodes(cs[7]) && self.8.encodes(cs[8]) && self.9.encodes(cs[9]) && self.10.encodes(cs[10]) && self.11.encodes(cs[11]) && self.12.encodes(cs[12]) && self.13.encodes(cs[13])
    }

    fn to_variant(&self) -> (r: Variant) {
        let mut cs: Vec<Variant> = Vec::new();
        cs.push(self.0.to_variant());
        cs.push(self.1.to_variant());
        cs.push(self.2.to_variant());
        cs.push(self.3.to_variant());
        cs.push(self.4.to_variant());
        cs.push(self.5.to_variant());
        cs.push(self.6.to_variant());
        cs.push(self.7.to_variant());
        cs.push(self.8.to_variant());
        cs.push(self.9.to_variant());
        cs.push(self.10.to_variant());
        cs.push(self.11.to_variant());
        cs.push(self.12.to_variant());
        cs.push(self.13.to_variant());
        proof {
            lemma_vals_of(cs@);
            lemma_val_tys(vals_of(cs@));
            assert(val_tys(vals_of(cs@)) =~= seq![T0::static_ty(), T1::static_ty(), T2::static_ty(), T3::static_ty(), T4::static_ty(), T5::static_ty(), T6::static_ty(), T7::static_ty(), T8::static_ty(), T9::static_ty(), T10::static_ty(), T11::static_ty(), T12::static_ty(), T13::static_ty()]);
        }
        Variant::new_tuple(cs)
    }
}

impl<T0: FromVariant, T1: FromVariant, T2: FromVariant, T3: FromVariant, T4: FromVariant, T5: FromVariant, T6: FromVariant, T7: FromVariant, T8: FromVariant, T9: FromVariant, T10: FromVariant, T11: FromVariant, T12: FromVariant, T13: FromVariant> FromVariant for (T0, T1, T2, T3, T4, T5, T6, T7, T8, T9, T10, T11, T12, T13,) {
    open spec fn decodes(v: Val, x: Self) -> bool {
        v matches Val::Tuple(cs) && cs.len() == 14 && T0::decodes(cs[0], x.0) && T1::decodes(cs[1], x.1) && T2::decodes(cs[2], x.2) && T3::decodes(cs[3], x.3) && T4::decodes(cs[4], x.4) && T5::decodes(cs[5], x.5) && T6::decodes(cs[6], x.6) && T7::decodes(cs[7], x.7) && T8::decodes(cs[8], x.8) && T9::decodes(cs[9], x.9) && T10::decodes(cs[10], x.10) && T11::decodes(cs[11], x.11) && T12::decodes(cs[12], x.12) && T13::decodes(cs[13], x.13)
    }

    fn from_variant(variant: &Variant) -> (r: Option<Self>) {
        if !variant.is::<Self>() {
            return None;
        }
        proof {
            if let Val::Tuple(cs) = variant@ {
                lemma_val_tys(cs);
                assert(val_tys(cs)[0] == val_ty(cs[0]));
                assert(val_tys(cs)[1] == val_ty(cs[1]));
                assert(val_tys(cs)[2] == val_ty(cs[2]));
                assert(val_tys(cs)[3] == val_ty(cs[3]));
                assert(val_tys(cs)[4] == val_ty(cs[4]));
                assert(val_tys(cs)[5] == val_ty(cs[5]));
                assert(val_tys(cs)[6] == val_ty(cs[6]));
                assert(val_tys(cs)[7] == val_ty(cs[7]));
                assert(val_tys(cs)[8] == val_ty(cs[8]));
                assert(val_tys(cs)[9] == val_ty(cs[9]));
                assert(val_tys(cs)[10] == val_ty(cs[10]));
                assert(val_tys(cs)[11] == val_ty(cs[11]));
                assert(val_tys(cs)[12] == val_ty(cs[12]));
                assert(val_tys(cs)[13] == val_ty(cs[13]));
            }
        }
        let x0 = match T0::from_variant(&variant.child_value(0)) {
            Some(x) => x,
            None => return None,
        };
        let x1 = match T1::from_variant(&variant.child_value(1)) {
            Some(x) => x,
            None => return None,
        };
        let x2 = match T2::from_variant(&variant.child_value(2)) {
            Some(x) => x,
            None => return None,
        };
        let x3 = match T3::from_variant(&variant.child_value(3)) {
            Some(x) => x,
            None => return None,
        };
        let x4 = match T4::from_variant(&variant.child_value(4)) {
            Some(x) => x,
            None => return None,
        };
        let x5 = match T5::from_variant(&variant.child_value(5)) {
            Some(x) => x,
            None => return None,
        };
        let x6 = match T6::from_variant(&variant.child_value(6)) {
            Some(x) => x,
            None => return None,
        };
        let x7 = match T7::from_variant(&variant.child_value(7)) {
            Some(x) => x,
            None => return None,
        };
        let x8 = match T8::from_variant(&variant.child_value(8)) {
            Some(x) => x,
            None => return None,
        };
        let x9 = match T9::from_variant(&variant.child_value(9)) {
            Some(x) => x,
            None => return None,
        };
        let x10 = match T10::from_variant(&variant.child_value(10)) {
            Some(x) => x,
            None => return None,
        };
        let x11 = match T11::from_variant(&variant.child_value(11)) {
            Some(x) => x,
            None => return None,
        };
        let x12 = match T12::from_variant(&variant.child_value(12)) {
            Some(x) => x,
            None => return None,
        };
        let x13 = match T13::from_variant(&variant.child_value(13)) {
            Some(x) => x,
            None => return None,
        };
        Some((x0, x1, x2, x3, x4, x5, x6, x7, x8, x9, x10, x11, x12, x13,))
    }
}

impl<T0: StaticVariantType, T1: StaticVariantType, T2: StaticVariantType, T3: StaticVariantType, T4: StaticVariantType, T5: StaticVariantType, T6: StaticVariantType, T7: StaticVariantType, T8: StaticVariantType, T9: StaticVariantType, T10: StaticVariantType, T11: StaticVariantType, T12: StaticVariantType, T13: StaticVariantType, T14: StaticVariantType> StaticVariantType for (T0, T1, T2, T3, T4, T5, T6, T7, T8, T9, T10, T11, T12, T13, T14,) {
    open spec fn static_ty() -> Ty {
        Ty::Tuple(seq![T0::static_ty(), T1::static_ty(), T2::static_ty(), T3::static_ty(), T4::static_ty(), T5::static_ty(), T6::static_ty(), T7::static_ty(), T8::static_ty(), T9::static_ty(), T10::static_ty(), T11::static_ty(), T12::static_ty(), T13::static_ty(), T14::static_ty()])
    }

    fn static_variant_type() -> (r: VariantType) {
        let mut ts: Vec<VariantType> = Vec::new();
        ts.push(T0::static_variant_type());
        ts.push(T1::static_variant_type());
        ts.push(T2::static_variant_type());
        ts.push(T3::static_variant_type());
        ts.push(T4::static_variant_type());
        ts.push(T5::static_variant_type());
        ts.push(T6::static_variant_type());
        ts.push(T7::static_variant_type());
        ts.push(T8::static_variant_type());
        ts.push(T9::static_variant_type());
        ts.push(T10::static_variant_type());
        ts.push(T11::static_variant_type());
        ts.push(T12::static_variant_type());
        ts.push(T13::static_variant_type());
        ts.push(T14::static_variant_type());
        proof {
            lemma_tys_of(ts@);
            assert(tys_of(ts@) =~= seq![T0::static_ty(), T1::static_ty(), T2::static_ty(), T3::static_ty(), T4::static_ty(), T5::static_ty(), T6::static_ty(), T7::static_ty(), T8::static_ty(), T9::static_ty(), T10::static_ty(), T11::static_ty(), T12::static_ty(), T13::static_ty(), T14::static_ty()]);
        }
        VariantType::Tuple(ts)
    }
}

impl<T0: ToVariant, T1: ToVariant, T2: ToVariant, T3: ToVariant, T4: ToVariant, T5: ToVariant, T6: ToVariant, T7: ToVariant, T8: ToVariant, T9: ToVariant, T10: ToVariant, T11: ToVariant, T12: ToVariant, T13: ToVariant, T14: ToVariant> ToVariant for (T0, T1, T2, T3, T4, T5, T6, T7, T8, T9, T10, T11, T12, T13, T14,) {
    open spec fn encodes(&self, v: Val) -> bool {
        v matches Val::Tuple(cs) && cs.len() == 15 && self.0.encodes(cs[0]) && self.1.encodes(cs[1]) && self.2.encodes(cs[2]) && self.3.encodes(cs[3]) && self.4.encodes(cs[4]) && self.5.encodes(cs[5]) && self.6.encodes(cs[6]) && self.7.encodes(cs[7]) && self.8.encodes(cs[8]) && self.9.encodes(cs[9]) && self.10.encodes(cs[10]) && self.11.encodes(cs[11]) && self.12.encodes(cs[12]) && self.13.encodes(cs[13]) && self.14.encodes(cs[14])
    }

    fn to_variant(&self) -> (r: Variant) {
        let mut cs: Vec<Variant> = Vec::new();
        cs.push(self.0.to_variant());
        cs.push(self.1.to_variant());
        cs.push(self.2.to_variant());
        cs.push(self.3.to_variant());
        cs.push(self.4.to_variant());
        cs.push(self.5.to_variant());
        cs.push(self.6.to_variant());
        cs.push(self.7.to_variant());
        cs.push(self.8.to_variant());
        cs.push(self.9.to_variant());
        cs.push(self.10.to_variant());
        cs.push(self.11.to_variant());
        cs.push(self.12.to_variant());
        cs.push(self.13.to_variant());
        cs.push(self.14.to_variant());
        proof {
            lemma_vals_of(cs@);
            lemma_val_tys(vals_of(cs@));
            assert(val_tys(vals_of(cs@)) =~= seq![T0::static_ty(), T1::static_ty(), T2::static_ty(), T3::static_ty(), T4::static_ty(), T5::static_ty(), T6::static_ty(), T7::static_ty(), T8::static_ty(), T9::static_ty(), T10::static_ty(), T11::static_ty(), T12::static_ty(), T13::static_ty(), T14::static_ty()]);
        }
        Variant::new_tuple(cs)
    }
}

impl<T0: FromVariant, T1: FromVariant, T2: FromVariant, T3: FromVariant, T4: FromVariant, T5: FromVariant, T6: FromVariant, T7: FromVariant, T8: FromVariant, T9: FromVariant, T10: FromVariant, T11: FromVariant, T12: FromVariant, T13: FromVariant, T14: FromVariant> FromVariant for (T0, T1, T2, T3, T4, T5, T6, T7, T8, T9, T10, T11, T12, T13, T14,) {
    open spec fn decodes(v: Val, x: Self) -> bool {
        v matches Val::Tuple(cs) && cs.len() == 15 && T0::decodes(cs[0], x.0) && T1::decodes(cs[1], x.1) && T2::decodes(cs[2], x.2) && T3::decodes(cs[3], x.3) && T4::decodes(cs[4], x.4) && T5::decodes(cs[5], x.5) && T6::decodes(cs[6], x.6) && T7::decodes(cs[7], x.7) && T8::decodes(cs[8], x.8) && T9::decodes(cs[9], x.9) && T10::decodes(cs[10], x.10) && T11::decodes(cs[11], x.11) && T12::decodes(cs[12], x.12) && T13::decodes(cs[13], x.13) && T14::decodes(cs[14], x.14)
    }

    fn from_variant(variant: &Variant) -> (r: Option<Self>) {
        if !variant.is::<Self>() {
            return None;
        }
        proof {
            if let Val::Tuple(cs) = variant@ {
                lemma_val_tys(cs);
                assert(val_tys(cs)[0] == val_ty(cs[0]));
                assert(val_tys(cs)[1] == val_ty(cs[1]));
                assert(val_tys(cs)[2] == val_ty(cs[2]));
                assert(val_tys(cs)[3] == val_ty(cs[3]));
                assert(val_tys(cs)[4] == val_ty(cs[4]));
                assert(val_tys(cs)[5] == val_ty(cs[5]));
                assert(val_tys(cs)[6] == val_ty(cs[6]));
                assert(val_tys(cs)[7] == val_ty(cs[7]));
                assert(val_tys(cs)[8] == val_ty(cs[8]));
                assert(val_tys(cs)[9] == val_ty(cs[9]));
                assert(val_tys(cs)[10] == val_ty(cs[10]));
                assert(val_tys(cs)[11] == val_ty(cs[11]));
                assert(val_tys(cs)[12] == val_ty(cs[12]));
                assert(val_tys(cs)[13] == val_ty(cs[13]));
                assert(val_tys(cs)[14] == val_ty(cs[14]));
            }
        }
        let x0 = match T0::from_variant(&variant.child_value(0)) {
            Some(x) => x,
            None => return None,
        };
        let x1 = match T1::from_variant(&variant.child_value(1)) {
            Some(x) => x,
            None => return None,
        };
        let x2 = match T2::from_variant(&variant.child_value(2)) {
            Some(x) => x,
            None => return None,
        };
        let x3 = match T3::from_variant(&variant.child_value(3)) {
            Some(x) => x,
            None => return None,
        };
        let x4 = match T4::from_variant(&variant.child_value(4)) {
            Some(x) => x,
            None => return None,
        };
        let x5 = match T5::from_variant(&variant.child_value(5)) {
            Some(x) => x,
            None => return None,
        };
        let x6 = match T6::from_variant(&variant.child_value(6)) {
            Some(x) => x,
            None => return None,
        };
        let x7 = match T7::from_variant(&variant.child_value(7)) {
            Some(x) => x,
            None => return None,
        };
        let x8 = match T8::from_variant(&variant.child_value(8)) {
            Some(x) => x,
            None => return None,
        };
        let x9 = match T9::from_variant(&variant.child_value(9)) {
            Some(x) => x,
            None => return None,
        };
        let x10 = match T10::from_variant(&variant.child_value(10)) {
            Some(x) => x,
            None => return None,
        };
        let x11 = match T11::from_variant(&variant.child_value(11)) {
            Some(x) => x,
            None => return None,
        };
        let x12 = match T12::from_variant(&variant.child_value(12)) {
            Some(x) => x,
            None => return None,
        };
        let x13 = match T13::from_variant(&variant.child_value(13)) {
            Some(x) => x,
            None => return None,
        };
        let x14 = match T14::from_variant(&variant.child_value(14)) {
            Some(x) => x,
            None => return None,
        };
        Some((x0, x1, x2, x3, x4, x5, x6, x7, x8, x9, x10, x11, x12, x13, x14,))
    }
}

impl<T0: StaticVariantType, T1: StaticVariantType, T2: StaticVariantType, T3: StaticVariantType, T4: StaticVariantType, T5: StaticVariantType, T6: StaticVariantType, T7: StaticVariantType, T8: StaticVariantType, T9: StaticVariantType, T10: StaticVariantType, T11: StaticVariantType, T12: StaticVariantType, T13: StaticVariantType, T14: StaticVariantType, T15: StaticVariantType> StaticVariantType for (T0, T1, T2, T3, T4, T5, T6, T7, T8, T9, T10, T11, T12, T13, T14, T15,) {
    open spec fn static_ty() -> Ty {
        Ty::Tuple(seq![T0::static_ty(), T1::static_ty(), T2::static_ty(), T3::static_ty(), T4::static_ty(), T5::static_ty(), T6::static_ty(), T7::static_ty(), T8::static_ty(), T9::static_ty(), T10::static_ty(), T11::static_ty(), T12::static_ty(), T13::static_ty(), T14::static_ty(), T15::static_ty()])
    }

    fn static_variant_type() -> (r: VariantType) {
        let mut ts: Vec<VariantType> = Vec::new();
        ts.push(T0::static_variant_type());
        ts.push(T1::static_variant_type());
        ts.push(T2::static_variant_type());
        ts.push(T3::static_variant_type());
        ts.push(T4::static_variant_type());
        ts.push(T5::static_variant_type());
        ts.push(T6::static_variant_type());
        ts.push(T7::static_variant_type());
        ts.push(T8::static_variant_type());
        ts.push(T9::static_variant_type());
        ts.push(T10::static_variant_type());
        ts.push(T11::static_variant_type());
        ts.push(T12::static_variant_type());
        ts.push(T13::static_variant_type());
        ts.push(T14::static_variant_type());
        ts.push(T15::static_variant_type());
        proof {
            lemma_tys_of(ts@);
            assert(tys_of(ts@) =~= seq![T0::static_ty(), T1::static_ty(), T2::static_ty(), T3::static_ty(), T4::static_ty(), T5::static_ty(), T6::static_ty(), T7::static_ty(), T8::static_ty(), T9::static_ty(), T10::static_ty(), T11::static_ty(), T12::static_ty(), T13::static_ty(), T14::static_ty(), T15::static_ty()]);
        }
        VariantType::Tuple(ts)
    }
}

impl<T0: ToVariant, T1: ToVariant, T2: ToVariant, T3: ToVariant, T4: ToVariant, T5: ToVariant, T6: ToVariant, T7: ToVariant, T8: ToVariant, T9: ToVariant, T10: ToVariant, T11: ToVariant, T12: ToVariant, T13: ToVariant, T14: ToVariant, T15: ToVariant> ToVariant for (T0, T1, T2, T3, T4, T5, T6, T7, T8, T9, T10, T11, T12, T13, T14, T15,) {
    open spec fn encodes(&self, v: Val) -> bool {
        v matches Val::Tuple(cs) && cs.len() == 16 && self.0.encodes(cs[0]) && self.1.encodes(cs[1]) && self.2.encodes(cs[2]) && self.3.encodes(cs[3]) && self.4.encodes(cs[4]) && self.5.encodes(cs[5]) && self.6.encodes(cs[6]) && self.7.encodes(cs[7]) && self.8.encodes(cs[8]) && self.9.encodes(cs[9]) && self.10.encodes(cs[10]) && self.11.encodes(cs[11]) && self.12.encodes(cs[12]) && self.13.encodes(cs[13]) && self.14.encodes(cs[14]) && self.15.encodes(cs[15])
    }

    fn to_variant(&self) -> (r: Variant) {
        let mut cs: Vec<Variant> = Vec::new();
        cs.push(self.0.to_variant());
        cs.push(self.1.to_variant());
        cs.push(self.2.to_variant());
        cs.push(self.3.to_variant());
        cs.push(self.4.to_variant());
        cs.push(self.5.to_variant());
        cs.push(self.6.to_variant());
        cs.push(self.7.to_variant());
        cs.push(self.8.to_variant());
        cs.push(self.9.to_variant());
        cs.push(self.10.to_variant());
        cs.push(self.11.to_variant());
        cs.push(self.12.to_variant());
        cs.push(self.13.to_variant());
        cs.push(self.14.to_variant());
        cs.push(self.15.to_variant());
        proof {
            lemma_vals_of(cs@);
            lemma_val_tys(vals_of(cs@));
            assert(val_tys(vals_of(cs@)) =~= seq![T0::static_ty(), T1::static_ty(), T2::static_ty(), T3::static_ty(), T4::static_ty(), T5::static_ty(), T6::static_ty(), T7::static_ty(), T8::static_ty(), T9::static_ty(), T10::static_ty(), T11::static_ty(), T12::static_ty(), T13::static_ty(), T14::static_ty(), T15::static_ty()]);
        }
        Variant::new_tuple(cs)
    }
}

impl<T0: FromVariant, T1: FromVariant, T2: FromVariant, T3: FromVariant, T4: FromVariant, T5: FromVariant, T6: FromVariant, T7: FromVariant, T8: FromVariant, T9: FromVariant, T10: FromVariant, T11: FromVariant, T12: FromVariant, T13: FromVariant, T14: FromVariant, T15: FromVariant> FromVariant for (T0, T1, T2, T3, T4, T5, T6, T7, T8, T9, T10, T11, T12, T13, T14, T15,) {
    open spec fn decodes(v: Val, x: Self) -> bool {
        v matches Val::Tuple(cs) && cs.len() == 16 && T0::decodes(cs[0], x.0) && T1::decodes(cs[1], x.1) && T2::decodes(cs[2], x.2) && T3::decodes(cs[3], x.3) && T4::decodes(cs[4], x.4) && T5::decodes(cs[5], x.5) && T6::decodes(cs[6], x.6) && T7::decodes(cs[7], x.7) && T8::decodes(cs[8], x.8) && T9::decodes(cs[9], x.9) && T10::decodes(cs[10], x.10) && T11::decodes(cs[11], x.11) && T12::decodes(cs[12], x.12) && T13::decodes(cs[13], x.13) && T14::decodes(cs[14], x.14) && T15::decodes(cs[15], x.15)
    }

    fn from_variant(variant: &Variant) -> (r: Option<Self>) {
        if !variant.is::<Self>() {
            return None;
        }
        proof {
            if let Val::Tuple(cs) = variant@ {
                lemma_val_tys(cs);
                assert(val_tys(cs)[0] == val_ty(cs[0]));
                assert(val_tys(cs)[1] == val_ty(cs[1]));
                assert(val_tys(cs)[2] == val_ty(cs[2]));
                assert(val_tys(cs)[3] == val_ty(cs[3]));
                assert(val_tys(cs)[4] == val_ty(cs[4]));
                assert(val_tys(cs)[5] == val_ty(cs[5]));
                assert(val_tys(cs)[6] == val_ty(cs[6]));
                assert(val_tys(cs)[7] == val_ty(cs[7]));
                assert(val_tys(cs)[8] == val_ty(cs[8]));
                assert(val_tys(cs)[9] == val_ty(cs[9]));
                assert(val_tys(cs)[10] == val_ty(cs[10]));
                assert(val_tys(cs)[11] == val_ty(cs[11]));
                assert(val_tys(cs)[12] == val_ty(cs[12]));
                assert(val_tys(cs)[13] == val_ty(cs[13]));
                assert(val_tys(cs)[14] == val_ty(cs[14]));
                assert(val_tys(cs)[15] == val_ty(cs[15]));
            }
        }
        let x0 = match T0::from_variant(&variant.child_value(0)) {
            Some(x) => x,
            None => return None,
        };
        let x1 = match T1::from_variant(&variant.child_value(1)) {
            Some(x) => x,
            None => return None,
        };
        let x2 = match T2::from_variant(&variant.child_value(2)) {
            Some(x) => x,
            None => return None,
        };
        let x3 = match T3::from_variant(&variant.child_value(3)) {
            Some(x) => x,
            None => return None,
        };
        let x4 = match T4::from_variant(&variant.child_value(4)) {
            Some(x) => x,
            None => return None,
        };
        let x5 = match T5::from_variant(&variant.child_value(5)) {
            Some(x) => x,
            None => return None,
        };
        let x6 = match T6::from_variant(&variant.child_value(6)) {
            Some(x) => x,
            None => return None,
        };
        let x7 = match T7::from_variant(&variant.child_value(7)) {
            Some(x) => x,
            None => return None,
        };
        let x8 = match T8::from_variant(&variant.child_value(8)) {
            Some(x) => x,
            None => return None,
        };
        let x9 = match T9::from_variant(&variant.child_value(9)) {
            Some(x) => x,
            None => return None,
        };
        let x10 = match T10::from_variant(&variant.child_value(10)) {
            Some(x) => x,
            None => return None,
        };
        let x11 = match T11::from_variant(&variant.child_value(11)) {
            Some(x) => x,
            None => return None,
        };
        let x12 = match T12::from_variant(&variant.child_value(12)) {
            Some(x) => x,
            None => return None,
        };
        let x13 = match T13::from_variant(&variant.child_value(13)) {
            Some(x) => x,
            None => return None,
        };
        let x14 = match T14::from_variant(&variant.child_value(14)) {
            Some(x) => x,
            None => return None,
        };
        let x15 = match T15::from_variant(&variant.child_value(15)) {
            Some(x) => x,
            None => return None,
        };
        Some((x0, x1, x2, x3, x4, x5, x6, x7, x8, x9, x10, x11, x12, x13, x14, x15,))
    }
}


/// The first `n` items of `it`, in order.
fn take_entries<'a, K: 'a, V: 'a, I: Iterator<Item = (&'a K, &'a V)>>(it: I, n: usize) -> (r: Vec<(&'a K, &'a V)>)
    requires
        it.obeys_prophetic_iter_laws(),
    ensures
        n <= it.remaining().len() ==> r@ == it.remaining().subrange(0, n as int),
{
    let mut out: Vec<(&'a K, &'a V)> = Vec::new();
    let ghost all = it.remaining();
    let mut entries = vstd::std_specs::iter::VerusForLoopWrapper::new(it, Ghost(None));
    let mut i: usize = 0;
    while i < n
        invariant
            i <= n,
            entries.wf(),
            entries.iter.obeys_prophetic_iter_laws(),
            entries.seq() == all,
            entries.index() <= i,
            out@ == all.subrange(0, entries.index()),
            n <= all.len() ==> entries.index() == i,
        decreases n - i,
    {
        match entries.next() {
            Some(e) => {
                out.push(e);
                assert(out@ =~= all.subrange(0, entries.index()));
            },
            None => {},
        }
        i = i + 1;
    }
    out
}

/// The keys of a list of entries.
pub open spec fn keys_of<'a, K, V>(es: Seq<(&'a K, &'a V)>) -> Seq<K> {
    es.map_values(|e: (&'a K, &'a V)| *e.0)
}

/// `cs` are the variant forms of the entries of `m`, one for each key, the
/// keys standing in the order `ks`.
pub open spec fn entries_in_order<K: ToVariant, V: ToVariant>(m: Map<K, V>, ks: Seq<K>, cs: Seq<Val>) -> bool {
    &&& ks.len() == cs.len()
    &&& ks.no_duplicates()
    &&& forall|k: K| #[trigger] m.contains_key(k) <==> ks.contains(k)
    &&& forall|j: int| 0 <= j < cs.len() ==> (#[trigger] cs[j] matches Val::DictEntry(ck, cv) && ks[j].encodes(*ck)
        && m[ks[j]].encodes(*cv))
}

/// The variant forms of entries, each a dictionary entry.
fn encode_entries<'a, K: StaticVariantType + ToVariant, V: StaticVariantType + ToVariant>(entries: &Vec<(&'a K, &'a V)>) -> (cs: Vec<Variant>)
    ensures
        cs.len() == entries.len(),
        forall|j: int| 0 <= j < cs.len() ==> val_ty(#[trigger] cs@[j]@)
            == Ty::DictEntry(Box::new(K::static_ty()), Box::new(V::static_ty())),
        forall|j: int| 0 <= j < cs.len() ==> (#[trigger] cs@[j]@ matches Val::DictEntry(ck, cv)
            && (*entries@[j].0).encodes(*ck) && (*entries@[j].1).encodes(*cv)),
{
    let mut cs: Vec<Variant> = Vec::new();
    let mut i: usize = 0;
    while i < entries.len()
        invariant
            i <= entries.len(),
            cs.len() == i,
            forall|j: int| 0 <= j < cs.len() ==> val_ty(#[trigger] cs@[j]@)
                == Ty::DictEntry(Box::new(K::static_ty()), Box::new(V::static_ty())),
            forall|j: int| 0 <= j < cs.len() ==> (#[trigger] cs@[j]@ matches Val::DictEntry(ck, cv)
                && (*entries@[j].0).encodes(*ck) && (*entries@[j].1).encodes(*cv)),
        decreases entries.len() - i,
    {
        let (k, x) = entries[i];
        let c = DictEntry::new(k, x).to_variant();
        cs.push(c);
        i = i + 1;
    }
    cs
}

/// Entries that list each key of `m` once, with its value, encode `m`.
proof fn lemma_entries_in_order<'a, K: ToVariant, V: ToVariant>(m: Map<K, V>, es: Seq<(&'a K, &'a V)>, cs: Seq<Val>)
    requires
        es.len() == m.dom().len(),
        es.no_duplicates(),
        forall|i: int| 0 <= i < es.len() ==> m.contains_key(*es[i].0) && m[*es[i].0] == *es[i].1,
        forall|k: K| #[trigger] m.contains_key(k) ==> es.contains((&k, &m[k])),
        cs.len() == es.len(),
        forall|j: int| 0 <= j < cs.len() ==> (#[trigger] cs[j] matches Val::DictEntry(ck, cv)
            && (*es[j].0).encodes(*ck) && (*es[j].1).encodes(*cv)),
    ensures
        entries_in_order(m, keys_of(es), cs),
{
    let ks = keys_of(es);
    assert forall|i: int, j: int| 0 <= i < ks.len() && 0 <= j < ks.len() && i != j implies ks[i] != ks[j] by {
        if ks[i] == ks[j] {
            assert(*es[i].1 == m[ks[i]]);
            assert(*es[j].1 == m[ks[j]]);
            assert(es[i] == es[j]);
        }
    }
    assert forall|k: K| #[trigger] m.contains_key(k) <==> ks.contains(k) by {
        if m.contains_key(k) {
            let i = choose|i: int| 0 <= i < es.len() && es[i] == (&k, &m[k]);
            assert(ks[i] == k);
        }
        if ks.contains(k) {
            let i = choose|i: int| 0 <= i < ks.len() && ks[i] == k;
            assert(m.contains_key(*es[i].0));
        }
    }
    assert forall|j: int| 0 <= j < cs.len() implies (#[trigger] cs[j] matches Val::DictEntry(ck, cv) && ks[j].encodes(*ck)
        && m[ks[j]].encodes(*cv)) by {
        assert(m[ks[j]] == *es[j].1);
    }
}

/// The type of a map from `K` to `V`: an array of dictionary entries. The
/// one from strings to boxed values is the well-known `a{sv}`.
fn static_variant_mapping<K: StaticVariantType, V: StaticVariantType>() -> (r: VariantType)
    ensures
        r@ == Ty::Array(Box::new(Ty::DictEntry(Box::new(K::static_ty()), Box::new(V::static_ty())))),
{
    let key_type = K::static_variant_type();
    let value_type = V::static_variant_type();
    if key_type.equals(&VariantType::Str) && value_type.equals(&VariantType::Variant) {
        return VariantType::vardict();
    }
    VariantType::new_dict_entry(&key_type, &value_type).as_array()
}

impl<K: StaticVariantType, V: StaticVariantType, H> StaticVariantType for HashMap<K, V, H> {
    open spec fn static_ty() -> Ty {
        Ty::Array(Box::new(Ty::DictEntry(Box::new(K::static_ty()), Box::new(V::static_ty()))))
    }

    fn static_variant_type() -> (r: VariantType) {
        static_variant_mapping::<K, V>()
    }
}

impl<K: StaticVariantType + ToVariant + Eq + Hash, V: StaticVariantType + ToVariant> ToVariant for HashMap<K, V> {
    /// With keys that obey the map's model, one entry for each key of the
    /// map, in the order in which the map visits them.
    open spec fn encodes(&self, v: Val) -> bool {
        v matches Val::Array(e, cs) && e == Ty::DictEntry(Box::new(K::static_ty()), Box::new(V::static_ty()))
            && (vstd::std_specs::hash::obeys_key_model::<K>() && vstd::std_specs::hash::builds_valid_hashers::<RandomState>()
                ==> exists|ks: Seq<K>| #[trigger] entries_in_order(self@, ks, cs))
    }

    fn to_variant(&self) -> (r: Variant) {
        let it = self.iter();
        let ghost all = it.remaining();
        let entries = take_entries(it, self.len());
        let cs = encode_entries(&entries);
        let ghost csv = vals_of(cs@);
        proof {
            lemma_vals_of(cs@);
            if vstd::std_specs::hash::obeys_key_model::<K>() && vstd::std_specs::hash::builds_valid_hashers::<RandomState>() {
                assert(entries@ =~= all);
                lemma_entries_in_order(self@, entries@, csv);
            }
        }
        let t = VariantType::new_dict_entry(&K::static_variant_type(), &V::static_variant_type());
        let r = Variant::new_array(&t, cs);
        assert(r@->Array_1 == csv);
        assert(vstd::std_specs::hash::obeys_key_model::<K>() && vstd::std_specs::hash::builds_valid_hashers::<RandomState>()
            ==> exists|ks2: Seq<K>| #[trigger] entries_in_order(self@, ks2, r@->Array_1));
        r
    }
}

impl<K: FromVariant + Eq + Hash, V: FromVariant, H: BuildHasher + Default> FromVariant for HashMap<K, V, H> {
    /// With keys that obey the map's model, every key of the map is read
    /// from some entry, together with its value, and every entry's key is a
    /// key of the map. Where keys read unambiguously, the value of each key
    /// is that of the last entry with that key.
    open spec fn decodes(v: Val, x: Self) -> bool {
        v matches Val::Array(_, cs) && (vstd::std_specs::hash::obeys_key_model::<K>() && vstd::std_specs::hash::builds_valid_hashers::<H>() ==> (forall|k: K| #[trigger] x@.contains_key(k) ==> exists|j: int| #![trigger cs[j]] 0 <= j < cs.len()
            && (cs[j] matches Val::DictEntry(ck, cv) && K::decodes(*ck, k) && V::decodes(*cv, x@[k])))
            && (forall|j: int| 0 <= j < cs.len() ==> (#[trigger] cs[j] matches Val::DictEntry(ck, _)
                && exists|k: K| #[trigger] K::decodes(*ck, k) && x@.contains_key(k)))
            && (decodes_uniquely::<K>() ==> forall|k: K| #[trigger] x@.contains_key(k)
                ==> last_entry_for(cs, cs.len() as int, k, x@[k])))
    }

    fn from_variant(variant: &Variant) -> (r: Option<Self>) {
        if !variant.is::<Self>() {
            return None;
        }
        proof { use_type_invariant(variant); }
        let mut map = HashMap::default();
        let n = variant.n_children();
        let mut i: usize = 0;
        while i < n
            invariant
                val_ty(variant@) == Self::static_ty(),
                well_formed(variant@),
                n == children(variant@).len(),
                i <= n,
                vstd::std_specs::hash::obeys_key_model::<K>() && vstd::std_specs::hash::builds_valid_hashers::<H>() ==> forall|k: K| #[trigger] map@.contains_key(k) ==> exists|j: int| #![trigger children(variant@)[j]] 0 <= j < i
                    && (children(variant@)[j] matches Val::DictEntry(ck, cv) && K::decodes(*ck, k) && V::decodes(*cv, map@[k])),
                vstd::std_specs::hash::obeys_key_model::<K>() && vstd::std_specs::hash::builds_valid_hashers::<H>() ==> forall|j: int| 0 <= j < i ==> (#[trigger] children(variant@)[j] matches Val::DictEntry(ck, _)
                    && exists|k: K| #[trigger] K::decodes(*ck, k) && map@.contains_key(k)),
                vstd::std_specs::hash::obeys_key_model::<K>() && vstd::std_specs::hash::builds_valid_hashers::<H>() && decodes_uniquely::<K>() ==> forall|k: K| #[trigger] map@.contains_key(k)
                    ==> last_entry_for(children(variant@), i as int, k, map@[k]),
            decreases n - i,
        {
            let entry = variant.child_value(i);
            let key = K::from_variant(&entry.child_value(0)).unwrap();
            let value = V::from_variant(&entry.child_value(1)).unwrap();
            let ghost old_map = map@;
            let ghost gk = key;
            map.insert(key, value);
            proof {
                if vstd::std_specs::hash::obeys_key_model::<K>() && vstd::std_specs::hash::builds_valid_hashers::<H>() && decodes_uniquely::<K>() {
                    let cs = children(variant@);
                    assert forall|k: K| #[trigger] map@.contains_key(k)
                        implies last_entry_for(cs, i + 1, k, map@[k]) by {
                        if k == gk {
                            assert(cs[i as int] matches Val::DictEntry(ck, cv) && K::decodes(*ck, k) && V::decodes(*cv, map@[k]));
                        } else {
                            assert(old_map.contains_key(k));
                            let j = choose|j: int| #![trigger cs[j]] 0 <= j < i
                                && (cs[j] matches Val::DictEntry(ck, cv) && K::decodes(*ck, k) && V::decodes(*cv, old_map[k]))
                                && forall|j2: int| j < j2 < i ==> !(#[trigger] cs[j2] matches Val::DictEntry(ck2, _) && K::decodes(*ck2, k));
                            assert forall|j2: int| j < j2 < i + 1 implies !(#[trigger] cs[j2] matches Val::DictEntry(ck2, _)
                                && K::decodes(*ck2, k)) by {
                                if j2 == i {
                                    if let Val::DictEntry(ck2, _) = cs[j2] {
                                        if K::decodes(*ck2, k) {
                                            assert(K::decodes(*ck2, gk));
                                        }
                                    }
                                }
                            }
                            assert(cs[j] matches Val::DictEntry(ck, cv) && K::decodes(*ck, k) && V::decodes(*cv, map@[k]));
                        }
                    }
                }
                if vstd::std_specs::hash::obeys_key_model::<K>() && vstd::std_specs::hash::builds_valid_hashers::<H>() {
                    assert forall|j: int| 0 <= j < i + 1 implies (#[trigger] children(variant@)[j] matches Val::DictEntry(ck, _)
                        && exists|k: K| #[trigger] K::decodes(*ck, k) && map@.contains_key(k)) by {
                        if j == i {
                            assert(children(variant@)[j] matches Val::DictEntry(ck, _) && K::decodes(*ck, gk) && map@.contains_key(gk));
                        } else {
                            if let Val::DictEntry(ck, _) = children(variant@)[j] {
                                let k = choose|k: K| #[trigger] K::decodes(*ck, k) && old_map.contains_key(k);
                                assert(map@.contains_key(k));
                            }
                        }
                    }
                    assert forall|k: K| #[trigger] map@.contains_key(k) implies exists|j: int| #![trigger children(variant@)[j]] 0 <= j < i + 1
                        && (children(variant@)[j] matches Val::DictEntry(ck, cv) && K::decodes(*ck, k) && V::decodes(*cv, map@[k])) by {
                        if k == gk {
                            assert(children(variant@)[i as int] matches Val::DictEntry(ck, cv) && K::decodes(*ck, k) && V::decodes(*cv, map@[k]));
                        } else {
                            assert(old_map.contains_key(k));
                            let j = choose|j: int| #![trigger children(variant@)[j]] 0 <= j < i
                                && (children(variant@)[j] matches Val::DictEntry(ck, cv) && K::decodes(*ck, k) && V::decodes(*cv, old_map[k]));
                            assert(children(variant@)[j] matches Val::DictEntry(ck, cv) && K::decodes(*ck, k) && V::decodes(*cv, map@[k]));
                        }
                    }
                }
            }
            i = i + 1;
        }
        Some(map)
    }
}

impl<K: StaticVariantType, V: StaticVariantType> StaticVariantType for BTreeMap<K, V> {
    open spec fn static_ty() -> Ty {
        Ty::Array(Box::new(Ty::DictEntry(Box::new(K::static_ty()), Box::new(V::static_ty()))))
    }

    fn static_variant_type() -> (r: VariantType) {
        static_variant_mapping::<K, V>()
    }
}

impl<K: StaticVariantType + ToVariant + Eq + Hash, V: StaticVariantType + ToVariant> ToVariant for BTreeMap<K, V> {
    /// With keys that obey the order's model, one entry for each key of the
    /// map, in increasing key order.
    open spec fn encodes(&self, v: Val) -> bool {
        v matches Val::Array(e, cs) && e == Ty::DictEntry(Box::new(K::static_ty()), Box::new(V::static_ty()))
            && (vstd::std_specs::btree::key_obeys_cmp_spec::<K>()
                ==> exists|ks: Seq<K>| #[trigger] entries_in_order(self@, ks, cs) && vstd::std_specs::btree::increasing_seq(ks))
    }

    fn to_variant(&self) -> (r: Variant) {
        let it = self.iter();
        let ghost all = it.remaining();
        let entries = take_entries(it, self.len());
        let cs = encode_entries(&entries);
        let ghost csv = vals_of(cs@);
        let ghost ks = keys_of(entries@);
        proof {
            lemma_vals_of(cs@);
            if vstd::std_specs::btree::key_obeys_cmp_spec::<K>() {
                assert(entries@ =~= all);
                lemma_entries_in_order(self@, entries@, csv);
                assert(ks =~= all.map_values(|kv: (&K, &V)| *kv.0));
            }
        }
        let t = VariantType::new_dict_entry(&K::static_variant_type(), &V::static_variant_type());
        let r = Variant::new_array(&t, cs);
        assert(r@->Array_1 == csv);
        assert(vstd::std_specs::btree::key_obeys_cmp_spec::<K>()
            ==> exists|ks2: Seq<K>| #[trigger] entries_in_order(self@, ks2, r@->Array_1)
                && vstd::std_specs::btree::increasing_seq(ks2));
        r
    }
}

impl<K: FromVariant + Eq + Ord, V: FromVariant> FromVariant for BTreeMap<K, V> {
    /// With keys that obey the map's model, every key of the map is read
    /// from some entry, together with its value, and every entry's key is a
    /// key of the map. Where keys read unambiguously, the value of each key
    /// is that of the last entry with that key.
    open spec fn decodes(v: Val, x: Self) -> bool {
        v matches Val::Array(_, cs) && (vstd::std_specs::btree::key_obeys_cmp_spec::<K>() ==> (forall|k: K| #[trigger] x@.contains_key(k) ==> exists|j: int| #![trigger cs[j]] 0 <= j < cs.len()
            && (cs[j] matches Val::DictEntry(ck, cv) && K::decodes(*ck, k) && V::decodes(*cv, x@[k])))
            && (forall|j: int| 0 <= j < cs.len() ==> (#[trigger] cs[j] matches Val::DictEntry(ck, _)
                && exists|k: K| #[trigger] K::decodes(*ck, k) && x@.contains_key(k)))
            && (decodes_uniquely::<K>() ==> forall|k: K| #[trigger] x@.contains_key(k)
                ==> last_entry_for(cs, cs.len() as int, k, x@[k])))
    }

    fn from_variant(variant: &Variant) -> (r: Option<Self>) {
        if !variant.is::<Self>() {
            return None;
        }
        proof { use_type_invariant(variant); }
        let mut map = BTreeMap::default();
        let n = variant.n_children();
        let mut i: usize = 0;
        while i < n
            invariant
                val_ty(variant@) == Self::static_ty(),
                well_formed(variant@),
                n == children(variant@).len(),
                i <= n,
                vstd::std_specs::btree::key_obeys_cmp_spec::<K>() ==> forall|k: K| #[trigger] map@.contains_key(k) ==> exists|j: int| #![trigger children(variant@)[j]] 0 <= j < i
                    && (children(variant@)[j] matches Val::DictEntry(ck, cv) && K::decodes(*ck, k) && V::decodes(*cv, map@[k])),
                vstd::std_specs::btree::key_obeys_cmp_spec::<K>() ==> forall|j: int| 0 <= j < i ==> (#[trigger] children(variant@)[j] matches Val::DictEntry(ck, _)
                    && exists|k: K| #[trigger] K::decodes(*ck, k) && map@.contains_key(k)),
                vstd::std_specs::btree::key_obeys_cmp_spec::<K>() && decodes_uniquely::<K>() ==> forall|k: K| #[trigger] map@.contains_key(k)
                    ==> last_entry_for(children(variant@), i as int, k, map@[k]),
            decreases n - i,
        {
            let entry = variant.child_value(i);
            let key = K::from_variant(&entry.child_value(0)).unwrap();
            let value = V::from_variant(&entry.child_value(1)).unwrap();
            let ghost old_map = map@;
            let ghost gk = key;
            map.insert(key, value);
            proof {
                if vstd::std_specs::btree::key_obeys_cmp_spec::<K>() && decodes_uniquely::<K>() {
                    let cs = children(variant@);
                    assert forall|k: K| #[trigger] map@.contains_key(k)
                        implies last_entry_for(cs, i + 1, k, map@[k]) by {
                        if k == gk {
                            assert(cs[i as int] matches Val::DictEntry(ck, cv) && K::decodes(*ck, k) && V::decodes(*cv, map@[k]));
                        } else {
                            assert(old_map.contains_key(k));
                            let j = choose|j: int| #![trigger cs[j]] 0 <= j < i
                                && (cs[j] matches Val::DictEntry(ck, cv) && K::decodes(*ck, k) && V::decodes(*cv, old_map[k]))
                                && forall|j2: int| j < j2 < i ==> !(#[trigger] cs[j2] matches Val::DictEntry(ck2, _) && K::decodes(*ck2, k));
                            assert forall|j2: int| j < j2 < i + 1 implies !(#[trigger] cs[j2] matches Val::DictEntry(ck2, _)
                                && K::decodes(*ck2, k)) by {
                                if j2 == i {
                                    if let Val::DictEntry(ck2, _) = cs[j2] {
                                        if K::decodes(*ck2, k) {
                                            assert(K::decodes(*ck2, gk));
                                        }
                                    }
                                }
                            }
                            assert(cs[j] matches Val::DictEntry(ck, cv) && K::decodes(*ck, k) && V::decodes(*cv, map@[k]));
                        }
                    }
                }
                if vstd::std_specs::btree::key_obeys_cmp_spec::<K>() {
                    assert forall|j: int| 0 <= j < i + 1 implies (#[trigger] children(variant@)[j] matches Val::DictEntry(ck, _)
                        && exists|k: K| #[trigger] K::decodes(*ck, k) && map@.contains_key(k)) by {
                        if j == i {
                            assert(children(variant@)[j] matches Val::DictEntry(ck, _) && K::decodes(*ck, gk) && map@.contains_key(gk));
                        } else {
                            if let Val::DictEntry(ck, _) = children(variant@)[j] {
                                let k = choose|k: K| #[trigger] K::decodes(*ck, k) && old_map.contains_key(k);
                                assert(map@.contains_key(k));
                            }
                        }
                    }
                    assert forall|k: K| #[trigger] map@.contains_key(k) implies exists|j: int| #![trigger children(variant@)[j]] 0 <= j < i + 1
                        && (children(variant@)[j] matches Val::DictEntry(ck, cv) && K::decodes(*ck, k) && V::decodes(*cv, map@[k])) by {
                        if k == gk {
                            assert(children(variant@)[i as int] matches Val::DictEntry(ck, cv) && K::decodes(*ck, k) && V::decodes(*cv, map@[k]));
                        } else {
                            assert(old_map.contains_key(k));
                            let j = choose|j: int| #![trigger children(variant@)[j]] 0 <= j < i
                                && (children(variant@)[j] matches Val::DictEntry(ck, cv) && K::decodes(*ck, k) && V::decodes(*cv, old_map[k]));
                            assert(children(variant@)[j] matches Val::DictEntry(ck, cv) && K::decodes(*ck, k) && V::decodes(*cv, map@[k]));
                        }
                    }
                }
            }
            i = i + 1;
        }
        Some(map)
    }
}


/// Reading a `T` from a value gives at most one result.
pub open spec fn decodes_uniquely<T: FromVariant>() -> bool {
    forall|v: Val, x: T, y: T| #![trigger T::decodes(v, x), T::decodes(v, y)] T::decodes(v, x) && T::decodes(v, y) ==> x == y
}

/// Where reading is unambiguous, what is read back from the variant form of
/// a value is that very value.
pub proof fn lemma_round_trip_exact<T: VariantRoundTrip>(x: T, v: Val, y: T)
    requires
        x.representable(),
        x.encodes(v),
        T::decodes(v, y),
        decodes_uniquely::<T>(),
    ensures
        y == x,
{
    x.lemma_round_trip(v);
}

/// Fixed-width scalars and the unit read unambiguously.
pub proof fn lemma_scalars_decode_uniquely()
    ensures
        decodes_uniquely::<u8>(),
        decodes_uniquely::<i16>(),
        decodes_uniquely::<u16>(),
        decodes_uniquely::<i32>(),
        decodes_uniquely::<u32>(),
        decodes_uniquely::<i64>(),
        decodes_uniquely::<u64>(),
        decodes_uniquely::<bool>(),
        decodes_uniquely::<()>(),
{
}

/// A dictionary entry reads unambiguously when its key and value do.
pub proof fn lemma_dict_entry_decodes_uniquely<K: FromVariant, V: FromVariant>()
    requires
        decodes_uniquely::<K>(),
        decodes_uniquely::<V>(),
    ensures
        decodes_uniquely::<DictEntry<K, V>>(),
{
    assert forall|v: Val, x: DictEntry<K, V>, y: DictEntry<K, V>|
        #[trigger] DictEntry::<K, V>::decodes(v, x) && #[trigger] DictEntry::<K, V>::decodes(v, y) implies x == y by {
        if let Val::DictEntry(k, w) = v {
            assert(K::decodes(*k, x.key) && K::decodes(*k, y.key));
            assert(V::decodes(*w, x.value) && V::decodes(*w, y.value));
        }
    }
}

/// Among the first `n` entries `cs`, the last one whose key reads as `k`
/// exists and its value reads as `x`.
pub open spec fn last_entry_for<K: FromVariant, V: FromVariant>(cs: Seq<Val>, n: int, k: K, x: V) -> bool {
    exists|j: int| #![trigger cs[j]] 0 <= j < n
        && (cs[j] matches Val::DictEntry(ck, cv) && K::decodes(*ck, k) && V::decodes(*cv, x))
        && forall|j2: int| j < j2 < n ==> !(#[trigger] cs[j2] matches Val::DictEntry(ck2, _) && K::decodes(*ck2, k))
}

/// The law that reading back the variant form of a value gives that value:
/// what `from_variant` reads from a variant that `to_variant` made is the
/// value it was made from (`decodes` holds of it), and `from_variant`
/// succeeds there since the variant has the type of `Self`.
pub trait VariantRoundTrip: ToVariant + FromVariant {
    /// `self` can be held in a variant as it is: the text in it holds no
    /// nul.
    spec fn representable(&self) -> bool;

    proof fn lemma_round_trip(&self, v: Val)
        requires
            self.representable(),
            self.encodes(v),
        ensures
            Self::decodes(v, *self);
}

impl VariantRoundTrip for u8 {
    open spec fn representable(&self) -> bool {
        true
    }

    proof fn lemma_round_trip(&self, v: Val) {
    }
}

impl VariantRoundTrip for i16 {
    open spec fn representable(&self) -> bool {
        true
    }

    proof fn lemma_round_trip(&self, v: Val) {
    }
}

impl VariantRoundTrip for u16 {
    open spec fn representable(&self) -> bool {
        true
    }

    proof fn lemma_round_trip(&self, v: Val) {
    }
}

impl VariantRoundTrip for i32 {
    open spec fn representable(&self) -> bool {
        true
    }

    proof fn lemma_round_trip(&self, v: Val) {
    }
}

impl VariantRoundTrip for u32 {
    open spec fn representable(&self) -> bool {
        true
    }

    proof fn lemma_round_trip(&self, v: Val) {
    }
}

impl VariantRoundTrip for i64 {
    open spec fn representable(&self) -> bool {
        true
    }

    proof fn lemma_round_trip(&self, v: Val) {
    }
}

impl VariantRoundTrip for u64 {
    open spec fn representable(&self) -> bool {
        true
    }

    proof fn lemma_round_trip(&self, v: Val) {
    }
}

impl VariantRoundTrip for bool {
    open spec fn representable(&self) -> bool {
        true
    }

    proof fn lemma_round_trip(&self, v: Val) {
    }
}

impl VariantRoundTrip for () {
    open spec fn representable(&self) -> bool {
        true
    }

    proof fn lemma_round_trip(&self, v: Val) {
    }
}

impl VariantRoundTrip for String {
    open spec fn representable(&self) -> bool {
        crate::value::no_nul(self@)
    }

    proof fn lemma_round_trip(&self, v: Val) {
        lemma_first_nul(self@);
        assert(cut_nul(self@) =~= self@);
    }
}

impl VariantRoundTrip for Variant {
    open spec fn representable(&self) -> bool {
        true
    }

    proof fn lemma_round_trip(&self, v: Val) {
    }
}

impl<T: StaticVariantType + VariantRoundTrip> VariantRoundTrip for Option<T> {
    open spec fn representable(&self) -> bool {
        match self {
            Some(x) => x.representable(),
            None => true,
        }
    }

    proof fn lemma_round_trip(&self, v: Val) {
        if let Some(x) = *self {
            if let Val::Maybe(_, Some(c)) = v {
                x.lemma_round_trip(*c);
            }
        }
    }
}

impl<T: StaticVariantType + VariantRoundTrip> VariantRoundTrip for Vec<T> {
    open spec fn representable(&self) -> bool {
        forall|i: int| 0 <= i < self@.len() ==> (#[trigger] self@[i]).representable()
    }

    proof fn lemma_round_trip(&self, v: Val) {
        if let Val::Array(_, cs) = v {
            assert forall|i: int| 0 <= i < cs.len() implies T::decodes(cs[i], #[trigger] self@[i]) by {
                self@[i].lemma_round_trip(cs[i]);
            }
        }
    }
}

impl<K: StaticVariantType + VariantRoundTrip, V: StaticVariantType + VariantRoundTrip> VariantRoundTrip for DictEntry<K, V> {
    open spec fn representable(&self) -> bool {
        self.spec_key().representable() && self.spec_value().representable()
    }

    proof fn lemma_round_trip(&self, v: Val) {
        if let Val::DictEntry(k, x) = v {
            self.spec_key().lemma_round_trip(*k);
            self.spec_value().lemma_round_trip(*x);
        }
    }
}

impl<K: StaticVariantType + VariantRoundTrip + Eq + Hash, V: StaticVariantType + VariantRoundTrip> VariantRoundTrip for HashMap<K, V> {
    open spec fn representable(&self) -> bool {
        forall|k: K| #[trigger] self@.contains_key(k) ==> k.representable() && self@[k].representable()
    }

    proof fn lemma_round_trip(&self, v: Val) {
        if let Val::Array(_, cs) = v {
            if vstd::std_specs::hash::obeys_key_model::<K>() && vstd::std_specs::hash::builds_valid_hashers::<RandomState>() {
                let ks = choose|ks: Seq<K>| #[trigger] entries_in_order(self@, ks, cs);
                lemma_map_round_trip(self@, ks, cs);
            }
        }
    }
}

impl<K: StaticVariantType + VariantRoundTrip + Eq + Hash + Ord, V: StaticVariantType + VariantRoundTrip> VariantRoundTrip for BTreeMap<K, V> {
    open spec fn representable(&self) -> bool {
        forall|k: K| #[trigger] self@.contains_key(k) ==> k.representable() && self@[k].representable()
    }

    proof fn lemma_round_trip(&self, v: Val) {
        if let Val::Array(_, cs) = v {
            if vstd::std_specs::btree::key_obeys_cmp_spec::<K>() {
                let ks = choose|ks: Seq<K>| #[trigger] entries_in_order(self@, ks, cs) && vstd::std_specs::btree::increasing_seq(ks);
                lemma_map_round_trip(self@, ks, cs);
            }
        }
    }
}

/// Every key of a map whose entries `cs` encode is read back from one of
/// them, with its value.
proof fn lemma_map_round_trip<K: VariantRoundTrip, V: VariantRoundTrip>(m: Map<K, V>, ks: Seq<K>, cs: Seq<Val>)
    requires
        entries_in_order(m, ks, cs),
        forall|k: K| #[trigger] m.contains_key(k) ==> k.representable() && m[k].representable(),
    ensures
        forall|k: K| #[trigger] m.contains_key(k) ==> exists|j: int| #![trigger cs[j]] 0 <= j < cs.len()
            && (cs[j] matches Val::DictEntry(ck, cv) && K::decodes(*ck, k) && V::decodes(*cv, m[k])),
        forall|j: int| 0 <= j < cs.len() ==> (#[trigger] cs[j] matches Val::DictEntry(ck, _)
            && exists|k: K| #[trigger] K::decodes(*ck, k) && m.contains_key(k)),
        decodes_uniquely::<K>() ==> forall|k: K| #[trigger] m.contains_key(k)
            ==> last_entry_for(cs, cs.len() as int, k, m[k]),
{
    if decodes_uniquely::<K>() {
        assert forall|k: K| #[trigger] m.contains_key(k) implies last_entry_for(cs, cs.len() as int, k, m[k]) by {
            assert(ks.contains(k));
            let j = choose|j: int| 0 <= j < ks.len() && ks[j] == k;
            if let Val::DictEntry(ck, cv) = cs[j] {
                k.lemma_round_trip(*ck);
                m[k].lemma_round_trip(*cv);
            }
            assert forall|j2: int| j < j2 < cs.len() implies !(#[trigger] cs[j2] matches Val::DictEntry(ck2, _)
                && K::decodes(*ck2, k)) by {
                if let Val::DictEntry(ck2, _) = cs[j2] {
                    assert(ks.contains(ks[j2]));
                    assert(m.contains_key(ks[j2]));
                    ks[j2].lemma_round_trip(*ck2);
                    if K::decodes(*ck2, k) {
                        assert(ks[j2] == k);
                        assert(ks[j2] == ks[j]);
                    }
                }
            }
        }
    }
    assert forall|j: int| 0 <= j < cs.len() implies (#[trigger] cs[j] matches Val::DictEntry(ck, _)
        && exists|k: K| #[trigger] K::decodes(*ck, k) && m.contains_key(k)) by {
        if let Val::DictEntry(ck, cv) = cs[j] {
            assert(ks.contains(ks[j]));
            assert(m.contains_key(ks[j]));
            ks[j].lemma_round_trip(*ck);
        }
    }
    assert forall|k: K| #[trigger] m.contains_key(k) implies exists|j: int| #![trigger cs[j]] 0 <= j < cs.len()
        && (cs[j] matches Val::DictEntry(ck, cv) && K::decodes(*ck, k) && V::decodes(*cv, m[k])) by {
        assert(ks.contains(k));
        let j = choose|j: int| 0 <= j < ks.len() && ks[j] == k;
        if let Val::DictEntry(ck, cv) = cs[j] {
            k.lemma_round_trip(*ck);
            m[k].lemma_round_trip(*cv);
        }
    }
}

impl<T0: StaticVariantType + VariantRoundTrip> VariantRoundTrip for (T0,) {
    open spec fn representable(&self) -> bool {
        self.0.representable()
    }

    proof fn lemma_round_trip(&self, v: Val) {
        if let Val::Tuple(cs) = v {
            self.0.lemma_round_trip(cs[0]);
        }
    }
}

impl<T0: StaticVariantType + VariantRoundTrip, T1: StaticVariantType + VariantRoundTrip> VariantRoundTrip for (T0, T1,) {
    open spec fn representable(&self) -> bool {
        self.0.representable() && self.1.representable()
    }

    proof fn lemma_round_trip(&self, v: Val) {
        if let Val::Tuple(cs) = v {
            self.0.lemma_round_trip(cs[0]);
            self.1.lemma_round_trip(cs[1]);
        }
    }
}

impl<T0: StaticVariantType + VariantRoundTrip, T1: StaticVariantType + VariantRoundTrip, T2: StaticVariantType + VariantRoundTrip> VariantRoundTrip for (T0, T1, T2,) {
    open spec fn representable(&self) -> bool {
        self.0.representable() && self.1.representable() && self.2.representable()
    }

    proof fn lemma_round_trip(&self, v: Val) {
        if let Val::Tuple(cs) = v {
            self.0.lemma_round_trip(cs[0]);
            self.1.lemma_round_trip(cs[1]);
            self.2.lemma_round_trip(cs[2]);
        }
    }
}

impl<T0: StaticVariantType + VariantRoundTrip, T1: StaticVariantType + VariantRoundTrip, T2: StaticVariantType + VariantRoundTrip, T3: StaticVariantType + VariantRoundTrip> VariantRoundTrip for (T0, T1, T2, T3,) {
    open spec fn representable(&self) -> bool {
        self.0.representable() && self.1.representable() && self.2.representable() && self.3.representable()
    }

    proof fn lemma_round_trip(&self, v: Val) {
        if let Val::Tuple(cs) = v {
            self.0.lemma_round_trip(cs[0]);
            self.1.lemma_round_trip(cs[1]);
            self.2.lemma_round_trip(cs[2]);
            self.3.lemma_round_trip(cs[3]);
        }
    }
}

impl<T0: StaticVariantType + VariantRoundTrip, T1: StaticVariantType + VariantRoundTrip, T2: StaticVariantType + VariantRoundTrip, T3: StaticVariantType + VariantRoundTrip, T4: StaticVariantType + VariantRoundTrip> VariantRoundTrip for (T0, T1, T2, T3, T4,) {
    open spec fn representable(&self) -> bool {
        self.0.representable() && self.1.representable() && self.2.representable() && self.3.representable() && self.4.representable()
    }

    proof fn lemma_round_trip(&self, v: Val) {
        if let Val::Tuple(cs) = v {
            self.0.lemma_round_trip(cs[0]);
            self.1.lemma_round_trip(cs[1]);
            self.2.lemma_round_trip(cs[2]);
            self.3.lemma_round_trip(cs[3]);
            self.4.lemma_round_trip(cs[4]);
        }
    }
}

impl<T0: StaticVariantType + VariantRoundTrip, T1: StaticVariantType + VariantRoundTrip, T2: StaticVariantType + VariantRoundTrip, T3: StaticVariantType + VariantRoundTrip, T4: StaticVariantType + VariantRoundTrip, T5: StaticVariantType + VariantRoundTrip> VariantRoundTrip for (T0, T1, T2, T3, T4, T5,) {
    open spec fn representable(&self) -> bool {
        self.0.representable() && self.1.representable() && self.2.representable() && self.3.representable() && self.4.representable() && self.5.representable()
    }

    proof fn lemma_round_trip(&self, v: Val) {
        if let Val::Tuple(cs) = v {
            self.0.lemma_round_trip(cs[0]);
            self.1.lemma_round_trip(cs[1]);
            self.2.lemma_round_trip(cs[2]);
            self.3.lemma_round_trip(cs[3]);
            self.4.lemma_round_trip(cs[4]);
            self.5.lemma_round_trip(cs[5]);
        }
    }
}

impl<T0: StaticVariantType + VariantRoundTrip, T1: StaticVariantType + VariantRoundTrip, T2: StaticVariantType + VariantRoundTrip, T3: StaticVariantType + VariantRoundTrip, T4: StaticVariantType + VariantRoundTrip, T5: StaticVariantType + VariantRoundTrip, T6: StaticVariantType + VariantRoundTrip> VariantRoundTrip for (T0, T1, T2, T3, T4, T5, T6,) {
    open spec fn representable(&self) -> bool {
        self.0.representable() && self.1.representable() && self.2.representable() && self.3.representable() && self.4.representable() && self.5.representable() && self.6.representable()
    }

    proof fn lemma_round_trip(&self, v: Val) {
        if let Val::Tuple(cs) = v {
            self.0.lemma_round_trip(cs[0]);
            self.1.lemma_round_trip(cs[1]);
            self.2.lemma_round_trip(cs[2]);
            self.3.lemma_round_trip(cs[3]);
            self.4.lemma_round_trip(cs[4]);
            self.5.lemma_round_trip(cs[5]);
            self.6.lemma_round_trip(cs[6]);
        }
    }
}

impl<T0: StaticVariantType + VariantRoundTrip, T1: StaticVariantType + VariantRoundTrip, T2: StaticVariantType + VariantRoundTrip, T3: StaticVariantType + VariantRoundTrip, T4: StaticVariantType + VariantRoundTrip, T5: StaticVariantType + VariantRoundTrip, T6: StaticVariantType + VariantRoundTrip, T7: StaticVariantType + VariantRoundTrip> VariantRoundTrip for (T0, T1, T2, T3, T4, T5, T6, T7,) {
    open spec fn representable(&self) -> bool {
        self.0.representable() && self.1.representable() && self.2.representable() && self.3.representable() && self.4.representable() && self.5.representable() && self.6.representable() && self.7.representable()
    }

    proof fn lemma_round_trip(&self, v: Val) {
        if let Val::Tuple(cs) = v {
            self.0.lemma_round_trip(cs[0]);
            self.1.lemma_round_trip(cs[1]);
            self.2.lemma_round_trip(cs[2]);
            self.3.lemma_round_trip(cs[3]);
            self.4.lemma_round_trip(cs[4]);
            self.5.lemma_round_trip(cs[5]);
            self.6.lemma_round_trip(cs[6]);
            self.7.lemma_round_trip(cs[7]);
        }
    }
}

impl<T0: StaticVariantType + VariantRoundTrip, T1: StaticVariantType + VariantRoundTrip, T2: StaticVariantType + VariantRoundTrip, T3: StaticVariantType + VariantRoundTrip, T4: StaticVariantType + VariantRoundTrip, T5: StaticVariantType + VariantRoundTrip, T6: StaticVariantType + VariantRoundTrip, T7: StaticVariantType + VariantRoundTrip, T8: StaticVariantType + VariantRoundTrip> VariantRoundTrip for (T0, T1, T2, T3, T4, T5, T6, T7, T8,) {
    open spec fn representable(&self) -> bool {
        self.0.representable() && self.1.representable() && self.2.representable() && self.3.representable() && self.4.representable() && self.5.representable() && self.6.representable() && self.7.representable() && self.8.representable()
    }

    proof fn lemma_round_trip(&self, v: Val) {
        if let Val::Tuple(cs) = v {
            self.0.lemma_round_trip(cs[0]);
            self.1.lemma_round_trip(cs[1]);
            self.2.lemma_round_trip(cs[2]);
            self.3.lemma_round_trip(cs[3]);
            self.4.lemma_round_trip(cs[4]);
            self.5.lemma_round_trip(cs[5]);
            self.6.lemma_round_trip(cs[6]);
            self.7.lemma_round_trip(cs[7]);
            self.8.lemma_round_trip(cs[8]);
        }
    }
}

impl<T0: StaticVariantType + VariantRoundTrip, T1: StaticVariantType + VariantRoundTrip, T2: StaticVariantType + VariantRoundTrip, T3: StaticVariantType + VariantRoundTrip, T4: StaticVariantType + VariantRoundTrip, T5: StaticVariantType + VariantRoundTrip, T6: StaticVariantType + VariantRoundTrip, T7: StaticVariantType + VariantRoundTrip, T8: StaticVariantType + VariantRoundTrip, T9: StaticVariantType + VariantRoundTrip> VariantRoundTrip for (T0, T1, T2, T3, T4, T5, T6, T7, T8, T9,) {
    open spec fn representable(&self) -> bool {
        self.0.representable() && self.1.representable() && self.2.representable() && self.3.representable() && self.4.representable() && self.5.representable() && self.6.representable() && self.7.representable() && self.8.representable() && self.9.representable()
    }

    proof fn lemma_round_trip(&self, v: Val) {
        if let Val::Tuple(cs) = v {
            self.0.lemma_round_trip(cs[0]);
            self.1.lemma_round_trip(cs[1]);
            self.2.lemma_round_trip(cs[2]);
            self.3.lemma_round_trip(cs[3]);
            self.4.lemma_round_trip(cs[4]);
            self.5.lemma_round_trip(cs[5]);
            self.6.lemma_round_trip(cs[6]);
            self.7.lemma_round_trip(cs[7]);
            self.8.lemma_round_trip(cs[8]);
            self.9.lemma_round_trip(cs[9]);
        }
    }
}

impl<T0: StaticVariantType + VariantRoundTrip, T1: StaticVariantType + VariantRoundTrip, T2: StaticVariantType + VariantRoundTrip, T3: StaticVariantType + VariantRoundTrip, T4: StaticVariantType + VariantRoundTrip, T5: StaticVariantType + VariantRoundTrip, T6: StaticVariantType + VariantRoundTrip, T7: StaticVariantType + VariantRoundTrip, T8: StaticVariantType + VariantRoundTrip, T9: StaticVariantType + VariantRoundTrip, T10: StaticVariantType + VariantRoundTrip> VariantRoundTrip for (T0, T1, T2, T3, T4, T5, T6, T7, T8, T9, T10,) {
    open spec fn representable(&self) -> bool {
        self.0.representable() && self.1.representable() && self.2.representable() && self.3.representable() && self.4.representable() && self.5.representable() && self.6.representable() && self.7.representable() && self.8.representable() && self.9.representable() && self.10.representable()
    }

    proof fn lemma_round_trip(&self, v: Val) {
        if let Val::Tuple(cs) = v {
            self.0.lemma_round_trip(cs[0]);
            self.1.lemma_round_trip(cs[1]);
            self.2.lemma_round_trip(cs[2]);
            self.3.lemma_round_trip(cs[3]);
            self.4.lemma_round_trip(cs[4]);
            self.5.lemma_round_trip(cs[5]);
            self.6.lemma_round_trip(cs[6]);
            self.7.lemma_round_trip(cs[7]);
            self.8.lemma_round_trip(cs[8]);
            self.9.lemma_round_trip(cs[9]);
            self.10.lemma_round_trip(cs[10]);
        }
    }
}

impl<T0: StaticVariantType + VariantRoundTrip, T1: StaticVariantType + VariantRoundTrip, T2: StaticVariantType + VariantRoundTrip, T3: StaticVariantType + VariantRoundTrip, T4: StaticVariantType + VariantRoundTrip, T5: StaticVariantType + VariantRoundTrip, T6: StaticVariantType + VariantRoundTrip, T7: StaticVariantType + VariantRoundTrip, T8: StaticVariantType + VariantRoundTrip, T9: StaticVariantType + VariantRoundTrip, T10: StaticVariantType + VariantRoundTrip, T11: StaticVariantType + VariantRoundTrip> VariantRoundTrip for (T0, T1, T2, T3, T4, T5, T6, T7, T8, T9, T10, T11,) {
    open spec fn representable(&self) -> bool {
        self.0.representable() && self.1.representable() && self.2.representable() && self.3.representable() && self.4.representable() && self.5.representable() && self.6.representable() && self.7.representable() && self.8.representable() && self.9.representable() && self.10.representable() && self.11.representable()
    }

    proof fn lemma_round_trip(&self, v: Val) {
        if let Val::Tuple(cs) = v {
            self.0.lemma_round_trip(cs[0]);
            self.1.lemma_round_trip(cs[1]);
            self.2.lemma_round_trip(cs[2]);
            self.3.lemma_round_trip(cs[3]);
            self.4.lemma_round_trip(cs[4]);
            self.5.lemma_round_trip(cs[5]);
            self.6.lemma_round_trip(cs[6]);
            self.7.lemma_round_trip(cs[7]);
            self.8.lemma_round_trip(cs[8]);
            self.9.lemma_round_trip(cs[9]);
            self.10.lemma_round_trip(cs[10]);
            self.11.lemma_round_trip(cs[11]);
        }
    }
}

impl<T0: StaticVariantType + VariantRoundTrip, T1: StaticVariantType + VariantRoundTrip, T2: StaticVariantType + VariantRoundTrip, T3: StaticVariantType + VariantRoundTrip, T4: StaticVariantType + VariantRoundTrip, T5: StaticVariantType + VariantRoundTrip, T6: StaticVariantType + VariantRoundTrip, T7: StaticVariantType + VariantRoundTrip, T8: StaticVariantType + VariantRoundTrip, T9: StaticVariantType + VariantRoundTrip, T10: StaticVariantType + VariantRoundTrip, T11: StaticVariantType + VariantRoundTrip, T12: StaticVariantType + VariantRoundTrip> VariantRoundTrip for (T0, T1, T2, T3, T4, T5, T6, T7, T8, T9, T10, T11, T12,) {
    open spec fn representable(&self) -> bool {
        self.0.representable() && self.1.representable() && self.2.representable() && self.3.representable() && self.4.representable() && self.5.representable() && self.6.representable() && self.7.representable() && self.8.representable() && self.9.representable() && self.10.representable() && self.11.representable() && self.12.representable()
    }

    proof fn lemma_round_trip(&self, v: Val) {
        if let Val::Tuple(cs) = v {
            self.0.lemma_round_trip(cs[0]);
            self.1.lemma_round_trip(cs[1]);
            self.2.lemma_round_trip(cs[2]);
            self.3.lemma_round_trip(cs[3]);
            self.4.lemma_round_trip(cs[4]);
            self.5.lemma_round_trip(cs[5]);
            self.6.lemma_round_trip(cs[6]);
            self.7.lemma_round_trip(cs[7]);
            self.8.lemma_round_trip(cs[8]);
            self.9.lemma_round_trip(cs[9]);
            self.10.lemma_round_trip(cs[10]);
            self.11.lemma_round_trip(cs[11]);
            self.12.lemma_round_trip(cs[12]);
        }
    }
}

impl<T0: StaticVariantType + VariantRoundTrip, T1: StaticVariantType + VariantRoundTrip, T2: StaticVariantType + VariantRoundTrip, T3: StaticVariantType + VariantRoundTrip, T4: StaticVariantType + VariantRoundTrip, T5: StaticVariantType + VariantRoundTrip, T6: StaticVariantType + VariantRoundTrip, T7: StaticVariantType + VariantRoundTrip, T8: StaticVariantType + VariantRoundTrip, T9: StaticVariantType + VariantRoundTrip, T10: StaticVariantType + VariantRoundTrip, T11: StaticVariantType + VariantRoundTrip, T12: StaticVariantType + VariantRoundTrip, T13: StaticVariantType + VariantRoundTrip> VariantRoundTrip for (T0, T1, T2, T3, T4, T5, T6, T7, T8, T9, T10, T11, T12, T13,) {
    open spec fn representable(&self) -> bool {
        self.0.representable() && self.1.representable() && self.2.representable() && self.3.representable() && self.4.representable() && self.5.representable() && self.6.representable() && self.7.representable() && self.8.representable() && self.9.representable() && self.10.representable() && self.11.representable() && self.12.representable() && self.13.representable()
    }

    proof fn lemma_round_trip(&self, v: Val) {
        if let Val::Tuple(cs) = v {
            self.0.lemma_round_trip(cs[0]);
            self.1.lemma_round_trip(cs[1]);
            self.2.lemma_round_trip(cs[2]);
            self.3.lemma_round_trip(cs[3]);
            self.4.lemma_round_trip(cs[4]);
            self.5.lemma_round_trip(cs[5]);
            self.6.lemma_round_trip(cs[6]);
            self.7.lemma_round_trip(cs[7]);
            self.8.lemma_round_trip(cs[8]);
            self.9.lemma_round_trip(cs[9]);
            self.10.lemma_round_trip(cs[10]);
            self.11.lemma_round_trip(cs[11]);
            self.12.lemma_round_trip(cs[12]);
            self.13.lemma_round_trip(cs[13]);
        }
    }
}

impl<T0: StaticVariantType + VariantRoundTrip, T1: StaticVariantType + VariantRoundTrip, T2: StaticVariantType + VariantRoundTrip, T3: StaticVariantType + VariantRoundTrip, T4: StaticVariantType + VariantRoundTrip, T5: StaticVariantType + VariantRoundTrip, T6: StaticVariantType + VariantRoundTrip, T7: StaticVariantType + VariantRoundTrip, T8: StaticVariantType + VariantRoundTrip, T9: StaticVariantType + VariantRoundTrip, T10: StaticVariantType + VariantRoundTrip, T11: StaticVariantType + VariantRoundTrip, T12: StaticVariantType + VariantRoundTrip, T13: StaticVariantType + VariantRoundTrip, T14: StaticVariantType + VariantRoundTrip> VariantRoundTrip for (T0, T1, T2, T3, T4, T5, T6, T7, T8, T9, T10, T11, T12, T13, T14,) {
    open spec fn representable(&self) -> bool {
        self.0.representable() && self.1.representable() && self.2.representable() && self.3.representable() && self.4.representable() && self.5.representable() && self.6.representable() && self.7.representable() && self.8.representable() && self.9.representable() && self.10.representable() && self.11.representable() && self.12.representable() && self.13.representable() && self.14.representable()
    }

    proof fn lemma_round_trip(&self, v: Val) {
        if let Val::Tuple(cs) = v {
            self.0.lemma_round_trip(cs[0]);
            self.1.lemma_round_trip(cs[1]);
            self.2.lemma_round_trip(cs[2]);
            self.3.lemma_round_trip(cs[3]);
            self.4.lemma_round_trip(cs[4]);
            self.5.lemma_round_trip(cs[5]);
            self.6.lemma_round_trip(cs[6]);
            self.7.lemma_round_trip(cs[7]);
            self.8.lemma_round_trip(cs[8]);
            self.9.lemma_round_trip(cs[9]);
            self.10.lemma_round_trip(cs[10]);
            self.11.lemma_round_trip(cs[11]);
            self.12.lemma_round_trip(cs[12]);
            self.13.lemma_round_trip(cs[13]);
            self.14.lemma_round_trip(cs[14]);
        }
    }
}

impl<T0: StaticVariantType + VariantRoundTrip, T1: StaticVariantType + VariantRoundTrip, T2: StaticVariantType + VariantRoundTrip, T3: StaticVariantType + VariantRoundTrip, T4: StaticVariantType + VariantRoundTrip, T5: StaticVariantType + VariantRoundTrip, T6: StaticVariantType + VariantRoundTrip, T7: StaticVariantType + VariantRoundTrip, T8: StaticVariantType + VariantRoundTrip, T9: StaticVariantType + VariantRoundTrip, T10: StaticVariantType + VariantRoundTrip, T11: StaticVariantType + VariantRoundTrip, T12: StaticVariantType + VariantRoundTrip, T13: StaticVariantType + VariantRoundTrip, T14: StaticVariantType + VariantRoundTrip, T15: StaticVariantType + VariantRoundTrip> VariantRoundTrip for (T0, T1, T2, T3, T4, T5, T6, T7, T8, T9, T10, T11, T12, T13, T14, T15,) {
    open spec fn representable(&self) -> bool {
        self.0.representable() && self.1.representable() && self.2.representable() && self.3.representable() && self.4.representable() && self.5.representable() && self.6.representable() && self.7.representable() && self.8.representable() && self.9.representable() && self.10.representable() && self.11.representable() && self.12.representable() && self.13.representable() && self.14.representable() && self.15.representable()
    }

    proof fn lemma_round_trip(&self, v: Val) {
        if let Val::Tuple(cs) = v {
            self.0.lemma_round_trip(cs[0]);
            self.1.lemma_round_trip(cs[1]);
            self.2.lemma_round_trip(cs[2]);
            self.3.lemma_round_trip(cs[3]);
            self.4.lemma_round_trip(cs[4]);
            self.5.lemma_round_trip(cs[5]);
            self.6.lemma_round_trip(cs[6]);
            self.7.lemma_round_trip(cs[7]);
            self.8.lemma_round_trip(cs[8]);
            self.9.lemma_round_trip(cs[9]);
            self.10.lemma_round_trip(cs[10]);
            self.11.lemma_round_trip(cs[11]);
            self.12.lemma_round_trip(cs[12]);
            self.13.lemma_round_trip(cs[13]);
            self.14.lemma_round_trip(cs[14]);
            self.15.lemma_round_trip(cs[15]);
        }
    }
}

} // verus!
