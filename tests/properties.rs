use gvariant::{FromVariant, StaticVariantType, ToVariant, TypeParseError, Variant, VariantClass, VariantType};
use std::collections::{BTreeMap, HashMap};

#[test]
fn round_trip_of_native_values() {
    assert_eq!(u8::from_variant(&200u8.to_variant()), Some(200u8));
    assert_eq!(i16::from_variant(&(-3i16).to_variant()), Some(-3i16));
    assert_eq!(u64::from_variant(&u64::MAX.to_variant()), Some(u64::MAX));
    assert_eq!(i64::from_variant(&i64::MIN.to_variant()), Some(i64::MIN));
    assert_eq!(bool::from_variant(&true.to_variant()), Some(true));
    let s = String::from("héllo");
    assert_eq!(String::from_variant(&s.to_variant()), Some(s));
    let o: Option<u16> = Some(7);
    assert_eq!(<Option<u16>>::from_variant(&o.to_variant()), Some(o));
    let none: Option<String> = None;
    assert_eq!(<Option<String>>::from_variant(&none.to_variant()), Some(None));
    let v = vec![1i32, -2, 3];
    assert_eq!(<Vec<i32>>::from_variant(&v.to_variant()), Some(v));
    let t = (String::from("a"), 1u8, (true, 9u64));
    assert_eq!(<(String, u8, (bool, u64))>::from_variant(&t.to_variant()), Some(t));
    let inner = 5u32.to_variant();
    assert_eq!(<Variant as FromVariant>::from_variant(&inner.to_variant()), Some(inner));
}

#[test]
fn serialization_round_trip() {
    let values = vec![
        42u32.to_variant(),
        "text".to_variant(),
        ("test", 1u8, 2u32).to_variant(),
        vec!["a", "bc", ""].to_variant(),
        vec![1u16, 2, 3].to_variant(),
        Some("x").to_variant(),
        Some(3u64).to_variant(),
        Variant::from_variant(&(7i16, "y").to_variant()),
        (("k", 1u32), vec![(2u8, "v")]).to_variant(),
    ];
    for x in values {
        let t = x.type_();
        let back = Variant::from_bytes_with_type(&x.data(), &t);
        assert_eq!(back, x);
    }
}

#[test]
fn serialized_bytes_are_canonical() {
    let a = ("test", 1u8, 2u32).to_variant();
    assert_eq!(a.data(), vec![b't', b'e', b's', b't', 0, 1, 0, 0, 2, 0, 0, 0, 5]);
    assert_eq!(42u32.to_variant().data(), vec![42, 0, 0, 0]);
    assert_eq!((-2i16).to_variant().data(), vec![0xfe, 0xff]);
    assert_eq!(vec!["a", "bc"].to_variant().data(), vec![b'a', 0, b'b', b'c', 0, 2, 5]);
    assert_eq!(Variant::from_variant(&42u32.to_variant()).data(), vec![42, 0, 0, 0, 0, b'u']);
    assert_eq!(Some("x").to_variant().data(), vec![b'x', 0, 0]);
    assert_eq!(().to_variant().data(), vec![0]);
}

#[test]
fn invalid_bytes_give_default() {
    let v = Variant::from_bytes::<u32>(&[1, 2, 3]);
    assert_eq!(v.get::<u32>(), Some(0));
    let s = Variant::from_bytes::<String>(&[0xff, 0xfe, 0]);
    assert_eq!(s.str(), Some(""));
    let ok = Variant::from_bytes::<String>(b"hi\0");
    assert_eq!(ok.str(), Some("hi"));
}

#[test]
fn byteswap_involution() {
    let x = (1u16, vec![0x01020304u32, 5], "s", Some(-7i64)).to_variant();
    assert_eq!(x.byteswap().byteswap(), x);
    assert_ne!(x.byteswap(), x);
    assert_eq!(0x0102u16.to_variant().byteswap().get::<u16>(), Some(0x0201));
}

#[test]
fn normal_form_idempotent() {
    let x = vec![("a", 1u8)].to_variant();
    assert_eq!(x.normal_form().normal_form(), x.normal_form());
    assert_eq!(x.normal_form().data(), x.data());
}

#[test]
fn type_mismatch_diagnostics() {
    let v = "text".to_variant();
    let e = v.try_get::<u32>().unwrap_err();
    assert_eq!(e.expected.as_str(), "u");
    assert_eq!(e.actual.as_str(), "s");
    assert_eq!(e.to_string(), "Type mismatch: Expected 'u' got 's'");
}

#[test]
fn empty_map_fidelity() {
    let m: HashMap<u16, &str> = HashMap::new();
    let v = m.to_variant();
    assert_eq!(v.type_().as_str(), "a{qs}");
    assert_eq!(v.n_children(), 0);
    let back: HashMap<u16, String> = HashMap::from_variant(&v).unwrap();
    assert!(back.is_empty());
}

#[test]
fn map_round_trip() {
    let mut m: HashMap<u16, String> = HashMap::new();
    m.insert(1, String::from("hi"));
    m.insert(2, String::from("there"));
    let v = m.to_variant();
    assert_eq!(v.n_children(), 2);
    let back: HashMap<u16, String> = HashMap::from_variant(&v).unwrap();
    assert_eq!(back, m);
    let b: BTreeMap<u16, String> = BTreeMap::from_variant(&v).unwrap();
    assert_eq!(b.len(), 2);
    assert_eq!(<HashMap<String, Variant>>::static_variant_type().as_str(), "a{sv}");
}

#[test]
fn string_array_scenario() {
    let a = ["foo", "bar", "baz"].to_variant();
    assert_eq!(a.type_().as_str(), "as");
    assert_eq!(a.n_children(), 3);
    assert_eq!(a.try_child_get::<String>(1), Ok(Some("bar".to_string())));
    assert_eq!(a.array_iter_str().unwrap(), vec!["foo", "bar", "baz"]);
}

#[test]
fn type_signature_parsing() {
    let t = VariantType::parse("a{s(syu)}").unwrap();
    assert_eq!(t.as_str(), "a{s(syu)}");
    assert!(t.is_container());
    assert_eq!(VariantType::parse("(ya{sv}mi)").unwrap().as_str(), "(ya{sv}mi)");
    assert_eq!(VariantType::parse(""), Err(TypeParseError::UnexpectedEnd));
    assert_eq!(VariantType::parse("a{s"), Err(TypeParseError::InvalidCharacter));
    assert_eq!(VariantType::parse("z"), Err(TypeParseError::InvalidCharacter));
    assert_eq!(VariantType::parse("uu"), Err(TypeParseError::TrailingCharacters));
    assert_eq!(VariantType::Str.as_array().as_str(), "as");
    assert_eq!(VariantType::new_maybe(&VariantType::Byte).as_str(), "my");
    assert_eq!(
        VariantType::new_dict_entry(&VariantType::Str, &VariantType::Variant).as_str(),
        "{sv}"
    );
}

#[test]
fn store_needs_room() {
    let a = 42u64.to_variant();
    let mut small = vec![9u8; 4];
    let err = a.store(&mut small).unwrap_err();
    assert_eq!(err.needed, 8);
    assert_eq!(err.available, 4);
    assert_eq!(small, vec![9u8; 4]);
}

#[test]
fn classification_and_ordering() {
    assert_eq!(1u8.to_variant().classify(), VariantClass::Byte);
    assert_eq!(vec![1u8].to_variant().classify(), VariantClass::Array);
    assert!(1u32.to_variant() < 2u32.to_variant());
    assert!("abc".to_variant() < "abd".to_variant());
    assert_eq!(vec![1u8].to_variant().partial_cmp(&vec![1u8].to_variant()), None);
    assert_eq!(1u8.to_variant().partial_cmp(&1u16.to_variant()), None);
    assert!(!Variant::from_variant(&1u8.to_variant()).is_container());
    assert!(Variant::from_variant(&1u8.to_variant()).as_variant().is_some());
    assert!(1u8.to_variant().as_variant().is_none());
}

#[test]
fn maybe_construction() {
    let c = 3u32.to_variant();
    let m = Variant::from_maybe::<u32>(Some(&c));
    assert_eq!(m.type_().as_str(), "mu");
    assert_eq!(m.n_children(), 1);
    let e = Variant::from_maybe::<u32>(None);
    assert_eq!(e.n_children(), 0);
}

#[test]
fn text_is_cut_at_nul() {
    let x = "a\0b".to_variant();
    assert_eq!(x.str(), Some("a"));
    let back = Variant::from_bytes_with_type(&x.data(), &x.type_());
    assert_eq!(back, x);
    let y = String::from("\0").to_variant();
    assert_eq!(y.str(), Some(""));
    assert_eq!(Variant::from_data_with_type(&y.data(), &y.type_()), y);
}

#[test]
fn last_entry_wins() {
    let entries = vec![
        gvariant::DictEntry::new(1u16, 10u32).to_variant(),
        gvariant::DictEntry::new(2u16, 5u32).to_variant(),
        gvariant::DictEntry::new(1u16, 20u32).to_variant(),
    ];
    let v = Variant::array_from_iter::<gvariant::DictEntry<u16, u32>>(entries);
    let m: HashMap<u16, u32> = HashMap::from_variant(&v).unwrap();
    assert_eq!(m.len(), 2);
    assert_eq!(m[&1], 20);
    let b: BTreeMap<u16, u32> = BTreeMap::from_variant(&v).unwrap();
    assert_eq!(b[&1], 20);
}

#[test]
fn vardict_signature() {
    assert_eq!(VariantType::vardict().as_str(), "a{sv}");
    assert_eq!(<HashMap<String, Variant>>::static_variant_type(), VariantType::vardict());
}

#[test]
fn text_rendering() {
    let t = (1u8, -5i32, "hi", vec![true], Some(3u16)).to_variant();
    assert_eq!(t.print(), "(0x01, -5, 'hi', [true], just 3)");
    assert_eq!(Variant::from_variant(&7u64.to_variant()).print(), "<7>");
    assert_eq!(().to_variant().print(), "()");
    assert_eq!((1u32,).to_variant().print(), "(1,)");
    assert_eq!(gvariant::DictEntry::new("k", 255u8).to_variant().print(), "{'k': 0xff}");
    assert_eq!(None::<u8>.to_variant().print(), "nothing");
    assert_eq!(Variant::new_double_bits(0x3ff0000000000000).print(), "double 0x3ff0000000000000");
    assert_eq!(i64::MIN.to_variant().print(), "-9223372036854775808");
    assert_eq!(Vec::<u32>::new().to_variant().print(), "[]");
}
