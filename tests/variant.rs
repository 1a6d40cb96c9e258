use gvariant::{DictEntry, FromVariant, StaticVariantType, ToVariant, Variant};
use std::collections::{BTreeMap, HashMap, HashSet};

#[test]
fn test_regression_from_variant_panics() {
    let variant = "text".to_variant();
    let hashmap: Option<HashMap<u64, u64>> = FromVariant::from_variant(&variant);
    assert!(hashmap.is_none());

    let variant = HashMap::<u64, u64>::new().to_variant();
    let hashmap: Option<HashMap<u64, u64>> = FromVariant::from_variant(&variant);
    assert!(hashmap.is_some());
}

#[test]
fn test_str() {
    let s = "this is a test";
    let v = s.to_variant();
    assert_eq!(v.str(), Some(s));
    assert_eq!(42u32.to_variant().str(), None);
}

#[test]
fn test_fixed_array() {
    let b = b"this is a test";
    let v = b.to_variant();
    assert_eq!(v.fixed_array::<u8>().unwrap(), b);
    assert!(42u32.to_variant().fixed_array::<u8>().is_err());

    let b = [1u32, 10u32, 100u32];
    let v = b.to_variant();
    assert_eq!(v.fixed_array::<u32>().unwrap(), b);
    assert!(v.fixed_array::<u8>().is_err());

    let b = [true, false, true];
    let v = b.to_variant();
    assert_eq!(v.fixed_array::<bool>().unwrap(), b);
    assert!(v.fixed_array::<u8>().is_err());
}

#[test]
fn test_string() {
    let s = String::from("this is a test");
    let v = s.to_variant();
    assert_eq!(v.get(), Some(s));
    assert_eq!(v.normal_form(), v);
}

#[test]
fn test_eq() {
    let v1 = "this is a test".to_variant();
    let v2 = "this is a test".to_variant();
    let v3 = "test".to_variant();
    assert_eq!(v1, v2);
    assert_ne!(v1, v3);
}

#[test]
fn test_hash() {
    let v1 = "this is a test".to_variant();
    let v2 = "this is a test".to_variant();
    let v3 = "test".to_variant();
    let mut set = HashSet::new();
    set.insert(v1);
    assert!(set.contains(&v2));
    assert!(!set.contains(&v3));

    assert_eq!(
        <HashMap<&str, (&str, u8, u32)>>::static_variant_type().as_str(),
        "a{s(syu)}"
    );
}

#[test]
fn test_array() {
    assert_eq!(<Vec<&str>>::static_variant_type().as_str(), "as");
    assert_eq!(
        <Vec<(&str, u8, u32)>>::static_variant_type().as_str(),
        "a(syu)"
    );
    let a = ["foo", "bar", "baz"].to_variant();
    assert_eq!(a.normal_form(), a);
    assert_eq!(a.array_iter_str().unwrap().len(), 3);
    let o = 0u32.to_variant();
    assert!(o.array_iter_str().is_err());
}

#[test]
fn test_array_from_iter() {
    let a = Variant::array_from_iter::<String>(
        ["foo", "bar", "baz"].into_iter().map(|s| s.to_variant()).collect(),
    );
    assert_eq!(a.type_().as_str(), "as");
    assert_eq!(a.n_children(), 3);

    assert_eq!(a.try_child_get::<String>(0), Ok(Some(String::from("foo"))));
    assert_eq!(a.try_child_get::<String>(1), Ok(Some(String::from("bar"))));
    assert_eq!(a.try_child_get::<String>(2), Ok(Some(String::from("baz"))));
}

#[test]
fn test_array_collect() {
    let a = Variant::array_from_iter::<&str>(
        ["foo", "bar", "baz"].into_iter().map(|s| s.to_variant()).collect::<Vec<Variant>>(),
    );
    assert_eq!(a.type_().as_str(), "as");
    assert_eq!(a.n_children(), 3);

    assert_eq!(a.try_child_get::<String>(0), Ok(Some(String::from("foo"))));
    assert_eq!(a.try_child_get::<String>(1), Ok(Some(String::from("bar"))));
    assert_eq!(a.try_child_get::<String>(2), Ok(Some(String::from("baz"))));
}

#[test]
fn test_tuple() {
    assert_eq!(<(&str, u32)>::static_variant_type().as_str(), "(su)");
    assert_eq!(<(&str, u8, u32)>::static_variant_type().as_str(), "(syu)");
    let a = ("test", 1u8, 2u32).to_variant();
    assert_eq!(a.normal_form(), a);
    assert_eq!(a.try_child_get::<String>(0), Ok(Some(String::from("test"))));
    assert_eq!(a.try_child_get::<u8>(1), Ok(Some(1u8)));
    assert_eq!(a.try_child_get::<u32>(2), Ok(Some(2u32)));
    assert_eq!(
        a.try_get::<(String, u8, u32)>(),
        Ok((String::from("test"), 1u8, 2u32))
    );
}

#[test]
fn test_tuple_from_iter() {
    let a = Variant::tuple_from_iter(vec!["foo".to_variant(), 1u8.to_variant(), 2i32.to_variant()]);
    assert_eq!(a.type_().as_str(), "(syi)");
    assert_eq!(a.n_children(), 3);

    assert_eq!(a.try_child_get::<String>(0), Ok(Some(String::from("foo"))));
    assert_eq!(a.try_child_get::<u8>(1), Ok(Some(1u8)));
    assert_eq!(a.try_child_get::<i32>(2), Ok(Some(2i32)));
}

#[test]
fn test_empty() {
    assert_eq!(<()>::static_variant_type().as_str(), "()");
    let a = ().to_variant();
    assert_eq!(a.type_().as_str(), "()");
    assert_eq!(a.get::<()>(), Some(()));
}

#[test]
fn test_btreemap() {
    assert_eq!(
        <BTreeMap<String, u32>>::static_variant_type().as_str(),
        "a{su}"
    );
    // The entries come out in key order.
    let mut m = BTreeMap::new();
    let total = 20;
    for n in 0..total {
        let k = format!("v{:04}", n);
        m.insert(k, n as u32);
    }
    let v = m.to_variant();
    let n = v.n_children();
    assert_eq!(total, n);
    for n in 0..total {
        let child = v
            .try_child_get::<DictEntry<String, u32>>(n)
            .unwrap()
            .unwrap();
        assert_eq!(*child.value(), n as u32);
    }

    assert_eq!(BTreeMap::from_variant(&v).unwrap(), m);
}

#[test]
fn test_get() {
    let u = 42u32.to_variant();
    assert!(u.get::<i32>().is_none());
    assert_eq!(u.get::<u32>().unwrap(), 42);
    assert!(u.try_get::<i32>().is_err());
    assert_eq!(u.try_get::<u32>().unwrap(), 42);
}

#[test]
fn test_byteswap() {
    let u = 42u32.to_variant();
    assert_eq!(u.byteswap().get::<u32>().unwrap(), 704643072u32);
    assert_eq!(u.byteswap().byteswap().get::<u32>().unwrap(), 42u32);
}

#[test]
fn test_try_child() {
    let a = ["foo"].to_variant();
    assert!(a.try_child_value(0).is_some());
    assert_eq!(a.try_child_get::<String>(0).unwrap().unwrap(), "foo");
    assert_eq!(a.child_get::<String>(0), "foo");
    assert!(a.try_child_get::<u32>(0).is_err());
    assert!(a.try_child_value(1).is_none());
    assert!(a.try_child_get::<String>(1).unwrap().is_none());
    let u = 42u32.to_variant();
    assert!(u.try_child_value(0).is_none());
    assert!(u.try_child_get::<String>(0).unwrap().is_none());
}

#[test]
fn test_serialize() {
    let a = ("test", 1u8, 2u32).to_variant();

    let bytes = a.data_as_bytes();
    let data = a.data();
    let len = a.size();
    assert_eq!(bytes.len(), len);
    assert_eq!(data.len(), len);

    let mut store_data = vec![0u8; len];
    assert_eq!(a.store(&mut store_data).unwrap(), len);

    assert_eq!(&bytes, &data);
    assert_eq!(&store_data, &data);

    let b = Variant::from_data::<(String, u8, u32)>(&store_data);
    assert_eq!(a, b);

    let c = Variant::from_bytes::<(String, u8, u32)>(&bytes);
    assert_eq!(a, c);
}
