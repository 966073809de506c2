use padmixer::store::{StoredValue, ValueStore};

#[test]
fn insert_then_load_roundtrip() {
    let mut store = ValueStore::new();
    let handle = store.insert("radial_x", StoredValue::F32Bits(50.0f32.to_bits()));
    let loaded = handle.load(&store).expect("key just inserted");
    let bits = loaded.as_f32_bits().expect("stored as f32 bits");
    assert_eq!(f32::from_bits(bits), 50.0);
}

#[test]
fn load_of_absent_key_is_none() {
    let store = ValueStore::new();
    let handle = store.get("radial_x");
    assert!(handle.load(&store).is_none());
}

#[test]
fn replace_with_other_type_makes_old_downcast_absent() {
    let mut store = ValueStore::new();
    let handle = store.insert("radial_x", StoredValue::F32Bits(0.0f32.to_bits()));
    let mut same_key = store.get("radial_x");
    same_key.replace(StoredValue::I64(3), &mut store);
    let loaded = handle.load(&store).expect("key still present after replace");
    assert!(loaded.as_f32_bits().is_none());
    assert_eq!(loaded.as_i64(), Some(3));
}

#[test]
fn replace_keeps_single_entry_per_key() {
    let mut store = ValueStore::new();
    let mut handle = store.insert("radial_y", StoredValue::F32Bits(0.0f32.to_bits()));
    handle.replace(StoredValue::F32Bits(1.0f32.to_bits()), &mut store);
    handle.replace(StoredValue::F32Bits(2.0f32.to_bits()), &mut store);
    let loaded = handle.load(&store).expect("key present");
    let bits = loaded.as_f32_bits().expect("still f32 bits");
    assert_eq!(f32::from_bits(bits), 2.0);
}

#[test]
fn insert_overwrites_prior_value() {
    let mut store = ValueStore::new();
    store.insert("speed", StoredValue::U32(10));
    let handle = store.insert("speed", StoredValue::U32(20));
    let loaded = handle.load(&store).expect("key present");
    assert_eq!(loaded.as_u32(), Some(20));
}

#[test]
fn keys_are_independent() {
    let mut store = ValueStore::new();
    let hx = store.insert("radial_x", StoredValue::I32(900));
    let hy = store.insert("radial_y", StoredValue::I32(-400));
    assert_eq!(hx.load(&store).unwrap().as_i32(), Some(900));
    assert_eq!(hy.load(&store).unwrap().as_i32(), Some(-400));
}

#[test]
fn downcast_matches_tag_only() {
    let v = StoredValue::Text(String::from("hello"));
    assert!(v.as_bool().is_none());
    assert!(v.as_i32().is_none());
    assert!(v.as_i64().is_none());
    assert!(v.as_u32().is_none());
    assert!(v.as_u64().is_none());
    assert!(v.as_f32_bits().is_none());
    assert!(v.as_f64_bits().is_none());
    assert_eq!(v.as_text().map(|s| s.as_str()), Some("hello"));
    let b = StoredValue::Bool(true);
    assert_eq!(b.as_bool(), Some(true));
    assert!(b.as_text().is_none());
    let d = StoredValue::F64Bits(2.5f64.to_bits());
    assert_eq!(d.as_f64_bits().map(f64::from_bits), Some(2.5));
}
