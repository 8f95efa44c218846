use jni_bridge::descriptor::{callback_descriptor, descriptor, void_method_descriptor, ManagedType};
use jni_bridge::marshal::{keys_to_managed, AppInfo, FfiResult, FieldValue, Key, ManagedObject};

fn field<'a>(o: &'a ManagedObject, i: usize) -> (&'a str, &'a str, &'a FieldValue) {
    let f = &o.fields[i];
    (f.name.as_str(), f.descriptor.as_str(), &f.value)
}

#[test]
fn echo_int_result_and_argument() {
    let result = FfiResult::from_native(0, None);
    let o = result.to_managed();
    assert_eq!(o.class, "FfiResult");
    assert_eq!(o.fields.len(), 2);
    let (name, desc, value) = field(&o, 0);
    assert_eq!((name, desc), ("errorCode", "I"));
    assert!(matches!(value, FieldValue::Int(0)));
    let (name, desc, value) = field(&o, 1);
    assert_eq!((name, desc), ("error", "Ljava/lang/String;"));
    assert!(matches!(value, FieldValue::Str(None)));
    assert_eq!(callback_descriptor(&[ManagedType::Int]), "(LFfiResult;I)V");
}

#[test]
fn error_description_is_forwarded() {
    let result = FfiResult::from_native(-3, Some(b"bad\0"));
    assert_eq!(result.error_code, -3);
    assert_eq!(result.error.as_deref(), Some(&b"bad"[..]));
    let o = result.to_managed();
    assert!(matches!(&o.fields[0].value, FieldValue::Int(-3)));
    match &o.fields[1].value {
        FieldValue::Str(Some(s)) => assert_eq!(s, b"bad"),
        _ => panic!("error text expected"),
    }
}

#[test]
fn struct_round_trip_key() {
    let key = Key::from_managed(&[0, 1, 2, 3, 4, 5, 6, 7]);
    let o = key.to_managed();
    assert_eq!(o.class, "Key");
    let (name, desc, value) = field(&o, 0);
    assert_eq!((name, desc), ("bytes", "[B"));
    match value {
        FieldValue::Bytes(b) => {
            assert_eq!(b, &vec![0, 1, 2, 3, 4, 5, 6, 7]);
            assert_eq!(Key::from_managed(b).bytes, key.bytes);
        }
        _ => panic!("byte array expected"),
    }
    assert_eq!(callback_descriptor(&[ManagedType::Object("Key".to_string())]), "(LFfiResult;LKey;)V");
}

#[test]
fn app_info_round_trip() {
    let info = AppInfo::from_managed(7, b"a", &[1, 2, 3, 4, 5, 6, 7, 8]);
    assert_eq!(info.id, 7);
    assert_eq!(info.name, b"a\0".to_vec());
    let o = info.to_managed();
    assert_eq!(o.class, "AppInfo");
    assert_eq!(o.fields.len(), 3);
    assert!(matches!(field(&o, 0), ("id", "I", FieldValue::Int(7))));
    match field(&o, 1) {
        ("name", "Ljava/lang/String;", FieldValue::Str(Some(s))) => assert_eq!(s, b"a"),
        _ => panic!("name field expected"),
    }
    match field(&o, 2) {
        ("key", "LKey;", FieldValue::Object(k)) => {
            assert_eq!(k.class, "Key");
            assert!(matches!(&k.fields[0].value, FieldValue::Bytes(b) if b == &vec![1, 2, 3, 4, 5, 6, 7, 8]));
        }
        _ => panic!("key field expected"),
    }
}

#[test]
fn key_array_elements_in_order() {
    let keys = [Key { bytes: [1; 8] }, Key { bytes: [2; 8] }];
    let objs = keys_to_managed(&keys);
    assert_eq!(objs.len(), 2);
    for (o, k) in objs.iter().zip(keys.iter()) {
        assert!(matches!(&o.fields[0].value, FieldValue::Bytes(b) if b[..] == k.bytes[..]));
    }
    assert!(keys_to_managed(&[]).is_empty());
}

#[test]
fn descriptors() {
    assert_eq!(descriptor(&ManagedType::Boolean), "Z");
    assert_eq!(descriptor(&ManagedType::Long), "J");
    assert_eq!(descriptor(&ManagedType::Array(Box::new(ManagedType::Byte))), "[B");
    assert_eq!(
        descriptor(&ManagedType::Array(Box::new(ManagedType::Object("Key".to_string())))),
        "[LKey;"
    );
    assert_eq!(callback_descriptor(&[]), "(LFfiResult;)V");
    assert_eq!(
        callback_descriptor(&[ManagedType::Int, ManagedType::Str, ManagedType::Object("Key".to_string())]),
        "(LFfiResult;ILjava/lang/String;LKey;)V"
    );
    assert_eq!(callback_descriptor(&[ManagedType::Array(Box::new(ManagedType::Int))]), "(LFfiResult;[I)V");
    assert_eq!(void_method_descriptor(&[]), "()V");
}
