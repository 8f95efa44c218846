//! The native structs that cross the bridge and their managed counterparts.
//!
//! A struct goes to the managed side as a [`ManagedObject`]: the class to
//! construct with its no-argument constructor, then the fields to assign, each
//! by name and descriptor, in order. Strings travel as the bytes of their
//! managed encoding; `None` stands for the managed `null`.
use vstd::prelude::*;
use vstd::string::StringExecFns;
use crate::convert::{
    c_string_from_managed, c_string_text, c_string_to_managed, has_no_nul, has_nul,
    signed_bytes_from_managed, signed_bytes_to_managed,
};

verus! {

/// The value assigned to a field of a managed object.
pub enum FieldValue {
    Int(i32),
    /// A managed string, by the bytes of its encoding, or `null`.
    Str(Option<Vec<u8>>),
    Bytes(Vec<i8>),
    Object(ManagedObject),
}

/// One field assignment: the field's name, its JVM descriptor, the value.
pub struct FieldWrite {
    pub name: String,
    pub descriptor: String,
    pub value: FieldValue,
}

/// A managed object to build: an instance of `class`, made with the
/// no-argument constructor, with `fields` assigned in order.
pub struct ManagedObject {
    pub class: String,
    pub fields: Vec<FieldWrite>,
}

/// The result that the native library reports to every callback.
pub struct FfiResult {
    pub error_code: i32,
    /// The text of the error description, `None` where the native side gave
    /// a null pointer.
    pub error: Option<Vec<u8>>,
}

/// A native key: eight signed bytes.
pub struct Key {
    pub bytes: [i8; 8],
}

/// The native application description.
pub struct AppInfo {
    pub id: i32,
    /// The name as a NUL-terminated native string.
    pub name: Vec<u8>,
    pub key: Key,
}

/// `w` assigns the value `v` to the field `name` with descriptor `desc`.
pub open spec fn writes_field(w: FieldWrite, name: Seq<char>, desc: Seq<char>) -> bool {
    w.name@ == name && w.descriptor@ == desc
}

/// `o` is the managed form of the result `r`.
pub open spec fn is_result_object(o: ManagedObject, r: FfiResult) -> bool {
    &&& o.class@ == "FfiResult"@
    &&& o.fields@.len() == 2
    &&& writes_field(o.fields@[0], "errorCode"@, "I"@)
    &&& o.fields@[0].value == FieldValue::Int(r.error_code)
    &&& writes_field(o.fields@[1], "error"@, "Ljava/lang/String;"@)
    &&& match (o.fields@[1].value, r.error) {
        (FieldValue::Str(None), None) => true,
        (FieldValue::Str(Some(a)), Some(b)) => a@ == b@,
        _ => false,
    }
}

/// `o` is the managed form of the key with bytes `bytes`.
pub open spec fn is_key_object(o: ManagedObject, bytes: Seq<i8>) -> bool {
    &&& o.class@ == "Key"@
    &&& o.fields@.len() == 1
    &&& writes_field(o.fields@[0], "bytes"@, "[B"@)
    &&& o.fields@[0].value matches FieldValue::Bytes(b) && b@ == bytes
}

/// `o` is the managed form of an application description with identifier
/// `id`, name text `name` and key bytes `key`.
pub open spec fn is_app_info_object(o: ManagedObject, id: i32, name: Seq<u8>, key: Seq<i8>) -> bool {
    &&& o.class@ == "AppInfo"@
    &&& o.fields@.len() == 3
    &&& writes_field(o.fields@[0], "id"@, "I"@)
    &&& o.fields@[0].value == FieldValue::Int(id)
    &&& writes_field(o.fields@[1], "name"@, "Ljava/lang/String;"@)
    &&& o.fields@[1].value matches FieldValue::Str(Some(s)) && s@ == name
    &&& writes_field(o.fields@[2], "key"@, "LKey;"@)
    &&& o.fields@[2].value matches FieldValue::Object(k) && is_key_object(k, key)
}

fn field(name: &str, descriptor: &str, value: FieldValue) -> (r: FieldWrite)
    ensures
        r.name@ == name@,
        r.descriptor@ == descriptor@,
        r.value == value,
{
    FieldWrite { name: String::from_str(name), descriptor: String::from_str(descriptor), value }
}

fn copy_bytes(b: &Vec<u8>) -> (r: Vec<u8>)
    ensures
        r@ == b@,
{
    let mut r: Vec<u8> = Vec::with_capacity(b.len());
    let mut i: usize = 0;
    while i < b.len()
        invariant
            i <= b@.len(),
            r@ == b@.take(i as int),
        decreases b@.len() - i,
    {
        r.push(b[i]);
        i += 1;
        assert(r@ =~= b@.take(i as int));
    }
    assert(b@.take(b@.len() as int) =~= b@);
    r
}

impl FfiResult {
    /// The managed `FfiResult` object for this result.
    pub fn to_managed(&self) -> (r: ManagedObject)
        ensures
            is_result_object(r, *self),
    {
        let error = match &self.error {
            Some(e) => Some(copy_bytes(e)),
            None => None,
        };
        let mut fields: Vec<FieldWrite> = Vec::with_capacity(2);
        fields.push(field("errorCode", "I", FieldValue::Int(self.error_code)));
        fields.push(field("error", "Ljava/lang/String;", FieldValue::Str(error)));
        ManagedObject { class: String::from_str("FfiResult"), fields }
    }

    /// A result as read from the native side: its code and its description,
    /// which is null or a NUL-terminated string.
    pub fn from_native(error_code: i32, error: Option<&[u8]>) -> (r: FfiResult)
        requires
            error matches Some(c) ==> has_nul(c@),
        ensures
            r.error_code == error_code,
            r.error is None <==> error is None,
            error matches Some(c) ==> c_string_text(c@, r.error->Some_0@),
    {
        let text = match error {
            Some(c) => Some(c_string_to_managed(c)),
            None => None,
        };
        FfiResult { error_code, error: text }
    }
}

impl Key {
    /// The managed `Key` object for this key.
    pub fn to_managed(&self) -> (r: ManagedObject)
        ensures
            is_key_object(r, self.bytes@),
    {
        let bytes = signed_bytes_to_managed(&self.bytes);
        let mut fields: Vec<FieldWrite> = Vec::with_capacity(1);
        fields.push(field("bytes", "[B", FieldValue::Bytes(bytes)));
        ManagedObject { class: String::from_str("Key"), fields }
    }

    /// The key whose managed `bytes` field holds `bytes`, of length eight.
    pub fn from_managed(bytes: &[i8]) -> (r: Key)
        requires
            bytes@.len() == 8,
        ensures
            r.bytes@ == bytes@,
    {
        Key { bytes: signed_bytes_from_managed::<8>(bytes) }
    }
}

/// The managed `Key[]` elements for the native keys `keys`, in order.
pub fn keys_to_managed(keys: &[Key]) -> (r: Vec<ManagedObject>)
    ensures
        r@.len() == keys@.len(),
        forall|i: int| 0 <= i < keys@.len() ==> is_key_object(#[trigger] r@[i], keys@[i].bytes@),
{
    let mut r: Vec<ManagedObject> = Vec::with_capacity(keys.len());
    let mut i: usize = 0;
    while i < keys.len()
        invariant
            i <= keys@.len(),
            r@.len() == i,
            forall|j: int| 0 <= j < i ==> is_key_object(#[trigger] r@[j], keys@[j].bytes@),
        decreases keys@.len() - i,
    {
        r.push(keys[i].to_managed());
        i += 1;
    }
    r
}

impl AppInfo {
    /// The name is a NUL-terminated string.
    pub open spec fn wf(&self) -> bool {
        has_nul(self.name@)
    }

    /// The managed `AppInfo` object for this description.
    pub fn to_managed(&self) -> (r: ManagedObject)
        requires
            self.wf(),
        ensures
            exists|t: Seq<u8>| c_string_text(self.name@, t) && is_app_info_object(r, self.id, t, self.key.bytes@),
    {
        let name = c_string_to_managed(self.name.as_slice());
        let key = self.key.to_managed();
        let mut fields: Vec<FieldWrite> = Vec::with_capacity(3);
        fields.push(field("id", "I", FieldValue::Int(self.id)));
        fields.push(field("name", "Ljava/lang/String;", FieldValue::Str(Some(name))));
        fields.push(field("key", "LKey;", FieldValue::Object(key)));
        let r = ManagedObject { class: String::from_str("AppInfo"), fields };
        assert(is_app_info_object(r, self.id, name@, self.key.bytes@));
        r
    }

    /// The description read from the managed fields `id`, `name` (the bytes
    /// of its encoding) and `key.bytes` (eight bytes).
    pub fn from_managed(id: i32, name: &[u8], key_bytes: &[i8]) -> (r: AppInfo)
        requires
            has_no_nul(name@),
            key_bytes@.len() == 8,
        ensures
            r.wf(),
            r.id == id,
            r.name@ == name@.push(0),
            r.key.bytes@ == key_bytes@,
    {
        let name = c_string_from_managed(name);
        assert(name@[name@.len() - 1] == 0);
        AppInfo { id, name, key: Key::from_managed(key_bytes) }
    }
}

/// A description read from managed fields and sent back to the managed side
/// carries the same identifier, name and key bytes.
pub proof fn lemma_app_info_round_trip(id: i32, name: Seq<u8>, key: Seq<i8>, info: AppInfo, o: ManagedObject)
    requires
        has_no_nul(name),
        info.id == id,
        info.name@ == name.push(0),
        info.key.bytes@ == key,
        exists|t: Seq<u8>| c_string_text(info.name@, t) && is_app_info_object(o, info.id, t, info.key.bytes@),
    ensures
        is_app_info_object(o, id, name, key),
{
    let t = choose|t: Seq<u8>| c_string_text(info.name@, t) && is_app_info_object(o, info.id, t, info.key.bytes@);
    crate::convert::lemma_c_string_round_trip(name, t);
}

/// A key sent to the managed side and read back from its `bytes` field is the
/// same key.
pub proof fn lemma_key_round_trip(k: Key, o: ManagedObject, back: Key)
    requires
        is_key_object(o, k.bytes@),
        o.fields@[0].value matches FieldValue::Bytes(b) && back.bytes@ == b@,
    ensures
        back.bytes@ == k.bytes@,
        back.bytes == k.bytes,
{
    assert(back.bytes@ =~= k.bytes@);
    assert(back.bytes =~= k.bytes);
}

} // verus!
