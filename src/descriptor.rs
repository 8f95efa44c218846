//! Managed types and their JVM descriptors, as used to name fields and to look
//! up the `call` method of a managed callback.
use vstd::prelude::*;
use vstd::string::StringExecFns;

verus! {

/// A type on the managed side of the bridge.
pub enum ManagedType {
    Boolean,
    Byte,
    Int,
    Long,
    Str,
    /// An array of the element type.
    Array(Box<ManagedType>),
    /// An instance of the named class.
    Object(String),
}

/// The JVM descriptor of a managed type.
pub open spec fn descriptor_of(t: ManagedType) -> Seq<char>
    decreases t,
{
    match t {
        ManagedType::Boolean => "Z"@,
        ManagedType::Byte => "B"@,
        ManagedType::Int => "I"@,
        ManagedType::Long => "J"@,
        ManagedType::Str => "Ljava/lang/String;"@,
        ManagedType::Array(e) => "["@ + descriptor_of(*e),
        ManagedType::Object(c) => "L"@ + c@ + ";"@,
    }
}

/// The descriptors of `ps`, one after another.
pub open spec fn params_descriptor_of(ps: Seq<ManagedType>) -> Seq<char>
    decreases ps.len(),
{
    if ps.len() == 0 {
        Seq::empty()
    } else {
        params_descriptor_of(ps.drop_last()) + descriptor_of(ps.last())
    }
}

/// The descriptor of a method with parameters `ps` that returns nothing.
pub open spec fn void_method_descriptor_of(ps: Seq<ManagedType>) -> Seq<char> {
    "("@ + params_descriptor_of(ps) + ")V"@
}

/// The class through which every callback receives the native result.
pub open spec fn result_class() -> Seq<char> {
    "FfiResult"@
}

/// The descriptor of a managed callback's `call` method: it takes the native
/// result first, then the callback's own arguments.
pub open spec fn callback_descriptor_of(args: Seq<ManagedType>) -> Seq<char> {
    "("@ + "L"@ + result_class() + ";"@ + params_descriptor_of(args) + ")V"@
}

/// The JVM descriptor of `t`.
pub fn descriptor(t: &ManagedType) -> (r: String)
    ensures
        r@ == descriptor_of(*t),
    decreases t,
{
    match t {
        ManagedType::Boolean => String::from_str("Z"),
        ManagedType::Byte => String::from_str("B"),
        ManagedType::Int => String::from_str("I"),
        ManagedType::Long => String::from_str("J"),
        ManagedType::Str => String::from_str("Ljava/lang/String;"),
        ManagedType::Array(e) => {
            let mut r = String::from_str("[");
            let d = descriptor(e);
            r.append(d.as_str());
            r
        },
        ManagedType::Object(c) => {
            let mut r = String::from_str("L");
            r.append(c.as_str());
            r.append(";");
            r
        },
    }
}

fn append_params(r: &mut String, ps: &[ManagedType])
    ensures
        final(r)@ == old(r)@ + params_descriptor_of(ps@),
{
    let ghost start = r@;
    let mut i: usize = 0;
    while i < ps.len()
        invariant
            i <= ps@.len(),
            r@ == start + params_descriptor_of(ps@.take(i as int)),
        decreases ps@.len() - i,
    {
        let d = descriptor(&ps[i]);
        r.append(d.as_str());
        i += 1;
        assert(ps@.take(i as int).drop_last() =~= ps@.take(i - 1));
    }
    assert(ps@.take(ps@.len() as int) =~= ps@);
}

/// The JVM descriptor of a method with parameters `ps` that returns nothing.
pub fn void_method_descriptor(ps: &[ManagedType]) -> (r: String)
    ensures
        r@ == void_method_descriptor_of(ps@),
{
    let mut r = String::from_str("(");
    append_params(&mut r, ps);
    r.append(")V");
    r
}

/// The JVM descriptor of the `call` method of a callback whose arguments,
/// after the native result, have the types `args`.
pub fn callback_descriptor(args: &[ManagedType]) -> (r: String)
    ensures
        r@ == callback_descriptor_of(args@),
{
    let mut r = String::from_str("(");
    r.append("L");
    r.append("FfiResult");
    r.append(";");
    append_params(&mut r, args);
    r.append(")V");
    r
}

} // verus!
