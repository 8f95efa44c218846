//! Marshaling and callback-lifetime logic for a bridge between a JVM-hosted
//! caller and a native library with an asynchronous, callback-based C API.
pub mod convert;
pub mod descriptor;
pub mod header;
pub mod marshal;
pub mod slots;
