//! Verified core of an XML deserialization runtime: the event model, the
//! content and text deserializer state machines, the byte-level value
//! parsers, the element-skipping helper, what the code of generated
//! deserializers does with children, attributes and dynamic types, and the
//! decisions the code renderer takes when it plans a deserializer.

pub mod bytes;
pub mod error;
pub mod event;
pub mod deserializer;
pub mod escape;
pub mod deserialize_bytes;
pub mod content;
pub mod text;
pub mod reader;
pub mod helper;
pub mod render;
pub mod handlers;
pub mod dynamic;
pub mod lists;
pub mod attributes;
pub mod rounds;
pub mod allows_any;
