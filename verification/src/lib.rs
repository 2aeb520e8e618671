//! A binary transport codec layer: variable-length integer encodings
//! (VarInt/VarLong), a bounded length-prefixed UTF-8 string codec built on
//! them, a JSON codec built on the string codec, and a generic transport
//! capability for fixed-size values such as UUIDs.

pub mod context;
pub mod error;
pub mod json;
pub mod strings;
pub mod transport;
pub mod varnum;

pub use context::TransportProcessorContext;
pub use error::Error;
pub use json::{read_json, size_json, write_json};
pub use strings::{
    read_string, read_string_checked, size_string, validate_string_length, write_string,
    write_string_checked,
};
pub use transport::{DraxTransport, Uuid};
pub use varnum::{
    read_var_int, read_var_long, size_var_int, size_var_long, write_var_int, write_var_long,
    VarIntDecoder, VarIntStep, VarLongDecoder, VarLongStep,
};
