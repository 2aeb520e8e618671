use drax_core::{read_json, size_json, write_json, Error, TransportProcessorContext};
use serde_json::{Number, Value};

fn sample_object() -> Value {
    let mut map = serde_json::Map::new();
    map.insert(String::from("name"), Value::String(String::from("codec")));
    map.insert(String::from("count"), Value::Number(Number::from(300)));
    map.insert(
        String::from("items"),
        Value::Array(vec![Value::Bool(true), Value::Null]),
    );
    Value::Object(map)
}

#[test]
fn json_round_trip() {
    let mut ctx = TransportProcessorContext::new();
    let value = sample_object();
    let mut out: Vec<u8> = Vec::new();
    write_json(1000, &value, &mut ctx, &mut out).unwrap();
    let mut pos: usize = 0;
    let back = read_json(1000, &mut ctx, &out, &mut pos).unwrap();
    assert_eq!(back, value);
    assert_eq!(pos, out.len());
}

#[test]
fn json_wire_form_is_length_prefixed_text() {
    let mut ctx = TransportProcessorContext::new();
    let value = Value::Array(vec![Value::Number(Number::from(1)), Value::Number(Number::from(2))]);
    let mut out: Vec<u8> = Vec::new();
    write_json(1000, &value, &mut ctx, &mut out).unwrap();
    let text = b"[1,2]";
    assert_eq!(out[0] as usize, text.len());
    assert_eq!(&out[1..], &text[..]);
}

#[test]
fn json_size_agrees_with_write() {
    let mut ctx = TransportProcessorContext::new();
    let value = sample_object();
    let size = size_json(&value, &mut ctx).unwrap();
    let mut out: Vec<u8> = Vec::new();
    write_json(1000, &value, &mut ctx, &mut out).unwrap();
    assert_eq!(size, out.len());
}

#[test]
fn json_write_bound_exceeded() {
    let mut ctx = TransportProcessorContext::new();
    let value = Value::String(String::from("a string that is long enough"));
    let mut out: Vec<u8> = Vec::new();
    let r = write_json(2, &value, &mut ctx, &mut out);
    match r {
        Err(Error::BoundExceeded { byte_length, reported_max }) => {
            assert_eq!(byte_length, 30);
            assert_eq!(reported_max, 8);
        }
        other => panic!("expected BoundExceeded, got {:?}", other),
    }
    assert!(out.is_empty());
}

#[test]
fn json_read_rejects_text_that_is_not_json() {
    let mut ctx = TransportProcessorContext::new();
    let mut out: Vec<u8> = Vec::new();
    drax_core::write_string(100, &String::from("not json {"), &mut ctx, &mut out).unwrap();
    let mut pos: usize = 0;
    let r = read_json(100, &mut ctx, &out, &mut pos);
    assert_eq!(r, Err(Error::EncodingError));
}

#[test]
fn json_read_propagates_negative_length() {
    let mut ctx = TransportProcessorContext::new();
    let data: Vec<u8> = vec![0xFF, 0xFF, 0xFF, 0xFF, 0x0F];
    let mut pos: usize = 0;
    let r = read_json(100, &mut ctx, &data, &mut pos);
    assert_eq!(r, Err(Error::InvalidLength { length: -1 }));
}

#[test]
fn json_write_at_exact_bound_succeeds() {
    // the text "[1,22]" is six bytes, exactly three times a maximum of two:
    // success is owed at the bound
    let mut ctx = TransportProcessorContext::new();
    let value = Value::Array(vec![Value::Number(Number::from(1)), Value::Number(Number::from(22))]);
    let mut out: Vec<u8> = Vec::new();
    write_json(2, &value, &mut ctx, &mut out).unwrap();
    assert_eq!(out, vec![6, b'[', b'1', b',', b'2', b'2', b']']);
    assert_eq!(size_json(&value, &mut ctx).unwrap(), out.len());
}
