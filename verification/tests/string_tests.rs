use drax_core::{
    read_string, read_string_checked, size_string, write_string, write_string_checked, Error,
    TransportProcessorContext,
};

#[test]
fn string_round_trip() {
    let mut ctx = TransportProcessorContext::new();
    let mut out: Vec<u8> = Vec::new();
    let text = String::from("hello");
    write_string(100, &text, &mut ctx, &mut out).unwrap();
    assert_eq!(out, vec![5, b'h', b'e', b'l', b'l', b'o']);
    let mut pos: usize = 0;
    let back = read_string(100, &mut ctx, &out, &mut pos).unwrap();
    assert_eq!(back, "hello");
    assert_eq!(pos, out.len());
}

#[test]
fn string_round_trip_multibyte() {
    let mut ctx = TransportProcessorContext::new();
    let mut out: Vec<u8> = Vec::new();
    let text = String::from("caf\u{e9} \u{1F600}");
    write_string(100, &text, &mut ctx, &mut out).unwrap();
    let mut pos: usize = 0;
    let back = read_string(100, &mut ctx, &out, &mut pos).unwrap();
    assert_eq!(back, text);
}

#[test]
fn empty_string_round_trip() {
    let mut ctx = TransportProcessorContext::new();
    let mut out: Vec<u8> = Vec::new();
    write_string(10, &String::new(), &mut ctx, &mut out).unwrap();
    assert_eq!(out, vec![0]);
    let mut pos: usize = 0;
    assert_eq!(read_string(10, &mut ctx, &out, &mut pos).unwrap(), "");
}

#[test]
fn write_string_bound_exceeded_reports_four_times_max() {
    let mut ctx = TransportProcessorContext::new();
    let mut out: Vec<u8> = Vec::new();
    // ten bytes against a maximum of three: the enforced bound is nine
    // (three times), while the error reports twelve (four times)
    let text = String::from("0123456789");
    let r = write_string(3, &text, &mut ctx, &mut out);
    assert_eq!(
        r,
        Err(Error::BoundExceeded { byte_length: 10, reported_max: 12 })
    );
    assert!(out.is_empty());
}

#[test]
fn write_string_at_exact_bound_succeeds() {
    let mut ctx = TransportProcessorContext::new();
    let mut out: Vec<u8> = Vec::new();
    let text = String::from("012345678");
    write_string(3, &text, &mut ctx, &mut out).unwrap();
    assert_eq!(out.len(), 10);
}

#[test]
fn read_string_bound_checked_before_body() {
    let mut ctx = TransportProcessorContext::new();
    // a length prefix of 100 with no body present at all: the bound check
    // fires before any body byte is needed
    let mut data: Vec<u8> = Vec::new();
    drax_core::write_var_int(100, &mut ctx, &mut data).unwrap();
    let mut pos: usize = 0;
    let r = read_string(3, &mut ctx, &data, &mut pos);
    assert_eq!(
        r,
        Err(Error::BoundExceeded { byte_length: 100, reported_max: 12 })
    );
}

#[test]
fn read_string_negative_length_rejected_without_body() {
    let mut ctx = TransportProcessorContext::new();
    // a VarInt prefix of -1, with no body bytes behind it
    let data: Vec<u8> = vec![0xFF, 0xFF, 0xFF, 0xFF, 0x0F];
    let mut pos: usize = 0;
    let r = read_string(1000, &mut ctx, &data, &mut pos);
    assert_eq!(r, Err(Error::InvalidLength { length: -1 }));
    assert_eq!(pos, 5);
}

#[test]
fn read_string_invalid_utf8() {
    let mut ctx = TransportProcessorContext::new();
    let data: Vec<u8> = vec![2, 0xFF, 0xFE];
    let mut pos: usize = 0;
    let r = read_string(10, &mut ctx, &data, &mut pos);
    assert_eq!(r, Err(Error::EncodingError));
}

#[test]
fn read_string_short_body() {
    let mut ctx = TransportProcessorContext::new();
    let data: Vec<u8> = vec![5, b'h', b'i'];
    let mut pos: usize = 0;
    let r = read_string(10, &mut ctx, &data, &mut pos);
    assert_eq!(r, Err(Error::ShortRead));
}

#[test]
fn size_string_matches_write() {
    let mut ctx = TransportProcessorContext::new();
    let text = String::from("hello");
    let size = size_string(&text, &mut ctx).unwrap();
    let mut out: Vec<u8> = Vec::new();
    write_string(100, &text, &mut ctx, &mut out).unwrap();
    assert_eq!(size, out.len());
    assert_eq!(size, 6);
}

#[test]
fn checked_forms_skip_the_bound() {
    let mut ctx = TransportProcessorContext::new();
    let mut out: Vec<u8> = Vec::new();
    // longer than any bound a maximum of zero would allow
    let body: Vec<u8> = vec![b'a'; 7];
    write_string_checked(&body, &mut ctx, &mut out).unwrap();
    assert_eq!(out, vec![7, b'a', b'a', b'a', b'a', b'a', b'a', b'a']);
    let mut pos: usize = 1;
    let back = read_string_checked(7, &mut ctx, &out, &mut pos).unwrap();
    assert_eq!(back, "aaaaaaa");
    assert_eq!(pos, 8);
}
