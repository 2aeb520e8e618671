use drax_core::{
    read_var_int, read_var_long, size_var_int, size_var_long, write_var_int, write_var_long,
    Error, TransportProcessorContext, VarIntDecoder, VarIntStep, VarLongDecoder, VarLongStep,
};

fn encode_int(v: i32) -> Vec<u8> {
    let mut ctx = TransportProcessorContext::new();
    let mut out: Vec<u8> = Vec::new();
    write_var_int(v, &mut ctx, &mut out).unwrap();
    out
}

fn decode_int(bytes: &Vec<u8>) -> Result<i32, Error> {
    let mut ctx = TransportProcessorContext::new();
    let mut pos: usize = 0;
    read_var_int(&mut ctx, bytes, &mut pos)
}

fn encode_long(v: i64) -> Vec<u8> {
    let mut ctx = TransportProcessorContext::new();
    let mut out: Vec<u8> = Vec::new();
    write_var_long(v, &mut ctx, &mut out).unwrap();
    out
}

fn decode_long(bytes: &Vec<u8>) -> Result<i64, Error> {
    let mut ctx = TransportProcessorContext::new();
    let mut pos: usize = 0;
    read_var_long(&mut ctx, bytes, &mut pos)
}

#[test]
fn var_int_example_300() {
    let out = encode_int(300);
    assert_eq!(out, vec![0xAC, 0x02]);
    assert_eq!(decode_int(&vec![0xAC, 0x02]).unwrap(), 300);
}

#[test]
fn var_int_example_negative_one() {
    let out = encode_int(-1);
    assert_eq!(out, vec![0xFF, 0xFF, 0xFF, 0xFF, 0x0F]);
    assert_eq!(decode_int(&out).unwrap(), -1);
}

#[test]
fn var_int_zero_is_one_zero_byte() {
    assert_eq!(encode_int(0), vec![0x00]);
    assert_eq!(decode_int(&vec![0x00]).unwrap(), 0);
}

#[test]
fn var_int_round_trip_samples() {
    let samples: Vec<i32> = vec![
        0, 1, -1, 2, 127, 128, 255, 300, 16383, 16384, 2097151, 2097152, 268435455, 268435456,
        i32::MAX, i32::MIN, -300, -12345678,
    ];
    for v in samples {
        let out = encode_int(v);
        assert_eq!(decode_int(&out).unwrap(), v, "round trip failed for {}", v);
        assert!(out.len() >= 1 && out.len() <= 5);
    }
}

#[test]
fn var_int_size_agrees_with_write() {
    let mut ctx = TransportProcessorContext::new();
    let samples: Vec<i32> = vec![0, 1, -1, 127, 128, 300, 16384, i32::MAX, i32::MIN];
    for v in samples {
        let out = encode_int(v);
        let size = size_var_int(v, &mut ctx).unwrap();
        assert_eq!(size, out.len(), "size mismatch for {}", v);
    }
}

#[test]
fn var_int_group_lengths() {
    let mut ctx = TransportProcessorContext::new();
    assert_eq!(size_var_int(0x7F, &mut ctx).unwrap(), 1);
    assert_eq!(size_var_int(0x80, &mut ctx).unwrap(), 2);
    assert_eq!(size_var_int(0x3FFF, &mut ctx).unwrap(), 2);
    assert_eq!(size_var_int(0x4000, &mut ctx).unwrap(), 3);
    assert_eq!(size_var_int(0x1F_FFFF, &mut ctx).unwrap(), 3);
    assert_eq!(size_var_int(0x20_0000, &mut ctx).unwrap(), 4);
    assert_eq!(size_var_int(0xFFF_FFFF, &mut ctx).unwrap(), 4);
    assert_eq!(size_var_int(0x1000_0000, &mut ctx).unwrap(), 5);
    assert_eq!(size_var_int(-1, &mut ctx).unwrap(), 5);
}

#[test]
fn var_int_malformed_five_continuation_bytes() {
    let data: Vec<u8> = vec![0x80, 0x80, 0x80, 0x80, 0x80];
    let mut ctx = TransportProcessorContext::new();
    let mut pos: usize = 0;
    let r = read_var_int(&mut ctx, &data, &mut pos);
    assert_eq!(r, Err(Error::MalformedVarint));
    assert_eq!(pos, 5);
}

#[test]
fn var_int_malformed_never_reads_sixth_byte() {
    // a sixth byte is present and would terminate, but the budget is gone
    let data: Vec<u8> = vec![0x80, 0x80, 0x80, 0x80, 0x80, 0x01];
    let mut ctx = TransportProcessorContext::new();
    let mut pos: usize = 0;
    let r = read_var_int(&mut ctx, &data, &mut pos);
    assert_eq!(r, Err(Error::MalformedVarint));
    assert_eq!(pos, 5);
}

#[test]
fn var_int_short_read() {
    let data: Vec<u8> = vec![0x80, 0x80];
    let mut ctx = TransportProcessorContext::new();
    let mut pos: usize = 0;
    let r = read_var_int(&mut ctx, &data, &mut pos);
    assert_eq!(r, Err(Error::ShortRead));
}

#[test]
fn var_long_round_trip_samples() {
    let samples: Vec<i64> = vec![
        0, 1, -1, 127, 128, 300, 16384, 2097152, 268435456, 34359738368, i64::MAX, i64::MIN,
        -9876543210,
    ];
    for v in samples {
        let out = encode_long(v);
        assert_eq!(decode_long(&out).unwrap(), v, "round trip failed for {}", v);
        assert!(out.len() >= 1 && out.len() <= 10);
    }
}

#[test]
fn var_long_negative_one_takes_ten_bytes() {
    let out = encode_long(-1);
    assert_eq!(out.len(), 10);
    assert_eq!(
        out,
        vec![0xFF, 0xFF, 0xFF, 0xFF, 0xFF, 0xFF, 0xFF, 0xFF, 0xFF, 0x01]
    );
}

#[test]
fn var_long_size_agrees_with_write() {
    let mut ctx = TransportProcessorContext::new();
    let samples: Vec<i64> = vec![0, 1, -1, 127, 128, 300, 16384, i64::MAX, i64::MIN];
    for v in samples {
        let out = encode_long(v);
        let size = size_var_long(v, &mut ctx).unwrap();
        assert_eq!(size, out.len(), "size mismatch for {}", v);
    }
}

#[test]
fn var_long_malformed_ten_continuation_bytes() {
    let data: Vec<u8> = vec![0x80; 10];
    let mut ctx = TransportProcessorContext::new();
    let mut pos: usize = 0;
    let r = read_var_long(&mut ctx, &data, &mut pos);
    assert_eq!(r, Err(Error::MalformedVarint));
    assert_eq!(pos, 10);
}

#[test]
fn decoder_step_parity_with_slice_read_int() {
    // the suspendable adapter feeds bytes one at a time; its outcome must
    // match the one-shot read of the same stream
    let data: Vec<u8> = vec![0xAC, 0x02];
    let mut decoder = VarIntDecoder::new();
    assert_eq!(decoder.step(data[0]), VarIntStep::NeedMore);
    assert_eq!(decoder.step(data[1]), VarIntStep::Done { value: 300 });
    assert_eq!(decode_int(&data).unwrap(), 300);
}

#[test]
fn decoder_step_parity_malformed_int() {
    let data: Vec<u8> = vec![0x80, 0x80, 0x80, 0x80, 0x80, 0x01];
    let mut decoder = VarIntDecoder::new();
    for i in 0..5 {
        assert_eq!(decoder.step(data[i]), VarIntStep::NeedMore);
    }
    // budget exhausted: the sixth byte is refused, exactly as the one-shot
    // read reports malformed input after five bytes
    assert_eq!(decoder.step(data[5]), VarIntStep::TooLong);
    let mut ctx = TransportProcessorContext::new();
    let mut pos: usize = 0;
    assert_eq!(read_var_int(&mut ctx, &data, &mut pos), Err(Error::MalformedVarint));
}

#[test]
fn decoder_step_parity_with_slice_read_long() {
    let data = encode_long(-9876543210);
    let mut decoder = VarLongDecoder::new();
    let mut result: Option<i64> = None;
    for i in 0..data.len() {
        match decoder.step(data[i]) {
            VarLongStep::NeedMore => {}
            VarLongStep::Done { value } => {
                result = Some(value);
            }
            VarLongStep::TooLong => panic!("unexpected TooLong"),
        }
    }
    assert_eq!(result, Some(-9876543210));
    assert_eq!(decode_long(&data).unwrap(), -9876543210);
}

#[test]
fn var_int_empty_input_is_short_read() {
    let data: Vec<u8> = Vec::new();
    let mut ctx = TransportProcessorContext::new();
    let mut pos: usize = 0;
    assert_eq!(read_var_int(&mut ctx, &data, &mut pos), Err(Error::ShortRead));
    assert_eq!(read_var_long(&mut ctx, &data, &mut pos), Err(Error::ShortRead));
}

#[test]
fn var_int_read_advances_past_value_only() {
    // two values back to back: reading consumes exactly one encoding
    let mut ctx = TransportProcessorContext::new();
    let mut data: Vec<u8> = Vec::new();
    write_var_int(300, &mut ctx, &mut data).unwrap();
    write_var_int(7, &mut ctx, &mut data).unwrap();
    let mut pos: usize = 0;
    assert_eq!(read_var_int(&mut ctx, &data, &mut pos).unwrap(), 300);
    assert_eq!(pos, 2);
    assert_eq!(read_var_int(&mut ctx, &data, &mut pos).unwrap(), 7);
    assert_eq!(pos, 3);
}
