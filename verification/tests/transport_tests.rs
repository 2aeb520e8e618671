use drax_core::{DraxTransport, Error, TransportProcessorContext, Uuid};

fn round_trip(u: Uuid) -> Uuid {
    let mut ctx = TransportProcessorContext::new();
    let mut out: Vec<u8> = Vec::new();
    u.write_to_transport(&mut ctx, &mut out).unwrap();
    assert_eq!(out.len(), 16);
    let mut pos: usize = 0;
    let back = Uuid::read_from_transport(&mut ctx, &out, &mut pos).unwrap();
    assert_eq!(pos, 16);
    back
}

#[test]
fn uuid_round_trip_all_zero() {
    let u = Uuid::from_u64_pair(0, 0);
    assert_eq!(round_trip(u), u);
}

#[test]
fn uuid_round_trip_all_ones() {
    let u = Uuid::from_u64_pair(u64::MAX, u64::MAX);
    assert_eq!(round_trip(u), u);
}

#[test]
fn uuid_round_trip_mixed_bits() {
    let u = Uuid::from_u64_pair(0x0123_4567_89AB_CDEF, 0xFEDC_BA98_7654_3210);
    assert_eq!(round_trip(u), u);
    let (hi, lo) = u.as_u64_pair();
    assert_eq!(hi, 0x0123_4567_89AB_CDEF);
    assert_eq!(lo, 0xFEDC_BA98_7654_3210);
}

#[test]
fn uuid_precondition_size_is_sixteen() {
    let mut ctx = TransportProcessorContext::new();
    let samples = vec![
        Uuid::from_u64_pair(0, 0),
        Uuid::from_u64_pair(u64::MAX, u64::MAX),
        Uuid::from_u64_pair(1, 2),
        Uuid::from_u64_pair(0x8000_0000_0000_0000, 1),
    ];
    for u in samples {
        assert_eq!(u.precondition_size(&mut ctx).unwrap(), 16);
    }
}

#[test]
fn uuid_wire_order_is_most_significant_first() {
    let mut ctx = TransportProcessorContext::new();
    let u = Uuid::from_u64_pair(0x0102_0304_0506_0708, 0x090A_0B0C_0D0E_0F10);
    let mut out: Vec<u8> = Vec::new();
    u.write_to_transport(&mut ctx, &mut out).unwrap();
    assert_eq!(
        out,
        vec![1, 2, 3, 4, 5, 6, 7, 8, 9, 0x0A, 0x0B, 0x0C, 0x0D, 0x0E, 0x0F, 0x10]
    );
}

#[test]
fn u64_transport_big_endian() {
    let mut ctx = TransportProcessorContext::new();
    let v: u64 = 0x0102_0304_0506_0708;
    let mut out: Vec<u8> = Vec::new();
    v.write_to_transport(&mut ctx, &mut out).unwrap();
    assert_eq!(out, vec![1, 2, 3, 4, 5, 6, 7, 8]);
    let mut pos: usize = 0;
    assert_eq!(u64::read_from_transport(&mut ctx, &out, &mut pos).unwrap(), v);
    assert_eq!(v.precondition_size(&mut ctx).unwrap(), 8);
}

#[test]
fn uuid_read_short_input() {
    let mut ctx = TransportProcessorContext::new();
    let data: Vec<u8> = vec![0; 10];
    let mut pos: usize = 0;
    let r = Uuid::read_from_transport(&mut ctx, &data, &mut pos);
    assert_eq!(r, Err(Error::ShortRead));
}
