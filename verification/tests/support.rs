use rsx::future::duplex::DuplexStream;
use rsx::future::sink::SafeSinkMapErr;
use rsx::num::Num;
use rsx::snowflake::Snowflake;

#[test]
fn test_snowflake_layout() {
    let sf = Snowflake::new(0, 3, 5);
    // The packed layout: timestamp << 22 | worker << 17 | datacenter << 12
    // | sequence.
    let id = sf.generate_with(1_000, 7);
    assert_eq!(id, (1_000i64 << 22) | (3 << 17) | (5 << 12) | 7);
    assert_eq!(id, 4_194_717_703);
}

#[test]
fn test_snowflake_generate_distinct() {
    let sf = Snowflake::new(Snowflake::EPOCH_2021, 1, 1);
    let a = sf.generate();
    let b = sf.generate();
    let c = sf.generate();
    assert!(a != b && b != c && a != c);
    assert!(a < b && b < c);
}

#[test]
fn test_snowflake_clock() {
    assert!(Snowflake::now_millis() >= 0);
    let sf = Snowflake::new(0, 0, 0);
    assert!(sf.millis_since_epoch() >= 0);
    let late = Snowflake::new(Snowflake::EPOCH_2022, 0, 0);
    // A current clock reads after the start of 2022.
    assert!(late.millis_since_epoch() >= 0);
    assert!(Snowflake::EPOCH_2021 < Snowflake::EPOCH_2022);
}

#[test]
fn test_snowflake_sequence_rolls_into_timestamp() {
    let sf = Snowflake::new(0, 0, 0);
    // A stalled clock still yields increasing ids.
    let mut last = sf.generate_with_time(1);
    for _ in 0..5000 {
        let next = sf.generate_with_time(1);
        assert!(next > last);
        last = next;
    }
}

#[test]
fn test_num_conversions() {
    assert_eq!(7u8.as_i64(), 7);
    assert_eq!(<u8 as Num>::from_i64(300), 44);
    assert_eq!((-1i32).as_i64(), -1);
    assert_eq!(5i64.as_usize(), 5);
    assert_eq!(<u64 as Num>::from_u64(9).as_u64(), 9);
    assert_eq!(1024u32.as_usize(), 1024);
}

#[test]
fn test_duplex_stream_access() {
    let mut d: DuplexStream<Vec<u8>, u8, Vec<u16>> = DuplexStream::new(vec![1u8], vec![2u16]);
    assert_eq!(d.get_sink(), &vec![1u8]);
    assert_eq!(d.get_stream(), &vec![2u16]);
    d.get_sink_mut().push(3);
    d.get_stream_mut().push(4);
    let (sink, stream) = d.split_into();
    assert_eq!(sink, vec![1u8, 3]);
    assert_eq!(stream, vec![2u16, 4]);
}

#[test]
fn test_safe_sink_map_err_holds_parts() {
    let wrapped = SafeSinkMapErr::new(vec![1u8], "tag");
    let (sink, f) = wrapped.into_inner();
    assert_eq!(sink, vec![1u8]);
    assert_eq!(f, "tag");
}
