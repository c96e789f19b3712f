use common::rpc::codec::Wire;
use common::rpc::packing::{get_u32, get_u64, put_u32, put_u64};
use common::rpc::{Error, RpcFail, RpcMessage};

#[test]
fn big_endian_u32() {
    let mut out = Vec::new();
    put_u32(&mut out, 0x01020304);
    assert_eq!(out, vec![1, 2, 3, 4]);
    assert_eq!(get_u32(&out, 0), 0x01020304);
    assert_eq!(get_u32(&[9, 0xff, 0xff, 0xff, 0xff], 1), u32::MAX);
    assert_eq!(get_u32(&[0, 0, 0, 0], 0), 0);
}

#[test]
fn big_endian_u64() {
    let mut out = vec![7];
    put_u64(&mut out, 0x0102030405060708);
    assert_eq!(out, vec![7, 1, 2, 3, 4, 5, 6, 7, 8]);
    assert_eq!(get_u64(&out, 1), 0x0102030405060708);
    assert_eq!(get_u64(&[0xff; 8], 0), u64::MAX);
}

#[test]
fn number_takes_four_bytes() {
    assert_eq!(u32::decode(&[0, 0, 1, 0, 9, 9]).unwrap(), (256, 4));
    assert!(matches!(u32::decode(&[0, 0, 1]), Err(Error::Serde(_))));
    assert_eq!(7u32.fits(4), Some(0));
    assert_eq!(7u32.fits(3), None);
    assert_eq!(7u32.fits(10), Some(6));
}

#[test]
fn wide_number_takes_eight_bytes() {
    assert_eq!(u64::decode(&[0, 0, 0, 0, 0, 0, 1, 0, 9]).unwrap(), (256, 8));
    assert!(matches!(u64::decode(&[0; 7]), Err(Error::Serde(_))));
    assert_eq!(7u64.fits(8), Some(0));
    assert_eq!(7u64.fits(7), None);
}

#[test]
fn text_is_length_then_utf8() {
    let mut out = Vec::new();
    "h\u{e9}".encode(&mut out);
    assert_eq!(out, vec![0, 0, 0, 3, b'h', 0xc3, 0xa9]);
    let (text, used) = <&str>::decode(&out).unwrap();
    assert_eq!(text, "h\u{e9}");
    assert_eq!(used, 7);
    assert_eq!("h\u{e9}".fits(7), Some(0));
    assert_eq!("h\u{e9}".fits(6), None);
}

#[test]
fn bytes_are_length_then_content() {
    let mut out = Vec::new();
    let content: &[u8] = &[0xff, 0x00];
    content.encode(&mut out);
    assert_eq!(out, vec![0, 0, 0, 2, 0xff, 0x00]);
    out.push(1);
    let (back, used) = <&[u8]>::decode(&out).unwrap();
    assert_eq!(back, content);
    assert_eq!(used, 6);
}

#[test]
fn array_is_its_bytes() {
    let mut out = Vec::new();
    [1u8, 2, 3, 4, 5, 6].encode(&mut out);
    assert_eq!(out, vec![1, 2, 3, 4, 5, 6]);
    assert_eq!(<[u8; 6]>::decode(&out).unwrap(), ([1, 2, 3, 4, 5, 6], 6));
    assert!(matches!(<[u8; 16]>::decode(&out), Err(Error::Serde(_))));
    assert_eq!(<[u8; 16]>::decode(&[3; 20]).unwrap(), ([3; 16], 16));
}

#[test]
fn sequence_is_count_then_items() {
    let mut out = Vec::new();
    vec![1u32, 2].encode(&mut out);
    assert_eq!(out, vec![0, 0, 0, 2, 0, 0, 0, 1, 0, 0, 0, 2]);
    assert_eq!(Vec::<u32>::decode(&out).unwrap(), (vec![1, 2], 12));
    assert_eq!(vec![1u32, 2].fits(12), Some(0));
    assert_eq!(vec![1u32, 2].fits(11), None);
    assert_eq!(Vec::<u32>::decode(&[0, 0, 0, 0]).unwrap(), (vec![], 4));
}

#[test]
fn pair_is_one_then_the_other() {
    let mut out = Vec::new();
    (5u32, "a").encode(&mut out);
    assert_eq!(out, vec![0, 0, 0, 5, 0, 0, 0, 1, b'a']);
    assert_eq!(<(u32, &str)>::decode(&out).unwrap(), ((5, "a"), 9));
}

#[test]
fn record_reports_what_it_used() {
    let (fail, left) =
        RpcMessage::deserialize_check::<RpcFail>(&[0, 0, 0, 9, 0, 0, 0, 0, 1, 2]).unwrap();
    assert_eq!(fail.code, 9);
    assert_eq!(fail.message, "");
    assert_eq!(left, 2);
}
