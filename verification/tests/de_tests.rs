use bincode_de::config::{Endian, Options, SizeLimit};
use bincode_de::de::read::{BincodeRead, IoReader, ReadBytes, ReadExact, SliceReader, StreamReader};
use bincode_de::de::{Access, Deserializer};
use bincode_de::error::{ErrorKind, IoError, IoErrorKind, Utf8Error};
use bincode_de::utf8::utf8_char_width;

fn le() -> Options {
    Options::new(Endian::Little, SizeLimit::Infinite)
}

fn be() -> Options {
    Options::new(Endian::Big, SizeLimit::Infinite)
}

fn io_eof() -> IoError {
    IoError { kind: IoErrorKind::UnexpectedEof, detail: None }
}

fn eof() -> ErrorKind {
    ErrorKind::Io(io_eof())
}

#[test]
fn little_endian_integers() {
    let bytes = [0x34u8, 0x12, 0x78, 0x56, 0x34, 0x12, 1, 2, 3, 4, 5, 6, 7, 8];
    let mut d = Deserializer::from_slice(&bytes, le());
    assert_eq!(d.deserialize_u16().unwrap(), 0x1234);
    assert_eq!(d.deserialize_u32().unwrap(), 0x1234_5678);
    assert_eq!(d.deserialize_u64().unwrap(), 0x0807_0605_0403_0201);
    assert_eq!(*d.deserialize_u8().unwrap_err(), eof());
}

#[test]
fn big_endian_integers() {
    let bytes = [0x12u8, 0x34, 0x12, 0x34, 0x56, 0x78, 1, 2, 3, 4, 5, 6, 7, 8];
    let mut d = Deserializer::from_slice(&bytes, be());
    assert_eq!(d.deserialize_u16().unwrap(), 0x1234);
    assert_eq!(d.deserialize_u32().unwrap(), 0x1234_5678);
    assert_eq!(d.deserialize_u64().unwrap(), 0x0102_0304_0506_0708);
}

#[test]
fn u128_both_orders() {
    let mut bytes = [0u8; 16];
    for (i, b) in bytes.iter_mut().enumerate() {
        *b = i as u8 + 1;
    }
    let mut d = Deserializer::from_slice(&bytes, le());
    assert_eq!(d.deserialize_u128().unwrap(), u128::from_le_bytes(bytes));
    let mut d = Deserializer::from_slice(&bytes, be());
    assert_eq!(d.deserialize_u128().unwrap(), u128::from_be_bytes(bytes));
    let mut d = Deserializer::from_slice(&bytes, be());
    assert_eq!(d.deserialize_i128().unwrap(), i128::from_be_bytes(bytes));
}

#[test]
fn signed_integers_are_twos_complement() {
    let bytes = [0xffu8, 0xfe, 0xff, 0xfd, 0xff, 0xff, 0xff, 0xfc, 0xff, 0xff, 0xff, 0xff, 0xff, 0xff, 0xff];
    let mut d = Deserializer::from_slice(&bytes, le());
    assert_eq!(d.deserialize_i8().unwrap(), -1);
    assert_eq!(d.deserialize_i16().unwrap(), -2);
    assert_eq!(d.deserialize_i32().unwrap(), -3);
    assert_eq!(d.deserialize_i64().unwrap(), -4);
}

#[test]
fn literal_reads_match_plain_reads() {
    let bytes = [9u8, 1, 0, 2, 0, 0, 0];
    let mut d = Deserializer::from_slice(&bytes, le());
    assert_eq!(d.deserialize_byte().unwrap(), 9);
    assert_eq!(d.deserialize_literal_u16().unwrap(), 1);
    assert_eq!(d.deserialize_literal_u32().unwrap(), 2);
}

#[test]
fn float_bits() {
    let mut bytes = Vec::new();
    bytes.extend_from_slice(&1.5f32.to_le_bytes());
    bytes.extend_from_slice(&(-2.25f64).to_le_bytes());
    let mut d = Deserializer::from_slice(&bytes, le());
    assert_eq!(f32::from_bits(d.deserialize_f32_bits().unwrap()), 1.5f32);
    assert_eq!(f64::from_bits(d.deserialize_f64_bits().unwrap()), -2.25f64);
}

#[test]
fn bools() {
    let bytes = [1u8, 0, 2];
    let mut d = Deserializer::from_slice(&bytes, le());
    assert!(d.deserialize_bool().unwrap());
    assert!(!d.deserialize_bool().unwrap());
    assert_eq!(*d.deserialize_bool().unwrap_err(), ErrorKind::InvalidBoolEncoding(2));
    assert_eq!(*d.deserialize_bool().unwrap_err(), eof());
}

#[test]
fn option_tags() {
    let bytes = [0u8, 1, 7];
    let mut d = Deserializer::from_slice(&bytes, le());
    assert!(!d.deserialize_option_tag().unwrap());
    assert!(d.deserialize_option_tag().unwrap());
    assert_eq!(*d.deserialize_option_tag().unwrap_err(), ErrorKind::InvalidTagEncoding(7));
}

#[test]
fn variant_index_is_u32() {
    let bytes = [3u8, 0, 0, 0, 0, 0, 0, 4];
    let mut d = Deserializer::from_slice(&bytes, le());
    assert_eq!(d.deserialize_variant_index().unwrap(), 3);
    let mut d = Deserializer::from_slice(&bytes[4..], be());
    assert_eq!(d.deserialize_variant_index().unwrap(), 4);
}

#[test]
fn chars() {
    let mut bytes = Vec::new();
    for c in ['a', 'é', '€', '𝄞'] {
        let mut buf = [0u8; 4];
        bytes.extend_from_slice(c.encode_utf8(&mut buf).as_bytes());
    }
    let mut d = Deserializer::from_slice(&bytes, le());
    assert_eq!(d.deserialize_char().unwrap(), 'a');
    assert_eq!(d.deserialize_char().unwrap(), 'é');
    assert_eq!(d.deserialize_char().unwrap(), '€');
    assert_eq!(d.deserialize_char().unwrap(), '𝄞');
    assert_eq!(*d.deserialize_char().unwrap_err(), eof());
}

#[test]
fn char_with_bad_first_byte() {
    let bytes = [0x80u8, b'x'];
    let mut d = Deserializer::from_slice(&bytes, le());
    assert_eq!(*d.deserialize_char().unwrap_err(), ErrorKind::InvalidCharEncoding);
    // only the bad byte was taken
    assert_eq!(d.deserialize_char().unwrap(), 'x');
}

#[test]
fn char_cut_short() {
    let bytes = [0xE2u8, 0x82];
    let mut d = Deserializer::from_slice(&bytes, le());
    assert_eq!(*d.deserialize_char().unwrap_err(), ErrorKind::InvalidCharEncoding);
    // the first byte is gone, the rest was not taken
    assert_eq!(d.deserialize_u8().unwrap(), 0x82);
}

#[test]
fn char_with_bad_continuation() {
    let bytes = [0xC3u8, 0x41, 0x42];
    let mut d = Deserializer::from_slice(&bytes, le());
    assert_eq!(*d.deserialize_char().unwrap_err(), ErrorKind::InvalidCharEncoding);
    assert_eq!(d.deserialize_u8().unwrap(), 0x42);
}

#[test]
fn char_surrogate_is_rejected() {
    let bytes = [0xEDu8, 0xA0, 0x80];
    let mut d = Deserializer::from_slice(&bytes, le());
    assert_eq!(*d.deserialize_char().unwrap_err(), ErrorKind::InvalidCharEncoding);
}

#[test]
fn char_is_not_charged_to_the_limit() {
    let bytes = "€".as_bytes();
    let mut d = Deserializer::from_slice(bytes, Options::new(Endian::Little, SizeLimit::Bounded(0)));
    assert_eq!(d.deserialize_char().unwrap(), '€');
}

fn prefixed(order: Endian, payload: &[u8]) -> Vec<u8> {
    let len = payload.len() as u64;
    let mut v = match order {
        Endian::Little => len.to_le_bytes().to_vec(),
        Endian::Big => len.to_be_bytes().to_vec(),
    };
    v.extend_from_slice(payload);
    v
}

#[test]
fn strings_and_bytes() {
    let mut bytes = prefixed(Endian::Big, "héllo".as_bytes());
    bytes.extend(prefixed(Endian::Big, &[1, 2, 3]));
    bytes.extend(prefixed(Endian::Big, "wörld".as_bytes()));
    bytes.extend(prefixed(Endian::Big, &[4]));
    let mut d = Deserializer::from_slice(&bytes, be());
    assert_eq!(d.deserialize_string().unwrap(), "héllo");
    assert_eq!(d.deserialize_byte_buf().unwrap(), vec![1, 2, 3]);
    assert_eq!(d.deserialize_str().unwrap(), "wörld");
    assert_eq!(d.deserialize_bytes().unwrap(), vec![4]);
    assert_eq!(*d.deserialize_len().unwrap_err(), eof());
}

#[test]
fn empty_string() {
    let bytes = prefixed(Endian::Little, b"");
    let mut d = Deserializer::from_slice(&bytes, le());
    assert_eq!(d.read_string().unwrap(), "");
}

#[test]
fn invalid_utf8_string() {
    let mut bytes = prefixed(Endian::Little, &[0xff, 0xfe]);
    bytes.push(5);
    let mut d = Deserializer::from_slice(&bytes, le());
    assert_eq!(
        *d.read_string().unwrap_err(),
        ErrorKind::InvalidUtf8Encoding(Utf8Error { valid_up_to: 0, error_len: Some(1) })
    );
    // the bad bytes were taken
    assert_eq!(d.deserialize_u8().unwrap(), 5);
}

#[test]
fn invalid_utf8_str() {
    let bytes = prefixed(Endian::Little, &[0xc3]);
    let mut d = Deserializer::from_slice(&bytes, le());
    let e = d.deserialize_str().unwrap_err();
    assert_eq!(
        *e,
        ErrorKind::InvalidEncoding { desc: "string was not valid utf8", detail: None }
    );
}

#[test]
fn length_beyond_input() {
    let bytes = prefixed(Endian::Little, &[1, 2]);
    let mut d = Deserializer::from_slice(&bytes[..9], le());
    assert_eq!(*d.read_vec().unwrap_err(), eof());
    // the length was taken, the body was not
    assert_eq!(d.deserialize_u8().unwrap(), 1);
}

#[test]
fn length_beyond_limit() {
    let bytes = prefixed(Endian::Little, &[1, 2, 3]);
    let mut d = Deserializer::from_slice(&bytes, Options::new(Endian::Little, SizeLimit::Bounded(10)));
    assert_eq!(*d.read_vec().unwrap_err(), ErrorKind::SizeLimit);
    // the body was not taken
    assert_eq!(d.deserialize_u8().unwrap(), 1);
    let mut d = Deserializer::from_slice(&bytes, Options::new(Endian::Little, SizeLimit::Bounded(11)));
    assert_eq!(d.read_vec().unwrap(), vec![1, 2, 3]);
}

#[test]
fn size_limit_refuses_without_reading() {
    let bytes = [7u8, 8, 9];
    let mut d = Deserializer::from_slice(&bytes, Options::new(Endian::Little, SizeLimit::Bounded(1)));
    assert_eq!(*d.deserialize_u16().unwrap_err(), ErrorKind::SizeLimit);
    assert_eq!(d.deserialize_u8().unwrap(), 7);
    assert_eq!(*d.deserialize_u8().unwrap_err(), ErrorKind::SizeLimit);
}

#[test]
fn limit_is_charged_before_the_source_is_read() {
    let bytes = [1u8];
    let mut d = Deserializer::from_slice(&bytes, Options::new(Endian::Little, SizeLimit::Bounded(4)));
    assert_eq!(*d.deserialize_u16().unwrap_err(), eof());
    assert_eq!(*d.deserialize_u16().unwrap_err(), eof());
    assert_eq!(*d.deserialize_u8().unwrap_err(), ErrorKind::SizeLimit);
}

#[test]
fn read_bytes_and_literal_type_charge_the_limit() {
    let bytes = [5u8];
    let mut d = Deserializer::from_slice(&bytes, Options::new(Endian::Little, SizeLimit::Bounded(7)));
    d.read_bytes(4).unwrap();
    d.read_literal_type::<u16>().unwrap();
    assert_eq!(*d.read_literal_type::<u16>().unwrap_err(), ErrorKind::SizeLimit);
    assert_eq!(d.deserialize_u8().unwrap(), 5);
}

#[test]
fn size_limit_add() {
    let mut l = SizeLimit::Bounded(5);
    l.add(3).unwrap();
    assert_eq!(l, SizeLimit::Bounded(2));
    assert_eq!(*l.add(3).unwrap_err(), ErrorKind::SizeLimit);
    assert_eq!(l, SizeLimit::Bounded(2));
    let mut inf = SizeLimit::Infinite;
    inf.add(u64::MAX).unwrap();
    assert_eq!(inf, SizeLimit::Infinite);
}

#[test]
fn unsupported_requests() {
    let bytes = [1u8];
    let mut d = Deserializer::from_slice(&bytes, le());
    assert_eq!(*d.deserialize_any().unwrap_err(), ErrorKind::DeserializeAnyNotSupported);
    assert_eq!(
        *d.deserialize_identifier().unwrap_err(),
        ErrorKind::Custom("Bincode does not support Deserializer::deserialize_identifier".to_string())
    );
    assert_eq!(
        *d.deserialize_ignored_any().unwrap_err(),
        ErrorKind::Custom("Bincode does not support Deserializer::deserialize_ignored_any".to_string())
    );
    assert!(!d.is_human_readable());
    // nothing was read
    assert_eq!(d.deserialize_u8().unwrap(), 1);
}

#[test]
fn io_reader_decodes_like_slice_reader() {
    let mut bytes = vec![0x34u8, 0x12, 1];
    bytes.extend(prefixed(Endian::Little, "ab€".as_bytes()));
    bytes.extend(prefixed(Endian::Little, &[9, 8]));
    bytes.extend("é".as_bytes());
    let mut d = Deserializer::with_reader(SliceReader::new(&bytes), le());
    assert_eq!(d.deserialize_u16().unwrap(), 0x1234);
    assert!(d.deserialize_bool().unwrap());
    assert_eq!(d.deserialize_str().unwrap(), "ab€");
    assert_eq!(d.deserialize_bytes().unwrap(), vec![9, 8]);
    assert_eq!(d.deserialize_char().unwrap(), 'é');
    assert_eq!(*d.deserialize_u8().unwrap_err(), eof());
}

#[test]
fn io_reader_buffer_is_reused() {
    let mut bytes = prefixed(Endian::Little, b"long string");
    bytes.extend(prefixed(Endian::Little, b"ab"));
    bytes.extend(prefixed(Endian::Little, &[0xff]));
    let mut d = Deserializer::with_reader(SliceReader::new(&bytes), le());
    assert_eq!(d.deserialize_str().unwrap(), "long string");
    assert_eq!(d.deserialize_str().unwrap(), "ab");
    assert_eq!(
        *d.deserialize_str().unwrap_err(),
        ErrorKind::InvalidEncoding { desc: "string was not valid utf8", detail: None }
    );
}

#[test]
fn io_reader_methods() {
    let bytes = [1u8, 2, 3, b'h', b'i', 4];
    let mut r = IoReader::new(SliceReader::new(&bytes));
    assert_eq!(r.read_exact_bytes(2).unwrap(), vec![1, 2]);
    assert_eq!(r.get_byte_buffer(1).unwrap(), vec![3]);
    assert_eq!(r.forward_read_str(2).unwrap(), "hi");
    assert_eq!(r.forward_read_bytes(1).unwrap(), vec![4]);
    assert_eq!(*r.read_exact_bytes(1).unwrap_err(), eof());
}

#[test]
fn slice_reader_methods() {
    let bytes = [1u8, 2, 3, b'h', b'i', 4, 0xff];
    let mut r = SliceReader::new(&bytes);
    assert_eq!(r.read_exact_bytes(2).unwrap(), vec![1, 2]);
    assert_eq!(r.get_byte_slice(1).unwrap(), &[3u8][..]);
    assert_eq!(r.forward_read_borrowed_str(2).unwrap(), "hi");
    assert_eq!(*r.read_exact_bytes(3).unwrap_err(), eof());
    assert_eq!(r.forward_read_bytes(1).unwrap(), vec![4]);
    assert_eq!(
        *r.forward_read_str(1).unwrap_err(),
        ErrorKind::InvalidEncoding { desc: "string was not valid utf8", detail: None }
    );
    assert_eq!(*r.get_byte_buffer(1).unwrap_err(), eof());
}

#[test]
fn utf8_char_width_table() {
    for b in 0u8..=0x7f {
        assert_eq!(utf8_char_width(b), 1);
    }
    for b in 0x80u8..=0xc1 {
        assert_eq!(utf8_char_width(b), 0);
    }
    for b in 0xc2u8..=0xdf {
        assert_eq!(utf8_char_width(b), 2);
    }
    for b in 0xe0u8..=0xef {
        assert_eq!(utf8_char_width(b), 3);
    }
    for b in 0xf0u8..=0xf4 {
        assert_eq!(utf8_char_width(b), 4);
    }
    for b in 0xf5u8..=0xff {
        assert_eq!(utf8_char_width(b), 0);
    }
}

#[test]
fn utf8_char_width_agrees_with_std() {
    for c in ['\0', 'z', 'ß', '中', '😀', '\u{10FFFF}'] {
        let mut buf = [0u8; 4];
        let s = c.encode_utf8(&mut buf);
        assert_eq!(utf8_char_width(s.as_bytes()[0]), c.len_utf8());
    }
}

#[test]
fn access_counts_elements() {
    let mut a = Access::new(2);
    assert_eq!(a.size_hint(), Some(2));
    assert!(a.next_element());
    assert_eq!(a.size_hint(), Some(1));
    assert!(a.next_element());
    assert!(!a.next_element());
    assert!(!a.next_element());
    assert_eq!(a.size_hint(), Some(0));
}

#[test]
fn byte_order_law_on_values() {
    let bytes = [0xdeu8, 0xad, 0xbe, 0xef];
    let mut rev = bytes;
    rev.reverse();
    let mut d1 = Deserializer::from_slice(&bytes, be());
    let mut d2 = Deserializer::from_slice(&rev, le());
    assert_eq!(d1.deserialize_u32().unwrap(), d2.deserialize_u32().unwrap());
}

#[test]
fn with_bincode_read_uses_the_given_reader() {
    let bytes = [1u8, 2, 3];
    let mut r = SliceReader::new(&bytes);
    r.read_exact_bytes(1).unwrap();
    let mut d = Deserializer::with_bincode_read(r, le());
    assert_eq!(d.deserialize_u16().unwrap(), 0x0302);
}

#[test]
fn borrowed_str_and_bytes_from_slice() {
    let mut bytes = prefixed(Endian::Little, "zéro".as_bytes());
    bytes.extend(prefixed(Endian::Little, &[7, 7]));
    bytes.extend(prefixed(Endian::Little, &[0xe2, 0x28, 0xa1]));
    let mut d = Deserializer::from_slice(&bytes, le());
    let s: &str = d.deserialize_borrowed_str().unwrap();
    assert_eq!(s, "zéro");
    let b: &[u8] = d.deserialize_borrowed_bytes().unwrap();
    assert_eq!(b, &[7u8, 7][..]);
    assert_eq!(
        *d.deserialize_borrowed_str().unwrap_err(),
        ErrorKind::InvalidEncoding { desc: "string was not valid utf8", detail: None }
    );
    assert_eq!(*d.deserialize_borrowed_bytes().unwrap_err(), eof());
}

#[test]
fn limit_charges_exactly_what_is_read() {
    let mut bytes = prefixed(Endian::Little, &[1, 2, 3]);
    bytes.extend_from_slice(&[4, 5]);
    let mut d = Deserializer::from_slice(&bytes, Options::new(Endian::Little, SizeLimit::Bounded(12)));
    assert_eq!(d.read_vec().unwrap(), vec![1, 2, 3]);
    assert_eq!(d.deserialize_u8().unwrap(), 4);
    assert_eq!(*d.deserialize_u8().unwrap_err(), ErrorKind::SizeLimit);
}

#[test]
fn invalid_utf8_string_reports_where() {
    let mut bytes = prefixed(Endian::Little, &[b'o', b'k', 0xe2, 0x82]);
    bytes.extend(prefixed(Endian::Little, &[b'a', 0xe2, 0x28, 0xa1]));
    let mut d = Deserializer::from_slice(&bytes, le());
    // the input ends inside a character
    assert_eq!(
        *d.deserialize_string().unwrap_err(),
        ErrorKind::InvalidUtf8Encoding(Utf8Error { valid_up_to: 2, error_len: None })
    );
    // an ill-formed sequence of one byte after one good byte
    let e = d.read_string().unwrap_err();
    let expected = std::str::from_utf8(&[b'a', 0xe2, 0x28, 0xa1]).unwrap_err();
    assert_eq!(
        *e,
        ErrorKind::InvalidUtf8Encoding(Utf8Error {
            valid_up_to: expected.valid_up_to(),
            error_len: expected.error_len(),
        })
    );
}

#[test]
fn io_reader_get_byte_buffer_takes_the_reader_bytes() {
    let bytes = [1u8, 2, 3];
    let mut r = IoReader::new(SliceReader::new(&bytes));
    assert_eq!(r.get_byte_buffer(2).unwrap(), vec![1, 2]);
    assert_eq!(r.read_exact_bytes(1).unwrap(), vec![3]);
}

#[test]
fn io_reader_forward_read_str_not_utf8() {
    let bytes = [0xffu8, 0x61];
    let mut r = IoReader::new(SliceReader::new(&bytes));
    assert_eq!(
        *r.forward_read_str(2).unwrap_err(),
        ErrorKind::InvalidEncoding { desc: "string was not valid utf8", detail: None }
    );
}

#[test]
fn io_reader_short_reader_is_unexpected_eof() {
    let bytes = [b'a', b'b'];
    let mut r = IoReader::new(SliceReader::new(&bytes));
    assert_eq!(*r.forward_read_str(3).unwrap_err(), eof());
    assert_eq!(*r.forward_read_bytes(3).unwrap_err(), eof());
    // nothing was taken by the failed reads
    assert_eq!(r.forward_read_str(2).unwrap(), "ab");
}

#[test]
fn io_reader_reads_as_a_reader_too() {
    let bytes = [5u8, 6, 7];
    let mut inner = IoReader::new(SliceReader::new(&bytes));
    let mut buf = vec![0u8; 3];
    inner.read_exact_prefix(&mut buf, 2).unwrap();
    assert_eq!(buf, vec![5, 6, 0]);
    let mut outer = IoReader::new(inner);
    assert_eq!(outer.get_byte_buffer(1).unwrap(), vec![7]);
    assert_eq!(*outer.get_byte_buffer(1).unwrap_err(), eof());
}

#[test]
fn slice_reader_fills_a_buffer_prefix() {
    let bytes = [1u8, 2, 3];
    let mut r = SliceReader::new(&bytes);
    let mut buf = vec![9u8; 4];
    r.read_exact_prefix(&mut buf, 2).unwrap();
    assert_eq!(buf, vec![1, 2, 9, 9]);
    assert_eq!(r.read_exact_prefix(&mut buf, 2).unwrap_err(), io_eof());
    assert_eq!(buf, vec![1, 2, 9, 9]);
    r.read_exact_prefix(&mut buf, 1).unwrap();
    assert_eq!(buf, vec![3, 2, 9, 9]);
}

#[test]
fn stream_reader_records_what_the_stream_hands_out() {
    let mut bytes = prefixed(Endian::Little, "flux".as_bytes());
    bytes.push(1);
    let stream = StreamReader::new(SliceReader::new(&bytes));
    let mut d = Deserializer::with_reader(stream, le());
    assert_eq!(d.deserialize_str().unwrap(), "flux");
    assert!(d.deserialize_bool().unwrap());
    assert_eq!(*d.deserialize_u8().unwrap_err(), eof());
}

#[test]
fn stream_reader_passes_on_the_stream_error() {
    let bytes = [1u8, 2];
    let mut s = StreamReader::new(SliceReader::new(&bytes));
    let mut buf = vec![0u8; 4];
    assert_eq!(s.read_exact_prefix(&mut buf, 4).unwrap_err(), io_eof());
    s.read_exact_prefix(&mut buf, 2).unwrap();
    assert_eq!(buf, vec![1, 2, 0, 0]);
}

#[test]
fn slice_reader_failed_read_leaves_buffer_and_input() {
    let bytes = [1u8, 2, 3];
    let mut r = SliceReader::new(&bytes);
    let mut first = vec![0u8; 2];
    r.read_exact_prefix(&mut first, 2).unwrap();
    assert_eq!(first, vec![1, 2]);
    let mut out = vec![0u8; 2];
    assert_eq!(r.read_exact_prefix(&mut out, 2).unwrap_err(), io_eof());
    assert_eq!(out, vec![0, 0]);
    let mut last = vec![0u8; 1];
    r.read_exact_into(&mut last, 1).unwrap();
    assert_eq!(last, vec![3]);
}

#[test]
fn access_answers_exactly_len_times() {
    for len in 0usize..5 {
        let mut a = Access::new(len);
        let mut yes = 0;
        for _ in 0..8 {
            if a.next_element() {
                yes += 1;
            }
        }
        assert_eq!(yes, len);
        assert_eq!(a.size_hint(), Some(0));
    }
}

struct Broken;

impl ReadBytes for Broken {
    fn read_exact_into(&mut self, _buf: &mut Vec<u8>, _len: usize) -> Result<(), IoError> {
        Err(IoError { kind: IoErrorKind::ConnectionReset, detail: Some("peer went away".to_string()) })
    }
}

#[test]
fn stream_error_is_passed_on_whole() {
    let expected = IoError { kind: IoErrorKind::ConnectionReset, detail: Some("peer went away".to_string()) };
    let mut r = IoReader::new(StreamReader::new(Broken));
    assert_eq!(*r.get_byte_buffer(1).unwrap_err(), ErrorKind::Io(expected.clone()));
    let mut d = Deserializer::with_reader(StreamReader::new(Broken), le());
    assert_eq!(*d.deserialize_str().unwrap_err(), ErrorKind::Io(expected));
}
