use slim::{Buffer, Deserialize, Serialize, SlimError};
use std::borrow::Cow;

fn bytes_of<T: Serialize<Buffer>>(v: &T) -> Vec<u8> {
    let mut buff = Buffer::new(Vec::new());
    v.encode_stream(&mut buff).unwrap();
    assert_eq!(buff.position(), buff.get_ref().len());
    buff.into_inner()
}

fn value_of<T: Deserialize<Buffer>>(bytes: &[u8]) -> Result<T, SlimError> {
    let mut buff = Buffer::new(bytes.to_vec());
    let v = T::decode_stream(&mut buff);
    if v.is_ok() {
        assert_eq!(buff.position(), bytes.len());
    }
    v
}

#[test]
fn u64_100_is_eight_bytes_big_endian() {
    assert_eq!(bytes_of(&100u64), vec![0, 0, 0, 0, 0, 0, 0, 0x64]);
    assert_eq!(value_of::<u64>(&[0, 0, 0, 0, 0, 0, 0, 0x64]), Ok(100));
}

#[test]
fn unsigned_numbers_are_big_endian() {
    assert_eq!(bytes_of(&0xabu8), vec![0xab]);
    assert_eq!(bytes_of(&0x0102u16), vec![1, 2]);
    assert_eq!(bytes_of(&0x0102_0304u32), vec![1, 2, 3, 4]);
    assert_eq!(bytes_of(&0x0102_0304_0506_0708u64), vec![1, 2, 3, 4, 5, 6, 7, 8]);
    assert_eq!(value_of::<u8>(&[0xab]), Ok(0xab));
    assert_eq!(value_of::<u16>(&[1, 2]), Ok(0x0102));
    assert_eq!(value_of::<u32>(&[1, 2, 3, 4]), Ok(0x0102_0304));
    assert_eq!(value_of::<u64>(&[1, 2, 3, 4, 5, 6, 7, 8]), Ok(0x0102_0304_0506_0708));
    assert_eq!(value_of::<u16>(&[0xff, 0xff]), Ok(u16::MAX));
    assert_eq!(value_of::<u32>(&[0xff; 4]), Ok(u32::MAX));
    assert_eq!(value_of::<u64>(&[0xff; 8]), Ok(u64::MAX));
}

#[test]
fn signed_numbers_are_twos_complement() {
    assert_eq!(bytes_of(&-1i8), vec![0xff]);
    assert_eq!(bytes_of(&i8::MIN), vec![0x80]);
    assert_eq!(bytes_of(&i8::MAX), vec![0x7f]);
    assert_eq!(bytes_of(&-2i16), vec![0xff, 0xfe]);
    assert_eq!(bytes_of(&-5000i16), vec![0xec, 0x78]);
    assert_eq!(bytes_of(&i32::MIN), vec![0x80, 0, 0, 0]);
    assert_eq!(bytes_of(&-1i64), vec![0xff; 8]);
    assert_eq!(bytes_of(&0x0102i16), vec![1, 2]);
    assert_eq!(bytes_of(&0x0102_0304i32), vec![1, 2, 3, 4]);
    assert_eq!(bytes_of(&0x0102_0304_0506_0708i64), vec![1, 2, 3, 4, 5, 6, 7, 8]);
    assert_eq!(value_of::<i8>(&[0xff]), Ok(-1));
    assert_eq!(value_of::<i8>(&[0x80]), Ok(i8::MIN));
    assert_eq!(value_of::<i8>(&[0x7f]), Ok(i8::MAX));
    assert_eq!(value_of::<i16>(&[0xec, 0x78]), Ok(-5000));
    assert_eq!(value_of::<i16>(&[0x80, 0]), Ok(i16::MIN));
    assert_eq!(value_of::<i32>(&[0xff, 0xff, 0xff, 0xfe]), Ok(-2));
    assert_eq!(value_of::<i32>(&[1, 2, 3, 4]), Ok(0x0102_0304));
    assert_eq!(value_of::<i64>(&[0x80, 0, 0, 0, 0, 0, 0, 0]), Ok(i64::MIN));
    assert_eq!(value_of::<i64>(&[1, 2, 3, 4, 5, 6, 7, 8]), Ok(0x0102_0304_0506_0708));
}

#[test]
fn bool_is_written_as_0_or_1() {
    assert_eq!(bytes_of(&false), vec![0x00]);
    assert_eq!(bytes_of(&true), vec![0x01]);
}

#[test]
fn bool_is_read_as_true_from_any_byte_but_0() {
    assert_eq!(value_of::<bool>(&[0x00]), Ok(false));
    assert_eq!(value_of::<bool>(&[0x01]), Ok(true));
    assert_eq!(value_of::<bool>(&[0x02]), Ok(true));
    assert_eq!(value_of::<bool>(&[0xff]), Ok(true));
}

#[test]
fn unit_is_no_bytes() {
    assert_eq!(bytes_of(&()), Vec::<u8>::new());
    assert_eq!(value_of::<()>(&[]), Ok(()));
    let mut buff = Buffer::new(vec![5]);
    assert_eq!(<()>::decode_stream(&mut buff), Ok(()));
    assert_eq!(buff.position(), 0);
}

#[test]
fn string_is_length_then_utf8() {
    let mut expected = vec![0, 0, 0, 0, 0, 0, 0, 8];
    expected.extend_from_slice(b"12345678");
    assert_eq!(bytes_of(&"12345678".to_string()), expected);
    assert_eq!(value_of::<String>(&expected), Ok("12345678".to_string()));
    assert_eq!(bytes_of(&"12345678"), expected);
}

#[test]
fn string_length_counts_bytes_not_characters() {
    let text = "h\u{e9}\u{65e5}".to_string();
    assert_eq!(
        bytes_of(&text),
        vec![0, 0, 0, 0, 0, 0, 0, 6, b'h', 0xc3, 0xa9, 0xe6, 0x97, 0xa5]
    );
    assert_eq!(
        value_of::<String>(&[0, 0, 0, 0, 0, 0, 0, 6, b'h', 0xc3, 0xa9, 0xe6, 0x97, 0xa5]),
        Ok(text)
    );
}

#[test]
fn empty_string_is_a_length_of_zero() {
    assert_eq!(bytes_of(&String::new()), vec![0; 8]);
    assert_eq!(value_of::<String>(&[0; 8]), Ok(String::new()));
}

#[test]
fn empty_sequence_is_a_count_of_zero() {
    assert_eq!(bytes_of(&Vec::<u32>::new()), vec![0; 8]);
    assert_eq!(value_of::<Vec<u32>>(&[0; 8]), Ok(vec![]));
    assert_eq!(value_of::<Vec<String>>(&[0; 8]), Ok(vec![]));
}

#[test]
fn sequence_is_count_then_items() {
    assert_eq!(
        bytes_of(&vec![0x0102u16, 0x0304, 0x0506]),
        vec![0, 0, 0, 0, 0, 0, 0, 3, 1, 2, 3, 4, 5, 6]
    );
    assert_eq!(
        value_of::<Vec<u16>>(&[0, 0, 0, 0, 0, 0, 0, 3, 1, 2, 3, 4, 5, 6]),
        Ok(vec![0x0102, 0x0304, 0x0506])
    );
    assert_eq!(
        bytes_of(&vec!["a".to_string(), "bc".to_string()]),
        vec![
            0, 0, 0, 0, 0, 0, 0, 2, 0, 0, 0, 0, 0, 0, 0, 1, b'a', 0, 0, 0, 0, 0, 0, 0, 2, b'b',
            b'c'
        ]
    );
    assert_eq!(bytes_of(&vec![(), ()]), vec![0, 0, 0, 0, 0, 0, 0, 2]);
    assert_eq!(value_of::<Vec<()>>(&[0, 0, 0, 0, 0, 0, 0, 2]), Ok(vec![(), ()]));
}

#[test]
fn option_is_tag_then_value() {
    assert_eq!(bytes_of(&None::<u16>), vec![0]);
    assert_eq!(bytes_of(&Some(0x0102u16)), vec![1, 1, 2]);
    assert_eq!(value_of::<Option<u16>>(&[0]), Ok(None));
    assert_eq!(value_of::<Option<u16>>(&[1, 1, 2]), Ok(Some(0x0102)));
}

#[test]
fn option_without_value_reads_the_tag_alone() {
    let mut buff = Buffer::new(vec![0, 9, 9]);
    assert_eq!(Option::<u16>::decode_stream(&mut buff), Ok(None));
    assert_eq!(buff.position(), 1);
}

#[test]
fn result_ok_string_is_tag_0_then_the_string() {
    let v: Result<String, SlimError> = Ok("1234567".to_string());
    let mut expected = vec![0x00, 0, 0, 0, 0, 0, 0, 0, 7];
    expected.extend_from_slice(b"1234567");
    assert_eq!(bytes_of(&v), expected);
    assert_eq!(value_of::<Result<String, SlimError>>(&expected), Ok(v));
}

#[test]
fn result_err_is_tag_1_then_the_error_code() {
    let v: Result<String, SlimError> = Err(SlimError::SerializationError);
    assert_eq!(bytes_of(&v), vec![0x01, 0x01]);
    assert_eq!(
        value_of::<Result<String, SlimError>>(&[0x01, 0x01]),
        Ok(Err(SlimError::DeserializationError))
    );
}

#[test]
fn pair_is_first_then_second() {
    assert_eq!(bytes_of(&(0x0102u16, true)), vec![1, 2, 1]);
    assert_eq!(value_of::<(u16, bool)>(&[1, 2, 1]), Ok((0x0102, true)));
    assert_eq!(
        bytes_of(&("a".to_string(), 0xffu8)),
        vec![0, 0, 0, 0, 0, 0, 0, 1, b'a', 0xff]
    );
}

#[test]
fn errors_are_written_under_one_set_of_codes() {
    assert_eq!(bytes_of(&SlimError::DeserializationError), vec![0]);
    assert_eq!(bytes_of(&SlimError::SerializationError), vec![1]);
    assert_eq!(bytes_of(&SlimError::StreamClosed), vec![2]);
    assert_eq!(bytes_of(&SlimError::StreamError), vec![3]);
}

#[test]
fn errors_are_read_under_another_set_of_codes() {
    assert_eq!(value_of::<SlimError>(&[0]), Ok(SlimError::SerializationError));
    assert_eq!(value_of::<SlimError>(&[1]), Ok(SlimError::DeserializationError));
    assert_eq!(value_of::<SlimError>(&[2]), Ok(SlimError::StreamClosed));
    assert_eq!(value_of::<SlimError>(&[3]), Ok(SlimError::StreamError));
    assert_eq!(value_of::<SlimError>(&[4]), Err(SlimError::DeserializationError));
    assert_eq!(value_of::<SlimError>(&[0xff]), Err(SlimError::DeserializationError));
}

#[test]
fn cow_is_on_the_wire_what_it_holds() {
    let owned: Cow<'static, u32> = Cow::Owned(0x0102_0304);
    let number = 0x0102_0304u32;
    let borrowed: Cow<'_, u32> = Cow::Borrowed(&number);
    assert_eq!(bytes_of(&owned), vec![1, 2, 3, 4]);
    assert_eq!(bytes_of(&borrowed), vec![1, 2, 3, 4]);
    assert_eq!(value_of::<Cow<'static, u32>>(&[1, 2, 3, 4]), Ok(Cow::Owned(0x0102_0304)));
    let text = "ab".to_string();
    let held: Cow<'_, String> = Cow::Borrowed(&text);
    assert_eq!(bytes_of(&held), vec![0, 0, 0, 0, 0, 0, 0, 2, b'a', b'b']);
}

#[test]
fn cow_str_is_read_as_a_string_is() {
    let read = value_of::<Cow<'static, str>>(&[0, 0, 0, 0, 0, 0, 0, 2, b'a', b'b']);
    assert_eq!(read, Ok(Cow::Owned("ab".to_string())));
    assert_eq!(
        value_of::<Cow<'static, str>>(&[0, 0, 0, 0, 0, 0, 0, 1, 0xff]),
        Err(SlimError::DeserializationError)
    );
    assert_eq!(
        value_of::<Cow<'static, str>>(&[0, 0, 0, 0, 0, 0, 0, 2, b'a']),
        Err(SlimError::StreamClosed)
    );
}
