use slim::stream::Stream;
use slim::{ByteSink, ByteSource, Deserialize, Fault, Serialize, SlimError};
use std::io::{Cursor, Error, ErrorKind, Read, Write};

/// A stream of `std::io` as a stream to read from and to write to.
struct Io<S>(S);

impl<S> Stream for Io<S> {}

impl<S: Read> ByteSource for Io<S> {
    fn read_exact(&mut self, buf: &mut [u8]) -> Result<(), Fault> {
        match self.0.read_exact(buf) {
            Ok(()) => Ok(()),
            Err(e) => match e.kind() {
                ErrorKind::UnexpectedEof => Err(Fault::Ended),
                _ => Err(Fault::Failed),
            },
        }
    }
}

impl<S: Write> ByteSink for Io<S> {
    fn write_all(&mut self, buf: &[u8]) -> Result<(), Fault> {
        match self.0.write_all(buf) {
            Ok(()) => Ok(()),
            Err(e) => match e.kind() {
                ErrorKind::UnexpectedEof => Err(Fault::Ended),
                _ => Err(Fault::Failed),
            },
        }
    }
}

/// A reader that hands over its bytes and then fails.
struct Dropped(Cursor<Vec<u8>>);

impl Read for Dropped {
    fn read(&mut self, buf: &mut [u8]) -> std::io::Result<usize> {
        match self.0.read(buf) {
            Ok(0) if !buf.is_empty() => Err(Error::new(ErrorKind::ConnectionReset, "dropped")),
            other => other,
        }
    }
}

#[test]
fn cursor_u64() {
    let mut v = Vec::new();
    v.resize(8, 0);
    let mut buff = Io(Cursor::new(v));
    let a: u64 = 100;
    a.encode_stream(&mut buff).unwrap();
    assert_eq!(buff.0.get_ref(), &vec![0, 0, 0, 0, 0, 0, 0, 100]);
    buff.0.set_position(0);
    assert_eq!(u64::decode_stream(&mut buff), Ok(a));
}

#[test]
fn cursor_string() {
    let mut v = Vec::new();
    v.resize(8, 0);
    let mut buff = Io(Cursor::new(v));
    let a: String = "12345678".to_string();
    a.encode_stream(&mut buff).unwrap();
    buff.0.set_position(0);
    assert_eq!(String::decode_stream(&mut buff), Ok(a));
}

#[test]
fn cursor_result_ok_string() {
    let mut v = Vec::new();
    v.resize(100, 0);
    let mut buff = Io(Cursor::new(v));
    let v_enc: Result<String, SlimError> = Ok("1234567".to_string());
    v_enc.encode_stream(&mut buff).unwrap();
    buff.0.set_position(0);
    assert_eq!(Result::<String, SlimError>::decode_stream(&mut buff), Ok(v_enc));
}

#[test]
fn cursor_result_err() {
    let mut v = Vec::new();
    v.resize(100, 0);
    let mut buff = Io(Cursor::new(v));
    let r: Result<String, SlimError> = Err(SlimError::SerializationError);
    r.encode_stream(&mut buff).unwrap();
    buff.0.set_position(0);
    assert_eq!(
        Result::<String, SlimError>::decode_stream(&mut buff),
        Ok(Err(SlimError::DeserializationError))
    );
}

#[test]
fn cursor_that_ends_is_stream_closed() {
    let mut buff = Io(Cursor::new(vec![0u8, 0, 0, 0]));
    assert_eq!(String::decode_stream(&mut buff), Err(SlimError::StreamClosed));
    let mut buff = Io(Cursor::new(vec![0u8, 0, 0, 0, 0, 0, 0, 2, b'a']));
    assert_eq!(String::decode_stream(&mut buff), Err(SlimError::StreamClosed));
    let mut buff = Io(Cursor::new(vec![0xffu8; 9]));
    assert_eq!(String::decode_stream(&mut buff), Err(SlimError::StreamClosed));
}

#[test]
fn reader_that_fails_is_stream_error() {
    let mut buff = Io(Dropped(Cursor::new(vec![0u8, 0, 0, 0])));
    assert_eq!(u64::decode_stream(&mut buff), Err(SlimError::StreamError));
    let mut buff = Io(Dropped(Cursor::new(vec![0u8, 0, 0, 0, 0, 0, 0, 1, 7])));
    assert_eq!(Vec::<u8>::decode_stream(&mut buff), Ok(vec![7]));
    assert_eq!(u8::decode_stream(&mut buff), Err(SlimError::StreamError));
}

#[test]
fn reader_that_fails_within_an_option_is_malformed() {
    let mut buff = Io(Dropped(Cursor::new(vec![1u8, 0])));
    assert_eq!(Option::<u16>::decode_stream(&mut buff), Err(SlimError::DeserializationError));
}

#[test]
fn writer_that_is_full_is_stream_error() {
    let mut space = [0u8; 4];
    let mut buff = Io(Cursor::new(&mut space[..]));
    assert_eq!(100u64.encode_stream(&mut buff), Err(SlimError::StreamError));
    let mut space = [0u8; 8];
    let mut buff = Io(Cursor::new(&mut space[..]));
    assert_eq!(100u64.encode_stream(&mut buff), Ok(()));
    assert_eq!(true.encode_stream(&mut buff), Err(SlimError::StreamError));
    assert_eq!(space, [0, 0, 0, 0, 0, 0, 0, 100]);
}
