use slim::stream::Stream;
use slim::{
    fill_buf, write_buf, Buffer, ByteSink, ByteSource, Deserialize, Fault, Serialize, SlimError,
};

/// A source that fails at every read.
struct Severed;

impl Stream for Severed {}

impl ByteSource for Severed {
    fn read_exact(&mut self, _buf: &mut [u8]) -> Result<(), Fault> {
        Err(Fault::Failed)
    }
}

/// A sink that reports its end at every write.
struct Shut;

impl Stream for Shut {}

impl ByteSink for Shut {
    fn write_all(&mut self, _buf: &[u8]) -> Result<(), Fault> {
        Err(Fault::Ended)
    }
}

#[test]
fn fill_buf_hands_over_the_next_bytes() {
    let mut b = Buffer::new(vec![1, 2, 3, 4, 5]);
    let mut buf = [0u8; 3];
    assert_eq!(fill_buf(&mut b, &mut buf), Ok(()));
    assert_eq!(buf, [1, 2, 3]);
    assert_eq!(b.position(), 3);
    let mut two = [0u8; 2];
    assert_eq!(fill_buf(&mut b, &mut two), Ok(()));
    assert_eq!(two, [4, 5]);
    assert_eq!(b.position(), 5);
}

#[test]
fn fill_buf_on_a_stream_that_ended_is_stream_closed() {
    let mut b = Buffer::new(vec![1, 2]);
    let mut buf = [0u8; 3];
    assert_eq!(fill_buf(&mut b, &mut buf), Err(SlimError::StreamClosed));
    assert_eq!(b.position(), 0);
}

#[test]
fn fill_buf_on_a_stream_that_failed_is_stream_error() {
    let mut s = Severed;
    let mut buf = [0u8; 1];
    assert_eq!(fill_buf(&mut s, &mut buf), Err(SlimError::StreamError));
}

#[test]
fn fill_buf_of_nothing_succeeds_at_the_end() {
    let mut b = Buffer::new(Vec::new());
    let mut buf = [0u8; 0];
    assert_eq!(fill_buf(&mut b, &mut buf), Ok(()));
}

#[test]
fn write_buf_appends() {
    let mut b = Buffer::new(Vec::new());
    assert_eq!(write_buf(&mut b, &[9, 8]), Ok(()));
    assert_eq!(write_buf(&mut b, &[7]), Ok(()));
    assert_eq!(b.get_ref(), &vec![9, 8, 7]);
    assert_eq!(b.position(), 3);
}

#[test]
fn write_buf_replaces_what_lies_at_the_position() {
    let mut b = Buffer::new(vec![1, 2, 3, 4]);
    b.set_position(1);
    assert_eq!(write_buf(&mut b, &[9, 8]), Ok(()));
    assert_eq!(b.get_ref(), &vec![1, 9, 8, 4]);
    assert_eq!(b.position(), 3);
    assert_eq!(write_buf(&mut b, &[7, 6, 5]), Ok(()));
    assert_eq!(b.into_inner(), vec![1, 9, 8, 7, 6, 5]);
}

#[test]
fn write_buf_without_room_is_stream_error() {
    let mut b = Buffer::bounded(Vec::new(), 3);
    assert_eq!(write_buf(&mut b, &[1, 2]), Ok(()));
    assert_eq!(write_buf(&mut b, &[3, 4]), Err(SlimError::StreamError));
    assert_eq!(b.get_ref(), &vec![1, 2]);
    assert_eq!(write_buf(&mut b, &[3]), Ok(()));
    assert_eq!(b.into_inner(), vec![1, 2, 3]);
}

#[test]
fn write_buf_on_a_stream_that_ended_is_stream_error() {
    let mut s = Shut;
    assert_eq!(write_buf(&mut s, &[1]), Err(SlimError::StreamError));
}

#[test]
fn a_buffer_is_bounded_by_its_data_at_least() {
    let mut b = Buffer::bounded(vec![1, 2, 3], 1);
    b.set_position(3);
    assert_eq!(write_buf(&mut b, &[4]), Err(SlimError::StreamError));
    b.set_position(0);
    assert_eq!(write_buf(&mut b, &[7, 8, 9]), Ok(()));
    assert_eq!(b.into_inner(), vec![7, 8, 9]);
}

#[test]
fn set_position_stops_at_the_end() {
    let mut b = Buffer::new(vec![1, 2, 3]);
    b.set_position(2);
    assert_eq!(b.position(), 2);
    b.set_position(10);
    assert_eq!(b.position(), 3);
    assert_eq!(u8::decode_stream(&mut b), Err(SlimError::StreamClosed));
    b.set_position(0);
    assert_eq!(u8::decode_stream(&mut b), Ok(1));
}

#[test]
fn decode_on_a_stream_that_failed_is_stream_error() {
    let mut s = Severed;
    assert_eq!(u64::decode_stream(&mut s), Err(SlimError::StreamError));
    assert_eq!(String::decode_stream(&mut s), Err(SlimError::StreamError));
    assert_eq!(Vec::<u8>::decode_stream(&mut s), Err(SlimError::StreamError));
    assert_eq!(bool::decode_stream(&mut s), Err(SlimError::StreamError));
    assert_eq!(Option::<u8>::decode_stream(&mut s), Err(SlimError::StreamError));
    assert_eq!(<()>::decode_stream(&mut s), Ok(()));
}

#[test]
fn encode_without_room_is_stream_error() {
    let mut b = Buffer::bounded(Vec::new(), 7);
    assert_eq!(100u64.encode_stream(&mut b), Err(SlimError::StreamError));
    let mut b = Buffer::bounded(Vec::new(), 9);
    assert_eq!("ab".to_string().encode_stream(&mut b), Err(SlimError::StreamError));
    let mut b = Buffer::bounded(Vec::new(), 10);
    assert_eq!("ab".to_string().encode_stream(&mut b), Ok(()));
    let mut b = Buffer::bounded(Vec::new(), 9);
    assert_eq!(vec![1u8, 2].encode_stream(&mut b), Err(SlimError::StreamError));
    let mut b = Buffer::bounded(Vec::new(), 0);
    assert_eq!(Some(1u8).encode_stream(&mut b), Err(SlimError::StreamError));
    assert_eq!(().encode_stream(&mut b), Ok(()));
    let mut s = Shut;
    assert_eq!(true.encode_stream(&mut s), Err(SlimError::StreamError));
}

#[test]
fn a_read_that_failed_is_closed_or_in_error() {
    assert_eq!(slim::read_failure(Fault::Ended), SlimError::StreamClosed);
    assert_eq!(slim::read_failure(Fault::Failed), SlimError::StreamError);
}

#[test]
fn a_write_that_failed_is_in_error() {
    assert_eq!(slim::write_failure(Fault::Ended), SlimError::StreamError);
    assert_eq!(slim::write_failure(Fault::Failed), SlimError::StreamError);
}
