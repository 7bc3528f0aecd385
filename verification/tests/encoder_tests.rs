use gbuf::encoder::{Encoder, GzBytes};

#[test]
fn encode_then_decode_gives_the_buffer_back() {
    let coder = GzBytes::new();
    let original = b"hello, gzipped world\nsecond line".to_vec();
    let mut data = original.clone();
    coder.encode(&mut data);
    assert!(!data.is_empty());
    assert_ne!(data, original);
    assert_eq!(&data[..2], &[0x1f, 0x8b]);
    assert_eq!(data[2], 8);
    assert!(data.len() >= 18);
    assert!(coder.decode(&mut data).is_none());
    assert_eq!(data, original);
}

#[test]
fn encoding_equal_buffers_gives_equal_bytes() {
    let (a, b) = (GzBytes::new(), GzBytes::new());
    let mut d1 = b"same text".to_vec();
    let mut d2 = b"same text".to_vec();
    a.encode(&mut d1);
    b.encode(&mut d2);
    assert_eq!(d1, d2);
}

#[test]
fn saved_text_loads_back() {
    let coder = GzBytes::new();
    let text = "grüße, ünïcode\nline two";
    let mut data = text.as_bytes().to_vec();
    coder.encode(&mut data);
    assert!(coder.decode(&mut data).is_none());
    assert_eq!(String::from_utf8(data).unwrap(), text);
}

#[test]
fn empty_buffer_round_trips() {
    let coder = GzBytes::new();
    let mut data = Vec::new();
    coder.encode(&mut data);
    assert!(data.len() >= 18);
    assert!(coder.decode(&mut data).is_none());
    assert!(data.is_empty());
}

#[test]
fn decoding_garbage_leaves_nothing_and_reports() {
    let coder = GzBytes::new();
    let mut data = b"not gzip at all".to_vec();
    let failure = coder.decode(&mut data).expect("a report");
    assert!(data.is_empty());
    assert_eq!(failure.input, b"not gzip at all".to_vec());
    assert!(!failure.error.is_empty());
}

#[test]
fn adopt_takes_the_coded_bytes_or_nothing() {
    let mut data = vec![1u8, 2, 3];
    GzBytes::adopt(&mut data, Some(vec![9u8]));
    assert_eq!(data, vec![9u8]);
    GzBytes::adopt(&mut data, None);
    assert!(data.is_empty());
}
