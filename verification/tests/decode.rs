use rdwm_native::decode::{decode_elements, DecodeError, Decoder, FeedOutcome};

#[test]
fn decode_basic_vector() {
    let elems = vec![
        Some(b"ls".to_vec()),
        Some(b"-la".to_vec()),
        Some(b"/tmp".to_vec()),
        None,
    ];
    let inv = decode_elements(&elems).expect("decode should succeed");
    assert_eq!(inv.command, "ls");
    assert_eq!(inv.args, vec!["-la".to_string(), "/tmp".to_string()]);
}

#[test]
fn decode_zero_args() {
    let elems = vec![Some(b"true".to_vec()), None];
    let inv = decode_elements(&elems).expect("decode should succeed");
    assert_eq!(inv.command, "true");
    assert!(inv.args.is_empty());
}

#[test]
fn decode_ignores_garbage_after_sentinel() {
    let elems = vec![
        Some(b"ls".to_vec()),
        None,
        Some(vec![0xff, 0xfe]),
        Some(b"junk".to_vec()),
    ];
    let inv = decode_elements(&elems).expect("decode should succeed");
    assert_eq!(inv.command, "ls");
    assert!(inv.args.is_empty());
}

#[test]
fn decode_invalid_command() {
    let elems = vec![Some(vec![0xc3, 0x28]), None];
    let err = decode_elements(&elems).expect_err("decode should fail");
    assert_eq!(err, DecodeError::InvalidEncoding);
}

#[test]
fn decode_invalid_argument() {
    let elems = vec![Some(b"ls".to_vec()), Some(vec![0xff]), None];
    let err = decode_elements(&elems).expect_err("decode should fail");
    assert_eq!(err, DecodeError::InvalidEncoding);
}

#[test]
fn decode_null_command() {
    let elems = vec![None];
    let err = decode_elements(&elems).expect_err("decode should fail");
    assert_eq!(err, DecodeError::NullCommand);
}

#[test]
fn decode_same_vector_twice() {
    let elems = vec![
        Some(b"echo".to_vec()),
        Some(b"one".to_vec()),
        Some(b"one".to_vec()),
        None,
    ];
    let first = decode_elements(&elems);
    let second = decode_elements(&elems);
    assert_eq!(first, second);
    let inv = first.expect("decode should succeed");
    assert_eq!(inv.command, "echo");
    assert_eq!(inv.args, vec!["one".to_string(), "one".to_string()]);
}

#[test]
fn decoder_incremental_scan() {
    let mut decoder = Decoder::new();
    assert!(decoder.is_scanning());
    assert_eq!(decoder.feed(&Some(b"echo".to_vec())), FeedOutcome::NeedNext);
    assert_eq!(decoder.feed(&Some(b"hi".to_vec())), FeedOutcome::NeedNext);
    assert_eq!(decoder.feed(&None), FeedOutcome::Done);
    assert!(decoder.is_done());
    let inv = decoder.finish();
    assert_eq!(inv.command, "echo");
    assert_eq!(inv.args, vec!["hi".to_string()]);
}

#[test]
fn decoder_rejects_null_command() {
    let mut decoder = Decoder::new();
    assert_eq!(
        decoder.feed(&None),
        FeedOutcome::Failed(DecodeError::NullCommand)
    );
    assert!(!decoder.is_scanning());
    assert!(!decoder.is_done());
}

#[test]
fn decoder_stops_on_invalid_argument() {
    let mut decoder = Decoder::new();
    assert_eq!(decoder.feed(&Some(b"ls".to_vec())), FeedOutcome::NeedNext);
    assert_eq!(
        decoder.feed(&Some(vec![0xf0, 0x28, 0x8c, 0x28])),
        FeedOutcome::Failed(DecodeError::InvalidEncoding)
    );
    assert!(!decoder.is_scanning());
    assert!(!decoder.is_done());
}
