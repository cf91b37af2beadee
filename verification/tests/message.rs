use rlgym_core::communication::communication_handler::{classify, format_pipe_id, Severity};
use rlgym_core::communication::message::{
    decode, encode, ACTION_TAG, CONFIG_TAG, HEADER_LEN, RESET_TAG, STATE_TAG,
};

#[test]
fn frame_is_tag_length_payload() {
    let bytes = encode(STATE_TAG, &vec![7, 8, 9]).unwrap();
    assert_eq!(bytes, vec![1, 3, 0, 0, 0, 7, 8, 9]);
}

#[test]
fn length_is_written_lowest_byte_first() {
    let payload = vec![0u8; 0x1_02_03];
    let bytes = encode(ACTION_TAG, &payload).unwrap();
    assert_eq!(&bytes[..5], &[2, 0x03, 0x02, 0x01, 0x00]);
    assert_eq!(bytes.len(), HEADER_LEN + 0x1_02_03);
}

#[test]
fn empty_payload_is_a_whole_frame() {
    let bytes = encode(RESET_TAG, &vec![]).unwrap();
    assert_eq!(bytes, vec![3, 0, 0, 0, 0]);
    assert_eq!(decode(&bytes), Some((RESET_TAG, vec![], 5)));
}

#[test]
fn decode_gives_back_what_was_encoded() {
    let payload: Vec<u8> = (0..=255u8).collect();
    let bytes = encode(CONFIG_TAG, &payload).unwrap();
    assert_eq!(decode(&bytes), Some((CONFIG_TAG, payload, 5 + 256)));
}

#[test]
fn partial_frame_is_not_handed_out() {
    let bytes = encode(STATE_TAG, &vec![1, 2, 3, 4]).unwrap();
    for cut in 0..bytes.len() {
        assert_eq!(decode(&bytes[..cut].to_vec()), None);
    }
    assert!(decode(&bytes).is_some());
}

#[test]
fn frames_come_out_in_the_order_they_went_in() {
    let mut stream = encode(ACTION_TAG, &vec![10, 20]).unwrap();
    stream.extend(encode(STATE_TAG, &vec![30]).unwrap());
    stream.extend(vec![9, 9]);
    let (tag, payload, used) = decode(&stream).unwrap();
    assert_eq!((tag, payload, used), (ACTION_TAG, vec![10, 20], 7));
    let rest = stream[used..].to_vec();
    let (tag, payload, used) = decode(&rest).unwrap();
    assert_eq!((tag, payload, used), (STATE_TAG, vec![30], 6));
    assert_eq!(decode(&rest[used..].to_vec()), None);
}

#[test]
fn unknown_tags_travel_unchanged() {
    let bytes = encode(200, &vec![1]).unwrap();
    assert_eq!(decode(&bytes), Some((200, vec![1], 6)));
}

#[test]
fn tags_are_distinct() {
    let tags = [CONFIG_TAG, STATE_TAG, ACTION_TAG, RESET_TAG];
    for i in 0..4 {
        for j in 0..4 {
            assert_eq!(tags[i] == tags[j], i == j);
        }
    }
}

#[test]
fn dead_process_is_fatal() {
    assert_eq!(classify(false, 0, 5), Severity::Fatal);
    assert_eq!(classify(false, 5, 5), Severity::Fatal);
}

#[test]
fn live_process_is_recoverable_while_attempts_remain() {
    assert_eq!(classify(true, 0, 3), Severity::Recoverable);
    assert_eq!(classify(true, 2, 3), Severity::Recoverable);
}

#[test]
fn reconnecting_escalates_at_the_bound() {
    assert_eq!(classify(true, 3, 3), Severity::Fatal);
    assert_eq!(classify(true, 4, 3), Severity::Fatal);
    assert_eq!(classify(true, 0, 0), Severity::Fatal);
}

#[test]
fn pipe_is_named_after_its_id() {
    assert_eq!(format_pipe_id(0), b"rlgym_pipe_0".to_vec());
    assert_eq!(format_pipe_id(7), b"rlgym_pipe_7".to_vec());
    assert_eq!(format_pipe_id(10), b"rlgym_pipe_10".to_vec());
    assert_eq!(format_pipe_id(1203), b"rlgym_pipe_1203".to_vec());
    assert_eq!(format_pipe_id(usize::MAX), format!("rlgym_pipe_{}", usize::MAX).into_bytes());
}

#[test]
fn different_ids_give_different_names() {
    let names: Vec<Vec<u8>> = (0..200).map(format_pipe_id).collect();
    for i in 0..names.len() {
        for j in 0..i {
            assert_ne!(names[i], names[j]);
        }
    }
    assert_ne!(format_pipe_id(1), format_pipe_id(10));
    assert_ne!(format_pipe_id(11), format_pipe_id(110));
}
