use nimbus_server::dtp::{Content, ContentType, Message, SubTitile, Title};

fn msg(title: Title, sub_title: SubTitile, ct: ContentType, contents: Vec<Content>) -> Message {
    Message::new(title, sub_title, ct, contents)
}

#[test]
fn tag_values() {
    assert_eq!(Title::GetRequest.value(), 0);
    assert_eq!(Title::SendRequest.value(), 1);
    assert_eq!(Title::FileListRequest.value(), 2);
    assert_eq!(Title::RemoveRequest.value(), 3);
    assert_eq!(SubTitile::Success.value(), 0);
    assert_eq!(SubTitile::Failure.value(), 1);
    assert_eq!(ContentType::NoContent.value(), 0);
    assert_eq!(ContentType::ErrMessage.value(), 1);
    assert_eq!(ContentType::FileName.value(), 2);
    assert_eq!(ContentType::FileSize.value(), 3);
    assert_eq!(ContentType::FileData.value(), 4);
}

#[test]
fn round_trip_no_content() {
    let m = msg(Title::GetRequest, SubTitile::Success, ContentType::NoContent, vec![]);
    let bytes = m.as_bytes().unwrap();
    assert_eq!(bytes, vec![0, 0, 0]);
    let back = Message::from_bytes(bytes).unwrap();
    assert_eq!(back, m);
}

#[test]
fn round_trip_file_name() {
    let m = msg(
        Title::GetRequest,
        SubTitile::Success,
        ContentType::FileName,
        vec![Content::Text(b"a.txt".to_vec())],
    );
    let bytes = m.as_bytes().unwrap();
    assert_eq!(bytes.len(), 3 + 255);
    let back = Message::from_bytes(bytes).unwrap();
    assert_eq!(back, m);
}

#[test]
fn round_trip_err_message() {
    let m = msg(
        Title::RemoveRequest,
        SubTitile::Failure,
        ContentType::ErrMessage,
        vec![Content::Text(b"some fault".to_vec())],
    );
    let back = Message::from_bytes(m.as_bytes().unwrap()).unwrap();
    assert_eq!(back, m);
}

#[test]
fn round_trip_file_size() {
    let m = msg(
        Title::GetRequest,
        SubTitile::Success,
        ContentType::FileSize,
        vec![Content::Number(123456789)],
    );
    let bytes = m.as_bytes().unwrap();
    assert_eq!(bytes.len(), 11);
    assert_eq!(&bytes[..3], &[0, 0, 3]);
    assert_eq!(&bytes[3..], &123456789u64.to_le_bytes());
    let back = Message::from_bytes(bytes).unwrap();
    assert_eq!(back, m);
}

#[test]
fn round_trip_file_data() {
    let payload: Vec<u8> = (0u8..=255).collect();
    let m = msg(
        Title::SendRequest,
        SubTitile::Success,
        ContentType::FileData,
        vec![Content::Binary(payload.clone())],
    );
    let bytes = m.as_bytes().unwrap();
    assert_eq!(&bytes[..3], &[1, 0, 4]);
    assert_eq!(&bytes[3..], payload.as_slice());
    let back = Message::from_bytes(bytes).unwrap();
    assert_eq!(back, m);
}

#[test]
fn encode_text_is_zero_padded() {
    let m = msg(
        Title::GetRequest,
        SubTitile::Success,
        ContentType::FileName,
        vec![Content::Text(b"ab".to_vec())],
    );
    let bytes = m.as_bytes().unwrap();
    assert_eq!(bytes[3], b'a');
    assert_eq!(bytes[4], b'b');
    assert!(bytes[5..].iter().all(|&b| b == 0));
}

#[test]
fn encode_text_of_exactly_255_bytes() {
    let text = vec![7u8; 255];
    let m = msg(
        Title::GetRequest,
        SubTitile::Success,
        ContentType::FileName,
        vec![Content::Text(text.clone())],
    );
    let bytes = m.as_bytes().unwrap();
    assert_eq!(bytes.len(), 3 + 255);
    let back = Message::from_bytes(bytes).unwrap();
    assert_eq!(back.content_array, vec![Content::Text(text)]);
}

#[test]
fn encode_rejects_long_text() {
    let m = msg(
        Title::GetRequest,
        SubTitile::Success,
        ContentType::FileName,
        vec![Content::Text(vec![7u8; 256])],
    );
    assert_eq!(m.as_bytes(), Err("String len more than 255!"));
}

#[test]
fn decode_text_truncates_at_zero_byte() {
    let back = Message::from_bytes(vec![0, 0, 2, b'a', 0, b'b']).unwrap();
    assert_eq!(back.content_array, vec![Content::Text(b"a".to_vec())]);
}

#[test]
fn decode_unknown_title() {
    assert_eq!(Message::from_bytes(vec![9, 0, 0]), Err("Unknown title type!"));
}

#[test]
fn decode_unknown_sub_title() {
    assert_eq!(Message::from_bytes(vec![0, 9, 0]), Err("Unknown sub_title type!"));
}

#[test]
fn decode_unknown_content_type() {
    assert_eq!(Message::from_bytes(vec![0, 0, 9]), Err("Unknown content_type type!"));
}

#[test]
fn decode_short_input() {
    assert_eq!(Message::from_bytes(vec![]), Err("Message too short!"));
    assert_eq!(Message::from_bytes(vec![0]), Err("Message too short!"));
    assert_eq!(Message::from_bytes(vec![0, 0]), Err("Message too short!"));
}

#[test]
fn decode_short_file_size() {
    assert_eq!(Message::from_bytes(vec![0, 0, 3, 1, 2]), Err("Cant read file size!"));
}

#[test]
fn decoder_survives_malformed_input() {
    for a in 0u8..=255 {
        let _ = Message::from_bytes(vec![a]);
        let _ = Message::from_bytes(vec![a, a.wrapping_add(1)]);
        let _ = Message::from_bytes(vec![a, 0, a]);
        let _ = Message::from_bytes(vec![0, a, 3, a]);
        let _ = Message::from_bytes(vec![a, a, a, a, a, a, a, a, a, a, a]);
    }
}

#[test]
fn number_from_bytes_reads_little_endian() {
    let c = Content::number_from_bytes([0x15, 0xCD, 0x5B, 0x07, 0, 0, 0, 0]);
    assert_eq!(c, Content::Number(123456789));
}

#[test]
fn text_from_range_bytes_stops_at_zero() {
    let c = Content::text_from_range_bytes(b"abc\0def".to_vec());
    assert_eq!(c, Content::Text(b"abc".to_vec()));
}
