use checkbox_board::protocol::BitmapMessage;
use checkbox_board::protocol::BroadcastEvent;
use checkbox_board::protocol::MessageType;
use checkbox_board::protocol::OnlineUsersMessage;

fn frame(tag: u8, num: u32) -> Vec<u8> {
    let b = num.to_le_bytes();
    vec![tag, b[0], b[1], b[2], b[3]]
}

#[test]
fn decode_add_frame() {
    let r = MessageType::from_u8_array(&frame(0b0000_0000, 5));
    assert_eq!(r, Some(MessageType::Bitmap(5, BitmapMessage::Add)));
}

#[test]
fn decode_sub_frame() {
    let r = MessageType::from_u8_array(&frame(0b0001_0000, 123_456));
    assert_eq!(r, Some(MessageType::Bitmap(123_456, BitmapMessage::Sub)));
}

#[test]
fn decode_set_frame_carries_value() {
    let r = MessageType::from_u8_array(&frame(0b0010_0111, 42));
    assert_eq!(r, Some(MessageType::Bitmap(42, BitmapMessage::SetTo(7))));
    let r = MessageType::from_u8_array(&frame(0b0010_1111, 0));
    assert_eq!(r, Some(MessageType::Bitmap(0, BitmapMessage::SetTo(15))));
}

#[test]
fn decode_presence_frame() {
    let r = MessageType::from_u8_array(&frame(0b0100_0000, 77));
    assert_eq!(
        r,
        Some(MessageType::OnlineUsers(OnlineUsersMessage(77)))
    );
}

#[test]
fn decode_reads_index_little_endian() {
    // 0x000f4240 little-endian is exactly 1_000_000: one past the board.
    let r = MessageType::from_u8_array(&vec![0, 0x40, 0x42, 0x0f, 0x00]);
    assert_eq!(r, None);
    // One less, 0x000f423f, is the last valid index.
    let r = MessageType::from_u8_array(&vec![0, 0x3f, 0x42, 0x0f, 0x00]);
    assert_eq!(r, Some(MessageType::Bitmap(999_999, BitmapMessage::Add)));
}

#[test]
fn decode_rejects_wrong_length() {
    assert_eq!(MessageType::from_u8_array(&vec![]), None);
    assert_eq!(MessageType::from_u8_array(&vec![0, 0, 0, 0]), None);
    assert_eq!(MessageType::from_u8_array(&vec![0, 0, 0, 0, 0, 0]), None);
}

#[test]
fn decode_rejects_unknown_category() {
    assert_eq!(MessageType::from_u8_array(&frame(0b1000_0000, 0)), None);
    assert_eq!(MessageType::from_u8_array(&frame(0b1100_0000, 0)), None);
}

#[test]
fn decode_rejects_unknown_operation() {
    assert_eq!(MessageType::from_u8_array(&frame(0b0011_0000, 0)), None);
}

#[test]
fn decode_rejects_out_of_range_index() {
    assert_eq!(MessageType::from_u8_array(&frame(0, 1_000_000)), None);
    assert_eq!(MessageType::from_u8_array(&frame(0, u32::MAX)), None);
}

#[test]
fn ws_msg_exact_bytes() {
    assert_eq!(OnlineUsersMessage(1).ws_msg(), vec![0x40, 1, 0, 0, 0]);
    assert_eq!(
        OnlineUsersMessage(0x0102_0304).ws_msg(),
        vec![0x40, 0x04, 0x03, 0x02, 0x01]
    );
}

#[test]
fn encode_cell_mutation_exact_bytes() {
    let e = BroadcastEvent::CellMutated { index: 0x0001_0203, value: 9 };
    assert_eq!(e.encode(), vec![0b0010_1001, 0x03, 0x02, 0x01, 0x00]);
}

#[test]
fn encode_presence_change_exact_bytes() {
    let e = BroadcastEvent::PresenceChanged { count: 258 };
    assert_eq!(e.encode(), vec![0x40, 0x02, 0x01, 0x00, 0x00]);
}

#[test]
fn encoded_events_decode_back() {
    let e = BroadcastEvent::CellMutated { index: 123_456, value: 9 };
    assert_eq!(
        MessageType::from_u8_array(&e.encode()),
        Some(MessageType::Bitmap(123_456, BitmapMessage::SetTo(9)))
    );
    let e = BroadcastEvent::PresenceChanged { count: 7 };
    assert_eq!(
        MessageType::from_u8_array(&e.encode()),
        Some(MessageType::OnlineUsers(OnlineUsersMessage(7)))
    );
}
