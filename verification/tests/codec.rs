use yaxiwm::proto::{decode_stream, Request, Sequence};

#[test]
fn encode_is_tag_then_little_endian_value() {
    let bytes = Sequence::new(Request::FocusedBorder, 0x00FF8800).encode();
    assert_eq!(bytes, vec![0x08, 0x00, 0x88, 0xFF, 0x00]);
}

#[test]
fn decode_reads_tag_and_value() {
    let sequence = Sequence::decode(&[0x19, 0x03, 0x00, 0x00, 0x00]);
    assert_eq!(sequence, Some(Sequence::new(Request::WorkspacePerMonitor, 3)));
}

#[test]
fn decode_stream_drops_trailing_short_chunk() {
    let messages = decode_stream(&[0x01, 0, 0, 0, 0, 0x07, 10, 0, 0, 0, 0x1B, 0]);
    assert_eq!(
        messages,
        vec![Sequence::new(Request::Kill, 0), Sequence::new(Request::WindowGaps, 10)]
    );
}

#[test]
fn every_request_survives_the_wire() {
    let requests = [
        Request::Workspace,
        Request::Kill,
        Request::Close,
        Request::PaddingTop,
        Request::PaddingBottom,
        Request::PaddingLeft,
        Request::PaddingRight,
        Request::WindowGaps,
        Request::FocusedBorder,
        Request::NormalBorder,
        Request::BorderWidth,
        Request::FocusUp,
        Request::FocusDown,
        Request::FocusMaster,
        Request::FloatToggle,
        Request::FloatLeft,
        Request::FloatRight,
        Request::FloatUp,
        Request::FloatDown,
        Request::ResizeLeft,
        Request::ResizeRight,
        Request::ResizeUp,
        Request::ResizeDown,
        Request::EnableMouse,
        Request::DisableMouse,
        Request::WorkspacePerMonitor,
        Request::MonitorCirculate,
        Request::Quit,
        Request::Unknown,
    ];
    for (index, request) in requests.iter().enumerate() {
        let sequence = Sequence::new(*request, 0xDEADBEEF);
        let bytes = sequence.encode();
        assert_eq!(bytes.len(), 5);
        if index < 28 {
            assert_eq!(bytes[0] as usize, index);
        } else {
            assert_eq!(bytes[0], 0xFE);
        }
        assert_eq!(&bytes[1..], &[0xEF, 0xBE, 0xAD, 0xDE]);
        assert_eq!(Sequence::decode(&bytes), Some(sequence));
    }
}

#[test]
fn unknown_tags_decode_to_unknown() {
    for tag in [0x1Cu8, 0x80, 0xFD, 0xFE, 0xFF] {
        let sequence = Sequence::decode(&[tag, 1, 0, 0, 0]);
        assert_eq!(sequence, Some(Sequence::new(Request::Unknown, 1)));
    }
}

#[test]
fn decode_stream_of_nothing_is_empty() {
    assert_eq!(decode_stream(&[]), vec![]);
    assert_eq!(decode_stream(&[1, 2, 3, 4]), vec![]);
}

#[test]
fn decode_discards_frames_of_another_length() {
    assert_eq!(Sequence::decode(&[]), None);
    assert_eq!(Sequence::decode(&[0x01, 0, 0, 0]), None);
    assert_eq!(Sequence::decode(&[0x01, 0, 0, 0, 0, 0]), None);
}
