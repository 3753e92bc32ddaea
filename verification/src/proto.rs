//! The control protocol: five-byte frames, a request tag followed by a
//! little-endian 32-bit value.

use vstd::prelude::*;

verus! {

/// Length of one frame on the wire.
pub const FRAME_LEN: usize = 5;

/// Tag under which `Request::Unknown` travels.
pub const UNKNOWN_TAG: u8 = 0xFE;

/// What a control message asks for.
#[derive(Debug, Clone, Copy, PartialEq, Eq, Structural)]
pub enum Request {
    Workspace,
    Kill,
    Close,
    PaddingTop,
    PaddingBottom,
    PaddingLeft,
    PaddingRight,
    WindowGaps,
    FocusedBorder,
    NormalBorder,
    BorderWidth,
    FocusUp,
    FocusDown,
    FocusMaster,
    FloatToggle,
    FloatLeft,
    FloatRight,
    FloatUp,
    FloatDown,
    ResizeLeft,
    ResizeRight,
    ResizeUp,
    ResizeDown,
    EnableMouse,
    DisableMouse,
    WorkspacePerMonitor,
    MonitorCirculate,
    Quit,
    Unknown,
}

/// One control message.
#[derive(Debug, Clone, Copy, PartialEq, Eq, Structural)]
pub struct Sequence {
    pub request: Request,
    pub value: u32,
}

impl Request {
    /// The byte that stands for the request on the wire.
    pub open spec fn wire_tag(self) -> u8 {
        match self {
            Request::Workspace => 0x00,
            Request::Kill => 0x01,
            Request::Close => 0x02,
            Request::PaddingTop => 0x03,
            Request::PaddingBottom => 0x04,
            Request::PaddingLeft => 0x05,
            Request::PaddingRight => 0x06,
            Request::WindowGaps => 0x07,
            Request::FocusedBorder => 0x08,
            Request::NormalBorder => 0x09,
            Request::BorderWidth => 0x0A,
            Request::FocusUp => 0x0B,
            Request::FocusDown => 0x0C,
            Request::FocusMaster => 0x0D,
            Request::FloatToggle => 0x0E,
            Request::FloatLeft => 0x0F,
            Request::FloatRight => 0x10,
            Request::FloatUp => 0x11,
            Request::FloatDown => 0x12,
            Request::ResizeLeft => 0x13,
            Request::ResizeRight => 0x14,
            Request::ResizeUp => 0x15,
            Request::ResizeDown => 0x16,
            Request::EnableMouse => 0x17,
            Request::DisableMouse => 0x18,
            Request::WorkspacePerMonitor => 0x19,
            Request::MonitorCirculate => 0x1A,
            Request::Quit => 0x1B,
            Request::Unknown => UNKNOWN_TAG,
        }
    }

    /// The request that a tag byte stands for; a byte that is no request's
    /// tag stands for `Unknown`.
    pub open spec fn of_wire_tag(tag: u8) -> Request {
        match tag {
            0x00 => Request::Workspace,
            0x01 => Request::Kill,
            0x02 => Request::Close,
            0x03 => Request::PaddingTop,
            0x04 => Request::PaddingBottom,
            0x05 => Request::PaddingLeft,
            0x06 => Request::PaddingRight,
            0x07 => Request::WindowGaps,
            0x08 => Request::FocusedBorder,
            0x09 => Request::NormalBorder,
            0x0A => Request::BorderWidth,
            0x0B => Request::FocusUp,
            0x0C => Request::FocusDown,
            0x0D => Request::FocusMaster,
            0x0E => Request::FloatToggle,
            0x0F => Request::FloatLeft,
            0x10 => Request::FloatRight,
            0x11 => Request::FloatUp,
            0x12 => Request::FloatDown,
            0x13 => Request::ResizeLeft,
            0x14 => Request::ResizeRight,
            0x15 => Request::ResizeUp,
            0x16 => Request::ResizeDown,
            0x17 => Request::EnableMouse,
            0x18 => Request::DisableMouse,
            0x19 => Request::WorkspacePerMonitor,
            0x1A => Request::MonitorCirculate,
            0x1B => Request::Quit,
            _ => Request::Unknown,
        }
    }

    /// The byte that stands for the request on the wire.
    pub fn tag(&self) -> (tag: u8)
        ensures
            tag == self.wire_tag(),
    {
        match self {
            Request::Workspace => 0x00,
            Request::Kill => 0x01,
            Request::Close => 0x02,
            Request::PaddingTop => 0x03,
            Request::PaddingBottom => 0x04,
            Request::PaddingLeft => 0x05,
            Request::PaddingRight => 0x06,
            Request::WindowGaps => 0x07,
            Request::FocusedBorder => 0x08,
            Request::NormalBorder => 0x09,
            Request::BorderWidth => 0x0A,
            Request::FocusUp => 0x0B,
            Request::FocusDown => 0x0C,
            Request::FocusMaster => 0x0D,
            Request::FloatToggle => 0x0E,
            Request::FloatLeft => 0x0F,
            Request::FloatRight => 0x10,
            Request::FloatUp => 0x11,
            Request::FloatDown => 0x12,
            Request::ResizeLeft => 0x13,
            Request::ResizeRight => 0x14,
            Request::ResizeUp => 0x15,
            Request::ResizeDown => 0x16,
            Request::EnableMouse => 0x17,
            Request::DisableMouse => 0x18,
            Request::WorkspacePerMonitor => 0x19,
            Request::MonitorCirculate => 0x1A,
            Request::Quit => 0x1B,
            Request::Unknown => UNKNOWN_TAG,
        }
    }

    /// The request that a tag byte stands for.
    pub fn from_tag(tag: u8) -> (request: Request)
        ensures
            request == Request::of_wire_tag(tag),
    {
        match tag {
            0x00 => Request::Workspace,
            0x01 => Request::Kill,
            0x02 => Request::Close,
            0x03 => Request::PaddingTop,
            0x04 => Request::PaddingBottom,
            0x05 => Request::PaddingLeft,
            0x06 => Request::PaddingRight,
            0x07 => Request::WindowGaps,
            0x08 => Request::FocusedBorder,
            0x09 => Request::NormalBorder,
            0x0A => Request::BorderWidth,
            0x0B => Request::FocusUp,
            0x0C => Request::FocusDown,
            0x0D => Request::FocusMaster,
            0x0E => Request::FloatToggle,
            0x0F => Request::FloatLeft,
            0x10 => Request::FloatRight,
            0x11 => Request::FloatUp,
            0x12 => Request::FloatDown,
            0x13 => Request::ResizeLeft,
            0x14 => Request::ResizeRight,
            0x15 => Request::ResizeUp,
            0x16 => Request::ResizeDown,
            0x17 => Request::EnableMouse,
            0x18 => Request::DisableMouse,
            0x19 => Request::WorkspacePerMonitor,
            0x1A => Request::MonitorCirculate,
            0x1B => Request::Quit,
            _ => Request::Unknown,
        }
    }
}

/// The frame of a message: the tag, then the value's four bytes, lowest
/// first.
pub open spec fn frame_of(sequence: Sequence) -> Seq<u8> {
    seq![
        sequence.request.wire_tag(),
        (sequence.value % 0x100) as u8,
        (sequence.value / 0x100 % 0x100) as u8,
        (sequence.value / 0x1_0000 % 0x100) as u8,
        (sequence.value / 0x100_0000) as u8,
    ]
}

/// The message that a frame of five bytes holds.
pub open spec fn message_of(frame: Seq<u8>) -> Sequence {
    Sequence {
        request: Request::of_wire_tag(frame[0]),
        value: (frame[1] + frame[2] * 0x100 + frame[3] * 0x1_0000 + frame[4] * 0x100_0000) as u32,
    }
}

/// What decoding makes of some bytes: the message where they are one frame,
/// nothing where their number is not that of a frame.
pub open spec fn decoded(bytes: Seq<u8>) -> Option<Sequence> {
    if bytes.len() == FRAME_LEN {
        Some(message_of(bytes))
    } else {
        None
    }
}

/// The messages that a byte stream holds: one for each full frame, in
/// order. Bytes after the last full frame are left out.
pub open spec fn messages_of(stream: Seq<u8>) -> Seq<Sequence> {
    Seq::new(
        (stream.len() / FRAME_LEN as nat) as nat,
        |i: int| message_of(stream.subrange(i * FRAME_LEN as int, i * FRAME_LEN as int + FRAME_LEN as int)),
    )
}

impl Sequence {
    /// The message that asks for `request` with `value`.
    pub fn new(request: Request, value: u32) -> (sequence: Sequence)
        ensures
            sequence == (Sequence { request, value }),
    {
        Sequence { request, value }
    }

    /// Reads the message out of one frame. Bytes that are not five in number
    /// are no frame and give no message.
    pub fn decode(bytes: &[u8]) -> (sequence: Option<Sequence>)
        ensures
            sequence == decoded(bytes@),
    {
        if bytes.len() != FRAME_LEN {
            return None;
        }
        let value: u32 = bytes[1] as u32 + bytes[2] as u32 * 0x100 + bytes[3] as u32 * 0x1_0000
            + bytes[4] as u32 * 0x100_0000;
        Some(Sequence { request: Request::from_tag(bytes[0]), value })
    }

    /// Writes the message as one frame.
    pub fn encode(&self) -> (bytes: Vec<u8>)
        ensures
            bytes@ == frame_of(*self),
    {
        let mut bytes: Vec<u8> = Vec::with_capacity(FRAME_LEN);
        bytes.push(self.request.tag());
        bytes.push((self.value % 0x100) as u8);
        bytes.push((self.value / 0x100 % 0x100) as u8);
        bytes.push((self.value / 0x1_0000 % 0x100) as u8);
        bytes.push((self.value / 0x100_0000) as u8);
        assert(bytes@ =~= frame_of(*self));
        bytes
    }
}

/// Cuts what was read from one connection into frames and decodes each.
pub fn decode_stream(stream: &[u8]) -> (messages: Vec<Sequence>)
    ensures
        messages@ == messages_of(stream@),
{
    let len: usize = stream.len();
    let count: usize = len / FRAME_LEN;
    let mut messages: Vec<Sequence> = Vec::new();
    let mut i: usize = 0;
    while i < count
        invariant
            len == stream@.len(),
            count == len / 5,
            i <= count,
            messages@.len() == i,
            forall|k: int| 0 <= k < i ==> #[trigger] messages@[k] == messages_of(stream@)[k],
        decreases count - i,
    {
        assert(5 * i + 5 <= len);
        let start: usize = 5 * i;
        let frame = vstd::slice::slice_subrange(stream, start, start + FRAME_LEN);
        if let Some(message) = Sequence::decode(frame) {
            messages.push(message);
        }
        i += 1;
    }
    assert(messages@ =~= messages_of(stream@));
    messages
}

/// Decoding undoes encoding: tag and value come back as they were sent.
pub proof fn lemma_decode_encode(sequence: Sequence)
    ensures
        frame_of(sequence).len() == FRAME_LEN,
        message_of(frame_of(sequence)) == sequence,
        decoded(frame_of(sequence)) == Some(sequence),
{
    let v = sequence.value;
    assert(v % 0x100 + (v / 0x100 % 0x100) * 0x100 + (v / 0x1_0000 % 0x100) * 0x1_0000 + (v
        / 0x100_0000) * 0x100_0000 == v);
}

/// A tag that belongs to a request decodes to that request.
pub proof fn lemma_tag_of_wire_tag(request: Request)
    ensures
        Request::of_wire_tag(request.wire_tag()) == request,
{
}

} // verus!
