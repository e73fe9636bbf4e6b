//! Framing of MCS messages: a tag byte, the size of the body as a varint, and the body. The first
//! frame in either direction has a version byte before it.

use crate::buffer::{advance, byte_at, put_byte, put_bytes};
use crate::buffer::{buffer_limit, contents};
use crate::error::{Error, ErrorView};
use crate::proto::{
    Close, DataMessageStanza, HeartbeatAck, HeartbeatPing, IqStanza, LoginRequest, LoginResponse,
    StreamErrorStanza,
};
use crate::text::{concat, decimal, decimal_text};
use bytes::BytesMut;
use vstd::prelude::*;

verus! {

/// The version byte that this side writes.
pub const VERSION: u8 = 41;

/// The one version below `VERSION` that a peer may announce.
pub const LEGACY_VERSION: u8 = 38;

/// The kinds of message that the receiver knows.
#[derive(Debug, Clone, Copy, PartialEq, Eq, Structural)]
pub enum MessageKind {
    HeartbeatPing,
    HeartbeatAck,
    LoginRequest,
    LoginResponse,
    Close,
    IqStanza,
    DataMessageStanza,
    StreamErrorStanza,
}

/// The kind of message that a tag byte announces.
pub open spec fn kind_of(tag: u8) -> Option<MessageKind> {
    match tag {
        0 => Some(MessageKind::HeartbeatPing),
        1 => Some(MessageKind::HeartbeatAck),
        2 => Some(MessageKind::LoginRequest),
        3 => Some(MessageKind::LoginResponse),
        4 => Some(MessageKind::Close),
        7 => Some(MessageKind::IqStanza),
        8 => Some(MessageKind::DataMessageStanza),
        10 => Some(MessageKind::StreamErrorStanza),
        _ => None,
    }
}

impl MessageKind {
    /// The tag byte of this kind.
    pub open spec fn tag_byte(self) -> u8 {
        match self {
            MessageKind::HeartbeatPing => 0,
            MessageKind::HeartbeatAck => 1,
            MessageKind::LoginRequest => 2,
            MessageKind::LoginResponse => 3,
            MessageKind::Close => 4,
            MessageKind::IqStanza => 7,
            MessageKind::DataMessageStanza => 8,
            MessageKind::StreamErrorStanza => 10,
        }
    }

    /// The tag byte of this kind.
    pub fn tag(self) -> (res: u8)
        ensures
            res == self.tag_byte(),
    {
        match self {
            MessageKind::HeartbeatPing => 0,
            MessageKind::HeartbeatAck => 1,
            MessageKind::LoginRequest => 2,
            MessageKind::LoginResponse => 3,
            MessageKind::Close => 4,
            MessageKind::IqStanza => 7,
            MessageKind::DataMessageStanza => 8,
            MessageKind::StreamErrorStanza => 10,
        }
    }

    /// The kind that `tag` announces, if the receiver knows it.
    pub fn from_tag(tag: u8) -> (res: Option<MessageKind>)
        ensures
            res == kind_of(tag),
    {
        match tag {
            0 => Some(MessageKind::HeartbeatPing),
            1 => Some(MessageKind::HeartbeatAck),
            2 => Some(MessageKind::LoginRequest),
            3 => Some(MessageKind::LoginResponse),
            4 => Some(MessageKind::Close),
            7 => Some(MessageKind::IqStanza),
            8 => Some(MessageKind::DataMessageStanza),
            10 => Some(MessageKind::StreamErrorStanza),
            _ => None,
        }
    }
}

/// A message of the MCS protocol.
#[derive(Debug, Clone)]
pub enum McsMessage {
    HeartbeatPing(HeartbeatPing),
    HeartbeatAck(HeartbeatAck),
    LoginRequest(LoginRequest),
    LoginResponse(LoginResponse),
    Close(Close),
    IqStanza(IqStanza),
    DataMessageStanza(DataMessageStanza),
    StreamErrorStanza(StreamErrorStanza),
}

impl McsMessage {
    /// The kind of this message.
    pub open spec fn message_kind(self) -> MessageKind {
        match self {
            McsMessage::HeartbeatPing(_) => MessageKind::HeartbeatPing,
            McsMessage::HeartbeatAck(_) => MessageKind::HeartbeatAck,
            McsMessage::LoginRequest(_) => MessageKind::LoginRequest,
            McsMessage::LoginResponse(_) => MessageKind::LoginResponse,
            McsMessage::Close(_) => MessageKind::Close,
            McsMessage::IqStanza(_) => MessageKind::IqStanza,
            McsMessage::DataMessageStanza(_) => MessageKind::DataMessageStanza,
            McsMessage::StreamErrorStanza(_) => MessageKind::StreamErrorStanza,
        }
    }

    /// The kind of this message.
    pub fn kind(&self) -> (res: MessageKind)
        ensures
            res == self.message_kind(),
    {
        match self {
            McsMessage::HeartbeatPing(_) => MessageKind::HeartbeatPing,
            McsMessage::HeartbeatAck(_) => MessageKind::HeartbeatAck,
            McsMessage::LoginRequest(_) => MessageKind::LoginRequest,
            McsMessage::LoginResponse(_) => MessageKind::LoginResponse,
            McsMessage::Close(_) => MessageKind::Close,
            McsMessage::IqStanza(_) => MessageKind::IqStanza,
            McsMessage::DataMessageStanza(_) => MessageKind::DataMessageStanza,
            McsMessage::StreamErrorStanza(_) => MessageKind::StreamErrorStanza,
        }
    }

    /// The tag byte that announces this message on the wire.
    pub fn tag(&self) -> (res: u8)
        ensures
            res == self.message_kind().tag_byte(),
    {
        self.kind().tag()
    }
}

/// The number written as a varint at the front of `bytes` within at most `limit` bytes, and how
/// many bytes it takes: seven bits a byte, least significant first, with the top bit set on all
/// bytes but the last.
pub open spec fn read_varint(bytes: Seq<u8>, limit: nat) -> Option<(nat, nat)>
    decreases limit,
{
    if limit == 0 || bytes.len() == 0 {
        None
    } else if bytes[0] < 128 {
        Some((bytes[0] as nat, 1))
    } else {
        match read_varint(bytes.skip(1), (limit - 1) as nat) {
            Some((high, used)) => Some(((bytes[0] - 128) as nat + 128 * high, used + 1)),
            None => None,
        }
    }
}

/// `n` as a varint, in as few bytes as possible.
pub open spec fn varint(n: nat) -> Seq<u8>
    decreases n,
{
    if n < 128 {
        seq![n as u8]
    } else {
        seq![(n % 128 + 128) as u8] + varint(n / 128)
    }
}

/// The most bytes that the size of a frame may take.
pub const MAX_SIZE_BYTES: usize = 5;

/// The size of a body as the machine holds it.
pub open spec fn machine_size(size: nat) -> usize {
    (size as u64) as usize
}

/// The bytes of one frame.
pub open spec fn frame_bytes(kind: MessageKind, body: Seq<u8>) -> Seq<u8> {
    (if kind == MessageKind::LoginRequest {
        seq![VERSION]
    } else {
        Seq::<u8>::empty()
    }) + seq![kind.tag_byte()] + varint(body.len()) + body
}

/// What a decoder reads next.
pub enum Awaiting {
    /// The version byte of the peer.
    Version,
    /// The tag byte of a frame.
    Tag,
    /// The size of a frame, whose tag is known.
    Size { tag: u8 },
    /// The body of a frame.
    Body { tag: u8, size: usize },
}

/// What decoding came to.
pub enum Progress {
    /// A frame of a known kind.
    Frame { kind: MessageKind, body: Seq<u8> },
    /// The bytes so far hold no further frame of a known kind.
    Incomplete,
    /// The peer speaks a version that is not understood.
    BadVersion(u8),
}

/// What decoding came to, what the decoder reads next, and the bytes that it left.
pub struct Decoded {
    pub progress: Progress,
    pub awaiting: Awaiting,
    pub rest: Seq<u8>,
}

/// Decodes up to the first frame of a known kind: frames of other kinds are passed over.
pub open spec fn decoded(awaiting: Awaiting, bytes: Seq<u8>) -> Decoded
    decreases bytes.len(), (awaiting is Body) as int,
    via decoded_terminates
{
    let stay = Decoded { progress: Progress::Incomplete, awaiting, rest: bytes };
    match awaiting {
        Awaiting::Version => if bytes.len() == 0 {
            stay
        } else if bytes[0] < VERSION && bytes[0] != LEGACY_VERSION {
            Decoded { progress: Progress::BadVersion(bytes[0]), awaiting, rest: bytes }
        } else {
            decoded(Awaiting::Tag, bytes.skip(1))
        },
        Awaiting::Tag => if bytes.len() == 0 {
            stay
        } else {
            decoded(Awaiting::Size { tag: bytes[0] }, bytes.skip(1))
        },
        Awaiting::Size { tag } => match read_varint(bytes, MAX_SIZE_BYTES as nat) {
            Some((size, used)) => decoded(
                Awaiting::Body { tag, size: machine_size(size) },
                bytes.skip(used as int),
            ),
            None => stay,
        },
        Awaiting::Body { tag, size } => if bytes.len() < size {
            stay
        } else {
            match kind_of(tag) {
                Some(kind) => Decoded {
                    progress: Progress::Frame { kind, body: bytes.take(size as int) },
                    awaiting: Awaiting::Tag,
                    rest: bytes.skip(size as int),
                },
                None => decoded(Awaiting::Tag, bytes.skip(size as int)),
            }
        },
    }
}

#[via_fn]
proof fn decoded_terminates(awaiting: Awaiting, bytes: Seq<u8>) {
    if awaiting is Size {
        lemma_read_varint_used(bytes, MAX_SIZE_BYTES as nat);
    }
}

/// A varint takes at least one byte, and no more than there are.
pub proof fn lemma_read_varint_used(bytes: Seq<u8>, limit: nat)
    ensures
        read_varint(bytes, limit) matches Some((_, used)) ==> 1 <= used <= bytes.len() && used
            <= limit,
    decreases limit,
{
    if limit > 0 && bytes.len() > 0 {
        lemma_read_varint_used(bytes.skip(1), (limit - 1) as nat);
    }
}

/// `128` to the power `n`.
spec fn scale_of(n: nat) -> nat
    decreases n,
{
    if n == 0 {
        1
    } else {
        128 * scale_of((n - 1) as nat)
    }
}

/// Where a decoder stands in the stream of frames.
#[derive(Debug, Clone, Copy, PartialEq, Eq, Structural)]
enum CodecState {
    VersionTagAndSize,
    TagAndSize,
    Size,
    ProtoBytes,
}

/// A frame of a known kind, with its body.
#[derive(Debug)]
pub struct Frame {
    pub kind: MessageKind,
    pub body: BytesMut,
}

/// Cuts the incoming bytes into frames, and writes outgoing ones.
pub struct McsCodec {
    state: CodecState,
    tag: u8,
    size: usize,
}

impl View for McsCodec {
    type V = Awaiting;

    closed spec fn view(&self) -> Awaiting {
        match self.state {
            CodecState::VersionTagAndSize => Awaiting::Version,
            CodecState::TagAndSize => Awaiting::Tag,
            CodecState::Size => Awaiting::Size { tag: self.tag },
            CodecState::ProtoBytes => Awaiting::Body { tag: self.tag, size: self.size },
        }
    }
}

impl McsCodec {
    /// A codec at the start of a stream, which has no tag and no size yet.
    pub closed spec fn initial() -> McsCodec {
        McsCodec { state: CodecState::VersionTagAndSize, tag: 0, size: 0 }
    }

    /// A codec at the start of a stream.
    pub fn new() -> (res: Self)
        ensures
            res == McsCodec::initial(),
            res@ == Awaiting::Version,
    {
        McsCodec { state: CodecState::VersionTagAndSize, tag: 0, size: 0 }
    }

    /// Takes a varint off the front of `src`. Where there is none, because bytes are missing or
    /// because more than `MAX_SIZE_BYTES` belong to it, `src` stays as it is.
    pub fn decode_varint(src: &mut BytesMut) -> (res: Option<usize>)
        ensures
            match read_varint(contents(*old(src)), MAX_SIZE_BYTES as nat) {
                Some((value, used)) => res == Some(machine_size(value)) && contents(*final(src))
                    == contents(*old(src)).skip(used as int),
                None => res is None && contents(*final(src)) == contents(*old(src)),
            },
    {
        let ghost bytes = contents(*src);
        let total: usize = src.len();
        let mut value: u64 = 0;
        let mut scale: u64 = 1;
        let mut used: usize = 0;
        assert(bytes.skip(0) =~= bytes);
        while used < total && used < MAX_SIZE_BYTES
            invariant
                contents(*src) == bytes,
                bytes == contents(*old(src)),
                total == bytes.len(),
                used <= total,
                used <= MAX_SIZE_BYTES,
                scale == scale_of(used as nat),
                value < scale,
                scale <= 0x8_0000_0000,
                read_varint(bytes, MAX_SIZE_BYTES as nat) == (match read_varint(
                    bytes.skip(used as int),
                    (MAX_SIZE_BYTES - used) as nat,
                ) {
                    Some((high, more)) => Some((value as nat + scale as nat * high, used as nat + more)),
                    None => None::<(nat, nat)>,
                }),
            decreases MAX_SIZE_BYTES - used,
        {
            let byte: u8 = byte_at(src, used);
            let low: u64 = (byte % 128) as u64;
            let ghost rest = bytes.skip(used as int);
            let ghost before = value;
            assert(rest[0] == byte);
            assert(rest.skip(1) =~= bytes.skip(used + 1));
            assert(low * scale <= 127 * scale) by (nonlinear_arith)
                requires
                    low <= 127,
            ;
            proof {
                reveal_with_fuel(scale_of, 6);
            }
            value = value + low * scale;
            used = used + 1;
            if byte < 128 {
                assert(scale as nat * (byte as nat) == low * scale) by (nonlinear_arith)
                    requires
                        low == byte,
                ;
                proof {
                    lemma_read_varint_used(bytes, MAX_SIZE_BYTES as nat);
                }
                advance(src, used);
                return Some(value as usize);
            }
            assert forall|high: nat|
                before + scale * #[trigger] (low as nat + 128 * high) == value + (scale * 128)
                    * high by {
                assert(scale * (low + 128 * high) == low * scale + (scale * 128) * high)
                    by (nonlinear_arith);
            }
            scale = scale * 128;
        }
        None
    }

    /// Takes the next frame of a known kind off the front of `src`, and passes over frames of
    /// other kinds. The bytes of a frame may come in any number of pieces.
    pub fn decode(&mut self, src: &mut BytesMut) -> (res: Result<Option<Frame>, Error>)
        ensures
            final(self)@ == decoded(old(self)@, contents(*old(src))).awaiting,
            contents(*final(src)) == decoded(old(self)@, contents(*old(src))).rest,
            match decoded(old(self)@, contents(*old(src))).progress {
                Progress::Frame { kind, body } => res matches Ok(Some(frame)) && frame.kind == kind
                    && contents(frame.body) == body,
                Progress::Incomplete => res matches Ok(None),
                Progress::BadVersion(version) => res matches Err(error) && error@
                    == ErrorView::Protocol("Invalid version: "@ + decimal(version as nat)),
            },
    {
        loop
            invariant
                decoded(self@, contents(*src)) == decoded(old(self)@, contents(*old(src))),
            decreases contents(*src).len(), (self@ is Body) as int,
        {
            match self.state {
                CodecState::VersionTagAndSize => {
                    if src.is_empty() {
                        return Ok(None);
                    }
                    let version: u8 = byte_at(src, 0);
                    if version < VERSION && version != LEGACY_VERSION {
                        return Err(
                            Error::Protocol(
                                concat("Invalid version: ", decimal_text(version as u64).as_str()),
                            ),
                        );
                    }
                    advance(src, 1);
                    self.state = CodecState::TagAndSize;
                },
                CodecState::TagAndSize => {
                    if src.is_empty() {
                        return Ok(None);
                    }
                    self.tag = byte_at(src, 0);
                    advance(src, 1);
                    self.state = CodecState::Size;
                },
                CodecState::Size => {
                    proof {
                        lemma_read_varint_used(contents(*src), MAX_SIZE_BYTES as nat);
                    }
                    match McsCodec::decode_varint(src) {
                        Some(size) => {
                            self.size = size;
                            self.state = CodecState::ProtoBytes;
                        },
                        None => {
                            return Ok(None);
                        },
                    }
                },
                CodecState::ProtoBytes => {
                    if src.len() < self.size {
                        return Ok(None);
                    }
                    let body = src.split_to(self.size);
                    self.state = CodecState::TagAndSize;
                    match MessageKind::from_tag(self.tag) {
                        Some(kind) => {
                            return Ok(Some(Frame { kind, body }));
                        },
                        None => {},
                    }
                },
            }
        }
    }

    /// Appends `size` as a varint.
    fn encode_varint(size: usize, dst: &mut BytesMut)
        requires
            contents(*old(dst)).len() + varint(size as nat).len() <= buffer_limit(),
        ensures
            contents(*final(dst)) == contents(*old(dst)) + varint(size as nat),
    {
        let mut left: usize = size;
        while left >= 128
            invariant
                contents(*dst) + varint(left as nat) == contents(*old(dst)) + varint(size as nat),
                contents(*old(dst)).len() + varint(size as nat).len() <= buffer_limit(),
            decreases left,
        {
            assert((contents(*dst) + varint(left as nat)).len() <= buffer_limit());
            let ghost before = contents(*dst);
            put_byte(dst, (left % 128 + 128) as u8);
            assert(contents(*dst) + varint(left as nat / 128) =~= before + varint(left as nat));
            left = left / 128;
        }
        assert((contents(*dst) + varint(left as nat)).len() <= buffer_limit());
        let ghost before = contents(*dst);
        put_byte(dst, left as u8);
        assert(contents(*dst) =~= before + varint(left as nat));
    }

    /// Appends the frame of `item` to `dst`, where `body` is the encoded form of `item`. A login
    /// request opens the stream, so the version byte goes before it.
    pub fn encode(&mut self, item: &McsMessage, body: &[u8], dst: &mut BytesMut)
        requires
            contents(*old(dst)).len() + body@.len() + 12 <= buffer_limit(),
        ensures
            contents(*final(dst)) == contents(*old(dst)) + frame_bytes(item.message_kind(), body@),
            *final(self) == *old(self),
    {
        proof {
            reveal_with_fuel(scale_of, 11);
            lemma_varint_len(body@.len(), 10);
        }
        let tag: u8 = item.tag();
        if tag == MessageKind::LoginRequest.tag() {
            put_byte(dst, VERSION);
        }
        put_byte(dst, tag);
        McsCodec::encode_varint(body.len(), dst);
        put_bytes(dst, body);
        assert(contents(*dst) =~= contents(*old(dst)) + frame_bytes(item.message_kind(), body@));
    }
}

impl Default for McsCodec {
    fn default() -> (res: Self)
        ensures
            res == McsCodec::initial(),
            res@ == Awaiting::Version,
    {
        McsCodec::new()
    }
}

/// A number below `128` to the power `most` takes at most `most` bytes.
proof fn lemma_varint_len(n: nat, most: nat)
    requires
        n < scale_of(most),
        1 <= most,
    ensures
        varint(n).len() <= most,
    decreases most,
{
    if n >= 128 {
        reveal_with_fuel(scale_of, 2);
        lemma_varint_len(n / 128, (most - 1) as nat);
    }
}

} // verus!
