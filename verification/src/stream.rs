//! Laws of the stream of frames.

use crate::codec::{
    decoded, frame_bytes, kind_of, lemma_read_varint_used, machine_size, read_varint, varint,
    Awaiting, Decoded, McsMessage, MessageKind, Progress,
};
use crate::codec::{LEGACY_VERSION, MAX_SIZE_BYTES, VERSION};
use vstd::arithmetic::div_mod::{lemma_div_denominator, lemma_mod_breakdown};
use vstd::arithmetic::power::{lemma_pow0, lemma_pow1, lemma_pow_positive, pow};
use vstd::prelude::*;

verus! {

/// A tag byte and a message kind determine each other.
pub proof fn tag_and_kind_determine_each_other(kind: MessageKind, tag: u8)
    ensures
        kind_of(tag) == Some(kind) <==> kind.tag_byte() == tag,
{
}

/// Bytes that come after a varint do not change how it reads.
pub proof fn varint_reads_alike_with_more_bytes(bytes: Seq<u8>, more: Seq<u8>, limit: nat)
    requires
        read_varint(bytes, limit) is Some,
    ensures
        read_varint(bytes + more, limit) == read_varint(bytes, limit),
    decreases limit,
{
    if bytes[0] >= 128 {
        varint_reads_alike_with_more_bytes(bytes.skip(1), more, (limit - 1) as nat);
        assert((bytes + more).skip(1) =~= bytes.skip(1) + more);
    }
}

/// A written varint reads back as the number it was written from, takes all of its bytes, and
/// leaves what follows it alone.
pub proof fn varint_reads_back(n: nat, more: Seq<u8>, limit: nat)
    requires
        varint(n).len() <= limit,
    ensures
        read_varint(varint(n) + more, limit) == Some((n, varint(n).len())),
    decreases n,
{
    let bytes = varint(n) + more;
    if n >= 128 {
        assert(bytes.skip(1) =~= varint(n / 128) + more);
        varint_reads_back(n / 128, more, (limit - 1) as nat);
        assert(bytes[0] - 128 == n % 128);
    }
}

/// The next power of `128`.
proof fn lemma_next_power(e: nat)
    ensures
        pow(128, e + 1) == 128 * pow(128, e),
        pow(128, e) > 0,
{
    reveal(pow);
    lemma_pow_positive(128, e);
}

/// Dividing by `128` and then by a power of it is dividing by the next power.
proof fn lemma_divide_further(n: nat, e: nat)
    ensures
        n as int / 128 / pow(128, e) == n as int / pow(128, e + 1),
{
    lemma_next_power(e);
    lemma_div_denominator(n as int, 128, pow(128, e));
}

/// A written number has as many bytes as it has digits in base 128. Byte by byte, the lower seven
/// bits are its digits, the least significant first, and the top bit says whether there are more.
pub proof fn written_varint_holds_the_digits(n: nat)
    ensures
        ({
            let bytes = varint(n);
            &&& bytes.len() >= 1
            &&& n < pow(128, bytes.len())
            &&& bytes.len() > 1 ==> n >= pow(128, (bytes.len() - 1) as nat)
            &&& forall|i: int|
                0 <= i < bytes.len() ==> (#[trigger] bytes[i]) as int % 128 == n as int / pow(
                    128,
                    i as nat,
                ) % 128
            &&& forall|i: int|
                0 <= i < bytes.len() ==> ((#[trigger] bytes[i]) >= 128) == (i + 1 < bytes.len())
        }),
    decreases n,
{
    let bytes = varint(n);
    lemma_pow0(128);
    lemma_pow1(128);
    if n >= 128 {
        let high = varint(n / 128);
        written_varint_holds_the_digits(n / 128);
        lemma_next_power(high.len());
        lemma_next_power((high.len() - 1) as nat);
        assert(bytes.len() == high.len() + 1);
        assert forall|i: int| 0 <= i < bytes.len() implies (#[trigger] bytes[i]) as int % 128
            == n as int / pow(128, i as nat) % 128 && (bytes[i] >= 128) == (i + 1
            < bytes.len()) by {
            if i > 0 {
                assert(bytes[i] == high[i - 1]);
                lemma_divide_further(n, (i - 1) as nat);
            }
        }
    }
}

/// A number is read up to the first byte without the top bit, and there is none where no such byte
/// stands within the limit. The lower seven bits of the bytes that it takes are its digits in base
/// 128, the least significant first.
pub proof fn read_varint_holds_the_digits(bytes: Seq<u8>, limit: nat)
    ensures
        match read_varint(bytes, limit) {
            Some((value, used)) => {
                &&& 1 <= used <= limit
                &&& used <= bytes.len()
                &&& value < pow(128, used)
                &&& forall|i: int|
                    0 <= i < used ==> (#[trigger] bytes[i]) as int % 128 == value as int / pow(
                        128,
                        i as nat,
                    ) % 128
                &&& forall|i: int|
                    0 <= i < used ==> ((#[trigger] bytes[i]) >= 128) == (i + 1 < used)
            },
            None => forall|i: int|
                0 <= i < bytes.len() && i < limit ==> (#[trigger] bytes[i]) >= 128,
        },
    decreases limit,
{
    lemma_pow0(128);
    lemma_pow1(128);
    if limit > 0 && bytes.len() > 0 && bytes[0] >= 128 {
        let rest = bytes.skip(1);
        read_varint_holds_the_digits(rest, (limit - 1) as nat);
        match read_varint(rest, (limit - 1) as nat) {
            Some((high, more)) => {
                let (value, used) = read_varint(bytes, limit)->0;
                assert(used == more + 1);
                assert(value == (bytes[0] - 128) + 128 * high);
                lemma_next_power(more);
                assert forall|i: int| 0 <= i < more + 1 implies (#[trigger] bytes[i]) as int % 128
                    == value as int / pow(128, i as nat) % 128 && (bytes[i] >= 128) == (i + 1 < more
                    + 1) by {
                    if i > 0 {
                        assert(bytes[i] == rest[i - 1]);
                        lemma_divide_further(value, (i - 1) as nat);
                    }
                }
            },
            None => {
                assert forall|i: int| 0 <= i < bytes.len() && i < limit implies (
                #[trigger] bytes[i]) >= 128 by {
                    if i > 0 {
                        assert(bytes[i] == rest[i - 1]);
                    }
                }
            },
        }
    }
}

/// The lower seven bits of each byte, times `128` to the power of its position, summed up.
pub open spec fn weighted_sum(bytes: Seq<u8>) -> int
    decreases bytes.len(),
{
    if bytes.len() == 0 {
        0
    } else {
        weighted_sum(bytes.drop_last()) + (bytes.last() as int % 128) * pow(
            128,
            (bytes.len() - 1) as nat,
        )
    }
}

/// Bytes that hold the lowest digits of a number sum up to what these digits stand for.
proof fn lemma_digits_sum_up(bytes: Seq<u8>, n: nat)
    requires
        forall|i: int|
            0 <= i < bytes.len() ==> (#[trigger] bytes[i]) as int % 128 == n as int / pow(
                128,
                i as nat,
            ) % 128,
    ensures
        weighted_sum(bytes) == n as int % pow(128, bytes.len()),
    decreases bytes.len(),
{
    lemma_pow0(128);
    if bytes.len() > 0 {
        let low = bytes.drop_last();
        let e = low.len();
        assert forall|i: int| 0 <= i < low.len() implies (#[trigger] low[i]) as int % 128 == n as int
            / pow(128, i as nat) % 128 by {
            assert(low[i] == bytes[i]);
        }
        lemma_digits_sum_up(low, n);
        lemma_next_power(e);
        let scale = pow(128, e);
        let last = bytes[e as int] as int % 128;
        lemma_mod_breakdown(n as int, scale, 128);
        assert(scale * 128 == pow(128, bytes.len()));
        assert(scale * last == last * scale) by (nonlinear_arith);
    }
}

/// The bytes of a written number sum up to it.
pub proof fn written_varint_sums_up(n: nat)
    ensures
        weighted_sum(varint(n)) == n,
{
    written_varint_holds_the_digits(n);
    lemma_digits_sum_up(varint(n), n);
    vstd::arithmetic::div_mod::lemma_small_mod(n, pow(128, varint(n).len()) as nat);
}

/// A number that is read is what the bytes that it takes sum up to.
pub proof fn read_varint_sums_up(bytes: Seq<u8>, limit: nat)
    ensures
        read_varint(bytes, limit) matches Some((value, used)) ==> value == weighted_sum(
            bytes.take(used as int),
        ),
{
    read_varint_holds_the_digits(bytes, limit);
    if let Some((value, used)) = read_varint(bytes, limit) {
        let taken = bytes.take(used as int);
        assert forall|i: int| 0 <= i < taken.len() implies (#[trigger] taken[i]) as int % 128
            == value as int / pow(128, i as nat) % 128 by {
            assert(taken[i] == bytes[i]);
        }
        lemma_digits_sum_up(taken, value);
        vstd::arithmetic::div_mod::lemma_small_mod(value, pow(128, used) as nat);
    }
}

/// A size that the machine can hold is held as it is, and of another the lower bits.
pub proof fn machine_holds_sizes(size: nat)
    requires
        size <= u64::MAX,
    ensures
        size <= usize::MAX ==> machine_size(size) == size,
        machine_size(size) == size as int % (usize::MAX + 1),
{
    let wide = size as u64;
    assert(usize::BITS == 32 ==> wide as usize == wide % 0x1_0000_0000u64) by (bit_vector);
    if usize::BITS == 32 {
        assert(usize::MAX + 1 == 0x1_0000_0000);
        assert(wide % 0x1_0000_0000u64 == size as int % 0x1_0000_0000);
    } else {
        assert(usize::MAX == u64::MAX);
        vstd::arithmetic::div_mod::lemma_small_mod(size, (usize::MAX + 1) as nat);
    }
}

/// The tags are 0 to 4, 7, 8 and 10; no other is known.
pub proof fn known_tags(tag: u8)
    ensures
        kind_of(tag) is Some <==> tag <= 4 || tag == 7 || tag == 8 || tag == 10,
        MessageKind::HeartbeatPing.tag_byte() == 0,
        MessageKind::HeartbeatAck.tag_byte() == 1,
        MessageKind::LoginRequest.tag_byte() == 2,
        MessageKind::LoginResponse.tag_byte() == 3,
        MessageKind::Close.tag_byte() == 4,
        MessageKind::IqStanza.tag_byte() == 7,
        MessageKind::DataMessageStanza.tag_byte() == 8,
        MessageKind::StreamErrorStanza.tag_byte() == 10,
{
}

/// A message is of the kind that its name says.
pub proof fn kinds_of_messages(message: McsMessage)
    ensures
        (message is HeartbeatPing) == (message.message_kind() is HeartbeatPing),
        (message is HeartbeatAck) == (message.message_kind() is HeartbeatAck),
        (message is LoginRequest) == (message.message_kind() is LoginRequest),
        (message is LoginResponse) == (message.message_kind() is LoginResponse),
        (message is Close) == (message.message_kind() is Close),
        (message is IqStanza) == (message.message_kind() is IqStanza),
        (message is DataMessageStanza) == (message.message_kind() is DataMessageStanza),
        (message is StreamErrorStanza) == (message.message_kind() is StreamErrorStanza),
{
}

/// A frame is made of the version, for a login request only, its tag, the size of its body in base
/// 128 and its body, and of nothing else.
pub proof fn parts_of_a_frame(kind: MessageKind, body: Seq<u8>)
    ensures
        ({
            let frame = frame_bytes(kind, body);
            let head = if kind is LoginRequest {
                2int
            } else {
                1int
            };
            let size = frame.subrange(head, frame.len() - body.len());
            &&& frame.len() > head + body.len()
            &&& kind is LoginRequest ==> frame[0] == 41
            &&& frame[head - 1] == kind.tag_byte()
            &&& frame.skip(frame.len() - body.len()) == body
            &&& weighted_sum(size) == body.len()
            &&& forall|i: int|
                0 <= i < size.len() ==> ((#[trigger] size[i]) >= 128) == (i + 1 < size.len())
            &&& size.len() > 1 ==> size[size.len() - 1] > 0
        }),
{
    let frame = frame_bytes(kind, body);
    let written = varint(body.len());
    let head = if kind is LoginRequest {
        2int
    } else {
        1int
    };
    written_varint_holds_the_digits(body.len());
    written_varint_sums_up(body.len());
    assert(frame.len() == head + written.len() + body.len());
    assert(frame.subrange(head, frame.len() - body.len()) =~= written);
    assert(frame.skip(frame.len() - body.len()) =~= body);
    lemma_last_digit_counts(body.len());
}

/// A written number has no empty digit at its end.
proof fn lemma_last_digit_counts(n: nat)
    ensures
        varint(n).len() > 1 ==> varint(n)[varint(n).len() - 1] > 0,
    decreases n,
{
    if n >= 128 {
        lemma_last_digit_counts(n / 128);
        let high = varint(n / 128);
        assert(varint(n)[varint(n).len() - 1] == high[high.len() - 1]);
    }
}

/// The versions that are understood are 38 and those from 41 on: decoding goes on behind them. Any
/// other is refused and left where it is.
pub proof fn understood_versions(version: u8, more: Seq<u8>)
    ensures
        decoded(Awaiting::Version, seq![version] + more) == if version == 38 || version >= 41 {
            decoded(Awaiting::Tag, more)
        } else {
            Decoded {
                progress: Progress::BadVersion(version),
                awaiting: Awaiting::Version,
                rest: seq![version] + more,
            }
        },
{
    assert((seq![version] + more).skip(1) =~= more);
}

/// Without any byte, decoding waits where it stands, unless a body of no bytes is awaited.
pub proof fn nothing_is_read_from_nothing(awaiting: Awaiting)
    requires
        awaiting matches Awaiting::Body { size, .. } ==> size > 0,
    ensures
        decoded(awaiting, Seq::<u8>::empty()) == (Decoded {
            progress: Progress::Incomplete,
            awaiting,
            rest: Seq::<u8>::empty(),
        }),
{
}

/// A size in up to five bytes, of which all but the last have the top bit set, is read as what its
/// bytes sum up to, whatever follows.
pub proof fn size_is_read_whatever_follows(size: Seq<u8>, more: Seq<u8>)
    requires
        1 <= size.len() <= 5,
        forall|i: int| 0 <= i < size.len() ==> ((#[trigger] size[i]) >= 128) == (i + 1 < size.len()),
    ensures
        weighted_sum(size) >= 0,
        read_varint(size + more, 5) == Some((weighted_sum(size) as nat, size.len())),
{
    let sized = size + more;
    read_varint_holds_the_digits(sized, 5);
    read_varint_sums_up(sized, 5);
    let last = size.len() - 1;
    assert(sized[last] == size[last] && size[last] < 128);
    assert(read_varint(sized, 5) is Some);
    let (value, used) = read_varint(sized, 5)->0;
    assert(used == size.len()) by {
        if used < size.len() {
            assert(sized[used - 1] == size[used - 1]);
        } else if used > size.len() {
            assert(sized[last] >= 128);
        }
    }
    assert(sized.take(used as int) =~= size);
}

/// A frame is read by its tag, by what the bytes of its size sum up to, in however many bytes up to
/// five the size is written, and by as many bytes of its body; the bytes behind it are left. Frames
/// of unknown kinds are passed over.
pub proof fn frame_is_read_by_its_size(tag: u8, size: Seq<u8>, body: Seq<u8>, more: Seq<u8>)
    requires
        1 <= size.len() <= 5,
        forall|i: int| 0 <= i < size.len() ==> ((#[trigger] size[i]) >= 128) == (i + 1 < size.len()),
        weighted_sum(size) == body.len(),
        body.len() <= usize::MAX,
    ensures
        decoded(Awaiting::Tag, seq![tag] + size + body + more) == match kind_of(tag) {
            Some(kind) => Decoded {
                progress: Progress::Frame { kind, body },
                awaiting: Awaiting::Tag,
                rest: more,
            },
            None => decoded(Awaiting::Tag, more),
        },
{
    let all = seq![tag] + size + body + more;
    let sized = size + (body + more);
    assert(all[0] == tag);
    assert(all.skip(1) =~= sized);
    size_is_read_whatever_follows(size, body + more);
    assert(sized.skip(size.len() as int) =~= body + more);
    assert((body + more).take(body.len() as int) =~= body);
    assert((body + more).skip(body.len() as int) =~= more);
    let at_body = Awaiting::Body { tag, size: machine_size(body.len()) };
    assert(decoded(Awaiting::Tag, all) == decoded(Awaiting::Size { tag }, sized));
    assert(decoded(Awaiting::Size { tag }, sized) == decoded(at_body, body + more));
}

/// A frame whose body is not yet complete is not given out: decoding waits for the rest of the body,
/// and goes on with it when it comes.
pub proof fn incomplete_body_is_waited_for(tag: u8, size: Seq<u8>, part: Seq<u8>)
    requires
        1 <= size.len() <= 5,
        forall|i: int| 0 <= i < size.len() ==> ((#[trigger] size[i]) >= 128) == (i + 1 < size.len()),
        part.len() < weighted_sum(size) <= usize::MAX,
    ensures
        decoded(Awaiting::Tag, seq![tag] + size + part).progress is Incomplete,
        decoded(Awaiting::Tag, seq![tag] + size + part).rest == part,
{
    let all = seq![tag] + size + part;
    let sized = size + part;
    assert(all[0] == tag);
    assert(all.skip(1) =~= sized);
    size_is_read_whatever_follows(size, part);
    assert(sized.skip(size.len() as int) =~= part);
    let at_body = Awaiting::Body { tag, size: machine_size(weighted_sum(size) as nat) };
    assert(decoded(Awaiting::Size { tag }, sized) == decoded(at_body, part));
    assert(decoded(Awaiting::Tag, all) == decoded(Awaiting::Size { tag }, sized));
}

/// The sizes that a receiver can read back are those below two to the power thirty-five.
pub proof fn readable_sizes(n: nat)
    ensures
        varint(n).len() <= MAX_SIZE_BYTES <==> n < 0x8_0000_0000,
{
    reveal_with_fuel(varint, 6);
}

/// Frames do not depend on how their bytes are cut into pieces. Where decoding is not held up, the
/// bytes behind are left as they are; where it is, decoding goes on with the next piece as if
/// both had come at once.
pub proof fn decoding_ignores_how_bytes_are_cut(awaiting: Awaiting, piece: Seq<u8>, next: Seq<u8>)
    ensures
        ({
            let first = decoded(awaiting, piece);
            decoded(awaiting, piece + next) == if first.progress is Incomplete {
                decoded(first.awaiting, first.rest + next)
            } else {
                Decoded { rest: first.rest + next, ..first }
            }
        }),
    decreases piece.len(), (awaiting is Body) as int,
{
    let both = piece + next;
    match awaiting {
        Awaiting::Version => if piece.len() > 0 {
            assert(both.skip(1) =~= piece.skip(1) + next);
            if !(piece[0] < VERSION && piece[0] != LEGACY_VERSION) {
                decoding_ignores_how_bytes_are_cut(Awaiting::Tag, piece.skip(1), next);
            }
        },
        Awaiting::Tag => if piece.len() > 0 {
            assert(both.skip(1) =~= piece.skip(1) + next);
            decoding_ignores_how_bytes_are_cut(
                Awaiting::Size { tag: piece[0] },
                piece.skip(1),
                next,
            );
        },
        Awaiting::Size { tag } => {
            match read_varint(piece, MAX_SIZE_BYTES as nat) {
                Some((size, used)) => {
                    varint_reads_alike_with_more_bytes(piece, next, MAX_SIZE_BYTES as nat);
                    lemma_read_varint_used(piece, MAX_SIZE_BYTES as nat);
                    assert(both.skip(used as int) =~= piece.skip(used as int) + next);
                    decoding_ignores_how_bytes_are_cut(
                        Awaiting::Body { tag, size: machine_size(size) },
                        piece.skip(used as int),
                        next,
                    );
                },
                None => {},
            }
        },
        Awaiting::Body { tag, size } => if piece.len() >= size {
            assert(both.skip(size as int) =~= piece.skip(size as int) + next);
            assert(both.take(size as int) =~= piece.take(size as int));
            if kind_of(tag) is None {
                decoding_ignores_how_bytes_are_cut(Awaiting::Tag, piece.skip(size as int), next);
            }
        },
    }
}

/// What a decoder reads before a frame of this kind.
pub open spec fn before_frame(kind: MessageKind) -> Awaiting {
    if kind == MessageKind::LoginRequest {
        Awaiting::Version
    } else {
        Awaiting::Tag
    }
}

/// A written frame is read back, and the bytes behind it are left: at the start of a stream for a
/// login request, and after a frame for the other kinds.
pub proof fn frame_reads_back(kind: MessageKind, body: Seq<u8>, more: Seq<u8>)
    requires
        body.len() < 0x8_0000_0000,
        body.len() <= usize::MAX,
    ensures
        decoded(before_frame(kind), frame_bytes(kind, body) + more) == (Decoded {
            progress: Progress::Frame { kind, body },
            awaiting: Awaiting::Tag,
            rest: more,
        }),
{
    let tagged = seq![kind.tag_byte()] + varint(body.len()) + body;
    assert(tagged.len() > 0);
    if kind == MessageKind::LoginRequest {
        let all = frame_bytes(kind, body) + more;
        assert(all[0] == VERSION);
        assert(all.skip(1) =~= tagged + more);
        assert(decoded(Awaiting::Version, all) == decoded(Awaiting::Tag, all.skip(1)));
    } else {
        assert(frame_bytes(kind, body) + more =~= tagged + more);
    }
    body_reads_back(kind.tag_byte(), body, more);
}

/// A frame of a kind that the receiver does not know is passed over.
pub proof fn unknown_frame_is_passed_over(tag: u8, body: Seq<u8>, more: Seq<u8>)
    requires
        kind_of(tag) is None,
        body.len() < 0x8_0000_0000,
        body.len() <= usize::MAX,
    ensures
        decoded(Awaiting::Tag, seq![tag] + varint(body.len()) + body + more) == decoded(
            Awaiting::Tag,
            more,
        ),
{
    body_reads_back(tag, body, more);
}

/// A tag, a size and a body bring the decoder to the end of that body.
proof fn body_reads_back(tag: u8, body: Seq<u8>, more: Seq<u8>)
    requires
        body.len() < 0x8_0000_0000,
        body.len() <= usize::MAX,
    ensures
        decoded(Awaiting::Tag, seq![tag] + varint(body.len()) + body + more) == (match kind_of(
            tag,
        ) {
            Some(kind) => Decoded {
                progress: Progress::Frame { kind, body },
                awaiting: Awaiting::Tag,
                rest: more,
            },
            None => decoded(Awaiting::Tag, more),
        }),
{
    let size = varint(body.len());
    let all = seq![tag] + size + body + more;
    let sized = size + (body + more);
    assert(all[0] == tag);
    assert(all.skip(1) =~= sized);
    assert(decoded(Awaiting::Tag, all) == decoded(Awaiting::Size { tag }, sized));
    readable_sizes(body.len());
    varint_reads_back(body.len(), body + more, MAX_SIZE_BYTES as nat);
    assert(machine_size(body.len()) == body.len());
    assert(sized.skip(size.len() as int) =~= body + more);
    let at_body = Awaiting::Body { tag, size: machine_size(body.len()) };
    assert(decoded(Awaiting::Size { tag }, sized) == decoded(at_body, body + more));
    assert((body + more).take(body.len() as int) =~= body);
    assert((body + more).skip(body.len() as int) =~= more);
}

/// A frame as it is sent: its kind and its body.
pub struct SentFrame {
    pub kind: MessageKind,
    pub body: Seq<u8>,
}

/// The bytes of `frames`, one after the other.
pub open spec fn stream_bytes(frames: Seq<SentFrame>) -> Seq<u8>
    decreases frames.len(),
{
    if frames.len() == 0 {
        Seq::<u8>::empty()
    } else {
        frame_bytes(frames[0].kind, frames[0].body) + stream_bytes(frames.skip(1))
    }
}

/// All the frames of known kinds in `bytes`, up to where decoding is held up.
pub open spec fn stream_frames(awaiting: Awaiting, bytes: Seq<u8>) -> Seq<SentFrame>
    decreases bytes.len(), (awaiting is Body) as int,
    via stream_frames_terminates
{
    let step = decoded(awaiting, bytes);
    match step.progress {
        Progress::Frame { kind, body } => seq![SentFrame { kind, body }] + stream_frames(
            step.awaiting,
            step.rest,
        ),
        _ => Seq::<SentFrame>::empty(),
    }
}

#[via_fn]
proof fn stream_frames_terminates(awaiting: Awaiting, bytes: Seq<u8>) {
    decoding_consumes(awaiting, bytes);
}

/// Decoding takes bytes off the front and leaves the others as they are, and a frame moves the
/// decoder forward.
pub proof fn decoding_consumes(awaiting: Awaiting, bytes: Seq<u8>)
    ensures
        decoded(awaiting, bytes).rest.len() <= bytes.len(),
        decoded(awaiting, bytes).rest == bytes.skip(
            bytes.len() - decoded(awaiting, bytes).rest.len(),
        ),
        decoded(awaiting, bytes).progress is Frame ==> decoded(awaiting, bytes).awaiting is Tag && (
        decoded(awaiting, bytes).rest.len() < bytes.len() || awaiting is Body),
    decreases bytes.len(), (awaiting is Body) as int,
{
    let rest = decoded(awaiting, bytes).rest;
    match awaiting {
        Awaiting::Version => if bytes.len() > 0 {
            if !(bytes[0] < VERSION && bytes[0] != LEGACY_VERSION) {
                decoding_consumes(Awaiting::Tag, bytes.skip(1));
                lemma_skip_further(bytes, 1, rest);
            }
        },
        Awaiting::Tag => if bytes.len() > 0 {
            decoding_consumes(Awaiting::Size { tag: bytes[0] }, bytes.skip(1));
            lemma_skip_further(bytes, 1, rest);
        },
        Awaiting::Size { tag } => match read_varint(bytes, MAX_SIZE_BYTES as nat) {
            Some((size, used)) => {
                lemma_read_varint_used(bytes, MAX_SIZE_BYTES as nat);
                decoding_consumes(
                    Awaiting::Body { tag, size: machine_size(size) },
                    bytes.skip(used as int),
                );
                lemma_skip_further(bytes, used, rest);
            },
            None => {},
        },
        Awaiting::Body { tag, size } => if bytes.len() >= size && kind_of(tag) is None {
            decoding_consumes(Awaiting::Tag, bytes.skip(size as int));
            lemma_skip_further(bytes, size as nat, rest);
        },
    }
    assert(rest =~= bytes.skip(bytes.len() - rest.len()));
}

/// The end of what is left of some bytes is an end of these bytes.
proof fn lemma_skip_further(bytes: Seq<u8>, used: nat, rest: Seq<u8>)
    requires
        used <= bytes.len(),
        rest.len() <= bytes.skip(used as int).len(),
        rest == bytes.skip(used as int).skip(bytes.skip(used as int).len() - rest.len()),
    ensures
        rest == bytes.skip(bytes.len() - rest.len()),
{
    assert(rest =~= bytes.skip(bytes.len() - rest.len()));
}

/// Where decoding is held up, or stopped, behind the last frame of a known kind in `bytes`.
pub open spec fn stream_end(awaiting: Awaiting, bytes: Seq<u8>) -> Decoded
    decreases bytes.len(), (awaiting is Body) as int,
    via stream_end_terminates
{
    let step = decoded(awaiting, bytes);
    if step.progress is Frame {
        stream_end(step.awaiting, step.rest)
    } else {
        step
    }
}

#[via_fn]
proof fn stream_end_terminates(awaiting: Awaiting, bytes: Seq<u8>) {
    decoding_consumes(awaiting, bytes);
}

/// Neither the frames of a stream nor where it is held up or stopped depend on how its bytes are cut
/// into pieces: the frames of two pieces are those of the first, and then those that the second
/// completes or adds; and the end of both is the end of the second, read behind what the first left.
/// A version that was refused stays refused.
pub proof fn stream_ignores_how_bytes_are_cut(awaiting: Awaiting, piece: Seq<u8>, next: Seq<u8>)
    ensures
        ({
            let end = stream_end(awaiting, piece);
            &&& stream_frames(awaiting, piece + next) == stream_frames(awaiting, piece)
                + stream_frames(end.awaiting, end.rest + next)
            &&& stream_end(awaiting, piece + next) == stream_end(end.awaiting, end.rest + next)
            &&& end.progress is BadVersion ==> stream_end(awaiting, piece + next) == (Decoded {
                rest: end.rest + next,
                ..end
            })
        }),
    decreases piece.len(), (awaiting is Body) as int,
{
    let step = decoded(awaiting, piece);
    decoding_ignores_how_bytes_are_cut(awaiting, piece, next);
    decoding_consumes(awaiting, piece);
    let end = stream_end(awaiting, piece);
    let tail = stream_frames(end.awaiting, end.rest + next);
    match step.progress {
        Progress::Frame { kind, body } => {
            stream_ignores_how_bytes_are_cut(step.awaiting, step.rest, next);
            let later = stream_frames(step.awaiting, step.rest);
            let frame = SentFrame { kind, body };
            assert(stream_frames(awaiting, piece + next) == seq![frame] + stream_frames(
                step.awaiting,
                step.rest + next,
            ));
            assert(seq![frame] + (later + tail) =~= (seq![frame] + later) + tail);
        },
        Progress::Incomplete => {
            assert(stream_frames(awaiting, piece) + tail =~= tail);
        },
        Progress::BadVersion(version) => {
            lemma_bad_version_stays(awaiting, piece, next);
            assert(stream_frames(awaiting, piece) + tail =~= stream_frames(awaiting, piece + next));
        },
    }
}

/// A version that is not understood is not read past, whatever follows.
proof fn lemma_bad_version_stays(awaiting: Awaiting, piece: Seq<u8>, next: Seq<u8>)
    requires
        decoded(awaiting, piece).progress is BadVersion,
    ensures
        decoded(awaiting, piece).awaiting is Version,
        decoded(Awaiting::Version, decoded(awaiting, piece).rest + next) == (Decoded {
            rest: decoded(awaiting, piece).rest + next,
            ..decoded(awaiting, piece)
        }),
    decreases piece.len(), (awaiting is Body) as int,
{
    match awaiting {
        Awaiting::Version => {
            if !(piece[0] < VERSION && piece[0] != LEGACY_VERSION) {
                lemma_bad_version_stays(Awaiting::Tag, piece.skip(1), next);
            } else {
                assert((piece + next)[0] == piece[0]);
            }
        },
        Awaiting::Tag => {
            lemma_bad_version_stays(Awaiting::Size { tag: piece[0] }, piece.skip(1), next);
        },
        Awaiting::Size { tag } => {
            let (size, used) = read_varint(piece, MAX_SIZE_BYTES as nat)->0;
            lemma_read_varint_used(piece, MAX_SIZE_BYTES as nat);
            lemma_bad_version_stays(
                Awaiting::Body { tag, size: machine_size(size) },
                piece.skip(used as int),
                next,
            );
        },
        Awaiting::Body { tag, size } => {
            lemma_bad_version_stays(Awaiting::Tag, piece.skip(size as int), next);
        },
    }
}

/// A size of more than five bytes is never read: decoding waits for good, and drops nothing.
pub proof fn overlong_size_is_never_read(tag: u8, bytes: Seq<u8>)
    requires
        bytes.len() >= MAX_SIZE_BYTES,
        forall|i: int| 0 <= i < MAX_SIZE_BYTES ==> bytes[i] >= 128,
    ensures
        decoded(Awaiting::Size { tag }, bytes) == (Decoded {
            progress: Progress::Incomplete,
            awaiting: Awaiting::Size { tag },
            rest: bytes,
        }),
{
    reveal_with_fuel(read_varint, 6);
}

/// Where a decoder stands that has read all there was, up to the end of a frame.
pub open spec fn between_frames() -> Decoded {
    Decoded {
        progress: Progress::Incomplete,
        awaiting: Awaiting::Tag,
        rest: Seq::<u8>::empty(),
    }
}

/// A session as one side writes it is read back by the other, frame for frame, and nothing is left: a
/// login request first, and none after it.
pub proof fn session_reads_back(frames: Seq<SentFrame>)
    requires
        frames.len() > 0,
        forall|i: int|
            0 <= i < frames.len() ==> ((#[trigger] frames[i]).kind == MessageKind::LoginRequest)
                == (i == 0),
        forall|i: int|
            0 <= i < frames.len() ==> (#[trigger] frames[i]).body.len() < 0x8_0000_0000
                && frames[i].body.len() <= usize::MAX,
    ensures
        stream_frames(Awaiting::Version, stream_bytes(frames)) == frames,
        stream_end(Awaiting::Version, stream_bytes(frames)) == between_frames(),
{
    let rest = frames.skip(1);
    assert forall|i: int| 0 <= i < rest.len() implies (#[trigger] rest[i]).kind
        != MessageKind::LoginRequest && rest[i].body.len() < 0x8_0000_0000 && rest[i].body.len()
        <= usize::MAX by {
        assert(rest[i] == frames[i + 1]);
    }
    frame_reads_back(frames[0].kind, frames[0].body, stream_bytes(rest));
    frames_read_back(rest);
    assert(stream_frames(Awaiting::Version, stream_bytes(frames)) =~= frames);
}

/// Frames other than login requests, written one after the other, are read back, and nothing is left.
pub proof fn frames_read_back(frames: Seq<SentFrame>)
    requires
        forall|i: int|
            0 <= i < frames.len() ==> (#[trigger] frames[i]).kind != MessageKind::LoginRequest
                && frames[i].body.len() < 0x8_0000_0000 && frames[i].body.len() <= usize::MAX,
    ensures
        stream_frames(Awaiting::Tag, stream_bytes(frames)) == frames,
        stream_end(Awaiting::Tag, stream_bytes(frames)) == between_frames(),
    decreases frames.len(),
{
    if frames.len() > 0 {
        let rest = frames.skip(1);
        assert forall|i: int| 0 <= i < rest.len() implies (#[trigger] rest[i]).kind
            != MessageKind::LoginRequest && rest[i].body.len() < 0x8_0000_0000 && rest[i].body.len()
            <= usize::MAX by {
            assert(rest[i] == frames[i + 1]);
        }
        frame_reads_back(frames[0].kind, frames[0].body, stream_bytes(rest));
        frames_read_back(rest);
        assert(stream_frames(Awaiting::Tag, stream_bytes(frames)) =~= frames);
    } else {
        assert(stream_frames(Awaiting::Tag, stream_bytes(frames)) =~= frames);
    }
}

} // verus!
