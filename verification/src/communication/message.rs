use vstd::prelude::*;

verus! {

/// Tag of the frame that carries the configuration of a match.
pub const CONFIG_TAG: u8 = 0;

/// Tag of a frame that carries a snapshot.
pub const STATE_TAG: u8 = 1;

/// Tag of a frame that carries control vectors.
pub const ACTION_TAG: u8 = 2;

/// Tag of the frame that asks for a new episode.
pub const RESET_TAG: u8 = 3;

/// Bytes of a frame before its payload: one for the tag, four for the
/// length of the payload.
pub const HEADER_LEN: usize = 5;

/// Longest payload that a frame can carry.
pub const MAX_PAYLOAD: usize = 0xffff_ffff;

/// The four bytes that stand for a length, lowest byte first.
pub open spec fn length_bytes(n: nat) -> Seq<u8> {
    seq![
        (n % 256) as u8,
        (n / 0x100 % 256) as u8,
        (n / 0x1_0000 % 256) as u8,
        (n / 0x100_0000 % 256) as u8,
    ]
}

/// The length that the header of `bytes` announces.
pub open spec fn announced_len(bytes: Seq<u8>) -> nat {
    (bytes[1] + 0x100 * bytes[2] + 0x1_0000 * bytes[3] + 0x100_0000 * bytes[4]) as nat
}

/// A message as it travels: its tag, the length of its payload, the
/// payload.
pub open spec fn frame(tag: u8, payload: Seq<u8>) -> Seq<u8> {
    seq![tag] + length_bytes(payload.len()) + payload
}

/// Whether `bytes` starts with a whole frame.
pub open spec fn has_frame(bytes: Seq<u8>) -> bool {
    bytes.len() >= 5 && bytes.len() >= 5 + announced_len(bytes)
}

/// The tag of the frame that `bytes` starts with, its payload, and the
/// number of bytes that the frame takes.
pub open spec fn first_frame(bytes: Seq<u8>) -> (u8, Seq<u8>, nat) {
    (bytes[0], bytes.subrange(5, 5 + announced_len(bytes) as int), 5 + announced_len(bytes))
}

/// Frames a message. There is no frame for a payload of more than
/// `MAX_PAYLOAD` bytes.
pub fn encode(tag: u8, payload: &Vec<u8>) -> (framed: Option<Vec<u8>>)
    ensures
        match framed {
            Some(bytes) => payload@.len() <= MAX_PAYLOAD && bytes@ == frame(tag, payload@),
            None => payload@.len() > MAX_PAYLOAD,
        },
{
    let n = payload.len();
    if n > MAX_PAYLOAD {
        return None;
    }
    let mut bytes = Vec::<u8>::new();
    bytes.push(tag);
    bytes.push((n % 256) as u8);
    bytes.push((n / 0x100 % 256) as u8);
    bytes.push((n / 0x1_0000 % 256) as u8);
    bytes.push((n / 0x100_0000 % 256) as u8);
    let ghost header = bytes@;
    assert(header =~= seq![tag] + length_bytes(n as nat));
    let mut i: usize = 0;
    while i < n
        invariant
            i <= n,
            n == payload@.len(),
            bytes@ == header + payload@.take(i as int),
        decreases n - i,
    {
        bytes.push(payload[i]);
        assert(payload@.take(i + 1) =~= payload@.take(i as int).push(payload@[i as int]));
        i += 1;
    }
    assert(payload@.take(n as int) =~= payload@);
    Some(bytes)
}

/// Takes the first frame off what has been received so far. Gives its tag,
/// its payload and the number of bytes it took, or nothing as long as the
/// frame is not whole: a part of a frame is never handed out.
pub fn decode(bytes: &Vec<u8>) -> (received: Option<(u8, Vec<u8>, usize)>)
    ensures
        match received {
            Some((tag, payload, used)) => {
                &&& has_frame(bytes@)
                &&& (tag, payload@, used as nat) == first_frame(bytes@)
            },
            None => !has_frame(bytes@),
        },
{
    if bytes.len() < 5 {
        return None;
    }
    let n: u64 = bytes[1] as u64 + 0x100 * (bytes[2] as u64) + 0x1_0000 * (bytes[3] as u64)
        + 0x100_0000 * (bytes[4] as u64);
    if ((bytes.len() - 5) as u64) < n {
        return None;
    }
    let end: usize = 5 + n as usize;
    let mut payload = Vec::<u8>::new();
    let mut i: usize = 5;
    while i < end
        invariant
            5 <= i <= end,
            end <= bytes@.len(),
            payload@ == bytes@.subrange(5, i as int),
        decreases end - i,
    {
        payload.push(bytes[i]);
        assert(bytes@.subrange(5, i + 1) =~= bytes@.subrange(5, i as int).push(bytes@[i as int]));
        i += 1;
    }
    Some((bytes[0], payload, end))
}

/// What was framed is what is taken off: from a frame, whatever follows
/// it, the decoder gives back the tag and the payload and takes exactly the
/// frame.
pub proof fn lemma_round_trip(tag: u8, payload: Seq<u8>, rest: Seq<u8>)
    requires
        payload.len() <= MAX_PAYLOAD,
    ensures
        has_frame(frame(tag, payload) + rest),
        first_frame(frame(tag, payload) + rest) == (tag, payload, (5 + payload.len()) as nat),
{
    let n = payload.len();
    let bytes = frame(tag, payload) + rest;
    lemma_length_round_trip(n);
    assert(bytes[1] == length_bytes(n)[0]);
    assert(bytes[2] == length_bytes(n)[1]);
    assert(bytes[3] == length_bytes(n)[2]);
    assert(bytes[4] == length_bytes(n)[3]);
    assert(announced_len(bytes) == n);
    assert(bytes.subrange(5, 5 + n as int) =~= payload);
}

/// A frame that has not arrived whole is not handed out: no proper prefix
/// of a frame holds a frame.
pub proof fn lemma_no_partial_frame(tag: u8, payload: Seq<u8>, cut: int)
    requires
        payload.len() <= MAX_PAYLOAD,
        0 <= cut < frame(tag, payload).len(),
    ensures
        !has_frame(frame(tag, payload).take(cut)),
{
    let n = payload.len();
    let part = frame(tag, payload).take(cut);
    if cut >= 5 {
        lemma_length_round_trip(n);
        assert(part[1] == length_bytes(n)[0]);
        assert(part[2] == length_bytes(n)[1]);
        assert(part[3] == length_bytes(n)[2]);
        assert(part[4] == length_bytes(n)[3]);
        assert(announced_len(part) == n);
    }
}

proof fn lemma_length_round_trip(n: nat)
    requires
        n <= MAX_PAYLOAD,
    ensures
        length_bytes(n)[0] + 0x100 * length_bytes(n)[1] + 0x1_0000 * length_bytes(n)[2]
            + 0x100_0000 * length_bytes(n)[3] == n,
{
}

} // verus!
