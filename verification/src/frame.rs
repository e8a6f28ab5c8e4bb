//! The wire framing of requests and responses: every payload is preceded by
//! its length, written as eight big-endian bytes.
use vstd::prelude::*;

verus! {

/// Number of bytes of the length header in front of every payload.
pub const HEADER_LEN: usize = 8;

/// The eight big-endian bytes of `n`.
pub open spec fn be_bytes(n: u64) -> Seq<u8> {
    seq![
        (n >> 56u64) as u8,
        (n >> 48u64) as u8,
        (n >> 40u64) as u8,
        (n >> 32u64) as u8,
        (n >> 24u64) as u8,
        (n >> 16u64) as u8,
        (n >> 8u64) as u8,
        n as u8,
    ]
}

/// The number whose big-endian bytes are the first eight of `b`.
pub open spec fn be_value(b: Seq<u8>) -> u64
    recommends
        b.len() >= 8,
{
    be_value_of(b[0], b[1], b[2], b[3], b[4], b[5], b[6], b[7])
}

/// The number whose big-endian bytes are `b0` (most significant) to `b7`.
pub open spec fn be_value_of(b0: u8, b1: u8, b2: u8, b3: u8, b4: u8, b5: u8, b6: u8, b7: u8) -> u64 {
    ((b0 as u64) << 56u64) | ((b1 as u64) << 48u64) | ((b2 as u64) << 40u64) | ((b3 as u64)
        << 32u64) | ((b4 as u64) << 24u64) | ((b5 as u64) << 16u64) | ((b6 as u64) << 8u64) | (
    b7 as u64)
}

/// The frame that carries `payload`: its length header, then the payload itself.
pub open spec fn frame_of(payload: Seq<u8>) -> Seq<u8> {
    be_bytes(payload.len() as u64) + payload
}

/// Reads one frame at the start of `buf`: the payload it carries and the bytes
/// that follow it, or `None` where `buf` holds no complete frame.
pub open spec fn parse_frame(buf: Seq<u8>) -> Option<(Seq<u8>, Seq<u8>)> {
    if buf.len() < HEADER_LEN {
        None
    } else {
        let n = be_value(buf);
        if n <= buf.len() - HEADER_LEN {
            Some((buf.subrange(HEADER_LEN as int, HEADER_LEN + n), buf.skip(HEADER_LEN + n)))
        } else {
            None
        }
    }
}

/// Reading back the header written for a length gives that length.
pub proof fn lemma_len_roundtrip(n: u64)
    ensures
        be_value(be_bytes(n)) == n,
{
    let b = be_bytes(n);
    assert(be_value_of(
        (n >> 56u64) as u8,
        (n >> 48u64) as u8,
        (n >> 40u64) as u8,
        (n >> 32u64) as u8,
        (n >> 24u64) as u8,
        (n >> 16u64) as u8,
        (n >> 8u64) as u8,
        n as u8,
    ) == n) by (bit_vector);
}

/// Every header of eight bytes is the header written for the length it reads as.
pub proof fn lemma_header_roundtrip(b: Seq<u8>)
    requires
        b.len() == HEADER_LEN,
    ensures
        be_bytes(be_value(b)) == b,
{
    let (b0, b1, b2, b3, b4, b5, b6, b7) = (b[0], b[1], b[2], b[3], b[4], b[5], b[6], b[7]);
    let n = be_value_of(b0, b1, b2, b3, b4, b5, b6, b7);
    assert({
        &&& (n >> 56u64) as u8 == b0
        &&& (n >> 48u64) as u8 == b1
        &&& (n >> 40u64) as u8 == b2
        &&& (n >> 32u64) as u8 == b3
        &&& (n >> 24u64) as u8 == b4
        &&& (n >> 16u64) as u8 == b5
        &&& (n >> 8u64) as u8 == b6
        &&& n as u8 == b7
    }) by (bit_vector)
        requires
            n == be_value_of(b0, b1, b2, b3, b4, b5, b6, b7),
    ;
    assert(be_bytes(n) =~= b);
}

/// A frame read back from the front of a stream gives the payload that was
/// written, and leaves exactly the bytes that followed the frame.
pub proof fn lemma_frame_roundtrip(payload: Seq<u8>, rest: Seq<u8>)
    requires
        payload.len() <= u64::MAX,
    ensures
        parse_frame(frame_of(payload) + rest) == Some((payload, rest)),
{
    let buf = frame_of(payload) + rest;
    lemma_len_roundtrip(payload.len() as u64);
    assert(buf.take(8) =~= be_bytes(payload.len() as u64));
    assert(be_value(buf) == be_value(buf.take(8)));
    assert(buf.subrange(8, 8 + payload.len() as int) =~= payload);
    assert(buf.skip(8 + payload.len() as int) =~= rest);
}

/// Whatever reads as a frame is the frame of the payload read, followed by the rest.
pub proof fn lemma_parse_frame_inverse(buf: Seq<u8>)
    ensures
        parse_frame(buf) matches Some((p, rest)) ==> buf == frame_of(p) + rest,
{
    if let Some((p, rest)) = parse_frame(buf) {
        lemma_header_roundtrip(buf.take(8));
        assert(be_value(buf.take(8)) == be_value(buf));
        assert(p.len() as u64 == be_value(buf));
        assert(buf =~= frame_of(p) + rest);
    }
}

/// The number that eight bytes encode, as positional notation in base 256
/// with the most significant byte first.
pub open spec fn base256(b: Seq<u8>) -> int {
    b[0] * 0x100_0000_0000_0000int + b[1] * 0x1_0000_0000_0000int + b[2] * 0x100_0000_0000int
        + b[3] * 0x1_0000_0000int + b[4] * 0x100_0000int + b[5] * 0x1_0000int + b[6] * 0x100int
        + b[7]
}

/// Big-endian bytes are the base-256 digits of a number, most significant first.
pub proof fn lemma_be_value_is_base256(b: Seq<u8>)
    requires
        b.len() == HEADER_LEN,
    ensures
        be_value(b) as int == base256(b),
{
    let (b0, b1, b2, b3, b4, b5, b6, b7) = (b[0], b[1], b[2], b[3], b[4], b[5], b[6], b[7]);
    assert(be_value_of(b0, b1, b2, b3, b4, b5, b6, b7) as int == b0 * 0x100_0000_0000_0000int + b1
        * 0x1_0000_0000_0000int + b2 * 0x100_0000_0000int + b3 * 0x1_0000_0000int + b4
        * 0x100_0000int + b5 * 0x1_0000int + b6 * 0x100int + b7) by (bit_vector);
}

/// The eight big-endian bytes of `n`: the header of a payload of `n` bytes,
/// and also the form in which a persistent client announces its id.
pub fn encode_len(n: u64) -> (r: [u8; 8])
    ensures
        r@ == be_bytes(n),
        r@.len() == HEADER_LEN,
        base256(r@) == n,
{
    proof {
        lemma_len_roundtrip(n);
        lemma_be_value_is_base256(be_bytes(n));
    }
    let r = [
        (n >> 56u64) as u8,
        (n >> 48u64) as u8,
        (n >> 40u64) as u8,
        (n >> 32u64) as u8,
        (n >> 24u64) as u8,
        (n >> 16u64) as u8,
        (n >> 8u64) as u8,
        n as u8,
    ];
    assert(r@ =~= be_bytes(n));
    r
}

/// The number that eight big-endian bytes encode: the payload length that a
/// header announces, or the id that a persistent client announces.
pub fn decode_len(header: [u8; 8]) -> (n: u64)
    ensures
        n == be_value(header@),
        be_bytes(n) == header@,
        n == base256(header@),
{
    proof {
        lemma_header_roundtrip(header@);
        lemma_be_value_is_base256(header@);
    }
    ((header[0] as u64) << 56u64) | ((header[1] as u64) << 48u64) | ((header[2] as u64) << 40u64)
        | ((header[3] as u64) << 32u64) | ((header[4] as u64) << 24u64) | ((header[5] as u64)
        << 16u64) | ((header[6] as u64) << 8u64) | (header[7] as u64)
}

/// The frame that carries `payload`.
pub fn encode_frame(payload: &[u8]) -> (f: Vec<u8>)
    ensures
        f@ == frame_of(payload@),
        f@.len() == HEADER_LEN + payload@.len(),
        base256(f@.take(HEADER_LEN as int)) == payload@.len(),
        f@.skip(HEADER_LEN as int) == payload@,
{
    let header = encode_len(payload.len() as u64);
    let mut f: Vec<u8> = Vec::with_capacity(HEADER_LEN);
    let mut i: usize = 0;
    while i < HEADER_LEN
        invariant
            i <= HEADER_LEN,
            header@ == be_bytes(payload@.len() as u64),
            f@ == header@.take(i as int),
        decreases HEADER_LEN - i,
    {
        f.push(header[i]);
        i = i + 1;
        assert(f@ =~= header@.take(i as int));
    }
    let mut j: usize = 0;
    while j < payload.len()
        invariant
            j <= payload@.len(),
            header@ == be_bytes(payload@.len() as u64),
            f@ == header@ + payload@.take(j as int),
        decreases payload@.len() - j,
    {
        f.push(payload[j]);
        j = j + 1;
        assert(f@ =~= header@ + payload@.take(j as int));
    }
    assert(payload@.take(payload@.len() as int) =~= payload@);
    proof {
        lemma_len_roundtrip(payload@.len() as u64);
        assert(f@.take(8) =~= be_bytes(payload@.len() as u64));
        lemma_be_value_is_base256(f@.take(8));
        assert(f@.skip(8) =~= payload@);
    }
    f
}

/// Reads one frame at offset `start` of `buf`: the payload and the number of
/// bytes the frame takes, or `None` where no complete frame starts there.
fn frame_at(buf: &[u8], start: usize) -> (r: Option<(Vec<u8>, usize)>)
    requires
        start <= buf@.len(),
    ensures
        match r {
            Some((p, used)) => {
                &&& used == HEADER_LEN + p@.len()
                &&& start + used <= buf@.len()
                &&& parse_frame(buf@.skip(start as int)) == Some(
                    (p@, buf@.skip(start as int).skip(used as int)),
                )
            },
            None => parse_frame(buf@.skip(start as int)) is None,
        },
{
    let ghost b = buf@.skip(start as int);
    if buf.len() - start < HEADER_LEN {
        return None;
    }
    let header: [u8; 8] = [
        buf[start],
        buf[start + 1],
        buf[start + 2],
        buf[start + 3],
        buf[start + 4],
        buf[start + 5],
        buf[start + 6],
        buf[start + 7],
    ];
    let n = decode_len(header);
    assert(header@ =~= b.take(8));
    assert(be_value(header@) == be_value(b));
    if n > (buf.len() - start - HEADER_LEN) as u64 {
        return None;
    }
    let used: usize = HEADER_LEN + n as usize;
    let end: usize = start + used;
    let mut p: Vec<u8> = Vec::new();
    let mut k: usize = start + HEADER_LEN;
    while k < end
        invariant
            start + HEADER_LEN <= k <= end,
            end <= buf@.len(),
            p@ == buf@.subrange(start + HEADER_LEN, k as int),
        decreases end - k,
    {
        p.push(buf[k]);
        k = k + 1;
        assert(p@ =~= buf@.subrange(start + HEADER_LEN, k as int));
    }
    assert(p@ =~= b.subrange(HEADER_LEN as int, HEADER_LEN + n));
    assert(buf@.skip(start as int).skip(used as int) =~= b.skip(HEADER_LEN + n));
    Some((p, used))
}

/// Reads one frame at the start of `buf`: the payload and the number of bytes
/// the frame takes, or `None` where `buf` does not start with a complete frame.
pub fn split_frame(buf: &[u8]) -> (r: Option<(Vec<u8>, usize)>)
    ensures
        match r {
            Some((p, used)) => {
                &&& used == HEADER_LEN + p@.len()
                &&& parse_frame(buf@) == Some((p@, buf@.skip(used as int)))
            },
            None => parse_frame(buf@) is None,
        },
        match r {
            Some((p, used)) => {
                &&& used <= buf@.len()
                &&& base256(buf@.take(HEADER_LEN as int)) == p@.len()
                &&& p@ == buf@.subrange(HEADER_LEN as int, used as int)
            },
            None => buf@.len() < HEADER_LEN || base256(buf@.take(HEADER_LEN as int)) > buf@.len()
                - HEADER_LEN,
        },
{
    assert(buf@.skip(0) =~= buf@);
    proof {
        if buf@.len() >= HEADER_LEN {
            lemma_be_value_is_base256(buf@.take(8));
            assert(be_value(buf@.take(8)) == be_value(buf@));
        }
    }
    frame_at(buf, 0)
}

/// Reads every complete frame at the start of `buf`, in order: their payloads,
/// and the bytes that follow the last of them (an incomplete frame, or nothing).
pub open spec fn parse_all(buf: Seq<u8>) -> (Seq<Seq<u8>>, Seq<u8>)
    decreases buf.len(),
{
    match parse_frame(buf) {
        Some((p, rest)) => if rest.len() < buf.len() {
            let (ps, tail) = parse_all(rest);
            (seq![p] + ps, tail)
        } else {
            (Seq::empty(), buf)
        },
        None => (Seq::empty(), buf),
    }
}

/// The views of a sequence of byte vectors.
pub open spec fn byte_views(v: Seq<Vec<u8>>) -> Seq<Seq<u8>> {
    v.map_values(|x: Vec<u8>| x@)
}

/// A frame always takes more bytes than what follows it.
proof fn lemma_parse_frame_shrinks(buf: Seq<u8>)
    ensures
        parse_frame(buf) matches Some((p, rest)) ==> rest.len() < buf.len(),
{
}

/// What a stream's reader does when new bytes arrive: `pending` (the bytes
/// kept from before) followed by `incoming` is read as frames; the payloads of
/// the complete frames come out in order, and the rest is kept for the next call.
pub fn take_frames(pending: Vec<u8>, incoming: &[u8]) -> (r: (Vec<Vec<u8>>, Vec<u8>))
    ensures
        (byte_views(r.0@), r.1@) == parse_all(pending@ + incoming@),
{
    let mut data = pending;
    let ghost old_data = data@;
    let mut j: usize = 0;
    while j < incoming.len()
        invariant
            j <= incoming@.len(),
            data@ == old_data + incoming@.take(j as int),
        decreases incoming@.len() - j,
    {
        data.push(incoming[j]);
        j = j + 1;
        assert(data@ =~= old_data + incoming@.take(j as int));
    }
    assert(incoming@.take(incoming@.len() as int) =~= incoming@);
    let ghost all = data@;
    assert(all == pending@ + incoming@);
    assert(all.len() == data.len());
    let mut payloads: Vec<Vec<u8>> = Vec::new();
    let mut pos: usize = 0;
    assert(all.skip(0) =~= all);
    assert(byte_views(payloads@) =~= Seq::<Seq<u8>>::empty());
    loop
        invariant
            data@ == all,
            all == pending@ + incoming@,
            pos <= all.len() <= usize::MAX,
            parse_all(all) == (byte_views(payloads@) + parse_all(all.skip(pos as int)).0, parse_all(
                all.skip(pos as int),
            ).1),
        decreases all.len() - pos,
    {
        let ghost cur = all.skip(pos as int);
        proof {
            lemma_parse_frame_shrinks(cur);
        }
        match frame_at(data.as_slice(), pos) {
            Some((p, used)) => {
                let ghost before = payloads@;
                assert(cur.skip(used as int) =~= all.skip(pos + used));
                payloads.push(p);
                pos = pos + used;
                assert(byte_views(payloads@) =~= byte_views(before) + seq![p@]);
                assert(byte_views(payloads@) + parse_all(all.skip(pos as int)).0 =~= byte_views(
                    before,
                ) + parse_all(cur).0);
            },
            None => {
                let mut rest: Vec<u8> = Vec::new();
                let mut k: usize = pos;
                while k < data.len()
                    invariant
                        pos <= k <= all.len(),
                        data@ == all,
                        rest@ == all.subrange(pos as int, k as int),
                    decreases all.len() - k,
                {
                    rest.push(data[k]);
                    k = k + 1;
                    assert(rest@ =~= all.subrange(pos as int, k as int));
                }
                assert(rest@ =~= cur);
                assert(parse_all(cur) == (Seq::<Seq<u8>>::empty(), cur));
                assert(byte_views(payloads@) + parse_all(cur).0 =~= byte_views(payloads@));
                return (payloads, rest);
            },
        }
    }
}

/// A stream that starts with a frame yields that frame's payload first.
pub proof fn lemma_parse_all_frame(payload: Seq<u8>, rest: Seq<u8>)
    requires
        payload.len() <= u64::MAX,
    ensures
        parse_all(frame_of(payload) + rest) == (seq![payload] + parse_all(rest).0, parse_all(
            rest,
        ).1),
{
    lemma_frame_roundtrip(payload, rest);
}

/// Reading a stream in two parts, keeping between them what the first part
/// left over, gives the same payloads and the same leftover as reading it whole.
pub proof fn lemma_parse_all_chunks(first: Seq<u8>, second: Seq<u8>)
    ensures
        ({
            let (ps1, tail1) = parse_all(first);
            let (ps2, tail2) = parse_all(tail1 + second);
            parse_all(first + second) == (ps1 + ps2, tail2)
        }),
    decreases first.len(),
{
    let whole = first + second;
    match parse_frame(first) {
        Some((p, rest)) => {
            lemma_parse_frame_shrinks(first);
            assert(whole.take(8) =~= first.take(8));
            assert(be_value(whole) == be_value(first));
            let n = be_value(first);
            assert(whole.subrange(8, 8 + n) =~= first.subrange(8, 8 + n));
            assert(whole.skip(8 + n) =~= rest + second);
            assert(parse_frame(whole) == Some((p, rest + second)));
            lemma_parse_frame_shrinks(whole);
            lemma_parse_all_chunks(rest, second);
            let (ps1, tail1) = parse_all(rest);
            let (ps2, tail2) = parse_all(tail1 + second);
            assert(seq![p] + (ps1 + ps2) =~= (seq![p] + ps1) + ps2);
        },
        None => {
            assert(first + second =~= whole);
        },
    }
}

} // verus!
