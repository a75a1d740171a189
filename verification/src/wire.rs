//! The bytes of a tell message and the fields of an ask message.

use crate::ids::{ActorId, PeerId};
use vstd::prelude::*;

verus! {

/// The message type byte of a tell.
pub const ACTOR_TELL: u8 = 3;

/// How many bytes of a tell frame stand between the length prefix and the payload.
pub const TELL_HEADER_LEN: u32 = 28;

/// The `width` low-order bytes of `n`, most significant byte first.
pub open spec fn be_bytes(n: nat, width: nat) -> Seq<u8>
    decreases width,
{
    if width == 0 {
        Seq::empty()
    } else {
        be_bytes(n / 256, (width - 1) as nat).push((n % 256) as u8)
    }
}

/// The number that `bytes` spell, most significant byte first.
pub open spec fn be_value(bytes: Seq<u8>) -> nat
    decreases bytes.len(),
{
    if bytes.len() == 0 {
        0
    } else {
        256 * be_value(bytes.drop_last()) + bytes.last() as nat
    }
}

/// The number that `bytes` spell, least significant byte first.
pub open spec fn le_value(bytes: Seq<u8>) -> nat
    decreases bytes.len(),
{
    if bytes.len() == 0 {
        0
    } else {
        bytes[0] as nat + 256 * le_value(bytes.drop_first())
    }
}

/// The largest number that `width` bytes can spell, plus one.
pub open spec fn byte_range(width: nat) -> nat
    decreases width,
{
    if width == 0 {
        1
    } else {
        256 * byte_range((width - 1) as nat)
    }
}

/// The digit `d` in decimal notation.
pub open spec fn digit(d: nat) -> char {
    (48 + d) as char
}

/// The decimal notation of `n`, without leading zeros.
pub open spec fn decimal(n: nat) -> Seq<char>
    decreases n,
{
    if n < 10 {
        seq![digit(n)]
    } else {
        decimal(n / 10).push(digit(n % 10))
    }
}

/// The number that a text of decimal digits denotes.
pub open spec fn decimal_value(text: Seq<char>) -> int
    decreases text.len(),
{
    if text.len() == 0 {
        0
    } else {
        10 * decimal_value(text.drop_last()) + (text.last() as int - 48)
    }
}

/// The frame that carries a tell: `[length:4]`, `[type:1][correlation_id:2][reserved:9]`,
/// `[actor_id:8][type_hash:4][payload_len:4][payload:N]`, numbers with the high byte first.
/// The length counts what follows it, and both lengths keep their low 32 bits.
pub open spec fn tell_frame_bytes(actor_id: ActorId, type_hash: u32, payload: Seq<u8>) -> Seq<u8> {
    be_bytes(TELL_HEADER_LEN as nat + payload.len(), 4)
        + seq![ACTOR_TELL]
        + be_bytes(0, 2)
        + be_bytes(0, 9)
        + be_bytes(actor_id.id as nat, 8)
        + be_bytes(type_hash as nat, 4)
        + be_bytes(payload.len(), 4)
        + payload
}

proof fn lemma_be_bytes_len(n: nat, width: nat)
    ensures
        be_bytes(n, width).len() == width,
    decreases width,
{
    if width > 0 {
        lemma_be_bytes_len(n / 256, (width - 1) as nat);
    }
}

/// Reading a number back from its bytes gives the number, where it fits in them.
pub proof fn be_bytes_round_trip(n: nat, width: nat)
    requires
        n < byte_range(width),
    ensures
        be_bytes(n, width).len() == width,
        be_value(be_bytes(n, width)) == n,
    decreases width,
{
    if width > 0 {
        let rest = be_bytes(n / 256, (width - 1) as nat);
        be_bytes_round_trip(n / 256, (width - 1) as nat);
        assert(be_bytes(n, width).drop_last() =~= rest);
    }
}

/// What `width` bytes cannot hold does not show in them.
proof fn lemma_be_bytes_low(n: nat, high: nat, width: nat)
    ensures
        be_bytes(n + byte_range(width) * high, width) == be_bytes(n, width),
    decreases width,
{
    if width > 0 {
        let narrower = (width - 1) as nat;
        let k = byte_range(narrower) * high;
        assert(byte_range(width) * high == 256 * k) by (nonlinear_arith)
            requires
                byte_range(width) == 256 * byte_range(narrower),
                k == byte_range(narrower) * high,
        ;
        assert((n + 256 * k) / 256 == n / 256 + k);
        assert((n + 256 * k) % 256 == n % 256);
        lemma_be_bytes_low(n / 256, high, narrower);
    }
}

/// The bytes of a number are those of its high part, then those of its low part.
proof fn lemma_be_bytes_split(n: nat, high: nat, low: nat)
    ensures
        byte_range(low) > 0,
        be_bytes(n, high + low) == be_bytes(n / byte_range(low), high) + be_bytes(n, low),
    decreases low,
{
    if low == 0 {
        assert(n / byte_range(low) == n) by (nonlinear_arith)
            requires
                byte_range(low) == 1,
        ;
        assert(be_bytes(n, high) =~= be_bytes(n, high) + be_bytes(n, 0));
    } else {
        let narrower = (low - 1) as nat;
        lemma_be_bytes_split(n / 256, high, narrower);
        vstd::arithmetic::div_mod::lemma_div_denominator(
            n as int,
            256,
            byte_range(narrower) as int,
        );
        assert(be_bytes(n, high + low) =~= be_bytes(n / byte_range(low), high) + be_bytes(n, low));
    }
}

proof fn lemma_byte_range_4()
    ensures
        byte_range(4) == 0x1_0000_0000,
{
    reveal_with_fuel(byte_range, 5);
}

/// Two numbers with the same low 32 bits have the same four bytes.
proof fn lemma_be_bytes_low_32(n: nat, m: nat)
    requires
        n % 0x1_0000_0000 == m % 0x1_0000_0000,
    ensures
        be_bytes(n, 4) == be_bytes(m, 4),
{
    lemma_byte_range_4();
    let low = n % 0x1_0000_0000;
    let n_high = n / 0x1_0000_0000;
    let m_high = m / 0x1_0000_0000;
    assert(byte_range(4) * n_high == 0x1_0000_0000 * n_high && byte_range(4) * m_high
        == 0x1_0000_0000 * m_high) by (nonlinear_arith)
        requires
            byte_range(4) == 0x1_0000_0000,
    ;
    lemma_be_bytes_low(low, n_high, 4);
    lemma_be_bytes_low(low, m_high, 4);
}

fn push_be_u32(out: &mut Vec<u8>, x: u32)
    ensures
        final(out)@ == old(out)@ + be_bytes(x as nat, 4),
{
    out.push((x / 0x100_0000) as u8);
    out.push((x / 0x1_0000 % 256) as u8);
    out.push((x / 0x100 % 256) as u8);
    out.push((x % 256) as u8);
    proof {
        reveal_with_fuel(be_bytes, 5);
        assert(out@ =~= old(out)@ + be_bytes(x as nat, 4));
    }
}

fn push_be_u64(out: &mut Vec<u8>, x: u64)
    ensures
        final(out)@ == old(out)@ + be_bytes(x as nat, 8),
{
    push_be_u32(out, (x / 0x1_0000_0000) as u32);
    push_be_low_32(out, x);
    proof {
        lemma_byte_range_4();
        lemma_be_bytes_split(x as nat, 4, 4);
        assert(out@ =~= old(out)@ + be_bytes(x as nat, 8));
    }
}

/// Appends the low 32 bits of `n`, most significant byte first.
fn push_be_low_32(out: &mut Vec<u8>, n: u64)
    ensures
        final(out)@ == old(out)@ + be_bytes(n as nat, 4),
{
    proof {
        lemma_be_bytes_low_32(n as nat, n as nat % 0x1_0000_0000);
    }
    push_be_u32(out, (n % 0x1_0000_0000) as u32);
}

/// Builds the frame that carries a tell of `payload` to the actor `actor_id`.
pub fn tell_frame(actor_id: ActorId, type_hash: u32, payload: &[u8]) -> (frame: Vec<u8>)
    ensures
        frame@ == tell_frame_bytes(actor_id, type_hash, payload@),
{
    let low_len: u64 = payload.len() as u64 % 0x1_0000_0000;
    proof {
        let len = payload@.len();
        lemma_be_bytes_low_32((low_len + TELL_HEADER_LEN) as nat, TELL_HEADER_LEN as nat + len);
        lemma_be_bytes_low_32(low_len as nat, len);
    }
    let mut message: Vec<u8> = Vec::new();
    // The length prefix is the size of what follows it.
    push_be_low_32(&mut message, low_len + TELL_HEADER_LEN as u64);
    message.push(ACTOR_TELL);
    // A tell has no correlation id.
    push_zeros(&mut message, 2);
    // Reserved bytes: the payload starts at a multiple of 32.
    push_zeros(&mut message, 9);
    push_be_u64(&mut message, actor_id.id);
    push_be_u32(&mut message, type_hash);
    push_be_low_32(&mut message, low_len);
    message.extend_from_slice(payload);
    proof {
        assert(message@ =~= tell_frame_bytes(actor_id, type_hash, payload@));
    }
    message
}

/// Appends `count` zero bytes.
fn push_zeros(out: &mut Vec<u8>, count: usize)
    ensures
        final(out)@ == old(out)@ + be_bytes(0, count as nat),
{
    let mut i: usize = 0;
    while i < count
        invariant
            i <= count,
            out@ == old(out)@ + be_bytes(0, i as nat),
        decreases count - i,
    {
        out.push(0);
        i += 1;
        proof {
            assert(out@ =~= old(out)@ + be_bytes(0, i as nat));
        }
    }
}

/// A message that carries an ask.
pub struct ActorMessage {
    /// The actor's id in decimal notation.
    pub actor_id: String,
    pub type_hash: u32,
    pub payload: Vec<u8>,
    /// Set by the connection, which matches the reply to the message.
    pub correlation_id: Option<u16>,
}

/// The message that carries an ask of `payload` to the actor `actor_id`.
pub fn actor_message(actor_id: ActorId, type_hash: u32, payload: &[u8]) -> (message: ActorMessage)
    ensures
        message.actor_id@ == decimal(actor_id.id as nat),
        message.type_hash == type_hash,
        message.payload@ == payload@,
        message.correlation_id is None,
{
    let mut copy: Vec<u8> = Vec::new();
    copy.extend_from_slice(payload);
    assert(copy@ =~= payload@);
    ActorMessage {
        actor_id: decimal_text(actor_id.into_u64()),
        type_hash,
        payload: copy,
        correlation_id: None,
    }
}

/// The actor that stands for a whole peer: its id is spelled by the first eight bytes of the
/// peer's identity.
pub open spec fn peer_actor(peer_id: Seq<u8>) -> ActorId {
    ActorId { id: le_value(peer_id.subrange(0, 8)) as u64 }
}

proof fn lemma_le_value_8(s: Seq<u8>)
    requires
        s.len() == 8,
    ensures
        le_value(s) == s[0] + 0x100 * s[1] + 0x1_0000 * s[2] + 0x100_0000 * s[3] + 0x1_0000_0000
            * s[4] + 0x100_0000_0000 * s[5] + 0x1_0000_0000_0000 * s[6] + 0x100_0000_0000_0000
            * s[7],
{
    reveal_with_fuel(le_value, 9);
}

/// The actor that stands for the whole peer `peer_id`.
pub fn peer_actor_id(peer_id: &PeerId) -> (actor_id: ActorId)
    ensures
        actor_id == peer_actor(peer_id@),
        actor_id.id == le_value(peer_id@.subrange(0, 8)),
{
    let b = &peer_id.bytes;
    let id: u64 = b[0] as u64 + 0x100 * b[1] as u64 + 0x1_0000 * b[2] as u64 + 0x100_0000
        * b[3] as u64 + 0x1_0000_0000 * b[4] as u64 + 0x100_0000_0000 * b[5] as u64
        + 0x1_0000_0000_0000 * b[6] as u64 + 0x100_0000_0000_0000 * b[7] as u64;
    proof {
        lemma_le_value_8(peer_id@.subrange(0, 8));
    }
    ActorId { id }
}

proof fn lemma_zero_bytes(width: nat)
    ensures
        be_bytes(0, width).len() == width,
        forall|i: int| 0 <= i < width ==> be_bytes(0, width)[i] == 0,
    decreases width,
{
    if width > 0 {
        lemma_zero_bytes((width - 1) as nat);
    }
}

/// Where the fields of a tell frame stand.
proof fn lemma_frame_layout(actor_id: ActorId, type_hash: u32, payload: Seq<u8>)
    ensures
        ({
            let frame = tell_frame_bytes(actor_id, type_hash, payload);
            &&& frame.len() == 32 + payload.len()
            &&& frame.subrange(0, 4) == be_bytes(TELL_HEADER_LEN as nat + payload.len(), 4)
            &&& frame[4] == ACTOR_TELL
            &&& forall|i: int| 5 <= i < 16 ==> frame[i] == 0
            &&& frame.subrange(16, 24) == be_bytes(actor_id.id as nat, 8)
            &&& frame.subrange(24, 28) == be_bytes(type_hash as nat, 4)
            &&& frame.subrange(28, 32) == be_bytes(payload.len(), 4)
            &&& frame.subrange(32, frame.len() as int) == payload
        }),
{
    let frame = tell_frame_bytes(actor_id, type_hash, payload);
    lemma_be_bytes_len(TELL_HEADER_LEN as nat + payload.len(), 4);
    lemma_zero_bytes(2);
    lemma_zero_bytes(9);
    lemma_be_bytes_len(actor_id.id as nat, 8);
    lemma_be_bytes_len(type_hash as nat, 4);
    lemma_be_bytes_len(payload.len(), 4);
    assert(frame.subrange(0, 4) =~= be_bytes(TELL_HEADER_LEN as nat + payload.len(), 4));
    assert(frame.subrange(16, 24) =~= be_bytes(actor_id.id as nat, 8));
    assert(frame.subrange(24, 28) =~= be_bytes(type_hash as nat, 4));
    assert(frame.subrange(28, 32) =~= be_bytes(payload.len(), 4));
    assert(frame.subrange(32, frame.len() as int) =~= payload);
}

/// The fields of a tell frame read back as what it was built from, and the payload starts at
/// offset 32, wherever the length of what follows the prefix fits in 32 bits.
pub proof fn tell_frame_reads_back(actor_id: ActorId, type_hash: u32, payload: Seq<u8>)
    requires
        TELL_HEADER_LEN + payload.len() < 0x1_0000_0000,
    ensures
        ({
            let frame = tell_frame_bytes(actor_id, type_hash, payload);
            &&& frame.len() == 32 + payload.len()
            &&& be_value(frame.subrange(0, 4)) == frame.len() - 4
            &&& frame[4] == ACTOR_TELL
            &&& forall|i: int| 5 <= i < 16 ==> frame[i] == 0
            &&& be_value(frame.subrange(16, 24)) == actor_id.id
            &&& be_value(frame.subrange(24, 28)) == type_hash
            &&& be_value(frame.subrange(28, 32)) == payload.len()
            &&& frame.subrange(32, frame.len() as int) == payload
        }),
{
    reveal_with_fuel(byte_range, 9);
    lemma_frame_layout(actor_id, type_hash, payload);
    be_bytes_round_trip(TELL_HEADER_LEN as nat + payload.len(), 4);
    be_bytes_round_trip(actor_id.id as nat, 8);
    be_bytes_round_trip(type_hash as nat, 4);
    be_bytes_round_trip(payload.len(), 4);
}

/// Four bytes spell the low 32 bits of a number, most significant byte first.
proof fn lemma_be_bytes_4(n: nat)
    ensures
        ({
            let b = be_bytes(n, 4);
            &&& b.len() == 4
            &&& 0x100_0000 * b[0] + 0x1_0000 * b[1] + 0x100 * b[2] + b[3] == n % 0x1_0000_0000
        }),
{
    reveal_with_fuel(be_bytes, 5);
    let n1 = n / 256;
    let n2 = n1 / 256;
    let n3 = n2 / 256;
    let n4 = n3 / 256;
    let low = 0x100_0000 * (n3 % 256) + 0x1_0000 * (n2 % 256) + 0x100 * (n1 % 256) + n % 256;
    assert(n == 0x1_0000_0000 * n4 + low);
}

/// Every byte of a tell frame: the length of what follows the first four bytes, the byte 3, eleven
/// zeros, the actor's id, the type hash, the length of the payload, and the payload. Numbers stand
/// with the high byte first, and of a length that takes more than four bytes the low four are
/// kept.
pub proof fn tell_frame_spells_its_fields(actor_id: ActorId, type_hash: u32, payload: Seq<u8>)
    ensures
        ({
            let f = tell_frame_bytes(actor_id, type_hash, payload);
            let n = payload.len();
            &&& f.len() == 32 + n
            &&& 0x100_0000 * f[0] + 0x1_0000 * f[1] + 0x100 * f[2] + f[3] == (28 + n)
                % 0x1_0000_0000
            &&& f[4] == 3
            &&& forall|i: int| 5 <= i < 16 ==> f[i] == 0
            &&& 0x100_0000_0000_0000 * f[16] + 0x1_0000_0000_0000 * f[17] + 0x100_0000_0000 * f[18]
                + 0x1_0000_0000 * f[19] + 0x100_0000 * f[20] + 0x1_0000 * f[21] + 0x100 * f[22]
                + f[23] == actor_id.id
            &&& 0x100_0000 * f[24] + 0x1_0000 * f[25] + 0x100 * f[26] + f[27] == type_hash
            &&& 0x100_0000 * f[28] + 0x1_0000 * f[29] + 0x100 * f[30] + f[31] == n % 0x1_0000_0000
            &&& forall|i: int| 0 <= i < n ==> f[32 + i] == #[trigger] payload[i]
        }),
{
    let f = tell_frame_bytes(actor_id, type_hash, payload);
    let n = payload.len();
    let id = actor_id.id as nat;
    lemma_frame_layout(actor_id, type_hash, payload);
    lemma_be_bytes_4(28 + n);
    lemma_be_bytes_4(id);
    lemma_be_bytes_4(id / 0x1_0000_0000);
    lemma_be_bytes_4(type_hash as nat);
    lemma_be_bytes_4(n);
    lemma_byte_range_4();
    lemma_be_bytes_split(id, 4, 4);
    let high = be_bytes(id / 0x1_0000_0000, 4);
    let low = be_bytes(id, 4);
    let first = f.subrange(0, 4);
    let hash = f.subrange(24, 28);
    let len = f.subrange(28, 32);
    assert(f[0] == first[0] && f[1] == first[1] && f[2] == first[2] && f[3] == first[3]);
    assert(f[24] == hash[0] && f[25] == hash[1] && f[26] == hash[2] && f[27] == hash[3]);
    assert(f[28] == len[0] && f[29] == len[1] && f[30] == len[2] && f[31] == len[3]);
    let ids = f.subrange(16, 24);
    assert(ids == high + low);
    assert(f[16] == ids[0] && f[17] == ids[1] && f[18] == ids[2] && f[19] == ids[3]);
    assert(f[20] == ids[4] && f[21] == ids[5] && f[22] == ids[6] && f[23] == ids[7]);
    assert forall|i: int| 0 <= i < n implies f[32 + i] == #[trigger] payload[i] by {
        assert(f.subrange(32, f.len() as int)[i] == payload[i]);
    }
}

/// The actor that stands for a peer has the id that the first eight bytes of the peer's identity
/// spell, low byte first.
pub proof fn peer_actor_is_spelled_by_eight_bytes(peer_id: Seq<u8>)
    requires
        peer_id.len() >= 8,
    ensures
        peer_actor(peer_id).id == peer_id[0] + 0x100 * peer_id[1] + 0x1_0000 * peer_id[2]
            + 0x100_0000 * peer_id[3] + 0x1_0000_0000 * peer_id[4] + 0x100_0000_0000 * peer_id[5]
            + 0x1_0000_0000_0000 * peer_id[6] + 0x100_0000_0000_0000 * peer_id[7],
{
    lemma_le_value_8(peer_id.subrange(0, 8));
}

/// Two tells have the same frame only if they carry the same payload to the same actor under
/// the same type hash.
pub proof fn tell_frame_is_injective(
    a: ActorId,
    a_hash: u32,
    a_payload: Seq<u8>,
    b: ActorId,
    b_hash: u32,
    b_payload: Seq<u8>,
)
    requires
        tell_frame_bytes(a, a_hash, a_payload) == tell_frame_bytes(b, b_hash, b_payload),
    ensures
        a == b,
        a_hash == b_hash,
        a_payload == b_payload,
{
    let fa = tell_frame_bytes(a, a_hash, a_payload);
    let fb = tell_frame_bytes(b, b_hash, b_payload);
    reveal_with_fuel(byte_range, 9);
    lemma_frame_layout(a, a_hash, a_payload);
    lemma_frame_layout(b, b_hash, b_payload);
    be_bytes_round_trip(a.id as nat, 8);
    be_bytes_round_trip(b.id as nat, 8);
    be_bytes_round_trip(a_hash as nat, 4);
    be_bytes_round_trip(b_hash as nat, 4);
    assert(a_payload == fa.subrange(32, fa.len() as int));
    assert(b_payload == fb.subrange(32, fb.len() as int));
}

/// The decimal notation of a number denotes that number.
pub proof fn decimal_reads_back(n: nat)
    ensures
        decimal_value(decimal(n)) == n,
    decreases n,
{
    if n < 10 {
        reveal_with_fuel(decimal_value, 2);
        assert(decimal(n).drop_last() =~= Seq::empty());
    } else {
        decimal_reads_back(n / 10);
        assert(decimal(n).drop_last() =~= decimal(n / 10));
    }
}

/// The decimal notation of a number consists of the digits `0` to `9`, starts with `0` only where
/// it is that single digit, and read from left to right it gives the number.
pub proof fn decimal_is_decimal_notation(n: nat)
    ensures
        decimal(n).len() > 0,
        forall|i: int|
            0 <= i < decimal(n).len() ==> '0' as int <= (#[trigger] decimal(n)[i]) as int
                <= '9' as int,
        decimal(n)[0] == '0' ==> decimal(n).len() == 1,
        decimal(n).fold_left(0int, |acc: int, c: char| 10 * acc + (c as int - '0' as int)) == n,
    decreases n,
{
    let read = |acc: int, c: char| 10 * acc + (c as int - '0' as int);
    let text = decimal(n);
    if n < 10 {
        assert(text.drop_last() =~= Seq::empty());
        assert(text.drop_last().fold_left(0int, read) == 0);
        assert(text.fold_left(0int, read) == read(0, text.last()));
    } else {
        let head = decimal(n / 10);
        decimal_is_decimal_notation(n / 10);
        assert(text.drop_last() =~= head);
        assert(text.fold_left(0int, read) == read(head.fold_left(0int, read), text.last()));
        assert(text[0] == head[0]);
        if text[0] == '0' {
            reveal_with_fuel(Seq::fold_left, 3);
            assert(head.len() == 1);
            assert(head.drop_last() =~= Seq::empty());
            assert(head.fold_left(0int, read) == read(0, head[0]));
        }
        assert forall|i: int| 0 <= i < text.len() implies '0' as int <= (
        #[trigger] text[i]) as int <= '9' as int by {
            if i < head.len() {
                assert(text[i] == head[i]);
            }
        }
    }
}

/// One decimal digit as a text.
fn digit_text(d: u64) -> (text: &'static str)
    requires
        d < 10,
    ensures
        text@ == seq![digit(d as nat)],
{
    proof {
        reveal_strlit("0");
        reveal_strlit("1");
        reveal_strlit("2");
        reveal_strlit("3");
        reveal_strlit("4");
        reveal_strlit("5");
        reveal_strlit("6");
        reveal_strlit("7");
        reveal_strlit("8");
        reveal_strlit("9");
    }
    let text = match d {
        0 => "0",
        1 => "1",
        2 => "2",
        3 => "3",
        4 => "4",
        5 => "5",
        6 => "6",
        7 => "7",
        8 => "8",
        _ => "9",
    };
    assert(text@ =~= seq![digit(d as nat)]);
    text
}

/// The decimal notation of `n`.
pub fn decimal_text(n: u64) -> (text: String)
    ensures
        text@ == decimal(n as nat),
    decreases n,
{
    if n < 10 {
        let mut text = String::new();
        text.append(digit_text(n));
        assert(text@ =~= decimal(n as nat));
        text
    } else {
        let mut text = decimal_text(n / 10);
        text.append(digit_text(n % 10));
        assert(text@ =~= decimal(n as nat));
        text
    }
}

} // verus!
