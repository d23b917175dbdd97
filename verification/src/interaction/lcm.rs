//! LCM (Lightweight Communications and Marshalling) encoding of the messages
//! the viewer publishes over UDP multicast.
//!
//! ## LCM wire protocol (short message)
//! ```text
//! [4B magic "LC02"] [4B seqno] [channel\0] [LCM-encoded payload]
//! ```
//!
//! ## PointStamped binary layout
//! ```text
//! [8B fingerprint hash] [Header (no hash)] [Point (no hash)]
//!
//! Header:
//!   [4B seq: i32] [4B stamp.sec: i32] [4B stamp.nsec: i32]
//!   [4B frame_id_len: i32 (including null)] [frame_id bytes] [null]
//!
//! Point:
//!   [8B x: f64] [8B y: f64] [8B z: f64]
//! ```
//!
//! ## Twist binary layout
//! ```text
//! [8B fingerprint hash] [linear: 3 x f64] [angular: 3 x f64]
//! ```
//!
//! Floating-point values travel as their IEEE-754 bit patterns (`f64::to_bits`),
//! which is exactly what `f64::to_be_bytes` writes.
use vstd::prelude::*;
use vstd::string::*;
use vstd::utf8::*;

verus! {

/// LCM short message magic number: "LC02" in ASCII.
pub const LCM_MAGIC_SHORT: u32 = 0x4c433032;

/// Fingerprint hash of `geometry_msgs/PointStamped`.
///
/// Computed from the recursive hash chain:
/// - Time:          base=0xde1d24a3a8ecb648 -> rot -> 0xbc3a494751d96c91
/// - Header:        base=0xdbb33f5b4c19b8ea + Time -> rot -> 0x2fdb11453be64af7
/// - Point:         base=0x573f2fdd2f76508f -> rot -> 0xae7e5fba5eeca11e
/// - PointStamped:  base=0xf012413a2c8028c2 + Header + Point -> rot -> 0x9cd764738ea629af
pub const POINT_STAMPED_HASH: u64 = 0x9cd764738ea629af;

/// Fingerprint hash of `geometry_msgs/Twist`.
///
/// Computed from the same recursive hash chain:
/// - Vector3:       base=0x573f2fdd2f76508f -> rot -> 0xae7e5fba5eeca11e
/// - Twist:         base=0x3a4144772922add7 + Vector3 + Vector3 -> rot -> 0x2e7c07d7cdf7e027
pub const TWIST_HASH: u64 = 0x2e7c07d7cdf7e027;

// ---------------------------------------------------------------------------
// Big-endian words
// ---------------------------------------------------------------------------

/// The four big-endian bytes of a 32-bit word.
pub open spec fn be32(x: u32) -> Seq<u8> {
    seq![(x >> 24u32) as u8, (x >> 16u32) as u8, (x >> 8u32) as u8, x as u8]
}

/// The eight big-endian bytes of a 64-bit word.
pub open spec fn be64(x: u64) -> Seq<u8> {
    seq![
        (x >> 56u64) as u8,
        (x >> 48u64) as u8,
        (x >> 40u64) as u8,
        (x >> 32u64) as u8,
        (x >> 24u64) as u8,
        (x >> 16u64) as u8,
        (x >> 8u64) as u8,
        x as u8,
    ]
}

/// The 32-bit word whose big-endian bytes start `b`.
pub open spec fn read_be32(b: Seq<u8>) -> u32 {
    ((b[0] as u32) << 24u32) | ((b[1] as u32) << 16u32) | ((b[2] as u32) << 8u32) | (b[3] as u32)
}

/// The 64-bit word whose big-endian bytes start `b`.
pub open spec fn read_be64(b: Seq<u8>) -> u64 {
    ((b[0] as u64) << 56u64) | ((b[1] as u64) << 48u64) | ((b[2] as u64) << 40u64) | ((
    b[3] as u64) << 32u64) | ((b[4] as u64) << 24u64) | ((b[5] as u64) << 16u64) | ((
    b[6] as u64) << 8u64) | (b[7] as u64)
}

/// Reading back a written 32-bit word gives the word.
pub proof fn lemma_be32_roundtrip(x: u32)
    ensures
        be32(x).len() == 4,
        read_be32(be32(x)) == x,
{
    let b = be32(x);
    let (b0, b1, b2, b3) = (b[0], b[1], b[2], b[3]);
    assert(b0 == (x >> 24u32) as u8 && b1 == (x >> 16u32) as u8 && b2 == (x >> 8u32) as u8 && b3
        == x as u8);
    assert(((b0 as u32) << 24u32) | ((b1 as u32) << 16u32) | ((b2 as u32) << 8u32) | (b3 as u32)
        == x) by (bit_vector)
        requires
            b0 == (x >> 24u32) as u8,
            b1 == (x >> 16u32) as u8,
            b2 == (x >> 8u32) as u8,
            b3 == x as u8,
    ;
}

/// Reading back a written 64-bit word gives the word.
pub proof fn lemma_be64_roundtrip(x: u64)
    ensures
        be64(x).len() == 8,
        read_be64(be64(x)) == x,
{
    let b = be64(x);
    let (b0, b1, b2, b3, b4, b5, b6, b7) = (b[0], b[1], b[2], b[3], b[4], b[5], b[6], b[7]);
    assert(((b0 as u64) << 56u64) | ((b1 as u64) << 48u64) | ((b2 as u64) << 40u64) | ((
    b3 as u64) << 32u64) | ((b4 as u64) << 24u64) | ((b5 as u64) << 16u64) | ((b6 as u64)
        << 8u64) | (b7 as u64) == x) by (bit_vector)
        requires
            b0 == (x >> 56u64) as u8,
            b1 == (x >> 48u64) as u8,
            b2 == (x >> 40u64) as u8,
            b3 == (x >> 32u64) as u8,
            b4 == (x >> 24u64) as u8,
            b5 == (x >> 16u64) as u8,
            b6 == (x >> 8u64) as u8,
            b7 == x as u8,
    ;
}

/// Appends the big-endian bytes of a 32-bit word.
fn push_be32(buf: &mut Vec<u8>, x: u32)
    ensures
        final(buf)@ == old(buf)@ + be32(x),
{
    buf.push((x >> 24u32) as u8);
    buf.push((x >> 16u32) as u8);
    buf.push((x >> 8u32) as u8);
    buf.push(x as u8);
}

/// Appends the big-endian bytes of a 64-bit word.
fn push_be64(buf: &mut Vec<u8>, x: u64)
    ensures
        final(buf)@ == old(buf)@ + be64(x),
{
    buf.push((x >> 56u64) as u8);
    buf.push((x >> 48u64) as u8);
    buf.push((x >> 40u64) as u8);
    buf.push((x >> 32u64) as u8);
    buf.push((x >> 24u64) as u8);
    buf.push((x >> 16u64) as u8);
    buf.push((x >> 8u64) as u8);
    buf.push(x as u8);
}

/// Appends a byte slice.
fn push_bytes(buf: &mut Vec<u8>, bytes: &[u8])
    ensures
        final(buf)@ == old(buf)@ + bytes@,
{
    let ghost start = buf@;
    let mut i: usize = 0;
    while i < bytes.len()
        invariant
            i <= bytes@.len(),
            buf@ == start + bytes@.subrange(0, i as int),
        decreases bytes@.len() - i,
    {
        buf.push(bytes[i]);
        i = i + 1;
        assert(bytes@.subrange(0, i as int) == bytes@.subrange(0, i - 1 as int).push(
            bytes@[i - 1 as int],
        ));
    }
    assert(bytes@.subrange(0, i as int) == bytes@);
}


// ---------------------------------------------------------------------------
// Messages
// ---------------------------------------------------------------------------

/// A click event with world-space coordinates and entity info.
///
/// The coordinates are the bit patterns (`f64::to_bits`) of the `f64` values.
#[derive(Debug, Clone)]
pub struct ClickEvent {
    pub x_bits: u64,
    pub y_bits: u64,
    pub z_bits: u64,
    /// Rerun entity path (stored in frame_id per our convention).
    pub entity_path: String,
    /// Unix timestamp in seconds.
    pub timestamp_sec: i32,
    /// Nanosecond remainder.
    pub timestamp_nsec: i32,
}

/// The UTF-8 bytes of a string.
pub open spec fn utf8_bytes(s: Seq<char>) -> Seq<u8> {
    encode_utf8(s)
}

/// Value of the LCM string length field for a string of `n` bytes: the
/// length including the null terminator, as a 32-bit word.
pub open spec fn lcm_string_len(n: nat) -> u32 {
    ((n + 1) % 0x1_0000_0000) as u32
}

/// An LCM-encoded string: length field, bytes, null terminator.
pub open spec fn lcm_string(bytes: Seq<u8>) -> Seq<u8> {
    be32(lcm_string_len(bytes.len())) + bytes + seq![0u8]
}

/// The LCM encoding of a `geometry_msgs/PointStamped` built from a click event
/// (header seq is always 0).
pub open spec fn point_stamped_bytes(e: ClickEvent) -> Seq<u8> {
    be64(POINT_STAMPED_HASH) + be32(0) + be32(e.timestamp_sec as u32) + be32(
        e.timestamp_nsec as u32,
    ) + lcm_string(utf8_bytes(e.entity_path@)) + be64(e.x_bits) + be64(e.y_bits) + be64(e.z_bits)
}

/// The LCM encoding of a `geometry_msgs/Twist`.
pub open spec fn twist_bytes(linear: Seq<u64>, angular: Seq<u64>) -> Seq<u8> {
    be64(TWIST_HASH) + be64(linear[0]) + be64(linear[1]) + be64(linear[2]) + be64(angular[0])
        + be64(angular[1]) + be64(angular[2])
}

/// A complete LCM UDP packet in short message format.
pub open spec fn lcm_packet(channel: Seq<u8>, payload: Seq<u8>, seq: u32) -> Seq<u8> {
    be32(LCM_MAGIC_SHORT) + be32(seq) + channel + seq![0u8] + payload
}

/// The sequence number that follows `seq` (wrapping, as an atomic `fetch_add` does).
pub open spec fn next_seq(seq: u32) -> u32 {
    if seq == u32::MAX {
        0
    } else {
        (seq + 1) as u32
    }
}

/// Encodes a `PointStamped` LCM message (with fingerprint hash prefix).
///
/// Binary layout:
/// - 8 bytes: fingerprint hash (big-endian)
/// - Header (no hash): seq(i32) + stamp.sec(i32) + stamp.nsec(i32) + frame_id(len-prefixed string)
/// - Point (no hash): x(f64) + y(f64) + z(f64)
pub fn encode_point_stamped(event: &ClickEvent) -> (buf: Vec<u8>)
    ensures
        buf@ == point_stamped_bytes(*event),
{
    let frame_id_bytes = event.entity_path.as_str().as_bytes();
    let n = frame_id_bytes.len();
    // LCM string encoding: i32 length (including null terminator) + bytes + null
    let low: u64 = (n as u64) % 0x1_0000_0000;
    let string_len: u32 = ((low + 1) % 0x1_0000_0000) as u32;
    assert(string_len == lcm_string_len(n as nat)) by {
        assert((n as u64) as int == n as int);
        vstd::arithmetic::div_mod::lemma_add_mod_noop(n as int, 1, 0x1_0000_0000);
        vstd::arithmetic::div_mod::lemma_mod_twice(n as int, 0x1_0000_0000);
        vstd::arithmetic::div_mod::lemma_mod_bound(1, 0x1_0000_0000);
    }

    let mut buf: Vec<u8> = Vec::new();
    // Fingerprint hash
    push_be64(&mut buf, POINT_STAMPED_HASH);
    // Header: seq (always 0 for click events), stamp.sec, stamp.nsec
    push_be32(&mut buf, 0);
    push_be32(&mut buf, event.timestamp_sec as u32);
    push_be32(&mut buf, event.timestamp_nsec as u32);
    // Header: frame_id = length (incl null) + bytes + null
    push_be32(&mut buf, string_len);
    push_bytes(&mut buf, frame_id_bytes);
    buf.push(0);
    // Point
    push_be64(&mut buf, event.x_bits);
    push_be64(&mut buf, event.y_bits);
    push_be64(&mut buf, event.z_bits);
    buf
}

/// Encodes a `Twist` LCM message (with fingerprint hash prefix) from the bit
/// patterns of its linear and angular components.
pub fn encode_twist(linear: [u64; 3], angular: [u64; 3]) -> (buf: Vec<u8>)
    ensures
        buf@ == twist_bytes(linear@, angular@),
{
    let mut buf: Vec<u8> = Vec::new();
    push_be64(&mut buf, TWIST_HASH);
    push_be64(&mut buf, linear[0]);
    push_be64(&mut buf, linear[1]);
    push_be64(&mut buf, linear[2]);
    push_be64(&mut buf, angular[0]);
    push_be64(&mut buf, angular[1]);
    push_be64(&mut buf, angular[2]);
    buf
}

/// Builds a complete LCM UDP packet (short message format).
///
/// Format: `[4B magic] [4B seqno] [channel\0] [payload]`
pub fn build_lcm_packet(channel: &str, payload: &[u8], seq: u32) -> (pkt: Vec<u8>)
    ensures
        pkt@ == lcm_packet(channel.spec_bytes(), payload@, seq),
{
    let channel_bytes = channel.as_bytes();
    let mut pkt: Vec<u8> = Vec::new();
    push_be32(&mut pkt, LCM_MAGIC_SHORT);
    push_be32(&mut pkt, seq);
    push_bytes(&mut pkt, channel_bytes);
    pkt.push(0);
    push_bytes(&mut pkt, payload);
    pkt
}


// ---------------------------------------------------------------------------
// Publisher
// ---------------------------------------------------------------------------

/// The state of an LCM publisher: the channel it publishes on and the
/// sequence number of its next packet. It turns messages into the packets to
/// send; the socket that sends them is held by the caller.
pub struct LcmPublisher {
    channel: String,
    seq: u32,
}

impl LcmPublisher {
    /// The channel name, as characters.
    pub closed spec fn channel_view(&self) -> Seq<char> {
        self.channel@
    }

    /// The sequence number of the next packet.
    pub closed spec fn seq_view(&self) -> u32 {
        self.seq
    }

    /// Creates a publisher for `channel`, e.g.
    /// `"/clicked_point#geometry_msgs.PointStamped"`. Its first packet has
    /// sequence number 0.
    pub fn new(channel: String) -> (p: Self)
        ensures
            p.channel_view() == channel@,
            p.seq_view() == 0,
    {
        LcmPublisher { channel, seq: 0 }
    }

    /// The channel name.
    pub fn channel(&self) -> (c: &str)
        ensures
            c@ == self.channel_view(),
    {
        self.channel.as_str()
    }

    /// The sequence number of the next packet.
    pub fn seq(&self) -> (s: u32)
        ensures
            s == self.seq_view(),
    {
        self.seq
    }

    /// Takes the current sequence number and advances it (wrapping).
    fn take_seq(&mut self) -> (s: u32)
        ensures
            s == old(self).seq_view(),
            final(self).seq_view() == next_seq(old(self).seq_view()),
            final(self).channel_view() == old(self).channel_view(),
    {
        let s = self.seq;
        self.seq = if s == u32::MAX {
            0
        } else {
            s + 1
        };
        s
    }

    /// The packet that publishes `payload` on this channel; advances the
    /// sequence number.
    pub fn packet(&mut self, payload: &[u8]) -> (pkt: Vec<u8>)
        ensures
            pkt@ == lcm_packet(utf8_bytes(old(self).channel_view()), payload@, old(self).seq_view()),
            final(self).seq_view() == next_seq(old(self).seq_view()),
            final(self).channel_view() == old(self).channel_view(),
    {
        let seq = self.take_seq();
        build_lcm_packet(self.channel.as_str(), payload, seq)
    }

    /// The packet that publishes a click event as a PointStamped message.
    pub fn publish(&mut self, event: &ClickEvent) -> (pkt: Vec<u8>)
        ensures
            pkt@ == lcm_packet(
                utf8_bytes(old(self).channel_view()),
                point_stamped_bytes(*event),
                old(self).seq_view(),
            ),
            final(self).seq_view() == next_seq(old(self).seq_view()),
            final(self).channel_view() == old(self).channel_view(),
    {
        let payload = encode_point_stamped(event);
        self.packet(payload.as_slice())
    }

    /// The packet that publishes a Twist message, given the bit patterns of
    /// its linear and angular components.
    pub fn publish_twist(&mut self, linear: [u64; 3], angular: [u64; 3]) -> (pkt: Vec<u8>)
        ensures
            pkt@ == lcm_packet(
                utf8_bytes(old(self).channel_view()),
                twist_bytes(linear@, angular@),
                old(self).seq_view(),
            ),
            final(self).seq_view() == next_seq(old(self).seq_view()),
            final(self).channel_view() == old(self).channel_view(),
    {
        let payload = encode_twist(linear, angular);
        self.packet(payload.as_slice())
    }
}

// ---------------------------------------------------------------------------
// Click events
// ---------------------------------------------------------------------------

/// Create a `ClickEvent` from position (bit patterns of the `f64` coordinates),
/// entity path, and a millisecond timestamp.
pub fn click_event_from_ms(position: [u64; 3], entity_path: &str, timestamp_ms: u64) -> (e:
    ClickEvent)
    ensures
        e.x_bits == position[0],
        e.y_bits == position[1],
        e.z_bits == position[2],
        e.entity_path@ == entity_path@,
        e.timestamp_sec == (timestamp_ms / 1000) as i32,
        e.timestamp_nsec == (timestamp_ms % 1000) * 1_000_000,
{
    let total_secs = (timestamp_ms / 1000) as i32;
    let nanos = ((timestamp_ms % 1000) * 1_000_000) as i32;
    ClickEvent {
        x_bits: position[0],
        y_bits: position[1],
        z_bits: position[2],
        entity_path: entity_path.to_owned(),
        timestamp_sec: total_secs,
        timestamp_nsec: nanos,
    }
}

/// Create a `ClickEvent` from position (bit patterns of the `f64` coordinates),
/// entity path, and a time given as whole seconds and the nanosecond remainder.
pub fn click_event_at(position: [u64; 3], entity_path: &str, secs: u64, subsec_nanos: u32) -> (e:
    ClickEvent)
    ensures
        e.x_bits == position[0],
        e.y_bits == position[1],
        e.z_bits == position[2],
        e.entity_path@ == entity_path@,
        e.timestamp_sec == secs as i32,
        e.timestamp_nsec == subsec_nanos as i32,
{
    ClickEvent {
        x_bits: position[0],
        y_bits: position[1],
        z_bits: position[2],
        entity_path: entity_path.to_owned(),
        timestamp_sec: secs as i32,
        timestamp_nsec: subsec_nanos as i32,
    }
}


// ---------------------------------------------------------------------------
// Reading back what was written
// ---------------------------------------------------------------------------

/// A packet reads back as written: the magic word and the sequence number
/// come first, the channel runs from byte 8 up to the first zero byte after
/// it, and the payload is everything after that zero byte. This holds when
/// the channel name contains no zero byte.
pub proof fn lemma_packet_fields(channel: Seq<u8>, payload: Seq<u8>, seq: u32)
    requires
        forall|i: int| 0 <= i < channel.len() ==> channel[i] != 0u8,
    ensures
        ({
            let p = lcm_packet(channel, payload, seq);
            let n = channel.len() as int;
            &&& p.len() == 9 + n + payload.len()
            &&& read_be32(p.subrange(0, 4)) == LCM_MAGIC_SHORT
            &&& read_be32(p.subrange(4, 8)) == seq
            &&& p[8 + n] == 0u8
            &&& forall|i: int| 8 <= i < 8 + n ==> p[i] != 0u8
            &&& p.subrange(8, 8 + n) == channel
            &&& p.subrange(9 + n, p.len() as int) == payload
        }),
{
    let p = lcm_packet(channel, payload, seq);
    let n = channel.len() as int;
    lemma_be32_roundtrip(LCM_MAGIC_SHORT);
    lemma_be32_roundtrip(seq);
    assert(p.subrange(0, 4) =~= be32(LCM_MAGIC_SHORT));
    assert(p.subrange(4, 8) =~= be32(seq));
    assert(p.subrange(8, 8 + n) =~= channel);
    assert(p.subrange(9 + n, p.len() as int) =~= payload);
    assert forall|i: int| 8 <= i < 8 + n implies p[i] != 0u8 by {
        assert(p[i] == channel[i - 8]);
    }
}

/// A PointStamped message reads back as written: hash, header seq 0, stamp,
/// frame id (length field, bytes, null) and the three coordinates, each at
/// its fixed offset after the frame id.
pub proof fn lemma_point_stamped_fields(e: ClickEvent)
    ensures
        ({
            let p = point_stamped_bytes(e);
            let f = utf8_bytes(e.entity_path@);
            let n = f.len() as int;
            &&& p.len() == 49 + n
            &&& read_be64(p.subrange(0, 8)) == POINT_STAMPED_HASH
            &&& read_be32(p.subrange(8, 12)) == 0
            &&& read_be32(p.subrange(12, 16)) as i32 == e.timestamp_sec
            &&& read_be32(p.subrange(16, 20)) as i32 == e.timestamp_nsec
            &&& read_be32(p.subrange(20, 24)) == lcm_string_len(f.len())
            &&& p.subrange(24, 24 + n) == f
            &&& p[24 + n] == 0u8
            &&& read_be64(p.subrange(25 + n, 33 + n)) == e.x_bits
            &&& read_be64(p.subrange(33 + n, 41 + n)) == e.y_bits
            &&& read_be64(p.subrange(41 + n, 49 + n)) == e.z_bits
        }),
{
    let p = point_stamped_bytes(e);
    let f = utf8_bytes(e.entity_path@);
    let n = f.len() as int;
    let sec = e.timestamp_sec;
    let nsec = e.timestamp_nsec;
    lemma_be64_roundtrip(POINT_STAMPED_HASH);
    lemma_be32_roundtrip(0);
    lemma_be32_roundtrip(sec as u32);
    lemma_be32_roundtrip(nsec as u32);
    lemma_be32_roundtrip(lcm_string_len(f.len()));
    lemma_be64_roundtrip(e.x_bits);
    lemma_be64_roundtrip(e.y_bits);
    lemma_be64_roundtrip(e.z_bits);
    assert(p.subrange(0, 8) =~= be64(POINT_STAMPED_HASH));
    assert(p.subrange(8, 12) =~= be32(0));
    assert(p.subrange(12, 16) =~= be32(sec as u32));
    assert(p.subrange(16, 20) =~= be32(nsec as u32));
    assert(p.subrange(20, 24) =~= be32(lcm_string_len(f.len())));
    assert(p.subrange(24, 24 + n) =~= f);
    assert(p.subrange(25 + n, 33 + n) =~= be64(e.x_bits));
    assert(p.subrange(33 + n, 41 + n) =~= be64(e.y_bits));
    assert(p.subrange(41 + n, 49 + n) =~= be64(e.z_bits));
    assert((sec as u32) as i32 == sec) by (bit_vector);
    assert((nsec as u32) as i32 == nsec) by (bit_vector);
}

/// A Twist message reads back as written: hash, then the three linear and
/// the three angular components.
pub proof fn lemma_twist_fields(linear: Seq<u64>, angular: Seq<u64>)
    requires
        linear.len() == 3,
        angular.len() == 3,
    ensures
        ({
            let p = twist_bytes(linear, angular);
            &&& p.len() == 56
            &&& read_be64(p.subrange(0, 8)) == TWIST_HASH
            &&& forall|k: int|
                0 <= k < 3 ==> #[trigger] read_be64(p.subrange(8 + 8 * k, 16 + 8 * k))
                    == linear[k]
            &&& forall|k: int|
                0 <= k < 3 ==> #[trigger] read_be64(p.subrange(32 + 8 * k, 40 + 8 * k))
                    == angular[k]
        }),
{
    let p = twist_bytes(linear, angular);
    lemma_be64_roundtrip(TWIST_HASH);
    assert(p.subrange(0, 8) =~= be64(TWIST_HASH));
    assert forall|k: int| 0 <= k < 3 implies #[trigger] read_be64(p.subrange(8 + 8 * k, 16 + 8 * k))
        == linear[k] by {
        lemma_be64_roundtrip(linear[k]);
        assert(p.subrange(8 + 8 * k, 16 + 8 * k) =~= be64(linear[k]));
    }
    assert forall|k: int| 0 <= k < 3 implies #[trigger] read_be64(
        p.subrange(32 + 8 * k, 40 + 8 * k),
    ) == angular[k] by {
        lemma_be64_roundtrip(angular[k]);
        assert(p.subrange(32 + 8 * k, 40 + 8 * k) =~= be64(angular[k]));
    }
}

} // verus!
