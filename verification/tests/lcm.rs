use dimos_viewer::interaction::lcm::{
    build_lcm_packet, click_event_at, encode_point_stamped, encode_twist, LCM_MAGIC_SHORT,
    POINT_STAMPED_HASH, TWIST_HASH,
};
use dimos_viewer::interaction::{click_event_from_ms, ClickEvent, LcmPublisher};

fn rot(h: u64) -> u64 {
    (h.wrapping_shl(1)).wrapping_add((h >> 63) & 1)
}

fn hex_bytes(hex: &str) -> Vec<u8> {
    (0..hex.len())
        .step_by(2)
        .map(|i| u8::from_str_radix(&hex[i..i + 2], 16).unwrap())
        .collect()
}

fn bits(p: [f64; 3]) -> [u64; 3] {
    [p[0].to_bits(), p[1].to_bits(), p[2].to_bits()]
}

#[test]
fn test_point_stamped_fingerprint() {
    let time_hash = rot(0xde1d24a3a8ecb648);
    let header_hash = rot(0xdbb33f5b4c19b8ea_u64.wrapping_add(time_hash));
    let point_hash = rot(0x573f2fdd2f76508f);
    let ps_hash = rot(0xf012413a2c8028c2_u64.wrapping_add(header_hash).wrapping_add(point_hash));
    assert_eq!(ps_hash, POINT_STAMPED_HASH);
}

/// The LCM base hash of a struct type: member names, primitive type names
/// and dimension counts folded into a 64-bit word.
fn lcm_base_hash(members: &[(&str, Option<&str>)]) -> u64 {
    fn update(v: u64, c: u8) -> u64 {
        ((v << 8) ^ ((v as i64 >> 55) as u64)).wrapping_add(c as i8 as i64 as u64)
    }
    fn update_str(mut v: u64, s: &str) -> u64 {
        v = update(v, s.len() as u8);
        for b in s.bytes() {
            v = update(v, b);
        }
        v
    }
    let mut v: u64 = 0x12345678;
    for (name, prim) in members {
        v = update_str(v, name);
        if let Some(t) = prim {
            v = update_str(v, t);
        }
        v = update(v, 0);
    }
    v
}

#[test]
fn twist_fingerprint_follows_the_hash_chain() {
    let xyz = [("x", Some("double")), ("y", Some("double")), ("z", Some("double"))];
    // The same computation gives the documented bases of the PointStamped chain.
    assert_eq!(lcm_base_hash(&xyz), 0x573f2fdd2f76508f);
    assert_eq!(lcm_base_hash(&[("sec", Some("int32_t")), ("nsec", Some("int32_t"))]), 0xde1d24a3a8ecb648);
    assert_eq!(
        lcm_base_hash(&[("seq", Some("int32_t")), ("stamp", None), ("frame_id", Some("string"))]),
        0xdbb33f5b4c19b8ea
    );
    assert_eq!(lcm_base_hash(&[("header", None), ("point", None)]), 0xf012413a2c8028c2);
    let vector3 = rot(lcm_base_hash(&xyz));
    let twist_base = lcm_base_hash(&[("linear", None), ("angular", None)]);
    assert_eq!(twist_base, 0x3a4144772922add7);
    assert_eq!(rot(twist_base.wrapping_add(vector3).wrapping_add(vector3)), TWIST_HASH);
}

#[test]
fn test_encode_point_stamped_matches_python() {
    let event = ClickEvent {
        x_bits: 1.5f64.to_bits(),
        y_bits: 2.5f64.to_bits(),
        z_bits: 3.5f64.to_bits(),
        entity_path: "/world/grid".to_string(),
        timestamp_sec: 1234,
        timestamp_nsec: 5678,
    };
    let encoded = encode_point_stamped(&event);
    let expected = hex_bytes("9cd764738ea629af00000000000004d20000162e0000000c2f776f726c642f67726964003ff80000000000004004000000000000400c000000000000");
    assert_eq!(encoded, expected, "Encoded bytes must match Python LCM output");
}

#[test]
fn test_encode_empty_frame_id() {
    let event = ClickEvent {
        x_bits: 0.0f64.to_bits(),
        y_bits: 0.0f64.to_bits(),
        z_bits: 0.0f64.to_bits(),
        entity_path: String::new(),
        timestamp_sec: 0,
        timestamp_nsec: 0,
    };
    let encoded = encode_point_stamped(&event);
    assert_eq!(encoded.len(), 49);
    let str_len = i32::from_be_bytes([encoded[20], encoded[21], encoded[22], encoded[23]]);
    assert_eq!(str_len, 1);
}

#[test]
fn negative_stamp_is_twos_complement() {
    let event = ClickEvent {
        x_bits: 0,
        y_bits: 0,
        z_bits: 0,
        entity_path: "é".to_string(),
        timestamp_sec: -1,
        timestamp_nsec: i32::MIN,
    };
    let encoded = encode_point_stamped(&event);
    assert_eq!(&encoded[12..16], &(-1i32).to_be_bytes());
    assert_eq!(&encoded[16..20], &i32::MIN.to_be_bytes());
    // Two UTF-8 bytes plus the terminator.
    assert_eq!(&encoded[20..24], &3i32.to_be_bytes());
    assert_eq!(&encoded[24..27], &[0xc3, 0xa9, 0]);
    assert_eq!(encoded.len(), 51);
}

#[test]
fn test_build_lcm_packet_format() {
    let payload = vec![0xAA, 0xBB];
    let channel = "/test";
    let packet = build_lcm_packet(channel, &payload, 42);
    assert_eq!(&packet[0..4], &LCM_MAGIC_SHORT.to_be_bytes());
    assert_eq!(&packet[4..8], &42u32.to_be_bytes());
    let null_pos = packet[8..].iter().position(|&b| b == 0).unwrap() + 8;
    assert_eq!(&packet[8..null_pos], b"/test");
    assert_eq!(&packet[null_pos + 1..], &[0xAA, 0xBB]);
}

#[test]
fn test_build_lcm_packet_with_typed_channel() {
    let payload = vec![0x01];
    let channel = "/clicked_point#geometry_msgs.PointStamped";
    let packet = build_lcm_packet(channel, &payload, 0);
    let null_pos = packet[8..].iter().position(|&b| b == 0).unwrap() + 8;
    let extracted_channel = std::str::from_utf8(&packet[8..null_pos]).unwrap();
    assert_eq!(extracted_channel, channel);
}

#[test]
fn test_click_event_from_ms() {
    let event = click_event_from_ms(bits([1.0, 2.0, 3.0]), "/world", 1234567);
    assert_eq!(event.timestamp_sec, 1234);
    assert_eq!(event.timestamp_nsec, 567_000_000);
    assert_eq!(f64::from_bits(event.x_bits), 1.0f64);
    assert_eq!(event.entity_path, "/world");
}

#[test]
fn click_event_at_splits_seconds_and_nanos() {
    let event = click_event_at(bits([0.5, -1.0, 2.0]), "/test", 1_700_000_000, 123_456_789);
    assert_eq!(event.timestamp_sec, 1_700_000_000);
    assert_eq!(event.timestamp_nsec, 123_456_789);
    assert_eq!(f64::from_bits(event.y_bits), -1.0);
}

#[test]
fn test_lcm_publisher_creation() {
    let publisher = LcmPublisher::new("/clicked_point#geometry_msgs.PointStamped".to_string());
    assert_eq!(publisher.channel(), "/clicked_point#geometry_msgs.PointStamped");
    assert_eq!(publisher.seq(), 0);
}

#[test]
fn test_full_packet_structure() {
    let event = ClickEvent {
        x_bits: 1.0f64.to_bits(),
        y_bits: 2.0f64.to_bits(),
        z_bits: 3.0f64.to_bits(),
        entity_path: "/world/robot".to_string(),
        timestamp_sec: 100,
        timestamp_nsec: 200,
    };
    let payload = encode_point_stamped(&event);
    let channel = "/clicked_point#geometry_msgs.PointStamped";
    let packet = build_lcm_packet(channel, &payload, 7);
    let magic = u32::from_be_bytes([packet[0], packet[1], packet[2], packet[3]]);
    assert_eq!(magic, LCM_MAGIC_SHORT);
    let seqno = u32::from_be_bytes([packet[4], packet[5], packet[6], packet[7]]);
    assert_eq!(seqno, 7);
    let null_pos = packet[8..].iter().position(|&b| b == 0).unwrap() + 8;
    let ch = std::str::from_utf8(&packet[8..null_pos]).unwrap();
    assert_eq!(ch, channel);
    let data_start = null_pos + 1;
    let hash_bytes: [u8; 8] = packet[data_start..data_start + 8].try_into().unwrap();
    assert_eq!(u64::from_be_bytes(hash_bytes), POINT_STAMPED_HASH);
}

#[test]
fn test_sequence_number_increments() {
    let mut publisher = LcmPublisher::new("/test#geometry_msgs.PointStamped".to_string());
    assert_eq!(publisher.seq(), 0);
    let p1 = publisher.packet(&[1]);
    assert_eq!(&p1[4..8], &0u32.to_be_bytes());
    assert_eq!(publisher.seq(), 1);
    let p2 = publisher.packet(&[1]);
    assert_eq!(&p2[4..8], &1u32.to_be_bytes());
    assert_eq!(publisher.seq(), 2);
}

#[test]
fn publish_wraps_the_packet_around_the_message() {
    let mut publisher = LcmPublisher::new("/clicked_point#geometry_msgs.PointStamped".to_string());
    let event = click_event_from_ms(bits([1.0, 2.0, 3.0]), "/world/robot", 100_200);
    let pkt = publisher.publish(&event);
    assert_eq!(pkt, build_lcm_packet(publisher.channel(), &encode_point_stamped(&event), 0));
    let pkt2 = publisher.publish(&event);
    assert_eq!(&pkt2[4..8], &1u32.to_be_bytes());
}

#[test]
fn encode_twist_layout() {
    let lin = [0.5f64, -1.0, 0.0];
    let ang = [0.0f64, 0.0, 1.6];
    let buf = encode_twist(bits(lin), bits(ang));
    assert_eq!(buf.len(), 56);
    assert_eq!(&buf[0..8], &TWIST_HASH.to_be_bytes());
    for k in 0..3 {
        assert_eq!(&buf[8 + 8 * k..16 + 8 * k], &lin[k].to_be_bytes());
        assert_eq!(&buf[32 + 8 * k..40 + 8 * k], &ang[k].to_be_bytes());
    }
    let mut publisher = LcmPublisher::new("/cmd_vel#geometry_msgs.Twist".to_string());
    let pkt = publisher.publish_twist(bits(lin), bits(ang));
    assert_eq!(pkt, build_lcm_packet("/cmd_vel#geometry_msgs.Twist", &buf, 0));
}
