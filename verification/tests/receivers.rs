use bytes::BytesMut;
use video_server::receivers::receivers::{
    calculate_delay, sender_report_timings, NTP_TO_UNIX_EPOCH_SECS,
};
use video_server::receivers::signalling::{request_length, stream_for_request, RequestedStream};
use video_server::rtp::rtcp::{PacketType, RTCPHeader, ReceptionReport, SenderReport};
use video_server::StreamType;

fn header(packet_type: PacketType, count: u8) -> RTCPHeader {
    RTCPHeader {
        padding: false,
        count,
        packet_type,
        length: 0,
    }
}

fn sender_report(ntp_time: u64, rtp_time: u32, blocks: u32) -> SenderReport {
    SenderReport {
        ssrc: 1,
        ntp_time,
        rtp_time,
        packet_count: 2,
        octet_count: 3,
        reports: (0..blocks)
            .map(|i| ReceptionReport {
                reportee_ssrc: i,
                fraction_lost: 0,
                total_lost: i,
                extended_sequence_number: 0,
                jitter: 0,
                last_sr_timestamp: 0,
                delay_since_last_sr: 0,
            })
            .collect(),
    }
}

#[test]
fn timings_of_two_sender_reports() {
    let mut packet = BytesMut::new();
    packet.extend_from_slice(&header(PacketType::SenderReport, 1).serialize());
    packet.extend_from_slice(&sender_report(10, 20, 1).serialize());
    packet.extend_from_slice(&header(PacketType::SenderReport, 0).serialize());
    packet.extend_from_slice(&sender_report(30, 40, 0).serialize());
    let (timings, complete) = sender_report_timings(&mut packet);
    assert_eq!(timings, vec![(10, 20), (30, 40)]);
    assert!(complete);
    assert!(packet.is_empty());
}

#[test]
fn timings_of_empty_datagram() {
    let mut packet = BytesMut::new();
    let (timings, complete) = sender_report_timings(&mut packet);
    assert!(timings.is_empty());
    assert!(complete);
}

#[test]
fn other_packets_are_read_header_by_header() {
    let mut packet = BytesMut::new();
    packet.extend_from_slice(&header(PacketType::Goodbye, 0).serialize());
    packet.extend_from_slice(&header(PacketType::SourceDescription, 2).serialize());
    packet.extend_from_slice(&header(PacketType::SenderReport, 0).serialize());
    packet.extend_from_slice(&sender_report(5, 6, 0).serialize());
    let (timings, complete) = sender_report_timings(&mut packet);
    assert_eq!(timings, vec![(5, 6)]);
    assert!(complete);
}

#[test]
fn short_sender_report_stops_reading() {
    let mut packet = BytesMut::new();
    packet.extend_from_slice(&header(PacketType::SenderReport, 0).serialize());
    packet.extend_from_slice(&sender_report(5, 6, 0).serialize());
    packet.extend_from_slice(&header(PacketType::SenderReport, 1).serialize());
    packet.extend_from_slice(&sender_report(7, 8, 0).serialize());
    let (timings, complete) = sender_report_timings(&mut packet);
    assert_eq!(timings, vec![(5, 6)]);
    assert!(!complete);
    assert_eq!(packet.len(), 24);
}

#[test]
fn short_header_stops_reading() {
    let mut packet = BytesMut::from(&[0x80u8, 203][..]);
    let (timings, complete) = sender_report_timings(&mut packet);
    assert!(timings.is_empty());
    assert!(!complete);
    assert_eq!(&packet[..], &[0x80, 203]);
}

fn ntp(secs: u64, frac: u64) -> u64 {
    (secs << 32) | frac
}

#[test]
fn delay_one_second_after_send() {
    // Sent one second after the Unix epoch, 90000 ticks (one second at 90 kHz)
    // after the sender report; arrives at five seconds.
    let d = calculate_delay(
        5_000_000_000,
        90_000,
        90_000,
        ntp(NTP_TO_UNIX_EPOCH_SECS + 1, 0),
        0,
    );
    assert_eq!(d, 3_000_000_000);
}

#[test]
fn delay_counts_ntp_fraction() {
    // Half a second of NTP fraction: 0x8000_0000 / 2^32.
    let d = calculate_delay(
        2_000_000_000,
        8_000,
        100,
        ntp(NTP_TO_UNIX_EPOCH_SECS + 1, 0x8000_0000),
        100,
    );
    assert_eq!(d, 500_000_000);
}

#[test]
fn delay_rtp_ticks_wrap() {
    // 10 ticks past the sender report across the 32-bit wrap, at 10 ticks per
    // second: one second.
    let d = calculate_delay(
        3_000_000_000,
        10,
        4,
        ntp(NTP_TO_UNIX_EPOCH_SECS, 0),
        u32::MAX - 5,
    );
    assert_eq!(d, 2_000_000_000);
}

#[test]
fn delay_is_zero_when_arrival_precedes_send() {
    let d = calculate_delay(
        1_000,
        90_000,
        0,
        ntp(NTP_TO_UNIX_EPOCH_SECS + 10, 0),
        0,
    );
    assert_eq!(d, 0);
}

#[test]
fn delay_uses_low_64_bits_of_arrival() {
    let arrival: u128 = (1u128 << 64) + 7_000_000_000;
    let d = calculate_delay(arrival, 1, 0, ntp(NTP_TO_UNIX_EPOCH_SECS + 2, 0), 0);
    assert_eq!(d, 5_000_000_000);
}

#[test]
fn request_length_is_big_endian() {
    assert_eq!(request_length([0, 0, 1, 2]), 258);
    assert_eq!(request_length([1, 0, 0, 0]), 0x0100_0000);
    assert_eq!(request_length([0xFF, 0xFF, 0xFF, 0xFF]), 0xFFFF_FFFF);
}

#[test]
fn requests_pick_their_endpoint() {
    assert_eq!(stream_for_request(RequestedStream::Audio), Some(StreamType::Audio));
    assert_eq!(stream_for_request(RequestedStream::Video), Some(StreamType::Video));
    assert_eq!(stream_for_request(RequestedStream::BenchmarkAudio), None);
    assert_eq!(stream_for_request(RequestedStream::BenchmarkVideo), None);
}
