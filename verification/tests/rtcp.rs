use bytes::BytesMut;
use video_server::rtp::rtcp::{PacketType, RTCPHeader, ReceptionReport, SenderReport};

fn report(seed: u32) -> ReceptionReport {
    ReceptionReport {
        reportee_ssrc: 0x0102_0304 + seed,
        fraction_lost: 0x05,
        total_lost: 0x0006_0708 + seed,
        extended_sequence_number: 0x090A_0B0C,
        jitter: 0x0D0E_0F10,
        last_sr_timestamp: 0x1112_1314,
        delay_since_last_sr: 0x1516_1718 + seed,
    }
}

fn sender_report(n: u32) -> SenderReport {
    SenderReport {
        ssrc: 0xDEAD_BEEF,
        ntp_time: 0x0102_0304_0506_0708,
        rtp_time: 0x1122_3344,
        packet_count: 7,
        octet_count: 1400,
        reports: (0..n).map(report).collect(),
    }
}

#[test]
fn packet_type_from_known_bytes() {
    assert_eq!(PacketType::from(200), PacketType::SenderReport);
    assert_eq!(PacketType::from(202), PacketType::SourceDescription);
    assert_eq!(PacketType::from(203), PacketType::Goodbye);
}

#[test]
fn packet_type_from_other_bytes_is_unsupported() {
    assert_eq!(PacketType::from(0), PacketType::Unsupported);
    assert_eq!(PacketType::from(201), PacketType::Unsupported);
    assert_eq!(PacketType::from(255), PacketType::Unsupported);
}

#[test]
fn packet_type_bytes_read_back() {
    for t in [
        PacketType::Unsupported,
        PacketType::SenderReport,
        PacketType::SourceDescription,
        PacketType::Goodbye,
    ] {
        assert_eq!(PacketType::from(t.to_byte()), t);
    }
    assert_eq!(PacketType::Unsupported.to_byte(), 0);
    assert_eq!(PacketType::SenderReport.to_byte(), 200);
}

#[test]
fn header_serialize_bytes() {
    let h = RTCPHeader {
        padding: true,
        count: 3,
        packet_type: PacketType::SenderReport,
        length: 6,
    };
    let buf = h.serialize();
    assert_eq!(&buf[..], &[0xA3, 200, 0x00, 0x06]);
}

#[test]
fn header_serialize_without_padding() {
    let h = RTCPHeader {
        padding: false,
        count: 0,
        packet_type: PacketType::Goodbye,
        length: 0x0102,
    };
    assert_eq!(&h.serialize()[..], &[0x80, 203, 0x01, 0x02]);
}

#[test]
fn header_deserialize_fields_and_rest() {
    let mut packet = BytesMut::from(&[0x81u8, 202, 0x01, 0x02, 0xFF][..]);
    let h = RTCPHeader::deserialize(&mut packet);
    assert!(!h.padding);
    assert_eq!(h.count, 1);
    assert_eq!(h.packet_type, PacketType::SourceDescription);
    assert_eq!(h.length, 258);
    assert_eq!(&packet[..], &[0xFF]);
}

#[test]
fn header_deserialize_ignores_version_bits() {
    let mut packet = BytesMut::from(&[0x3Fu8, 7, 0xFF, 0xFE][..]);
    let h = RTCPHeader::deserialize(&mut packet);
    assert!(h.padding);
    assert_eq!(h.count, 31);
    assert_eq!(h.packet_type, PacketType::Unsupported);
    assert_eq!(h.length, 0xFFFE);
    assert!(packet.is_empty());
}

#[test]
fn header_roundtrip() {
    let h = RTCPHeader {
        padding: true,
        count: 31,
        packet_type: PacketType::Goodbye,
        length: 0xBEEF,
    };
    let mut buf = h.serialize();
    assert_eq!(RTCPHeader::deserialize(&mut buf), h);
}

#[test]
fn header_count_above_five_bits_spills() {
    let h = RTCPHeader {
        padding: false,
        count: 40,
        packet_type: PacketType::SenderReport,
        length: 1,
    };
    let mut buf = h.serialize();
    assert_eq!(buf[0], 0xA8);
    let back = RTCPHeader::deserialize(&mut buf);
    assert!(back.padding);
    assert_eq!(back.count, 8);
}

#[test]
fn reception_report_serialize_bytes() {
    let r = ReceptionReport {
        reportee_ssrc: 0x0102_0304,
        fraction_lost: 0x05,
        total_lost: 0x1234_5678,
        extended_sequence_number: 0x090A_0B0C,
        jitter: 0x0D0E_0F10,
        last_sr_timestamp: 0x1112_1314,
        delay_since_last_sr: 0x1516_1718,
    };
    let buf = r.serialize();
    assert_eq!(
        &buf[..],
        &[
            0x01, 0x02, 0x03, 0x04, 0x05, 0x34, 0x56, 0x78, 0x09, 0x0A, 0x0B, 0x0C, 0x0D, 0x0E,
            0x0F, 0x10, 0x11, 0x12, 0x13, 0x14, 0x15, 0x16, 0x17, 0x18
        ]
    );
}

#[test]
fn reception_report_deserialize_fields() {
    let bytes: Vec<u8> = (1..=25).collect();
    let mut packet = BytesMut::from(&bytes[..]);
    let r = ReceptionReport::deserialize(&mut packet);
    assert_eq!(r.reportee_ssrc, 0x0102_0304);
    assert_eq!(r.fraction_lost, 5);
    assert_eq!(r.total_lost, 0x0006_0708);
    assert_eq!(r.extended_sequence_number, 0x090A_0B0C);
    assert_eq!(r.jitter, 0x0D0E_0F10);
    assert_eq!(r.last_sr_timestamp, 0x1112_1314);
    assert_eq!(r.delay_since_last_sr, 0x1516_1718);
    assert_eq!(&packet[..], &[25]);
}

#[test]
fn reception_report_roundtrip() {
    let r = report(9);
    let mut buf = r.serialize();
    assert_eq!(ReceptionReport::deserialize(&mut buf), r);
    assert!(buf.is_empty());
}

#[test]
fn reception_report_loss_keeps_low_24_bits() {
    let mut r = report(0);
    r.total_lost = 0xAB12_3456;
    let mut buf = r.serialize();
    assert_eq!(ReceptionReport::deserialize(&mut buf).total_lost, 0x0012_3456);
}

#[test]
fn reception_report_bytes_rewrite() {
    let bytes: Vec<u8> = (100..124).collect();
    let mut packet = BytesMut::from(&bytes[..]);
    let r = ReceptionReport::deserialize(&mut packet);
    assert_eq!(&r.serialize()[..], &bytes[..]);
}

#[test]
fn sender_report_serialize_bytes() {
    let sr = sender_report(1);
    let buf = sr.serialize();
    assert_eq!(buf.len(), 48);
    assert_eq!(
        &buf[..24],
        &[
            0xDE, 0xAD, 0xBE, 0xEF, 0x01, 0x02, 0x03, 0x04, 0x05, 0x06, 0x07, 0x08, 0x11, 0x22,
            0x33, 0x44, 0, 0, 0, 7, 0, 0, 0x05, 0x78
        ]
    );
    assert_eq!(&buf[24..], &report(0).serialize()[..]);
}

#[test]
fn sender_report_without_blocks_is_24_bytes() {
    assert_eq!(sender_report(0).serialize().len(), 24);
}

#[test]
fn sender_report_roundtrip() {
    let sr = sender_report(3);
    let mut buf = sr.serialize();
    buf.extend_from_slice(&[9, 9]);
    let back = SenderReport::deserialize(&mut buf, 3);
    assert_eq!(back.ssrc, sr.ssrc);
    assert_eq!(back.ntp_time, sr.ntp_time);
    assert_eq!(back.rtp_time, sr.rtp_time);
    assert_eq!(back.packet_count, sr.packet_count);
    assert_eq!(back.octet_count, sr.octet_count);
    assert_eq!(back.reports, sr.reports);
    assert_eq!(&buf[..], &[9, 9]);
}

#[test]
fn sender_report_deserialize_reads_only_counted_blocks() {
    let sr = sender_report(2);
    let mut buf = sr.serialize();
    let back = SenderReport::deserialize(&mut buf, 1);
    assert_eq!(back.reports, vec![report(0)]);
    assert_eq!(&buf[..], &report(1).serialize()[..]);
}

#[test]
fn sender_report_length_counts_bytes() {
    assert_eq!(sender_report(0).length(), 24);
    assert_eq!(sender_report(2).length(), 72);
    let sr = sender_report(5);
    assert_eq!(sr.length() as usize, sr.serialize().len());
}

#[test]
fn sender_report_length_cuts_block_bytes_to_16_bits() {
    // 2731 blocks are 65544 bytes, which 16 bits hold as 8.
    let sr = sender_report(2731);
    assert_eq!(sr.length(), 32);
}

#[test]
fn header_bytes_rewrite() {
    let bytes = [0xB5u8, 200, 0x12, 0x34];
    let mut packet = BytesMut::from(&bytes[..]);
    let h = RTCPHeader::deserialize(&mut packet);
    assert_eq!(&h.serialize()[..], &bytes[..]);
}

#[test]
fn sender_report_bytes_rewrite() {
    let bytes: Vec<u8> = (0..72u32).map(|i| (i * 7 + 3) as u8).collect();
    let mut packet = BytesMut::from(&bytes[..]);
    let sr = SenderReport::deserialize(&mut packet, 2);
    assert!(packet.is_empty());
    assert_eq!(&sr.serialize()[..], &bytes[..]);
}
