//! RTCP packets (RFC 3550): the common header, sender reports and the
//! reception report blocks they carry, with their wire formats.
use crate::buffer::{
    be16, be16_at, be32, be32_at, be64, be64_at, buffer_bytes, buffer_get_u16, buffer_get_u32,
    buffer_get_u64, buffer_get_u8, buffer_limit, buffer_new, buffer_put, buffer_put_u16,
    buffer_put_u32, buffer_put_u64, buffer_put_u8, buffer_with_capacity,
};
use bytes::BytesMut;
use vstd::prelude::*;

verus! {

/// The RTCP packet types this library tells apart.
#[derive(Debug, Copy, Clone, PartialEq, Eq)]
pub enum PacketType {
    /// Any type byte other than the three below.
    Unsupported,
    /// Type byte 200 (RFC 3550, 6.4.1).
    SenderReport,
    /// Type byte 202 (RFC 3550, 6.5).
    SourceDescription,
    /// Type byte 203 (RFC 3550, 6.6).
    Goodbye,
}

/// The packet type that a type byte names.
pub open spec fn packet_type_of(b: u8) -> PacketType {
    if b == 200 {
        PacketType::SenderReport
    } else if b == 202 {
        PacketType::SourceDescription
    } else if b == 203 {
        PacketType::Goodbye
    } else {
        PacketType::Unsupported
    }
}

/// The type byte written for a packet type.
pub open spec fn packet_type_byte(t: PacketType) -> u8 {
    match t {
        PacketType::Unsupported => 0,
        PacketType::SenderReport => 200,
        PacketType::SourceDescription => 202,
        PacketType::Goodbye => 203,
    }
}

impl PacketType {
    /// The packet type that the type byte `b` names; every byte that names
    /// none of the known types gives `Unsupported`.
    pub fn from(b: u8) -> (t: Self)
        ensures
            t == packet_type_of(b),
    {
        match b {
            200 => PacketType::SenderReport,
            202 => PacketType::SourceDescription,
            203 => PacketType::Goodbye,
            _ => PacketType::Unsupported,
        }
    }

    /// The type byte of this packet type (0 for `Unsupported`).
    pub fn to_byte(self) -> (b: u8)
        ensures
            b == packet_type_byte(self),
    {
        match self {
            PacketType::Unsupported => 0,
            PacketType::SenderReport => 200,
            PacketType::SourceDescription => 202,
            PacketType::Goodbye => 203,
        }
    }
}

/*
     0                   1                   2                   3
     0 1 2 3 4 5 6 7 8 9 0 1 2 3 4 5 6 7 8 9 0 1 2 3 4 5 6 7 8 9 0 1
    +-+-+-+-+-+-+-+-+-+-+-+-+-+-+-+-+-+-+-+-+-+-+-+-+-+-+-+-+-+-+-+-+
    |V=2|P|    RC   |   PT=SR=200   |             length            |
    +-+-+-+-+-+-+-+-+-+-+-+-+-+-+-+-+-+-+-+-+-+-+-+-+-+-+-+-+-+-+-+-+
*/
/// The four-byte header that starts every RTCP packet.
#[derive(Debug, Clone, Copy, PartialEq, Eq)]
pub struct RTCPHeader {
    pub padding: bool,
    pub count: u8,
    pub packet_type: PacketType,
    pub length: u16,
}

/// The first header byte: version 2 in the top two bits, the padding bit,
/// and the count or-ed into the low bits (a count above 31 spills into the
/// bits above the five that the format gives it).
pub open spec fn header_first_byte(padding: bool, count: u8) -> u8 {
    0x80u8 | (if padding { 0x20u8 } else { 0u8 }) | count
}

/// The four bytes a header is written as.
pub open spec fn header_bytes(h: RTCPHeader) -> Seq<u8> {
    seq![header_first_byte(h.padding, h.count), packet_type_byte(h.packet_type)] + be16(h.length)
}

/// The header that the first four bytes of `s` hold. The version bits are
/// not looked at.
pub open spec fn parse_header(s: Seq<u8>) -> RTCPHeader {
    RTCPHeader {
        padding: (s[0] / 32) % 2 == 1,
        count: s[0] % 32,
        packet_type: packet_type_of(s[1]),
        length: be16_at(s, 2) as u16,
    }
}

impl RTCPHeader {
    /// Writes the header into a new buffer of four bytes.
    pub fn serialize(&self) -> (buf: BytesMut)
        ensures
            buffer_bytes(buf) == header_bytes(*self),
    {
        let mut buf = buffer_with_capacity(4);

        let p: u8 = if self.padding { 1 } else { 0 };
        let count = self.count;
        let b0: u8 = (2u8 << 6u8) | (p << 5u8) | (count << 0u8);
        assert(b0 == header_first_byte(self.padding, self.count)) by {
            assert(((2u8 << 6u8) | (p << 5u8) | (count << 0u8)) == (0x80u8 | (if p == 1 { 0x20u8 } else { 0u8 }) | count)) by (bit_vector)
                requires p == 0 || p == 1;
        }

        buffer_put_u8(&mut buf, b0);
        buffer_put_u8(&mut buf, self.packet_type.to_byte());
        buffer_put_u16(&mut buf, self.length);

        assert(buffer_bytes(buf) =~= header_bytes(*self));
        buf
    }

    /// Reads a header from the front of `packet`, which loses its first four
    /// bytes.
    pub fn deserialize(packet: &mut BytesMut) -> (h: RTCPHeader)
        requires
            buffer_bytes(*old(packet)).len() >= 4,
        ensures
            h == parse_header(buffer_bytes(*old(packet))),
            buffer_bytes(*final(packet)) == buffer_bytes(*old(packet)).skip(4),
    {
        let ghost s = buffer_bytes(*packet);
        let b0 = buffer_get_u8(packet);

        let padding = ((b0 >> 5u8) & 0x1u8) > 0;
        let count = (b0 >> 0u8) & 0x1fu8;
        assert(padding == ((b0 / 32) % 2 == 1) && count == b0 % 32) by {
            assert((((b0 >> 5u8) & 0x1u8) > 0) == ((b0 / 32) % 2 == 1)) by (bit_vector);
            assert(((b0 >> 0u8) & 0x1fu8) == b0 % 32) by (bit_vector);
        }
        let packet_type = PacketType::from(buffer_get_u8(packet));
        let length = buffer_get_u16(packet);

        assert(s.skip(1).skip(1).skip(2) =~= s.skip(4));
        assert(be16_at(s.skip(2), 0) == be16_at(s, 2));

        RTCPHeader { padding, count, packet_type, length }
    }
}

/// One reception report block of a sender report.
#[derive(Debug, Clone, Copy, PartialEq, Eq)]
pub struct ReceptionReport {
    pub reportee_ssrc: u32,
    pub fraction_lost: u8,
    pub total_lost: u32,
    pub extended_sequence_number: u32,
    pub jitter: u32,
    pub last_sr_timestamp: u32,
    pub delay_since_last_sr: u32,
}

/// The low three bytes of `v`, most significant first: the 24-bit field that
/// carries the cumulative number of packets lost.
pub open spec fn be24(v: u32) -> Seq<u8> {
    seq![(v / 0x1_0000 % 0x100) as u8, (v / 0x100 % 0x100) as u8, (v % 0x100) as u8]
}

/// The unsigned number that the three bytes of `s` starting at `i` spell,
/// most significant first.
pub open spec fn be24_at(s: Seq<u8>, i: int) -> int {
    s[i] * 0x1_0000 + s[i + 1] * 0x100 + s[i + 2]
}

/// The number of bytes a reception report block takes.
pub open spec fn reception_report_len() -> nat {
    24
}

/// The 24 bytes a reception report block is written as. Only the low 24 bits
/// of `total_lost` are written.
pub open spec fn reception_report_bytes(r: ReceptionReport) -> Seq<u8> {
    be32(r.reportee_ssrc) + seq![r.fraction_lost] + be24(r.total_lost) + be32(
        r.extended_sequence_number,
    ) + be32(r.jitter) + be32(r.last_sr_timestamp) + be32(r.delay_since_last_sr)
}

/// The reception report block that the first 24 bytes of `s` hold.
pub open spec fn parse_reception_report(s: Seq<u8>) -> ReceptionReport {
    ReceptionReport {
        reportee_ssrc: be32_at(s, 0) as u32,
        fraction_lost: s[4],
        total_lost: be24_at(s, 5) as u32,
        extended_sequence_number: be32_at(s, 8) as u32,
        jitter: be32_at(s, 12) as u32,
        last_sr_timestamp: be32_at(s, 16) as u32,
        delay_since_last_sr: be32_at(s, 20) as u32,
    }
}

impl ReceptionReport {
    /*
     *  0                   1                   2                   3
     *  0 1 2 3 4 5 6 7 8 9 0 1 2 3 4 5 6 7 8 9 0 1 2 3 4 5 6 7 8 9 0 1
     * +=+=+=+=+=+=+=+=+=+=+=+=+=+=+=+=+=+=+=+=+=+=+=+=+=+=+=+=+=+=+=+=+
     * |                              SSRC                             |
     * +-+-+-+-+-+-+-+-+-+-+-+-+-+-+-+-+-+-+-+-+-+-+-+-+-+-+-+-+-+-+-+-+
     * | fraction lost |       cumulative number of packets lost       |
     * +-+-+-+-+-+-+-+-+-+-+-+-+-+-+-+-+-+-+-+-+-+-+-+-+-+-+-+-+-+-+-+-+
     * |           extended highest sequence number received           |
     * +-+-+-+-+-+-+-+-+-+-+-+-+-+-+-+-+-+-+-+-+-+-+-+-+-+-+-+-+-+-+-+-+
     * |                      interarrival jitter                      |
     * +-+-+-+-+-+-+-+-+-+-+-+-+-+-+-+-+-+-+-+-+-+-+-+-+-+-+-+-+-+-+-+-+
     * |                         last SR (LSR)                         |
     * +-+-+-+-+-+-+-+-+-+-+-+-+-+-+-+-+-+-+-+-+-+-+-+-+-+-+-+-+-+-+-+-+
     * |                   delay since last SR (DLSR)                  |
     * +=+=+=+=+=+=+=+=+=+=+=+=+=+=+=+=+=+=+=+=+=+=+=+=+=+=+=+=+=+=+=+=+
     */
    /// Writes the block into a new buffer of 24 bytes.
    pub fn serialize(&self) -> (buf: BytesMut)
        ensures
            buffer_bytes(buf) == reception_report_bytes(*self),
    {
        let mut buf = buffer_with_capacity(24);

        buffer_put_u32(&mut buf, self.reportee_ssrc);

        buffer_put_u8(&mut buf, self.fraction_lost);

        let lost = self.total_lost;
        let t0 = ((lost >> 16u32) & 0xFFu32) as u8;
        let t1 = ((lost >> 8u32) & 0xFFu32) as u8;
        let t2 = (lost & 0xFFu32) as u8;
        assert(t0 == (lost / 0x1_0000 % 0x100) as u8 && t1 == (lost / 0x100 % 0x100) as u8 && t2 == (lost % 0x100) as u8) by {
            assert(((lost >> 16u32) & 0xFFu32) as u8 == (lost / 0x1_0000 % 0x100) as u8) by (bit_vector);
            assert(((lost >> 8u32) & 0xFFu32) as u8 == (lost / 0x100 % 0x100) as u8) by (bit_vector);
            assert((lost & 0xFFu32) as u8 == (lost % 0x100) as u8) by (bit_vector);
        }
        buffer_put_u8(&mut buf, t0);
        buffer_put_u8(&mut buf, t1);
        buffer_put_u8(&mut buf, t2);

        buffer_put_u32(&mut buf, self.extended_sequence_number);
        buffer_put_u32(&mut buf, self.jitter);
        buffer_put_u32(&mut buf, self.last_sr_timestamp);
        buffer_put_u32(&mut buf, self.delay_since_last_sr);

        assert(buffer_bytes(buf) =~= reception_report_bytes(*self));
        buf
    }

    /// Reads a block from the front of `packet`, which loses its first 24
    /// bytes.
    pub fn deserialize(packet: &mut BytesMut) -> (r: Self)
        requires
            buffer_bytes(*old(packet)).len() >= 24,
        ensures
            r == parse_reception_report(buffer_bytes(*old(packet))),
            buffer_bytes(*final(packet)) == buffer_bytes(*old(packet)).skip(24),
    {
        let ghost s = buffer_bytes(*packet);
        let reportee_ssrc = buffer_get_u32(packet);
        assert(buffer_bytes(*packet) =~= s.skip(4));
        let fraction_lost = buffer_get_u8(packet);
        assert(buffer_bytes(*packet) =~= s.skip(5));

        let t0 = buffer_get_u8(packet);
        assert(buffer_bytes(*packet) =~= s.skip(6));
        let t1 = buffer_get_u8(packet);
        assert(buffer_bytes(*packet) =~= s.skip(7));
        let t2 = buffer_get_u8(packet);
        assert(buffer_bytes(*packet) =~= s.skip(8));
        let total_lost = (t2 as u32) | (t1 as u32) << 8u32 | (t0 as u32) << 16u32;
        assert(total_lost == t0 * 0x1_0000 + t1 * 0x100 + t2) by {
            assert(((t2 as u32) | (t1 as u32) << 8u32 | (t0 as u32) << 16u32) == (t0 as u32) * 0x1_0000u32 + (t1 as u32) * 0x100u32 + (t2 as u32)) by (bit_vector);
        }

        let extended_sequence_number = buffer_get_u32(packet);
        assert(buffer_bytes(*packet) =~= s.skip(12));
        let jitter = buffer_get_u32(packet);
        assert(buffer_bytes(*packet) =~= s.skip(16));
        let last_sr_timestamp = buffer_get_u32(packet);
        assert(buffer_bytes(*packet) =~= s.skip(20));
        let delay_since_last_sr = buffer_get_u32(packet);
        assert(buffer_bytes(*packet) =~= s.skip(24));

        ReceptionReport {
            reportee_ssrc,
            fraction_lost,
            total_lost,
            extended_sequence_number,
            jitter,
            last_sr_timestamp,
            delay_since_last_sr,
        }
    }
}

/// A sender report (RFC 3550, 6.4.1): the sender information, followed by
/// its reception report blocks.
pub struct SenderReport {
    pub ssrc: u32,
    pub ntp_time: u64,
    pub rtp_time: u32,
    pub packet_count: u32,
    pub octet_count: u32,
    pub reports: Vec<ReceptionReport>,
}

/// The bytes of a run of reception report blocks, one after the other.
pub open spec fn reports_bytes(rs: Seq<ReceptionReport>) -> Seq<u8>
    decreases rs.len(),
{
    if rs.len() == 0 {
        Seq::empty()
    } else {
        reports_bytes(rs.drop_last()) + reception_report_bytes(rs.last())
    }
}

/// The bytes a sender report is written as: 24 bytes of sender information,
/// then each reception report block in order.
pub open spec fn sender_report_bytes(sr: SenderReport) -> Seq<u8> {
    be32(sr.ssrc) + be64(sr.ntp_time) + be32(sr.rtp_time) + be32(sr.packet_count) + be32(
        sr.octet_count,
    ) + reports_bytes(sr.reports@)
}

/// The `n` reception report blocks that `s` holds one after the other from
/// its start.
pub open spec fn parse_reports(s: Seq<u8>, n: nat) -> Seq<ReceptionReport> {
    Seq::new(n, |i: int| parse_reception_report(s.skip(24 * i)))
}

/// `sr` is the sender report with `n` reception report blocks that `s` holds
/// from its start.
pub open spec fn is_sender_report_of(sr: SenderReport, s: Seq<u8>, n: nat) -> bool {
    &&& sr.ssrc == be32_at(s, 0)
    &&& sr.ntp_time == be64_at(s, 4)
    &&& sr.rtp_time == be32_at(s, 12)
    &&& sr.packet_count == be32_at(s, 16)
    &&& sr.octet_count == be32_at(s, 20)
    &&& sr.reports@ == parse_reports(s.skip(24), n)
}

/// A run of reception report blocks takes 24 bytes per block.
pub proof fn lemma_reports_bytes_len(rs: Seq<ReceptionReport>)
    ensures
        reports_bytes(rs).len() == 24 * rs.len(),
    decreases rs.len(),
{
    if rs.len() > 0 {
        lemma_reports_bytes_len(rs.drop_last());
    }
}

impl SenderReport {
    /// Writes the report, its blocks included, into a new buffer.
    pub fn serialize(&self) -> (buf: BytesMut)
        requires
            24 + 24 * self.reports.len() <= buffer_limit(),
        ensures
            buffer_bytes(buf) == sender_report_bytes(*self),
    {
        /*
         *         0                   1                   2                   3
         *         0 1 2 3 4 5 6 7 8 9 0 1 2 3 4 5 6 7 8 9 0 1 2 3 4 5 6 7 8 9 0 1
         *        +=+=+=+=+=+=+=+=+=+=+=+=+=+=+=+=+=+=+=+=+=+=+=+=+=+=+=+=+=+=+=+=+
         * sender |              NTP timestamp, most significant word             |
         * info   +-+-+-+-+-+-+-+-+-+-+-+-+-+-+-+-+-+-+-+-+-+-+-+-+-+-+-+-+-+-+-+-+
         *        |             NTP timestamp, least significant word             |
         *        +-+-+-+-+-+-+-+-+-+-+-+-+-+-+-+-+-+-+-+-+-+-+-+-+-+-+-+-+-+-+-+-+
         *        |                         RTP timestamp                         |
         *        +-+-+-+-+-+-+-+-+-+-+-+-+-+-+-+-+-+-+-+-+-+-+-+-+-+-+-+-+-+-+-+-+
         *        |                     sender's packet count                     |
         *        +-+-+-+-+-+-+-+-+-+-+-+-+-+-+-+-+-+-+-+-+-+-+-+-+-+-+-+-+-+-+-+-+
         *        |                      sender's octet count                     |
         *        +=+=+=+=+=+=+=+=+=+=+=+=+=+=+=+=+=+=+=+=+=+=+=+=+=+=+=+=+=+=+=+=+
         * report |                 SSRC_1 (SSRC of first source)                 |
         * block  +-+-+-+-+-+-+-+-+-+-+-+-+-+-+-+-+-+-+-+-+-+-+-+-+-+-+-+-+-+-+-+-+
         *   1    | fraction lost |       cumulative number of packets lost       |
         *        +-+-+-+-+-+-+-+-+-+-+-+-+-+-+-+-+-+-+-+-+-+-+-+-+-+-+-+-+-+-+-+-+
         *        |           extended highest sequence number received           |
         *        +-+-+-+-+-+-+-+-+-+-+-+-+-+-+-+-+-+-+-+-+-+-+-+-+-+-+-+-+-+-+-+-+
         *        |                      interarrival jitter                      |
         *        +-+-+-+-+-+-+-+-+-+-+-+-+-+-+-+-+-+-+-+-+-+-+-+-+-+-+-+-+-+-+-+-+
         *        |                         last SR (LSR)                         |
         *        +-+-+-+-+-+-+-+-+-+-+-+-+-+-+-+-+-+-+-+-+-+-+-+-+-+-+-+-+-+-+-+-+
         *        |                   delay since last SR (DLSR)                  |
         *        +=+=+=+=+=+=+=+=+=+=+=+=+=+=+=+=+=+=+=+=+=+=+=+=+=+=+=+=+=+=+=+=+
         * report |                 SSRC_2 (SSRC of second source)                |
         * block  +-+-+-+-+-+-+-+-+-+-+-+-+-+-+-+-+-+-+-+-+-+-+-+-+-+-+-+-+-+-+-+-+
         *   2    :                               ...                             :
         *        +=+=+=+=+=+=+=+=+=+=+=+=+=+=+=+=+=+=+=+=+=+=+=+=+=+=+=+=+=+=+=+=+
         *        |                  profile-specific extensions                  |
         *        +-+-+-+-+-+-+-+-+-+-+-+-+-+-+-+-+-+-+-+-+-+-+-+-+-+-+-+-+-+-+-+-+
         */
        let mut buf = buffer_new();

        buffer_put_u32(&mut buf, self.ssrc);
        buffer_put_u64(&mut buf, self.ntp_time);
        buffer_put_u32(&mut buf, self.rtp_time);
        buffer_put_u32(&mut buf, self.packet_count);
        buffer_put_u32(&mut buf, self.octet_count);

        let ghost info = be32(self.ssrc) + be64(self.ntp_time) + be32(self.rtp_time) + be32(
            self.packet_count,
        ) + be32(self.octet_count);
        assert(buffer_bytes(buf) =~= info);

        let mut i: usize = 0;
        while i < self.reports.len()
            invariant
                i <= self.reports.len(),
                24 + 24 * self.reports.len() <= buffer_limit(),
                info.len() == 24,
                buffer_bytes(buf) == info + reports_bytes(self.reports@.take(i as int)),
            decreases self.reports.len() - i,
        {
            let report = &self.reports[i];
            proof {
                lemma_reports_bytes_len(self.reports@.take(i as int));
            }
            buffer_put(&mut buf, report.serialize());
            proof {
                let rs = self.reports@.take(i as int + 1);
                assert(rs.drop_last() =~= self.reports@.take(i as int));
                assert(rs.last() == *report);
            }
            i = i + 1;
        }
        assert(self.reports@.take(self.reports.len() as int) =~= self.reports@);
        buf
    }

    /// Reads a report with `report_counts` reception report blocks from the
    /// front of `packet`, which loses the bytes read.
    pub fn deserialize(packet: &mut BytesMut, report_counts: u8) -> (sr: Self)
        requires
            buffer_bytes(*old(packet)).len() >= 24 + 24 * report_counts,
        ensures
            is_sender_report_of(sr, buffer_bytes(*old(packet)), report_counts as nat),
            buffer_bytes(*final(packet)) == buffer_bytes(*old(packet)).skip(
                24 + 24 * report_counts,
            ),
    {
        let ghost s = buffer_bytes(*packet);
        let ssrc = buffer_get_u32(packet);
        assert(buffer_bytes(*packet) =~= s.skip(4));
        let ntp_time = buffer_get_u64(packet);
        assert(buffer_bytes(*packet) =~= s.skip(12));
        let rtp_time = buffer_get_u32(packet);
        assert(buffer_bytes(*packet) =~= s.skip(16));
        let packet_count = buffer_get_u32(packet);
        assert(buffer_bytes(*packet) =~= s.skip(20));
        let octet_count = buffer_get_u32(packet);
        assert(buffer_bytes(*packet) =~= s.skip(24));

        let mut reports: Vec<ReceptionReport> = Vec::with_capacity(report_counts as usize);
        let mut i: u8 = 0;
        while i < report_counts
            invariant
                i <= report_counts,
                s.len() >= 24 + 24 * report_counts,
                buffer_bytes(*packet) == s.skip(24 + 24 * i),
                reports@ == parse_reports(s.skip(24), i as nat),
            decreases report_counts - i,
        {
            let ghost before = buffer_bytes(*packet);
            let reception_report = ReceptionReport::deserialize(packet);
            proof {
                assert(before =~= s.skip(24).skip(24 * i));
                assert(buffer_bytes(*packet) =~= s.skip(24 + 24 * (i + 1)));
            }
            reports.push(reception_report);
            i = i + 1;
            assert(reports@ =~= parse_reports(s.skip(24), i as nat));
        }

        SenderReport { ssrc, ntp_time, rtp_time, packet_count, octet_count, reports }
    }

    /// `24 + 24 * n` for a report with `n` blocks, kept in 16 bits: the block
    /// bytes `24 * n` are cut to their low 16 bits before the sender
    /// information is added. Inputs on which the addition overflows are left
    /// out.
    pub fn length(&self) -> (len: u16)
        requires
            self.reports.len() * 24 <= usize::MAX,
            24 + (self.reports.len() * 24) % 0x1_0000 <= u16::MAX,
        ensures
            len == 24 + (self.reports.len() * 24) % 0x1_0000,
    {
        let blocks: usize = self.reports.len() * 24;
        let cut = blocks as u16;
        assert(cut == blocks % 0x1_0000) by {
            assert((blocks as u16) == blocks % 0x1_0000) by (bit_vector);
        }
        24 + cut
    }
}

} // verus!
