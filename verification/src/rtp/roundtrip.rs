//! What reading gives back of writing, and writing of reading, for the RTCP
//! wire formats of `rtcp`.
use crate::buffer::{
    be16, be32, be64, lemma_be16_read, lemma_be16_write, lemma_be32_read, lemma_be32_write,
    lemma_be64_read, lemma_be64_write,
};
use crate::rtp::rtcp::{
    be24, be24_at, header_bytes, header_first_byte, is_sender_report_of, lemma_reports_bytes_len,
    packet_type_byte, packet_type_of, parse_header, parse_reception_report, parse_reports,
    reception_report_bytes, reports_bytes, sender_report_bytes, PacketType, RTCPHeader,
    ReceptionReport, SenderReport,
};
use vstd::prelude::*;

verus! {

/// The type bytes that name a packet type and are written for it.
pub open spec fn is_known_type_byte(b: u8) -> bool {
    b == 0 || b == 200 || b == 202 || b == 203
}

/// Every packet type is read back from the byte written for it; a byte is
/// written back as itself exactly when it is one of the four known type
/// bytes (every other byte reads as `Unsupported`, which is written as 0).
pub proof fn lemma_packet_type_roundtrip(t: PacketType, b: u8)
    ensures
        packet_type_of(packet_type_byte(t)) == t,
        packet_type_byte(packet_type_of(b)) == b <==> is_known_type_byte(b),
{
}

/// Each known packet type is named by exactly one byte: 200 for a sender
/// report, 202 for a source description, 203 for a goodbye; every other byte
/// (such as 201, a receiver report, or 204, an application packet) reads as
/// `Unsupported`.
pub proof fn lemma_packet_type_bytes(b: u8)
    ensures
        packet_type_of(b) == PacketType::SenderReport <==> b == 200,
        packet_type_of(b) == PacketType::SourceDescription <==> b == 202,
        packet_type_of(b) == PacketType::Goodbye <==> b == 203,
        packet_type_of(b) == PacketType::Unsupported <==> (b != 200 && b != 202 && b != 203),
        packet_type_byte(PacketType::Unsupported) == 0,
{
}

/// The header read from any four or more bytes, whatever its version bits
/// and type byte: the padding flag is bit 5 of the first byte, the count its
/// low five bits, the type is the one the second byte names, and the length
/// is the big-endian number in the third and fourth bytes.
pub proof fn lemma_parse_header_fields(s: Seq<u8>)
    requires
        s.len() >= 4,
    ensures
        parse_header(s).padding == (s[0] & 0x20u8 == 0x20u8),
        parse_header(s).count == s[0] & 0x1fu8,
        parse_header(s).packet_type == PacketType::SenderReport <==> s[1] == 200,
        parse_header(s).packet_type == PacketType::SourceDescription <==> s[1] == 202,
        parse_header(s).packet_type == PacketType::Goodbye <==> s[1] == 203,
        parse_header(s).packet_type == PacketType::Unsupported <==> (s[1] != 200 && s[1] != 202
            && s[1] != 203),
        parse_header(s).length == s[2] * 0x100 + s[3],
{
    let b = s[0];
    assert(((b / 32) % 2 == 1) == (b & 0x20u8 == 0x20u8)) by (bit_vector);
    assert(b % 32 == b & 0x1fu8) by (bit_vector);
    lemma_packet_type_bytes(s[1]);
}

proof fn lemma_first_byte_fields(padding: bool, count: u8)
    requires
        count < 32,
    ensures
        header_first_byte(padding, count) / 64 == 2,
        (header_first_byte(padding, count) / 32) % 2 == (if padding { 1int } else { 0int }),
        header_first_byte(padding, count) % 32 == count,
{
    if padding {
        assert((0x80u8 | 0x20u8 | count) / 64 == 2 && ((0x80u8 | 0x20u8 | count) / 32) % 2 == 1
            && (0x80u8 | 0x20u8 | count) % 32 == count) by (bit_vector)
            requires
                count < 32,
        ;
    } else {
        assert((0x80u8 | 0u8 | count) / 64 == 2 && ((0x80u8 | 0u8 | count) / 32) % 2 == 0 && (
        0x80u8 | 0u8 | count) % 32 == count) by (bit_vector)
            requires
                count < 32,
        ;
    }
}

/// The byte sizes of the written forms: 4 for a header, 24 for a reception
/// report block, and 24 plus 24 per block for a sender report.
pub proof fn lemma_written_sizes(h: RTCPHeader, r: ReceptionReport, sr: SenderReport)
    ensures
        header_bytes(h).len() == 4,
        reception_report_bytes(r).len() == 24,
        sender_report_bytes(sr).len() == 24 + 24 * sr.reports.len(),
{
    lemma_reports_bytes_len(sr.reports@);
}

/// A header whose count fits its five bits is read back unchanged from its
/// written form, whatever follows it; the written form carries version 2.
pub proof fn lemma_header_roundtrip(h: RTCPHeader, rest: Seq<u8>)
    requires
        h.count < 32,
    ensures
        parse_header(header_bytes(h) + rest) == h,
        (header_bytes(h) + rest)[0] / 64 == 2,
{
    let s = header_bytes(h) + rest;
    lemma_first_byte_fields(h.padding, h.count);
    assert(s[0] == header_first_byte(h.padding, h.count));
    assert(s[1] == packet_type_byte(h.packet_type));
    assert(s.subrange(2, 4) =~= be16(h.length));
    lemma_be16_read(s, 2, h.length);
    lemma_packet_type_roundtrip(h.packet_type, s[1]);
}

/// Four bytes that carry version 2 and a known type byte are written back
/// unchanged from the header read from them.
pub proof fn lemma_header_rewrite(s: Seq<u8>)
    requires
        s.len() >= 4,
        s[0] / 64 == 2,
        is_known_type_byte(s[1]),
    ensures
        header_bytes(parse_header(s)) == s.take(4),
{
    let b = s[0];
    let h = parse_header(s);
    assert((0x80u8 | (if (b / 32) % 2 == 1 { 0x20u8 } else { 0u8 }) | (b % 32)) == b)
        by (bit_vector)
        requires
            b / 64 == 2,
    ;
    assert(header_first_byte(h.padding, h.count) == b);
    lemma_packet_type_roundtrip(h.packet_type, s[1]);
    lemma_be16_write(s, 2);
    assert(header_bytes(h) =~= s.take(4));
}

proof fn lemma_be24_roundtrip(v: u32)
    requires
        v < 0x100_0000,
    ensures
        (v / 0x1_0000 % 0x100) as u8 * 0x1_0000 + (v / 0x100 % 0x100) as u8 * 0x100 + (v
            % 0x100) as u8 == v,
{
    assert((v / 0x1_0000 % 0x100) * 0x1_0000 + (v / 0x100 % 0x100) * 0x100 + (v % 0x100) == v)
        by (nonlinear_arith)
        requires
            v < 0x100_0000,
    ;
}

/// A reception report block whose cumulative loss fits its 24 bits is read
/// back unchanged from its written form, whatever follows it.
pub proof fn lemma_reception_report_roundtrip(r: ReceptionReport, rest: Seq<u8>)
    requires
        r.total_lost < 0x100_0000,
    ensures
        parse_reception_report(reception_report_bytes(r) + rest) == r,
{
    let s = reception_report_bytes(r) + rest;
    assert(s.subrange(0, 4) =~= be32(r.reportee_ssrc));
    lemma_be32_read(s, 0, r.reportee_ssrc);
    assert(s[4] == r.fraction_lost);
    assert(s[5] == be24(r.total_lost)[0]);
    assert(s[6] == be24(r.total_lost)[1]);
    assert(s[7] == be24(r.total_lost)[2]);
    lemma_be24_roundtrip(r.total_lost);
    assert(be24_at(s, 5) == r.total_lost);
    assert(s.subrange(8, 12) =~= be32(r.extended_sequence_number));
    lemma_be32_read(s, 8, r.extended_sequence_number);
    assert(s.subrange(12, 16) =~= be32(r.jitter));
    lemma_be32_read(s, 12, r.jitter);
    assert(s.subrange(16, 20) =~= be32(r.last_sr_timestamp));
    lemma_be32_read(s, 16, r.last_sr_timestamp);
    assert(s.subrange(20, 24) =~= be32(r.delay_since_last_sr));
    lemma_be32_read(s, 20, r.delay_since_last_sr);
}

/// Any 24 bytes are written back unchanged from the reception report block
/// read from them.
pub proof fn lemma_reception_report_rewrite(s: Seq<u8>)
    requires
        s.len() >= 24,
    ensures
        reception_report_bytes(parse_reception_report(s)) == s.take(24),
{
    let r = parse_reception_report(s);
    lemma_be32_write(s, 0);
    lemma_be32_write(s, 8);
    lemma_be32_write(s, 12);
    lemma_be32_write(s, 16);
    lemma_be32_write(s, 20);
    let a = s[5];
    let b = s[6];
    let c = s[7];
    let v = be24_at(s, 5);
    assert(v / 0x1_0000 % 0x100 == a && v / 0x100 % 0x100 == b && v % 0x100 == c && v
        < 0x100_0000) by (nonlinear_arith)
        requires
            v == a * 0x1_0000 + b * 0x100 + c,
            0 <= a < 0x100,
            0 <= b < 0x100,
            0 <= c < 0x100,
    ;
    assert(be24(r.total_lost) =~= s.subrange(5, 8));
    assert(reception_report_bytes(r) =~= s.take(24));
}

/// Block `i` of a run of reception report blocks takes bytes `24 * i` up to
/// `24 * i + 24` of the run's written form.
pub proof fn lemma_reports_bytes_block(rs: Seq<ReceptionReport>, i: int)
    requires
        0 <= i < rs.len(),
    ensures
        reports_bytes(rs).len() == 24 * rs.len(),
        reports_bytes(rs).subrange(24 * i, 24 * i + 24) == reception_report_bytes(rs[i]),
    decreases rs.len(),
{
    lemma_reports_bytes_len(rs);
    let front = rs.drop_last();
    lemma_reports_bytes_len(front);
    let last = reception_report_bytes(rs.last());
    assert(last.len() == 24);
    assert(reports_bytes(rs) == reports_bytes(front) + last);
    if i == rs.len() - 1 {
        assert(reports_bytes(rs).subrange(24 * i, 24 * i + 24) =~= last);
    } else {
        lemma_reports_bytes_block(front, i);
        assert(reports_bytes(rs).subrange(24 * i, 24 * i + 24) =~= reports_bytes(front).subrange(
            24 * i,
            24 * i + 24,
        ));
    }
}

/// The reception report blocks are read back unchanged from their written
/// form, whatever follows, when each cumulative loss fits its 24 bits.
pub proof fn lemma_reports_roundtrip(rs: Seq<ReceptionReport>, rest: Seq<u8>)
    requires
        forall|i: int| 0 <= i < rs.len() ==> #[trigger] rs[i].total_lost < 0x100_0000,
    ensures
        parse_reports(reports_bytes(rs) + rest, rs.len()) == rs,
{
    let s = reports_bytes(rs) + rest;
    lemma_reports_bytes_len(rs);
    assert forall|i: int| 0 <= i < rs.len() implies parse_reception_report(s.skip(24 * i))
        == rs[i] by {
        lemma_reports_bytes_block(rs, i);
        let t = s.skip(24 * i);
        let block = reception_report_bytes(rs[i]);
        assert(block.len() == 24);
        assert forall|j: int| 0 <= j < 24 implies t[j] == block[j] by {
            assert(t[j] == s[24 * i + j]);
            assert(s[24 * i + j] == reports_bytes(rs)[24 * i + j]);
            assert(reports_bytes(rs)[24 * i + j] == reports_bytes(rs).subrange(
                24 * i,
                24 * i + 24,
            )[j]);
        }
        assert(t =~= block + t.skip(24));
        lemma_reception_report_roundtrip(rs[i], t.skip(24));
    }
    assert(parse_reports(s, rs.len()) =~= rs);
}

/// A sender report is read back unchanged from its written form, whatever
/// follows it, when each block's cumulative loss fits its 24 bits.
pub proof fn lemma_sender_report_roundtrip(sr: SenderReport, rest: Seq<u8>)
    requires
        forall|i: int|
            0 <= i < sr.reports.len() ==> #[trigger] sr.reports@[i].total_lost < 0x100_0000,
    ensures
        is_sender_report_of(sr, sender_report_bytes(sr) + rest, sr.reports.len() as nat),
{
    let s = sender_report_bytes(sr) + rest;
    let rs = sr.reports@;
    lemma_reports_bytes_len(rs);
    assert(s.subrange(0, 4) =~= be32(sr.ssrc));
    lemma_be32_read(s, 0, sr.ssrc);
    assert(s.subrange(4, 12) =~= be64(sr.ntp_time));
    lemma_be64_read(s, 4, sr.ntp_time);
    assert(s.subrange(12, 16) =~= be32(sr.rtp_time));
    lemma_be32_read(s, 12, sr.rtp_time);
    assert(s.subrange(16, 20) =~= be32(sr.packet_count));
    lemma_be32_read(s, 16, sr.packet_count);
    assert(s.subrange(20, 24) =~= be32(sr.octet_count));
    lemma_be32_read(s, 20, sr.octet_count);
    assert(s.skip(24) =~= reports_bytes(rs) + rest);
    lemma_reports_roundtrip(rs, rest);
}

/// The length a sender report gives, `24 + 24 * n` cut to 16 bits, is the
/// number of bytes it is written as whenever that number fits 16 bits.
pub proof fn lemma_length_is_written_size(sr: SenderReport)
    requires
        24 + 24 * sr.reports.len() <= u16::MAX,
    ensures
        24 + (sr.reports.len() * 24) % 0x1_0000 == sender_report_bytes(sr).len(),
{
    lemma_reports_bytes_len(sr.reports@);
}

/// Any `24 * n` bytes are written back unchanged from the `n` reception
/// report blocks read from them.
pub proof fn lemma_reports_rewrite(s: Seq<u8>, n: nat)
    requires
        s.len() >= 24 * n,
    ensures
        reports_bytes(parse_reports(s, n)) == s.take(24 * n as int),
    decreases n,
{
    if n > 0 {
        let m = (n - 1) as nat;
        let rs = parse_reports(s, n);
        assert(rs.drop_last() =~= parse_reports(s, m));
        lemma_reports_rewrite(s, m);
        lemma_reception_report_rewrite(s.skip(24 * m as int));
        assert(s.take(24 * n as int) =~= s.take(24 * m as int) + s.skip(24 * m as int).take(24));
    }
}

/// A sender report read from some bytes is written back as exactly the bytes
/// it was read from.
pub proof fn lemma_sender_report_rewrite(sr: SenderReport, s: Seq<u8>)
    requires
        s.len() >= 24 + 24 * sr.reports.len(),
        is_sender_report_of(sr, s, sr.reports.len() as nat),
    ensures
        sender_report_bytes(sr) == s.take(24 + 24 * sr.reports.len() as int),
{
    let n = sr.reports.len() as nat;
    lemma_be32_write(s, 0);
    lemma_be64_write(s, 4);
    lemma_be32_write(s, 12);
    lemma_be32_write(s, 16);
    lemma_be32_write(s, 20);
    lemma_reports_rewrite(s.skip(24), n);
    assert(sender_report_bytes(sr) =~= s.take(24 + 24 * n as int));
}

/// The first byte written for a header is the count or-ed into the byte
/// written for the same header with count 0, which is 0x80 without padding
/// and 0xA0 with it; the second byte is the type byte and the last two hold
/// the length, most significant first.
pub proof fn lemma_header_bytes_fields(h: RTCPHeader)
    ensures
        header_bytes(h)[0] == header_bytes(RTCPHeader { count: 0, ..h })[0] | h.count,
        header_bytes(RTCPHeader { count: 0, ..h })[0] == (if h.padding {
            0xA0u8
        } else {
            0x80u8
        }),
        header_bytes(h)[1] == packet_type_byte(h.packet_type),
        header_bytes(h)[2] * 0x100 + header_bytes(h)[3] == h.length,
{
    let z = RTCPHeader { count: 0, ..h };
    let c = h.count;
    assert((0x80u8 | 0x20u8 | c) == ((0x80u8 | 0x20u8 | 0u8) | c) && (0x80u8 | 0x20u8 | 0u8)
        == 0xA0u8) by (bit_vector);
    assert((0x80u8 | 0u8 | c) == ((0x80u8 | 0u8 | 0u8) | c) && (0x80u8 | 0u8 | 0u8) == 0x80u8)
        by (bit_vector);
    assert(header_bytes(h).subrange(2, 4) =~= be16(h.length));
    lemma_be16_read(header_bytes(h), 2, h.length);
}

/// The block read from any 24 or more bytes: the reportee SSRC is bytes 0 to
/// 4, the fraction lost byte 4, the cumulative loss bytes 5 to 8, then the
/// extended highest sequence number, jitter, last SR and delay since last SR
/// in bytes 8 to 24, four bytes each, all most significant first.
pub proof fn lemma_parse_reception_report_fields(s: Seq<u8>)
    requires
        s.len() >= 24,
    ensures
        parse_reception_report(s).reportee_ssrc == s[0] * 0x100_0000 + s[1] * 0x1_0000 + s[2]
            * 0x100 + s[3],
        parse_reception_report(s).fraction_lost == s[4],
        parse_reception_report(s).total_lost == s[5] * 0x1_0000 + s[6] * 0x100 + s[7],
        parse_reception_report(s).extended_sequence_number == s[8] * 0x100_0000 + s[9]
            * 0x1_0000 + s[10] * 0x100 + s[11],
        parse_reception_report(s).jitter == s[12] * 0x100_0000 + s[13] * 0x1_0000 + s[14]
            * 0x100 + s[15],
        parse_reception_report(s).last_sr_timestamp == s[16] * 0x100_0000 + s[17] * 0x1_0000
            + s[18] * 0x100 + s[19],
        parse_reception_report(s).delay_since_last_sr == s[20] * 0x100_0000 + s[21] * 0x1_0000
            + s[22] * 0x100 + s[23],
{
    lemma_be32_write(s, 0);
    lemma_be32_write(s, 8);
    lemma_be32_write(s, 12);
    lemma_be32_write(s, 16);
    lemma_be32_write(s, 20);
}

/// A block is written the same whatever the bits of its cumulative loss
/// above the low 24.
pub proof fn lemma_reception_report_loss_cut(r: ReceptionReport)
    ensures
        reception_report_bytes(r) == reception_report_bytes(
            ReceptionReport { total_lost: (r.total_lost % 0x100_0000) as u32, ..r },
        ),
{
    let v = r.total_lost;
    let w = (v % 0x100_0000) as u32;
    assert(v / 0x1_0000 % 0x100 == w / 0x1_0000 % 0x100 && v / 0x100 % 0x100 == w / 0x100
        % 0x100 && v % 0x100 == w % 0x100) by (nonlinear_arith)
        requires
            w == v % 0x100_0000,
    ;
    assert(be24(v) =~= be24(w));
}

/// The sender report read from bytes: the SSRC is bytes 0 to 4, the NTP time
/// bytes 4 to 12, the RTP time bytes 12 to 16, the packet count bytes 16 to
/// 20 and the octet count bytes 20 to 24, all most significant first; block
/// `i` is read from the 24 bytes starting at `24 + 24 * i`.
pub proof fn lemma_sender_report_fields(sr: SenderReport, s: Seq<u8>, n: nat)
    requires
        s.len() >= 24 + 24 * n,
        is_sender_report_of(sr, s, n),
    ensures
        sr.ssrc == s[0] * 0x100_0000 + s[1] * 0x1_0000 + s[2] * 0x100 + s[3],
        sr.ntp_time == (s[4] * 0x100_0000 + s[5] * 0x1_0000 + s[6] * 0x100 + s[7])
            * 0x1_0000_0000 + (s[8] * 0x100_0000 + s[9] * 0x1_0000 + s[10] * 0x100 + s[11]),
        sr.rtp_time == s[12] * 0x100_0000 + s[13] * 0x1_0000 + s[14] * 0x100 + s[15],
        sr.packet_count == s[16] * 0x100_0000 + s[17] * 0x1_0000 + s[18] * 0x100 + s[19],
        sr.octet_count == s[20] * 0x100_0000 + s[21] * 0x1_0000 + s[22] * 0x100 + s[23],
        sr.reports.len() == n,
        forall|i: int|
            0 <= i < n ==> #[trigger] sr.reports@[i] == parse_reception_report(
                s.subrange(24 + 24 * i, 24 + 24 * i + 24),
            ),
{
    assert forall|i: int| 0 <= i < n implies #[trigger] sr.reports@[i] == parse_reception_report(
        s.subrange(24 + 24 * i, 24 + 24 * i + 24),
    ) by {
        let a = s.skip(24).skip(24 * i);
        let b = s.subrange(24 + 24 * i, 24 + 24 * i + 24);
        lemma_parse_reception_report_fields(a);
        lemma_parse_reception_report_fields(b);
        assert(forall|j: int| 0 <= j < 24 ==> a[j] == b[j]);
        assert(parse_reception_report(a) == parse_reception_report(b));
    }
}

} // verus!
