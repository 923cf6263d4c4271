//! What a media receiver computes from what arrives: the sender timing that
//! the sender reports of an RTCP datagram carry, and the one-way delay of an
//! RTP packet measured against the latest sender report.
use crate::buffer::{
    be32, be32_at, be64, be64_at, buffer_bytes, buffer_len, lemma_be32_read, lemma_be64_read,
};
use crate::rtp::roundtrip::{
    lemma_header_roundtrip, lemma_packet_type_bytes, lemma_parse_header_fields,
};
use crate::rtp::rtcp::{
    header_bytes, lemma_reports_bytes_len, parse_header, sender_report_bytes, PacketType,
    RTCPHeader, SenderReport,
};
use bytes::BytesMut;
use vstd::prelude::*;

verus! {

/// The outcome of reading an RTCP datagram packet by packet from its start.
///
/// `timings` holds, in order, the NTP time and RTP time of every sender
/// report met; `complete` says whether the datagram was read to its end
/// (it is not when a header or a sender report is cut short); `rest` is what
/// was left unread.
pub struct CompoundScan {
    pub timings: Seq<(u64, u32)>,
    pub complete: bool,
    pub rest: Seq<u8>,
}

/// Reads `s` as RTCP packets one after the other. Each round reads a 4-byte
/// header; after a sender report header it reads the sender information and
/// `count` reception report blocks; after any other header it reads nothing
/// more, so the next header is read from the bytes that follow the header.
pub open spec fn scan_compound(s: Seq<u8>) -> CompoundScan
    decreases s.len(),
{
    if s.len() == 0 {
        CompoundScan { timings: Seq::empty(), complete: true, rest: s }
    } else if s.len() < 4 {
        CompoundScan { timings: Seq::empty(), complete: false, rest: s }
    } else {
        let h = parse_header(s);
        let body = s.skip(4);
        if h.packet_type == PacketType::SenderReport {
            let n = 24 + 24 * h.count;
            if body.len() < n {
                CompoundScan { timings: Seq::empty(), complete: false, rest: body }
            } else {
                let after = scan_compound(body.skip(n));
                CompoundScan {
                    timings: seq![(be64_at(body, 4) as u64, be32_at(body, 12) as u32)]
                        + after.timings,
                    complete: after.complete,
                    rest: after.rest,
                }
            }
        } else {
            scan_compound(body)
        }
    }
}

/// A sender report written after its header (its count being its number of
/// blocks) is read as one packet: its NTP and RTP times come first, and the
/// bytes after it are read as they would be on their own.
pub proof fn lemma_scan_sender_report(h: RTCPHeader, sr: SenderReport, rest: Seq<u8>)
    requires
        h.packet_type == PacketType::SenderReport,
        h.count < 32,
        h.count == sr.reports.len(),
    ensures
        scan_compound(header_bytes(h) + sender_report_bytes(sr) + rest).timings == seq![
            (sr.ntp_time, sr.rtp_time),
        ] + scan_compound(rest).timings,
        scan_compound(header_bytes(h) + sender_report_bytes(sr) + rest).complete
            == scan_compound(rest).complete,
        scan_compound(header_bytes(h) + sender_report_bytes(sr) + rest).rest == scan_compound(
            rest,
        ).rest,
{
    let report = sender_report_bytes(sr);
    let s = header_bytes(h) + report + rest;
    assert(s =~= header_bytes(h) + (report + rest));
    lemma_header_roundtrip(h, report + rest);
    lemma_reports_bytes_len(sr.reports@);
    let body = s.skip(4);
    assert(body =~= report + rest);
    assert(body.subrange(4, 12) =~= be64(sr.ntp_time));
    lemma_be64_read(body, 4, sr.ntp_time);
    assert(body.subrange(12, 16) =~= be32(sr.rtp_time));
    lemma_be32_read(body, 12, sr.rtp_time);
    assert(body.skip(24 + 24 * h.count) =~= rest);
}

/// A header of any other type is read on its own: the bytes after it are
/// read as the next header, as they would be on their own.
pub proof fn lemma_scan_other_packet(h: RTCPHeader, rest: Seq<u8>)
    requires
        h.packet_type != PacketType::SenderReport,
        h.count < 32,
    ensures
        scan_compound(header_bytes(h) + rest) == scan_compound(rest),
{
    let s = header_bytes(h) + rest;
    lemma_header_roundtrip(h, rest);
    assert(s.skip(4) =~= rest);
}

/// An empty datagram is read to its end with no sender report; one of one
/// to three bytes holds no whole header and is left unread.
pub proof fn lemma_scan_short(s: Seq<u8>)
    requires
        s.len() < 4,
    ensures
        scan_compound(s).timings == Seq::<(u64, u32)>::empty(),
        scan_compound(s).complete == (s.len() == 0),
        scan_compound(s).rest == s,
{
}

/// A header whose type byte is not 200 starts no sender report, whatever its
/// version bits and other fields: its four bytes are read and reading goes
/// on with the bytes after them.
pub proof fn lemma_scan_not_sender_report(s: Seq<u8>)
    requires
        s.len() >= 4,
        s[1] != 200,
    ensures
        scan_compound(s) == scan_compound(s.skip(4)),
{
    lemma_packet_type_bytes(s[1]);
}

/// A header with type byte 200 and count `c` (the low five bits of its first
/// byte) is followed by 24 bytes of sender information and `c` blocks of 24
/// bytes. When they are all there, the NTP time (bytes 8 to 16) and the RTP
/// time (bytes 16 to 20) come first, and reading goes on after the blocks;
/// when they are not, reading stops right after the header.
pub proof fn lemma_scan_sender_report_bytes(s: Seq<u8>)
    requires
        s.len() >= 4,
        s[1] == 200,
    ensures
        ({
            let end = 4 + 24 + 24 * (s[0] & 0x1fu8);
            if s.len() < end {
                &&& scan_compound(s).timings == Seq::<(u64, u32)>::empty()
                &&& !scan_compound(s).complete
                &&& scan_compound(s).rest == s.skip(4)
            } else {
                &&& scan_compound(s).timings == seq![
                    (
                        (s[8] * 0x100_0000_0000_0000 + s[9] * 0x1_0000_0000_0000 + s[10]
                            * 0x100_0000_0000 + s[11] * 0x1_0000_0000 + s[12] * 0x100_0000
                            + s[13] * 0x1_0000 + s[14] * 0x100 + s[15]) as u64,
                        (s[16] * 0x100_0000 + s[17] * 0x1_0000 + s[18] * 0x100 + s[19]) as u32,
                    ),
                ] + scan_compound(s.skip(end)).timings
                &&& scan_compound(s).complete == scan_compound(s.skip(end)).complete
                &&& scan_compound(s).rest == scan_compound(s.skip(end)).rest
            }
        }),
{
    lemma_parse_header_fields(s);
    let c = s[0] & 0x1fu8;
    let end = 4 + 24 + 24 * c;
    let body = s.skip(4);
    if s.len() >= end {
        assert(body.skip(24 + 24 * c) =~= s.skip(end));
        assert(be64_at(body, 4) == s[8] * 0x100_0000_0000_0000 + s[9] * 0x1_0000_0000_0000
            + s[10] * 0x100_0000_0000 + s[11] * 0x1_0000_0000 + s[12] * 0x100_0000 + s[13]
            * 0x1_0000 + s[14] * 0x100 + s[15]);
    }
}

/// Reads the RTCP datagram in `packet` packet by packet and returns the
/// (NTP time, RTP time) of each sender report met, in order, and whether the
/// datagram was read to its end. Reading stops where a header or a sender
/// report is cut short; `packet` keeps what was left unread.
pub fn sender_report_timings(packet: &mut BytesMut) -> (r: (Vec<(u64, u32)>, bool))
    ensures
        r.0@ == scan_compound(buffer_bytes(*old(packet))).timings,
        r.1 == scan_compound(buffer_bytes(*old(packet))).complete,
        buffer_bytes(*final(packet)) == scan_compound(buffer_bytes(*old(packet))).rest,
{
    let ghost whole = scan_compound(buffer_bytes(*packet));
    let mut timings: Vec<(u64, u32)> = Vec::new();
    loop
        invariant
            whole == scan_compound(buffer_bytes(*old(packet))),
            timings@ + scan_compound(buffer_bytes(*packet)).timings == whole.timings,
            scan_compound(buffer_bytes(*packet)).complete == whole.complete,
            scan_compound(buffer_bytes(*packet)).rest == whole.rest,
        decreases buffer_bytes(*packet).len(),
    {
        let ghost s = buffer_bytes(*packet);
        let len = buffer_len(packet);
        if len == 0 {
            assert(timings@ =~= whole.timings);
            return (timings, true);
        }
        if len < 4 {
            assert(timings@ =~= whole.timings);
            return (timings, false);
        }
        let header = RTCPHeader::deserialize(packet);
        match header.packet_type {
            PacketType::SenderReport => {
                let remaining = buffer_len(packet);
                let count = header.count;
                if remaining < 24 + 24 * (count as usize) {
                    assert(timings@ =~= whole.timings);
                    return (timings, false);
                }
                let sender_report = SenderReport::deserialize(packet, count);
                let ghost before = timings@;
                timings.push((sender_report.ntp_time, sender_report.rtp_time));
                assert(timings@ + scan_compound(buffer_bytes(*packet)).timings =~= before
                    + scan_compound(s).timings);
            },
            _ => {},
        }
    }
}

/// Seconds from the NTP epoch (1900) to the Unix epoch (1970).
pub const NTP_TO_UNIX_EPOCH_SECS: u64 = 2_208_988_800;

/// When the sender sent an RTP packet, in nanoseconds since the Unix epoch:
/// the wall-clock time of the last sender report plus the RTP clock ticks
/// between that report and the packet (counted modulo 2^32), turned into
/// nanoseconds at `media_clock_rate` ticks per second. Every division rounds
/// down.
pub open spec fn packet_send_time_ns(
    media_clock_rate: u32,
    rtp_timestamp: u32,
    rtcp_sender_ntp: u64,
    rtcp_sender_timestamp: u32,
) -> int {
    let unit_difference = (rtp_timestamp - rtcp_sender_timestamp) % 0x1_0000_0000;
    let delta_ns = unit_difference * 1_000_000_000 / (media_clock_rate as int);
    let ntp_secs = rtcp_sender_ntp / 0x1_0000_0000;
    let ntp_frac = rtcp_sender_ntp % 0x1_0000_0000;
    let ntp_frac_ns = ntp_frac * 1_000_000_000 / 0x1_0000_0000;
    (ntp_secs - NTP_TO_UNIX_EPOCH_SECS) * 1_000_000_000 + ntp_frac_ns + delta_ns
}

/// The one-way delay of an RTP packet in nanoseconds: its arrival time (the
/// low 64 bits of `arrival_nanos`) minus the time it was sent, or 0 when it
/// seems to have arrived before it was sent.
pub open spec fn delay_ns(
    arrival_nanos: u128,
    media_clock_rate: u32,
    rtp_timestamp: u32,
    rtcp_sender_ntp: u64,
    rtcp_sender_timestamp: u32,
) -> int {
    let arrival = arrival_nanos % 0x1_0000_0000_0000_0000;
    let sent = packet_send_time_ns(
        media_clock_rate,
        rtp_timestamp,
        rtcp_sender_ntp,
        rtcp_sender_timestamp,
    );
    if arrival >= sent {
        arrival - sent
    } else {
        0
    }
}

/// The one-way delay of the RTP packet with timestamp `rtp_timestamp` that
/// arrived `arrival_nanos` nanoseconds after the Unix epoch, measured against
/// the last sender report (NTP time `rtcp_sender_ntp`, RTP time
/// `rtcp_sender_timestamp`).
pub fn calculate_delay(
    arrival_nanos: u128,
    media_clock_rate: u32,
    rtp_timestamp: u32,
    rtcp_sender_ntp: u64,
    rtcp_sender_timestamp: u32,
) -> (delay: u64)
    requires
        media_clock_rate > 0,
        rtcp_sender_ntp / 0x1_0000_0000 >= NTP_TO_UNIX_EPOCH_SECS,
    ensures
        delay == delay_ns(
            arrival_nanos,
            media_clock_rate,
            rtp_timestamp,
            rtcp_sender_ntp,
            rtcp_sender_timestamp,
        ),
{
    // mostly from:
    // https://eceweb1.rutgers.edu/~marsic/books/CN/projects/wireshark/ws-project-4.html

    let unit_difference = rtp_timestamp.wrapping_sub(rtcp_sender_timestamp);
    assert(unit_difference == (rtp_timestamp - rtcp_sender_timestamp) % 0x1_0000_0000);
    let scaled: u64 = unit_difference as u64 * 1_000_000_000;
    let delta_ns = scaled / media_clock_rate as u64;
    assert(delta_ns <= scaled) by (nonlinear_arith)
        requires
            delta_ns == scaled / media_clock_rate as u64,
            media_clock_rate > 0,
    ;

    let ntp_secs = (rtcp_sender_ntp >> 32u64) as u64;
    let ntp_frac = (rtcp_sender_ntp & 0xFFFFFFFFu64) as u64;
    assert(ntp_secs == rtcp_sender_ntp / 0x1_0000_0000 && ntp_frac == rtcp_sender_ntp
        % 0x1_0000_0000) by {
        assert((rtcp_sender_ntp >> 32u64) == rtcp_sender_ntp / 0x1_0000_0000) by (bit_vector);
        assert((rtcp_sender_ntp & 0xFFFFFFFFu64) == rtcp_sender_ntp % 0x1_0000_0000)
            by (bit_vector);
    }

    let frac_scaled: u64 = ntp_frac * 1_000_000_000;
    let ntp_frac_ns = frac_scaled >> 32u64;
    assert(ntp_frac_ns == frac_scaled / 0x1_0000_0000) by {
        assert((frac_scaled >> 32u64) == frac_scaled / 0x1_0000_0000) by (bit_vector);
    }

    let packet_send_time = ((ntp_secs - NTP_TO_UNIX_EPOCH_SECS) * 1_000_000_000) + ntp_frac_ns
        + delta_ns;

    let arrival_ns = arrival_nanos as u64;
    assert(arrival_ns == arrival_nanos % 0x1_0000_0000_0000_0000) by {
        assert((arrival_nanos as u64) == arrival_nanos % 0x1_0000_0000_0000_0000)
            by (bit_vector);
    }
    let delay_ns = arrival_ns.saturating_sub(packet_send_time);

    delay_ns
}

/// At the moment of the sender report (no RTP ticks since it), a packet is
/// sent at the report's NTP time taken from the Unix epoch: whole seconds,
/// plus the 32-bit NTP fraction of a second in nanoseconds rounded down, so
/// within the report's second.
pub proof fn lemma_send_time_at_report(media_clock_rate: u32, rtcp_sender_ntp: u64, t: u32)
    requires
        media_clock_rate > 0,
    ensures
        packet_send_time_ns(media_clock_rate, t, rtcp_sender_ntp, t) == (rtcp_sender_ntp
            / 0x1_0000_0000 - NTP_TO_UNIX_EPOCH_SECS) * 1_000_000_000 + (rtcp_sender_ntp
            % 0x1_0000_0000) * 1_000_000_000 / 0x1_0000_0000,
        (rtcp_sender_ntp / 0x1_0000_0000 - NTP_TO_UNIX_EPOCH_SECS) * 1_000_000_000
            <= packet_send_time_ns(media_clock_rate, t, rtcp_sender_ntp, t) < (rtcp_sender_ntp
            / 0x1_0000_0000 - NTP_TO_UNIX_EPOCH_SECS + 1) * 1_000_000_000,
{
    let f = rtcp_sender_ntp % 0x1_0000_0000;
    assert(0 <= f * 1_000_000_000 / 0x1_0000_0000 < 1_000_000_000) by (nonlinear_arith)
        requires
            0 <= f < 0x1_0000_0000,
    ;
    assert(0int * 1_000_000_000 / (media_clock_rate as int) == 0) by (nonlinear_arith)
        requires
            media_clock_rate > 0,
    ;
}

/// A sender report one NTP second later puts the send time of every packet
/// one second (10^9 nanoseconds) later.
pub proof fn lemma_send_time_next_second(
    media_clock_rate: u32,
    rtp_timestamp: u32,
    rtcp_sender_ntp: u64,
    rtcp_sender_timestamp: u32,
)
    requires
        rtcp_sender_ntp + 0x1_0000_0000 <= u64::MAX,
    ensures
        packet_send_time_ns(
            media_clock_rate,
            rtp_timestamp,
            (rtcp_sender_ntp + 0x1_0000_0000) as u64,
            rtcp_sender_timestamp,
        ) == packet_send_time_ns(
            media_clock_rate,
            rtp_timestamp,
            rtcp_sender_ntp,
            rtcp_sender_timestamp,
        ) + 1_000_000_000,
{
    let n = rtcp_sender_ntp as int;
    assert((n + 0x1_0000_0000) / 0x1_0000_0000 == n / 0x1_0000_0000 + 1 && (n + 0x1_0000_0000)
        % 0x1_0000_0000 == n % 0x1_0000_0000) by (nonlinear_arith)
        requires
            n >= 0,
    ;
}

/// A packet `d` RTP ticks after the sender report (its timestamp counted
/// modulo 2^32) is sent `d` ticks later than a packet at the report, the
/// ticks turned into nanoseconds at `media_clock_rate` per second and
/// rounded down.
pub proof fn lemma_send_time_ticks(
    media_clock_rate: u32,
    d: u32,
    rtcp_sender_ntp: u64,
    rtcp_sender_timestamp: u32,
)
    requires
        media_clock_rate > 0,
    ensures
        packet_send_time_ns(
            media_clock_rate,
            ((rtcp_sender_timestamp + d) % 0x1_0000_0000) as u32,
            rtcp_sender_ntp,
            rtcp_sender_timestamp,
        ) == packet_send_time_ns(
            media_clock_rate,
            rtcp_sender_timestamp,
            rtcp_sender_ntp,
            rtcp_sender_timestamp,
        ) + d * 1_000_000_000 / (media_clock_rate as int),
{
    let st = rtcp_sender_timestamp as int;
    let dd = d as int;
    let t = (st + dd) % 0x1_0000_0000;
    assert((t - st) % 0x1_0000_0000 == dd) by (nonlinear_arith)
        requires
            t == (st + dd) % 0x1_0000_0000,
            0 <= st < 0x1_0000_0000,
            0 <= dd < 0x1_0000_0000,
    ;
    assert(0int * 1_000_000_000 / (media_clock_rate as int) == 0) by (nonlinear_arith)
        requires
            media_clock_rate > 0,
    ;
}

/// The delay added to the send time gives the arrival time (its low 64
/// bits) whenever the packet arrives no earlier than it was sent; otherwise
/// the delay is 0. Only the low 64 bits of the arrival time count.
pub proof fn lemma_delay_adds_up(
    arrival_nanos: u128,
    media_clock_rate: u32,
    rtp_timestamp: u32,
    rtcp_sender_ntp: u64,
    rtcp_sender_timestamp: u32,
)
    ensures
        ({
            let arrival = arrival_nanos % 0x1_0000_0000_0000_0000;
            let sent = packet_send_time_ns(
                media_clock_rate,
                rtp_timestamp,
                rtcp_sender_ntp,
                rtcp_sender_timestamp,
            );
            let delay = delay_ns(
                arrival_nanos,
                media_clock_rate,
                rtp_timestamp,
                rtcp_sender_ntp,
                rtcp_sender_timestamp,
            );
            &&& arrival >= sent ==> sent + delay == arrival
            &&& arrival < sent ==> delay == 0
        }),
        arrival_nanos + 0x1_0000_0000_0000_0000 <= u128::MAX ==> delay_ns(
            (arrival_nanos + 0x1_0000_0000_0000_0000) as u128,
            media_clock_rate,
            rtp_timestamp,
            rtcp_sender_ntp,
            rtcp_sender_timestamp,
        ) == delay_ns(
            arrival_nanos,
            media_clock_rate,
            rtp_timestamp,
            rtcp_sender_ntp,
            rtcp_sender_timestamp,
        ),
{
    let a = arrival_nanos as int;
    assert((a + 0x1_0000_0000_0000_0000) % 0x1_0000_0000_0000_0000 == a
        % 0x1_0000_0000_0000_0000) by (nonlinear_arith)
        requires
            a >= 0,
    ;
}

} // verus!
