# video_server

The RTCP side of a small media receiver, verified with Verus.

- `src/rtp/rtcp.rs`: the RTCP common header, sender reports and reception
  report blocks, written to and read from `bytes::BytesMut`, each with a
  contract over its byte-level form.
- `src/rtp/roundtrip.rs`: what reading gives back of writing, and writing of
  reading, for those formats.
- `src/buffer.rs`: the contracts of the `bytes` calls and the big-endian
  encodings they use.
- `src/receivers/`: the sender timing read from an RTCP datagram, the
  one-way delay of an RTP packet, and the decisions of the signalling
  exchange.
- `app/`: the network side (signalling server over TCP, RTCP over UDP).
