# media-server

A media server that takes RTSP cameras in and hands their video on, live or
from recordings, over WebRTC and over WSC-RTP (a WebSocket for signalling, RTP
over UDP or over the same WebSocket). What the server decides and computes is a
library, `media_server`, whose contracts Verus proves. Cameras, sockets, files
and pipelines are in `app/`.

## Layout

- `src/common`: NAL units and their framing, parameter sets, RTP packets, the
  packetizer, and the stitcher that keeps sequence numbers and timestamps
  continuous when a session changes its source.
- `src/sources`: cameras (addresses, one timeline for camera and placeholder)
  and the playing of recordings.
- `src/domain`: streams, session ids, and recordings: their files and what is
  written into them.
- `src/publishers`: session descriptions, the UDP hole-punch, WSC-RTP and
  WebRTC sessions.
- `src/app`: the streams and sessions of the server, and whom a stream serves.
- `src/api`: the messages of the interface and what it answers.
- `src/registry.rs`, `src/text.rs`, `src/arithmetic.rs`, `src/utils.rs`: what
  the others share.
- `tests`: the library run on concrete values.
- `app`: the server around the library. It needs FFmpeg and GStreamer.

## What is proved

Each function states what it returns and changes. Beyond that the proof
functions state what holds across functions, among them: a NAL unit that is cut
into fragments is received as it was; Annex-B data is read back as it was
written; packets fit the size limit; sequence numbers go on without a gap
whatever sources a session is switched between; decoding times do not go back;
UDP is used only after the client has confirmed it in time; a session that
sends no pings is closed; a seek that is refused changes nothing; a stream serves only
sessions that are open and live; the name of a recording tells when it began
and ended; the directory of a stream is a plain name whatever the stream is
called.

Calls into other crates (`base64`, `dashmap`, `hex`, `rand`, `sdp`, `sha2`,
`url`, `uuid`, `axum`, `webrtc`) stand behind small functions whose contracts are taken on
trust; each says so.
