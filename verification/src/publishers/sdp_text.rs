//! The session descriptions that announce a stream.
use crate::common::codec_parameters::{
    fmtp_text, lemma_h264_announcement, lemma_h265_announcement, CodecParameters, CodecSets,
};
use crate::common::VideoCodec;
use crate::domain::VideoSourceId;
use crate::text::{decimal, text};
use sdp::description::common::{Address, ConnectionInformation};
use sdp::description::media::{MediaDescription, MediaName, RangedPort};
use sdp::description::session::{Origin, SessionDescription, TimeDescription};
use vstd::prelude::*;
use vstd::string::*;
use vstd::utf8::*;

verus! {

/// The RTP payload type of the video: the first of the dynamic ones.
pub const VIDEO_PAYLOAD_TYPE: u8 = 96;

/// Where a client receives RTP: over IPv4 or IPv6, and on which port.
#[derive(Debug, Clone, Copy, PartialEq, Eq, Structural)]
pub struct ClientAddress {
    pub is_ipv6: bool,
    pub port: u16,
}

/// Texts with `separator` between them.
pub open spec fn joined(texts: Seq<String>, separator: Seq<char>) -> Seq<char>
    decreases texts.len(),
{
    if texts.len() == 0 {
        seq![]
    } else if texts.len() == 1 {
        texts[0]@
    } else {
        joined(texts.drop_last(), separator) + separator + texts.last()@
    }
}

/// Network type, address type and address, as a line of SDP holds them.
pub open spec fn network_text(
    network_type: Seq<char>,
    address_type: Seq<char>,
    address: Seq<char>,
) -> Seq<char> {
    network_type + " "@ + address_type + " "@ + address
}

/// The value of an `rtpmap` attribute. Channels stand there only where there
/// are any.
pub open spec fn rtpmap_text(
    payload_type: u8,
    codec_name: Seq<char>,
    clock_rate: u32,
    channels: u16,
) -> Seq<char> {
    decimal(payload_type as nat) + " "@ + codec_name + "/"@ + decimal(clock_rate as nat) + (
    if channels > 0 {
        "/"@ + decimal(channels as nat)
    } else {
        seq![]
    })
}

/// The line of an `fmtp` attribute, where there are format parameters.
pub open spec fn fmtp_line(payload_type: u8, fmtp: Seq<char>) -> Seq<char> {
    if fmtp.len() > 0 {
        "a=fmtp:"@ + decimal(payload_type as nat) + " "@ + fmtp + "\r\n"@
    } else {
        seq![]
    }
}

/// `SessionDescription::marshal` writes a session line by line, each line
/// ended by CR LF: version 0, the origin, the name, the connection (with the
/// address of the origin), the time from 0 to 0, and the medium. Under the
/// medium stand the attributes that `MediaDescription::with_codec` gave it
/// (`rtpmap`, and `fmtp` where there are format parameters) and the one of
/// `MediaDescription::with_property_attribute`.
#[verifier::external_body]
fn marshal_session(
    username: String,
    session_id: u64,
    session_version: u64,
    network_type: String,
    address_type: String,
    unicast_address: String,
    session_name: String,
    media: String,
    port: u16,
    protos: Vec<String>,
    payload_type: u8,
    codec_name: String,
    clock_rate: u32,
    channels: u16,
    fmtp: String,
    property: String,
) -> (r: String)
    ensures
        r@ == "v=0\r\no="@ + username@ + " "@ + decimal(session_id as nat) + " "@ + decimal(
            session_version as nat,
        ) + " "@ + network_text(network_type@, address_type@, unicast_address@) + "\r\ns="@
            + session_name@ + "\r\nc="@ + network_text(
            network_type@,
            address_type@,
            unicast_address@,
        ) + "\r\nt=0 0\r\nm="@ + media@ + " "@ + decimal(port as nat) + " "@ + joined(
            protos@,
            "/"@,
        ) + " "@ + decimal(payload_type as nat) + "\r\na=rtpmap:"@ + rtpmap_text(
            payload_type,
            codec_name@,
            clock_rate,
            channels,
        ) + "\r\n"@ + fmtp_line(payload_type, fmtp@) + "a="@ + property@ + "\r\n"@,
{
    let address = Some(Address { address: unicast_address.clone(), ttl: None, range: None });
    let (net, kind) = (network_type.clone(), address_type.clone());
    let connection = ConnectionInformation { network_type: net, address_type: kind, address };
    let origin = Origin { username, session_id, session_version, network_type, address_type, unicast_address };
    let port = RangedPort { value: port as isize, range: None };
    let media_name = MediaName { media, port, protos, formats: Vec::new() };
    let media = MediaDescription { media_name, ..Default::default() }
        .with_codec(payload_type, codec_name, clock_rate, channels, fmtp)
        .with_property_attribute(property);
    SessionDescription {
        origin, session_name, connection_information: Some(connection),
        time_descriptions: vec![TimeDescription::default()],
        media_descriptions: vec![media],
        ..Default::default()
    }.marshal()
}

/// A number for a stream, from the bytes of its name: each byte is added to
/// 31 times what the bytes before it give, modulo 2^64.
pub open spec fn name_hash(bytes: Seq<u8>) -> int
    decreases bytes.len(),
{
    if bytes.len() == 0 {
        0
    } else {
        (name_hash(bytes.drop_last()) * 31 + bytes.last()) % 0x1_0000_0000_0000_0000
    }
}

/// The number of a stream in its descriptions.
fn session_hash(source_id: &VideoSourceId) -> (r: u64)
    ensures
        r == name_hash(encode_utf8(source_id@)),
{
    let bytes = source_id.as_str().as_bytes();
    let mut hash: u64 = 0;
    let mut i: usize = 0;
    assert(bytes@.take(0) =~= seq![]);
    while i < bytes.len()
        invariant
            i <= bytes@.len(),
            bytes@ == encode_utf8(source_id@),
            hash == name_hash(bytes@.take(i as int)),
        decreases bytes@.len() - i,
    {
        assert(bytes@.take(i + 1).drop_last() =~= bytes@.take(i as int));
        hash = ((hash as u128 * 31 + bytes[i] as u128) % 0x1_0000_0000_0000_0000) as u64;
        i += 1;
    }
    assert(bytes@.take(i as int) =~= bytes@);
    hash
}

/// The name of a codec in SDP.
pub open spec fn encoding_name(codec: VideoCodec) -> Seq<char> {
    match codec {
        VideoCodec::H264 => "H264"@,
        VideoCodec::H265 => "H265"@,
    }
}

/// The address that stands for any address of its kind.
pub open spec fn any_address(is_ipv6: bool) -> Seq<char> {
    if is_ipv6 {
        network_text("IN"@, "IP6"@, "::"@)
    } else {
        network_text("IN"@, "IP4"@, "0.0.0.0"@)
    }
}

/// The description of a stream that is sent to one client.
pub open spec fn unicast_sdp(
    source_id: Seq<char>,
    addr: ClientAddress,
    codec: VideoCodec,
    sets: CodecSets,
) -> Seq<char> {
    "v=0\r\no="@ + "-"@ + " "@ + decimal(name_hash(encode_utf8(source_id)) as nat) + " "@ + decimal(
        0,
    ) + " "@ + any_address(addr.is_ipv6) + "\r\ns="@ + "media-server"@ + "\r\nc="@ + any_address(
        addr.is_ipv6,
    ) + "\r\nt=0 0\r\nm="@ + "video"@ + " "@ + decimal(addr.port as nat) + " "@ + "RTP/AVP"@ + " "@
        + decimal(96) + "\r\na=rtpmap:"@ + rtpmap_text(96, encoding_name(codec), 90000, 0)
        + "\r\n"@ + fmtp_line(96, fmtp_text(codec, sets)) + "a="@ + "sendonly"@ + "\r\n"@
}

/// Builds the description of a stream for a client at `addr`.
pub fn build_unicast_sdp(
    source_id: &VideoSourceId,
    addr: ClientAddress,
    codec: &VideoCodec,
    params: &CodecParameters,
) -> (r: String)
    ensures
        r@ == unicast_sdp(source_id@, addr, *codec, params@),
{
    let (address_type, ip_address) = if addr.is_ipv6 {
        ("IP6", "::")
    } else {
        ("IP4", "0.0.0.0")
    };
    let codec_name = match codec {
        VideoCodec::H264 => "H264",
        VideoCodec::H265 => "H265",
    };
    let mut protos: Vec<String> = Vec::new();
    protos.push(text("RTP"));
    // AVP is for audio, though we currently support only video.
    protos.push(text("AVP"));
    proof {
        reveal_with_fuel(joined, 3);
        reveal_strlit("RTP");
        reveal_strlit("AVP");
        reveal_strlit("/");
        reveal_strlit("RTP/AVP");
        assert(joined(protos@, "/"@) =~= "RTP/AVP"@);
    }
    marshal_session(
        text("-"),
        session_hash(source_id),
        0,
        text("IN"),
        text(address_type),
        text(ip_address),
        text("media-server"),
        text("video"),
        addr.port,
        protos,
        VIDEO_PAYLOAD_TYPE,
        text(codec_name),
        90000,
        0,
        params.fmtp(codec),
        text("sendonly"),
    )
}

/// A line of a description.
pub open spec fn line(text: Seq<char>) -> Seq<char> {
    text + "\r\n"@
}

/// The first two lines.
proof fn lemma_origin_lines(number: Seq<char>, is_ipv6: bool)
    ensures
        "v=0\r\no="@ + "-"@ + " "@ + number + " "@ + decimal(0) + " "@ + any_address(is_ipv6)
            + "\r\ns="@ == line("v=0"@) + line(
            "o=- "@ + number + (if is_ipv6 {
                " 0 IN IP6 ::"@
            } else {
                " 0 IN IP4 0.0.0.0"@
            }),
        ) + "s="@,
{
    reveal_strlit("v=0\r\no=");
    reveal_strlit("-");
    reveal_strlit(" ");
    reveal_strlit("IN");
    reveal_strlit("IP4");
    reveal_strlit("IP6");
    reveal_strlit("0.0.0.0");
    reveal_strlit("::");
    reveal_strlit("\r\ns=");
    reveal_strlit("\r\n");
    reveal_strlit("v=0");
    reveal_strlit("o=- ");
    reveal_strlit(" 0 IN IP4 0.0.0.0");
    reveal_strlit(" 0 IN IP6 ::");
    reveal_strlit("s=");
    assert(decimal(0) =~= seq!['0']);
    if is_ipv6 {
        assert(" "@ + decimal(0) + " "@ + any_address(true) =~= " 0 IN IP6 ::"@);
    } else {
        assert(" "@ + decimal(0) + " "@ + any_address(false) =~= " 0 IN IP4 0.0.0.0"@);
    }
    let front = "v=0\r\no="@ + "-"@ + " "@;
    let tail = " "@ + decimal(0) + " "@ + any_address(is_ipv6);
    assert(front =~= "v=0"@ + "\r\n"@ + "o=- "@);
    assert(front + number + " "@ + decimal(0) + " "@ + any_address(is_ipv6) =~= front + number
        + tail);
    assert(front + number + tail + "\r\ns="@ =~= line("v=0"@) + line("o=- "@ + number + tail)
        + "s="@);
}

/// The line of the name.
proof fn lemma_name_line(before: Seq<char>)
    ensures
        before + "s="@ + "media-server"@ + "\r\nc="@ == before + line("s=media-server"@) + "c="@,
{
    reveal_strlit("s=");
    reveal_strlit("media-server");
    reveal_strlit("\r\nc=");
    reveal_strlit("s=media-server");
    reveal_strlit("\r\n");
    reveal_strlit("c=");
    assert(before + "s="@ + "media-server"@ + "\r\nc="@ =~= before + line("s=media-server"@)
        + "c="@);
}

/// The lines of the connection and of the time.
proof fn lemma_connection_lines(before: Seq<char>, is_ipv6: bool)
    ensures
        before + "c="@ + any_address(is_ipv6) + "\r\nt=0 0\r\nm="@ == before + line(
            if is_ipv6 {
                "c=IN IP6 ::"@
            } else {
                "c=IN IP4 0.0.0.0"@
            },
        ) + line("t=0 0"@) + "m="@,
{
    reveal_strlit("c=");
    reveal_strlit(" ");
    reveal_strlit("IN");
    reveal_strlit("IP4");
    reveal_strlit("IP6");
    reveal_strlit("0.0.0.0");
    reveal_strlit("::");
    reveal_strlit("\r\nt=0 0\r\nm=");
    reveal_strlit("c=IN IP4 0.0.0.0");
    reveal_strlit("c=IN IP6 ::");
    reveal_strlit("\r\n");
    reveal_strlit("t=0 0");
    reveal_strlit("m=");
    if is_ipv6 {
        assert("c="@ + any_address(true) =~= "c=IN IP6 ::"@);
    } else {
        assert("c="@ + any_address(false) =~= "c=IN IP4 0.0.0.0"@);
    }
    assert(before + "c="@ + any_address(is_ipv6) =~= before + ("c="@ + any_address(is_ipv6)));
    assert("\r\nt=0 0\r\nm="@ =~= "\r\n"@ + line("t=0 0"@) + "m="@);
    let connected = "c="@ + any_address(is_ipv6);
    assert(before + connected + "\r\nt=0 0\r\nm="@ =~= before + line(connected) + line("t=0 0"@)
        + "m="@);
}

/// The line of the medium.
proof fn lemma_media_line(before: Seq<char>, port: Seq<char>)
    ensures
        before + "m="@ + "video"@ + " "@ + port + " "@ + "RTP/AVP"@ + " "@ + decimal(96)
            + "\r\na=rtpmap:"@ == before + line("m=video "@ + port + " RTP/AVP 96"@) + "a=rtpmap:"@,
{
    reveal_strlit("m=");
    reveal_strlit("video");
    reveal_strlit(" ");
    reveal_strlit("RTP/AVP");
    reveal_strlit("\r\na=rtpmap:");
    reveal_strlit("m=video ");
    reveal_strlit(" RTP/AVP 96");
    reveal_strlit("\r\n");
    reveal_strlit("a=rtpmap:");
    reveal_with_fuel(decimal, 2);
    assert(decimal(96) =~= seq!['9', '6']);
    assert("m="@ + "video"@ + " "@ =~= "m=video "@);
    assert(" "@ + "RTP/AVP"@ + " "@ + decimal(96) =~= " RTP/AVP 96"@);
    let end = " "@ + "RTP/AVP"@ + " "@ + decimal(96);
    assert(before + "m="@ + "video"@ + " "@ =~= before + ("m="@ + "video"@ + " "@));
    let front = before + "m=video "@ + port;
    assert(front + " "@ + "RTP/AVP"@ + " "@ + decimal(96) =~= front + end);
    assert(front + end + "\r\na=rtpmap:"@ =~= before + line("m=video "@ + port + end)
        + "a=rtpmap:"@);
}

/// The line of the codec.
proof fn lemma_codec_line(before: Seq<char>, codec: VideoCodec)
    ensures
        before + "a=rtpmap:"@ + rtpmap_text(96, encoding_name(codec), 90000, 0) + "\r\n"@ == before
            + line(
            match codec {
                VideoCodec::H264 => "a=rtpmap:96 H264/90000"@,
                VideoCodec::H265 => "a=rtpmap:96 H265/90000"@,
            },
        ),
{
    reveal_strlit("a=rtpmap:");
    reveal_strlit(" ");
    reveal_strlit("/");
    reveal_strlit("H264");
    reveal_strlit("H265");
    reveal_strlit("a=rtpmap:96 H264/90000");
    reveal_strlit("a=rtpmap:96 H265/90000");
    reveal_with_fuel(decimal, 6);
    assert(decimal(96) =~= seq!['9', '6']);
    assert(decimal(90000) =~= seq!['9', '0', '0', '0', '0']);
    let map = "a=rtpmap:"@ + rtpmap_text(96, encoding_name(codec), 90000, 0);
    match codec {
        VideoCodec::H264 => assert(map =~= "a=rtpmap:96 H264/90000"@),
        VideoCodec::H265 => assert(map =~= "a=rtpmap:96 H265/90000"@),
    }
    assert(before + "a=rtpmap:"@ + rtpmap_text(96, encoding_name(codec), 90000, 0) + "\r\n"@
        =~= before + line(map));
}

/// The lines of the attributes.
proof fn lemma_attribute_lines(before: Seq<char>, fmtp: Seq<char>)
    requires
        fmtp.len() > 0,
    ensures
        before + fmtp_line(96, fmtp) + "a="@ + "sendonly"@ + "\r\n"@ == before + line(
            "a=fmtp:96 "@ + fmtp,
        ) + line("a=sendonly"@),
{
    reveal_strlit("a=fmtp:");
    reveal_strlit(" ");
    reveal_strlit("a=");
    reveal_strlit("sendonly");
    reveal_strlit("a=fmtp:96 ");
    reveal_strlit("a=sendonly");
    reveal_with_fuel(decimal, 2);
    assert(decimal(96) =~= seq!['9', '6']);
    assert("a=fmtp:"@ + decimal(96) + " "@ =~= "a=fmtp:96 "@);
    assert("a="@ + "sendonly"@ =~= "a=sendonly"@);
    let front = before + fmtp_line(96, fmtp);
    assert(front + "a="@ + "sendonly"@ + "\r\n"@ =~= front + line("a="@ + "sendonly"@));
}

/// The lines of a description, one by one: the stream's number, the address, the
/// port, the codec and the format parameters stand in them as they were given.
pub proof fn lemma_lines_of_description(
    source_id: Seq<char>,
    addr: ClientAddress,
    codec: VideoCodec,
    sets: CodecSets,
)
    ensures
        unicast_sdp(source_id, addr, codec, sets) == line("v=0"@) + line(
            "o=- "@ + decimal(name_hash(encode_utf8(source_id)) as nat) + (if addr.is_ipv6 {
                " 0 IN IP6 ::"@
            } else {
                " 0 IN IP4 0.0.0.0"@
            }),
        ) + line("s=media-server"@) + line(
            if addr.is_ipv6 {
                "c=IN IP6 ::"@
            } else {
                "c=IN IP4 0.0.0.0"@
            },
        ) + line("t=0 0"@) + line("m=video "@ + decimal(addr.port as nat) + " RTP/AVP 96"@) + line(
            match codec {
                VideoCodec::H264 => "a=rtpmap:96 H264/90000"@,
                VideoCodec::H265 => "a=rtpmap:96 H265/90000"@,
            },
        ) + line("a=fmtp:96 "@ + fmtp_text(codec, sets)) + line("a=sendonly"@),
{
    let number = decimal(name_hash(encode_utf8(source_id)) as nat);
    let port = decimal(addr.port as nat);
    let first = line("v=0"@) + line(
        "o=- "@ + number + (if addr.is_ipv6 {
            " 0 IN IP6 ::"@
        } else {
            " 0 IN IP4 0.0.0.0"@
        }),
    );
    let second = first + line("s=media-server"@);
    let third = second + line(
        if addr.is_ipv6 {
            "c=IN IP6 ::"@
        } else {
            "c=IN IP4 0.0.0.0"@
        },
    ) + line("t=0 0"@);
    let fourth = third + line("m=video "@ + port + " RTP/AVP 96"@);
    let fifth = fourth + line(
        match codec {
            VideoCodec::H264 => "a=rtpmap:96 H264/90000"@,
            VideoCodec::H265 => "a=rtpmap:96 H265/90000"@,
        },
    );
    lemma_h264_announcement(sets);
    lemma_h265_announcement(sets);
    lemma_origin_lines(number, addr.is_ipv6);
    lemma_name_line(first);
    lemma_connection_lines(second, addr.is_ipv6);
    lemma_media_line(third, port);
    lemma_codec_line(fourth, codec);
    lemma_attribute_lines(fifth, fmtp_text(codec, sets));
}

/// The number of a stream: a byte that is appended to the name is added to 31
/// times the number, modulo 2^64.
pub proof fn lemma_name_number(bytes: Seq<u8>, byte: u8)
    ensures
        name_hash(seq![]) == 0,
        name_hash(bytes.push(byte)) == (31 * name_hash(bytes) + byte) % 0x1_0000_0000_0000_0000,
        0 <= name_hash(bytes) < 0x1_0000_0000_0000_0000,
{
    assert(bytes.push(byte).drop_last() =~= bytes);
}

} // verus!
