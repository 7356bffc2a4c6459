//! The camera's own packets.
use crate::common::VideoCodec;
use vstd::prelude::*;

verus! {

/// The codecs that are told apart in a camera's stream.
#[derive(Debug, Clone, Copy, PartialEq, Eq, Structural)]
pub enum CodecId {
    H264,
    Hevc,
    Other,
}

/// The codec of a stream, if it is one that can be handled.
pub fn detected_codec(id: CodecId) -> (r: Option<VideoCodec>)
    ensures
        r == (match id {
            CodecId::H264 => Some(VideoCodec::H264),
            CodecId::Hevc => Some(VideoCodec::H265),
            CodecId::Other => None,
        }),
{
    match id {
        CodecId::H264 => Some(VideoCodec::H264),
        CodecId::Hevc => Some(VideoCodec::H265),
        CodecId::Other => None,
    }
}

/// What reading the camera's stream yields.
#[derive(Debug, Clone, Copy, PartialEq, Eq, Structural)]
pub enum LiveRead {
    Packet { stream_index: usize, corrupt: bool },
    EndOfFile,
    Failed,
}

/// Why a connection to a camera ended.
#[derive(Debug, Clone, Copy, PartialEq, Eq, Structural)]
pub enum LiveEnd {
    /// The stream was shut down.
    ShutDown,
    /// Nobody takes packets any more.
    ReceiverGone,
    /// The camera could not be opened, its stream could not be handled, or
    /// its metadata was not taken.
    OpenFailed,
    EndOfFile,
    ReadFailed,
}

impl LiveEnd {
    /// The camera counts as offline after an end of this kind.
    pub open spec fn offline(self) -> bool {
        !(self is ShutDown || self is ReceiverGone)
    }

    /// Whether the camera counts as offline after an end of this kind.
    pub fn is_offline(&self) -> (r: bool)
        ensures
            r == self.offline(),
    {
        match self {
            LiveEnd::ShutDown => false,
            LiveEnd::ReceiverGone => false,
            _ => true,
        }
    }
}

/// What to do next.
#[derive(Debug, Clone, Copy, PartialEq, Eq, Structural)]
pub enum LiveAction {
    /// Hand the packet on.
    Forward,
    /// Leave the packet out.
    Skip,
    /// End the connection.
    End(LiveEnd),
}

/// One connection to a camera.
#[derive(Debug, Clone, Copy, PartialEq, Eq, Structural)]
pub struct LiveConnection {
    pub video_stream_index: usize,
    /// It has been told that the camera is online.
    pub reported_online: bool,
    /// The packets that were handed on.
    pub packet_count: u64,
}

impl LiveConnection {
    /// A connection whose stream has been found.
    pub fn new(video_stream_index: usize) -> (r: Self)
        ensures
            r == (LiveConnection { video_stream_index, reported_online: false, packet_count: 0 }),
    {
        LiveConnection { video_stream_index, reported_online: false, packet_count: 0 }
    }

    /// What is done about something that was read.
    pub open spec fn action_for(self, shutdown: bool, read: LiveRead) -> LiveAction {
        if shutdown {
            LiveAction::End(LiveEnd::ShutDown)
        } else {
            match read {
                LiveRead::EndOfFile => LiveAction::End(LiveEnd::EndOfFile),
                LiveRead::Failed => LiveAction::End(LiveEnd::ReadFailed),
                LiveRead::Packet { stream_index, corrupt } => if stream_index
                    != self.video_stream_index || corrupt {
                    LiveAction::Skip
                } else {
                    LiveAction::Forward
                },
            }
        }
    }

    /// The first packet of any stream shows that the camera is online.
    pub open spec fn goes_online(self, shutdown: bool, read: LiveRead) -> bool {
        !shutdown && read is Packet && !self.reported_online
    }

    /// The connection after something was read.
    pub open spec fn after_read(self, shutdown: bool, read: LiveRead) -> LiveConnection {
        LiveConnection {
            reported_online: self.reported_online || self.goes_online(shutdown, read),
            packet_count: if self.action_for(shutdown, read) is Forward {
                (self.packet_count + 1) as u64
            } else {
                self.packet_count
            },
            ..self
        }
    }

    /// Takes in what was read and says whether to report the camera online,
    /// and what to do then.
    pub fn on_read(&mut self, shutdown: bool, read: LiveRead) -> (r: (bool, LiveAction))
        requires
            old(self).packet_count < u64::MAX,
        ensures
            r.0 == old(self).goes_online(shutdown, read),
            r.1 == old(self).action_for(shutdown, read),
            *final(self) == old(self).after_read(shutdown, read),
    {
        if shutdown {
            return (false, LiveAction::End(LiveEnd::ShutDown));
        }
        match read {
            LiveRead::EndOfFile => (false, LiveAction::End(LiveEnd::EndOfFile)),
            LiveRead::Failed => (false, LiveAction::End(LiveEnd::ReadFailed)),
            LiveRead::Packet { stream_index, corrupt } => {
                let online = !self.reported_online;
                self.reported_online = true;
                if stream_index != self.video_stream_index || corrupt {
                    (online, LiveAction::Skip)
                } else {
                    self.packet_count = self.packet_count + 1;
                    (online, LiveAction::Forward)
                }
            },
        }
    }
}

/// The connection after a list of reads.
pub open spec fn after_reads(connection: LiveConnection, reads: Seq<LiveRead>) -> LiveConnection
    decreases reads.len(),
{
    if reads.len() == 0 {
        connection
    } else {
        after_reads(connection, reads.drop_last()).after_read(false, reads.last())
    }
}

/// A connection reports its camera online once, with the first packet.
pub proof fn lemma_online_reported_once(
    connection: LiveConnection,
    reads: Seq<LiveRead>,
    read: LiveRead,
)
    requires
        !connection.reported_online,
    ensures
        after_reads(connection, reads).reported_online <==> exists|i: int|
            0 <= i < reads.len() && #[trigger] reads[i] is Packet,
        after_reads(connection, reads).goes_online(false, read) <==> read is Packet && forall|i: int|
            0 <= i < reads.len() ==> !(#[trigger] reads[i] is Packet),
    decreases reads.len(),
{
    if reads.len() > 0 {
        let earlier = reads.drop_last();
        lemma_online_reported_once(connection, earlier, reads.last());
        assert forall|i: int| 0 <= i < earlier.len() implies #[trigger] reads[i] == earlier[i] by {}
        assert(reads[reads.len() - 1] == reads.last());
        if exists|i: int| 0 <= i < earlier.len() && #[trigger] earlier[i] is Packet {
            let i = choose|i: int| 0 <= i < earlier.len() && #[trigger] earlier[i] is Packet;
            assert(reads[i] is Packet);
        }
        if exists|i: int| 0 <= i < reads.len() && #[trigger] reads[i] is Packet {
            let i = choose|i: int| 0 <= i < reads.len() && #[trigger] reads[i] is Packet;
            if i < earlier.len() {
                assert(earlier[i] is Packet);
            }
        }
    }
}

/// Delay before a camera is opened again, in seconds, where none is set.
pub const DEFAULT_RESTART_INTERVAL_SECS: u64 = 5;

/// The delay before a camera is opened again, in seconds.
pub fn restart_delay_secs(restart_interval_secs: Option<u64>) -> (r: u64)
    ensures
        r == (match restart_interval_secs {
            Some(secs) => secs,
            None => DEFAULT_RESTART_INTERVAL_SECS,
        }),
{
    restart_interval_secs.unwrap_or(DEFAULT_RESTART_INTERVAL_SECS)
}

/// A packet that is handed on: one of the camera's video that is not corrupt.
pub open spec fn is_video(read: LiveRead, video_stream_index: usize) -> bool {
    read matches LiveRead::Packet { stream_index, corrupt } && stream_index == video_stream_index
        && !corrupt
}

/// Until the shutdown every packet of the camera's video is handed on, unless it
/// is corrupt, and no other; the end of the stream and a failure end the
/// connection. After the shutdown everything does.
pub proof fn lemma_video_is_handed_on(connection: LiveConnection, read: LiveRead)
    ensures
        connection.action_for(false, read) is Forward <==> is_video(
            read,
            connection.video_stream_index,
        ),
        read is Packet && !is_video(read, connection.video_stream_index) ==> connection.action_for(
            false,
            read,
        ) is Skip,
        read is EndOfFile ==> connection.action_for(false, read) == LiveAction::End(
            LiveEnd::EndOfFile,
        ),
        read is Failed ==> connection.action_for(false, read) == LiveAction::End(
            LiveEnd::ReadFailed,
        ),
        connection.action_for(true, read) == LiveAction::End(LiveEnd::ShutDown),
        !connection.goes_online(true, read),
        connection.after_read(true, read) == connection,
        connection.after_read(false, read).video_stream_index == connection.video_stream_index,
{
}

/// The number of packets among some reads that are handed on.
pub open spec fn video_packets(reads: Seq<LiveRead>, video_stream_index: usize) -> int
    decreases reads.len(),
{
    if reads.len() == 0 {
        0
    } else {
        video_packets(reads.drop_last(), video_stream_index) + (if is_video(
            reads.last(),
            video_stream_index,
        ) {
            1int
        } else {
            0
        })
    }
}

/// The packets that were handed on are counted.
pub proof fn lemma_packets_are_counted(connection: LiveConnection, reads: Seq<LiveRead>)
    requires
        connection.packet_count + reads.len() <= u64::MAX,
    ensures
        after_reads(connection, reads).packet_count == connection.packet_count + video_packets(
            reads,
            connection.video_stream_index,
        ),
        after_reads(connection, reads).video_stream_index == connection.video_stream_index,
        0 <= video_packets(reads, connection.video_stream_index) <= reads.len(),
    decreases reads.len(),
{
    if reads.len() > 0 {
        lemma_packets_are_counted(connection, reads.drop_last());
    }
}

/// After all ends but a shutdown, and but a receiver that is gone, the camera
/// counts as offline.
pub proof fn lemma_offline_ends(end: LiveEnd)
    ensures
        end is OpenFailed || end is EndOfFile || end is ReadFailed ==> end.offline(),
        end is ShutDown || end is ReceiverGone ==> !end.offline(),
{
}

} // verus!
