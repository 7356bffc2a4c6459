//! Streams of RTSP cameras.
pub mod address;
pub mod fallback;
pub mod live;
pub mod timeline;

use crate::api::models::{StreamActivity, VideoSourceInput};
use crate::common::{FFmpegVideoMetadata, VideoCodec};
use crate::domain::{StreamConfig, StreamState, VideoSourceId};
use crate::sources::rtsp::address::{
    build_rtsp_url, check_parsed_url, checked_as, opened_at, parse_url, parsed_url, within_limits,
    RtspUrlError,
};
use crate::sources::rtsp::live::{restart_delay_secs, DEFAULT_RESTART_INTERVAL_SECS};
use crate::sources::rtsp::timeline::{LiveStreamState, Timeline};
use vstd::prelude::*;

verus! {

/// A text is the address of a camera.
pub open spec fn valid_address(url: Seq<char>) -> bool {
    checked_as(url, parsed_url(url), Ok(()))
}

/// Every input of a list has the address of a camera.
pub open spec fn valid_inputs(inputs: Seq<VideoSourceInput>) -> bool {
    forall|i: int| 0 <= i < inputs.len() ==> valid_address((#[trigger] inputs[i]).url@)
}

/// The error that a list of inputs is refused with: there is none, or it is
/// that of the first whose address is none of a camera.
pub open spec fn inputs_refused(inputs: Seq<VideoSourceInput>, error: RtspUrlError) -> bool {
    if error is NoInput {
        inputs.len() == 0
    } else {
        exists|i: int|
            0 <= i < inputs.len() && valid_inputs(inputs.take(i)) && checked_as(
                (#[trigger] inputs[i]).url@,
                parsed_url(inputs[i].url@),
                Err(error),
            )
    }
}

/// The input that is used: of the ones with the highest priority, which is
/// the lowest value, the first.
pub open spec fn elected(inputs: Seq<VideoSourceInput>, i: int) -> bool {
    &&& 0 <= i < inputs.len()
    &&& forall|j: int|
        0 <= j < inputs.len() ==> inputs[i].priority <= (#[trigger] inputs[j]).priority
    &&& forall|j: int| 0 <= j < i ==> inputs[i].priority < (#[trigger] inputs[j]).priority
}

/// Elects the input that is used.
pub fn elect_input(inputs: &[VideoSourceInput]) -> (r: Option<usize>)
    ensures
        match r {
            Some(i) => elected(inputs@, i as int),
            None => inputs@.len() == 0,
        },
{
    if inputs.len() == 0 {
        return None;
    }
    let mut best: usize = 0;
    let mut i: usize = 1;
    while i < inputs.len()
        invariant
            best < i <= inputs@.len(),
            forall|j: int|
                0 <= j < i ==> inputs@[best as int].priority <= (#[trigger] inputs@[j]).priority,
            forall|j: int|
                0 <= j < best ==> inputs@[best as int].priority < (#[trigger] inputs@[j]).priority,
        decreases inputs@.len() - i,
    {
        if inputs[i].priority < inputs[best].priority {
            best = i;
        }
        i += 1;
    }
    Some(best)
}

/// The source of one stream.
#[derive(Debug)]
pub struct RtspClient {
    pub config: StreamConfig,
    pub state: StreamState,
    pub codec: Option<VideoCodec>,
    pub shutdown: bool,
    pub timeline: Timeline,
}

impl RtspClient {
    /// The client has an input to read from.
    pub open spec fn has_input(self) -> bool {
        self.config.rtsp_inputs@.len() > 0
    }

    /// Checks that a text is a URL of RTSP.
    pub fn validate_rtsp_url(rtsp_url: &str) -> (r: Result<(), RtspUrlError>)
        ensures
            checked_as(rtsp_url@, parsed_url(rtsp_url@), r),
    {
        check_parsed_url(rtsp_url, &parse_url(rtsp_url))
    }

    /// Checks the addresses of a list of inputs; the error is that of the
    /// first address that is none of a camera.
    pub fn validate_inputs(inputs: &[VideoSourceInput]) -> (r: Result<(), RtspUrlError>)
        ensures
            match r {
                Ok(()) => inputs@.len() > 0 && valid_inputs(inputs@),
                Err(error) => inputs_refused(inputs@, error),
            },
    {
        if inputs.len() == 0 {
            return Err(RtspUrlError::NoInput);
        }
        let mut i: usize = 0;
        while i < inputs.len()
            invariant
                i <= inputs@.len(),
                valid_inputs(inputs@.take(i as int)),
            decreases inputs@.len() - i,
        {
            let checked = RtspClient::validate_rtsp_url(inputs[i].url.as_str());
            if let Err(error) = checked {
                assert(checked_as(inputs@[i as int].url@, parsed_url(inputs@[i as int].url@), Err(error)));
                return Err(error);
            }
            proof {
                let more = inputs@.take(i + 1);
                assert forall|j: int| 0 <= j < more.len() implies valid_address(
                    (#[trigger] more[j]).url@,
                ) by {
                    if j < i {
                        assert(valid_address(inputs@.take(i as int)[j].url@));
                    }
                }
            }
            i += 1;
        }
        assert(inputs@.take(i as int) =~= inputs@);
        Ok(())
    }

    /// A client that has not been started yet.
    pub fn new(config: StreamConfig) -> (r: Result<Self, RtspUrlError>)
        ensures
            match r {
                Ok(client) => {
                    &&& config.rtsp_inputs@.len() > 0
                    &&& valid_inputs(config.rtsp_inputs@)
                    &&& client.config == config
                    &&& client.state == StreamState::Stopped
                    &&& client.codec is None
                    &&& !client.shutdown
                    &&& client.timeline == (Timeline {
                        fallback_is_running: false,
                        last_dts: 0,
                        last_duration: 0,
                        ts_offset: 0,
                        codec: None,
                        live_timebase: None,
                    })
                },
                Err(error) => inputs_refused(config.rtsp_inputs@, error),
            },
    {
        match RtspClient::validate_inputs(config.rtsp_inputs.as_slice()) {
            Err(error) => Err(error),
            Ok(()) => Ok(
                RtspClient {
                    config,
                    state: StreamState::Stopped,
                    codec: None,
                    shutdown: false,
                    timeline: Timeline::new(),
                },
            ),
        }
    }

    pub fn source_id(&self) -> (r: &VideoSourceId)
        ensures
            *r == self.config.source_id,
    {
        &self.config.source_id
    }

    pub fn get_codec(&self) -> (r: Option<VideoCodec>)
        ensures
            r == self.codec,
    {
        self.codec
    }

    pub fn state(&self) -> (r: StreamState)
        ensures
            r == self.state,
    {
        self.state
    }

    pub fn config(&self) -> (r: &StreamConfig)
        ensures
            *r == self.config,
    {
        &self.config
    }

    /// The addresses that the stream can be read from.
    pub fn inputs(&self) -> (r: &[VideoSourceInput])
        ensures
            r@ == self.config.rtsp_inputs@,
    {
        self.config.rtsp_inputs.as_slice()
    }

    /// The input that is used, once the stream is being received.
    pub fn active_input(&self) -> (r: Option<VideoSourceInput>)
        ensures
            match r {
                Some(input) => self.state == StreamState::Running && exists|i: int|
                    elected(self.config.rtsp_inputs@, i) && #[trigger] self.config.rtsp_inputs@[i]
                        == input,
                None => self.state == StreamState::Stopped || !self.has_input(),
            },
    {
        match self.state {
            StreamState::Stopped => None,
            StreamState::Running => match elect_input(self.config.rtsp_inputs.as_slice()) {
                Some(i) => {
                    assert(elected(self.config.rtsp_inputs@, i as int));
                    Some(self.config.rtsp_inputs[i].copied())
                },
                None => None,
            },
        }
    }

    /// The credentials are short enough for the address of an input.
    pub open spec fn input_within_limits(self, i: int) -> bool {
        within_limits(self.config.rtsp_inputs@[i].url@, self.config.username, self.config.password)
    }

    /// The address that the camera is opened at: that of the elected input.
    pub fn build_rtsp_url(&self) -> (r: Result<String, RtspUrlError>)
        ensures
            match r {
                Ok(url) => exists|i: int|
                    elected(self.config.rtsp_inputs@, i) && #[trigger] self.input_within_limits(i)
                        && url@ == opened_at(
                        self.config.rtsp_inputs@[i].url@,
                        self.config.username,
                        self.config.password,
                    ),
                Err(RtspUrlError::NoInput) => !self.has_input(),
                Err(error) => error is TooLong && exists|i: int|
                    elected(self.config.rtsp_inputs@, i) && !(
                    #[trigger] self.input_within_limits(i)),
            },
    {
        match elect_input(self.config.rtsp_inputs.as_slice()) {
            Some(i) => {
                assert(elected(self.config.rtsp_inputs@, i as int));
                let input = &self.config.rtsp_inputs[i];
                let built = build_rtsp_url(
                    input.url.as_str(),
                    &self.config.username,
                    &self.config.password,
                );
                assert(self.input_within_limits(i as int) == built is Some);
                match built {
                    Some(url) => Ok(url),
                    None => Err(RtspUrlError::TooLong),
                }
            },
            None => Err(RtspUrlError::NoInput),
        }
    }

    /// The delay before the camera is opened again, in seconds.
    pub fn restart_delay_secs(&self) -> (r: u64)
        ensures
            r == (match self.config.restart_interval_secs {
                Some(secs) => secs,
                None => DEFAULT_RESTART_INTERVAL_SECS,
            }),
    {
        restart_delay_secs(self.config.restart_interval_secs)
    }

    /// Takes the stream's metadata in, where it is the first, and says
    /// whether it was. The stream runs from then on.
    pub fn on_metadata(&mut self, metadata: &FFmpegVideoMetadata) -> (r: bool)
        ensures
            r == (old(self).timeline.codec is None),
            *final(self) == (if r {
                RtspClient {
                    state: StreamState::Running,
                    codec: Some(metadata.codec),
                    timeline: Timeline {
                        codec: Some(metadata.codec),
                        live_timebase: Some(metadata.timebase),
                        ..old(self).timeline
                    },
                    ..*old(self)
                }
            } else {
                *old(self)
            }),
    {
        let first = self.timeline.on_metadata(metadata.codec, metadata.timebase);
        if first {
            self.codec = Some(metadata.codec);
            self.state = StreamState::Running;
        }
        first
    }

    /// What clients are told of the stream in the given state of its camera.
    /// Without the camera a placeholder can be shown once the codec is known.
    pub fn activity(&self, live: LiveStreamState) -> (r: StreamActivity)
        ensures
            r == (match live {
                LiveStreamState::Online => if self.timeline.codec is Some {
                    StreamActivity::Active
                } else {
                    StreamActivity::Connecting
                },
                LiveStreamState::Offline => if self.timeline.codec is Some {
                    StreamActivity::Inactive
                } else {
                    StreamActivity::Error
                },
            }),
    {
        let known = self.timeline.codec.is_some();
        match live {
            LiveStreamState::Online => if known {
                StreamActivity::Active
            } else {
                StreamActivity::Connecting
            },
            LiveStreamState::Offline => if known {
                StreamActivity::Inactive
            } else {
                StreamActivity::Error
            },
        }
    }

    /// Stops the stream for good.
    pub fn shutdown(&mut self)
        ensures
            *final(self) == (RtspClient { shutdown: true, ..*old(self) }),
    {
        self.shutdown = true;
    }
}

/// Only one input is elected.
pub proof fn lemma_election_is_unique(inputs: Seq<VideoSourceInput>, i: int, j: int)
    requires
        elected(inputs, i),
        elected(inputs, j),
    ensures
        i == j,
{
    assert(inputs[i].priority == inputs[j].priority);
}

/// One input of every list that has any is elected, and its priority has the
/// lowest value of all.
pub proof fn lemma_an_input_is_elected(inputs: Seq<VideoSourceInput>) -> (i: int)
    requires
        inputs.len() > 0,
    ensures
        elected(inputs, i),
        0 <= i < inputs.len(),
        forall|j: int| 0 <= j < inputs.len() ==> inputs[i].priority <= (#[trigger] inputs[j]).priority,
        forall|j: int| 0 <= j < i ==> inputs[i].priority != (#[trigger] inputs[j]).priority,
    decreases inputs.len(),
{
    if inputs.len() == 1 {
        0
    } else {
        let earlier = inputs.drop_last();
        let best = lemma_an_input_is_elected(earlier);
        let last = inputs.len() - 1;
        assert forall|j: int| 0 <= j < last implies inputs[best].priority <= (
        #[trigger] inputs[j]).priority by {
            assert(earlier[best].priority <= earlier[j].priority);
        }
        assert forall|j: int| 0 <= j < best implies inputs[best].priority < (
        #[trigger] inputs[j]).priority by {
            assert(earlier[best].priority < earlier[j].priority);
        }
        if inputs[last].priority < inputs[best].priority {
            last
        } else {
            best
        }
    }
}

/// The address of a camera is a text that reads as a URL with the scheme `rtsp`
/// or `rtsps`.
pub proof fn lemma_address_by_scheme(url: Seq<char>)
    ensures
        valid_address(url) <==> (parsed_url(url) matches Ok((_, scheme)) && (scheme == "rtsp"@
            || scheme == "rtsps"@)),
{
}

/// A list of inputs is refused exactly where it is empty or holds an address
/// that is none of a camera.
pub proof fn lemma_inputs_decided(inputs: Seq<VideoSourceInput>, error: RtspUrlError)
    ensures
        inputs_refused(inputs, error) ==> inputs.len() == 0 || exists|i: int|
            0 <= i < inputs.len() && !valid_address((#[trigger] inputs[i]).url@),
        inputs_refused(inputs, error) ==> !(error is TooLong) && (error is NoInput <==> inputs.len()
            == 0),
{
    if inputs_refused(inputs, error) && !(error is NoInput) {
        let i = choose|i: int|
            0 <= i < inputs.len() && valid_inputs(inputs.take(i)) && checked_as(
                (#[trigger] inputs[i]).url@,
                parsed_url(inputs[i].url@),
                Err(error),
            );
        assert(!valid_address(inputs[i].url@));
    }
}

} // verus!
