//! The audio capture task's decisions. The task owns the system loopback
//! device, polls for samples on a fixed interval, and writes silence for
//! any interval in which nothing arrived, keeping the wall-clock to
//! sample-count alignment stable under device underrun. The device and the
//! container writing are outside work; the decisions are here.

use vstd::prelude::*;

verus! {

/// The polling interval of the capture loop, in milliseconds.
pub const AUDIO_POLL_INTERVAL_MS: u64 = 100;

/// The sample formats a device may offer; everything else is unsupported
/// and fails the capture start.
pub enum SampleFormatKind {
    FloatThirtyTwo,
    SignedSixteen,
    UnsignedSixteen,
    Other,
}

/// Whether a negotiated sample format can be captured: the three formats
/// the normalization path handles.
pub fn sample_format_supported(f: &SampleFormatKind) -> (r: bool)
    ensures
        r == !(f is Other),
{
    match f {
        SampleFormatKind::FloatThirtyTwo => true,
        SampleFormatKind::SignedSixteen => true,
        SampleFormatKind::UnsignedSixteen => true,
        SampleFormatKind::Other => false,
    }
}

/// How many samples one silent polling interval spans: a tenth of a second
/// of samples across all channels.
pub fn silence_span_samples(sample_rate: u32, channels: u16) -> (r: u64)
    ensures
        r == (sample_rate as u64 / 10) * (channels as u64),
{
    let per_channel: u64 = sample_rate as u64 / 10;
    proof {
        assert(per_channel * (channels as u64) <= 0x1999_9999u64 * 0xffffu64) by (nonlinear_arith)
            requires
                per_channel <= 0x1999_9999u64,
                channels as u64 <= 0xffffu64,
        ;
    }
    per_channel * (channels as u64)
}

/// What one poll of the sample channel produced.
pub enum RecvOutcome {
    /// A batch of samples arrived.
    Samples,
    /// Nothing arrived within the interval.
    TimedOut,
    /// The sample channel is gone.
    Disconnected,
}

/// The capture loop's next move.
pub enum AudioPollAction {
    /// Write the received samples to the container.
    WriteSamples,
    /// Write one interval's span of silence to keep alignment.
    WriteSilence,
    /// The stop signal arrived or its channel closed: finalize and exit.
    Stop,
    /// The sample channel is gone: finalize and exit.
    Abort,
}

/// Decides one iteration of the capture loop: stop when told to, write what
/// arrived, write silence for a missed interval, abort when the device side
/// went away.
pub fn audio_poll_step(stop_seen: bool, stop_disconnected: bool, recv: &RecvOutcome) -> (r:
    AudioPollAction)
    ensures
        (stop_seen || stop_disconnected) ==> r == AudioPollAction::Stop,
        !(stop_seen || stop_disconnected) ==> r == (match recv {
            RecvOutcome::Samples => AudioPollAction::WriteSamples,
            RecvOutcome::TimedOut => AudioPollAction::WriteSilence,
            RecvOutcome::Disconnected => AudioPollAction::Abort,
        }),
{
    if stop_seen || stop_disconnected {
        return AudioPollAction::Stop;
    }
    match recv {
        RecvOutcome::Samples => AudioPollAction::WriteSamples,
        RecvOutcome::TimedOut => AudioPollAction::WriteSilence,
        RecvOutcome::Disconnected => AudioPollAction::Abort,
    }
}

} // verus!
