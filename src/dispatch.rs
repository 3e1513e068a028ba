//! Chunk dispatch: decides, after each block of samples, whether the
//! accumulated audio is drained and encoded, or a level update is due.
use vstd::prelude::*;
use vstd::string::*;
use crate::container::{create_wav_data, wav_bytes, lemma_wav_round_trip};
use crate::samples::{peak, peak_of};
use base64::Engine;

verus! {

/// Seconds of audio accumulated before a chunk is drained.
pub const CHUNK_SECONDS: u8 = 6;

/// Peak that a drained chunk must exceed to be encoded and sent; quieter
/// chunks (breath, room noise) only update the level.
pub const AMPLITUDE_GATE: i16 = 800;

/// Most samples a buffer may hold when it is drained: its container and
/// the container's base64 text then fit a 32-bit address space.
pub const MAX_CHUNK_SAMPLES: usize = 1_073_741_824;

/// Which speaker a stream captures: the local microphone, or the remote
/// side heard through a playback device.
#[derive(Clone, Copy, Debug, PartialEq, Eq, Structural)]
pub enum Role {
    Local,
    Remote,
}

impl Role {
    pub open spec fn tag_spec(self) -> Seq<char> {
        match self {
            Role::Local => "local"@,
            Role::Remote => "remote"@,
        }
    }

    /// The tag that events of this role carry.
    pub fn tag(&self) -> (r: String)
        ensures
            r@ == self.tag_spec(),
    {
        match self {
            Role::Local => String::from_str("local"),
            Role::Remote => String::from_str("remote"),
        }
    }
}

/// The event handed to the sink: the speaker's tag, the base64 of an encoded
/// chunk (empty for a level-only update), and an amplitude.
#[derive(Clone, Debug)]
pub struct AudioPayload {
    pub speaker: String,
    pub data: String,
    pub amplitude: i16,
}

impl View for AudioPayload {
    type V = (Seq<char>, Seq<char>, i16);

    open spec fn view(&self) -> Self::V {
        (self.speaker@, self.data@, self.amplitude)
    }
}

/// The two tunables of chunking: how many seconds make a chunk, and the
/// amplitude gate a chunk must exceed to be sent as audio.
#[derive(Clone, Copy, Debug, PartialEq, Eq, Structural)]
pub struct ChunkPolicy {
    pub chunk_seconds: u8,
    pub amplitude_gate: i16,
}

impl ChunkPolicy {
    /// Six-second chunks, gate 800.
    pub fn standard() -> (r: ChunkPolicy)
        ensures
            r.chunk_seconds == CHUNK_SECONDS,
            r.amplitude_gate == AMPLITUDE_GATE,
    {
        ChunkPolicy { chunk_seconds: CHUNK_SECONDS, amplitude_gate: AMPLITUDE_GATE }
    }
}

/// A sample rate and channel count that a stream, and the container its
/// chunks go into, can carry.
pub open spec fn stream_shape_ok(rate: int, ch: int) -> bool {
    rate > 0 && ch > 0 && rate * 2 * ch <= u32::MAX
}

/// Number of samples a chunk must exceed before it is drained.
pub open spec fn chunk_limit(rate: int, ch: int, secs: int) -> int {
    rate * ch * secs
}

/// Whether a buffer of `len` samples is drained.
pub open spec fn drains(len: int, rate: int, ch: int, policy: ChunkPolicy) -> bool {
    len > chunk_limit(rate, ch, policy.chunk_seconds as int)
}

/// Samples in about 200 ms of audio.
pub open spec fn level_interval(rate: int, ch: int) -> int {
    rate * ch / 5
}

/// Whether a buffer that was not drained has just reached a level update:
/// its length lies within two frames past a multiple of the interval.
pub open spec fn level_due(len: int, rate: int, ch: int) -> bool {
    let iv = level_interval(rate, ch);
    iv > 0 && len % iv < ch * 2
}

/// Name for what base64's standard padded encoding makes of some bytes.
pub uninterp spec fn base64_of(b: Seq<u8>) -> Seq<char>;

/// Relies on `base64::engine::general_purpose::STANDARD.encode`: the padded
/// standard encoding, four characters for each started group of three
/// bytes. Its length computation panics only past `usize::MAX`.
#[verifier::external_body]
fn encode_base64(b: &Vec<u8>) -> (r: String)
    requires
        4 * ((b@.len() + 2) / 3) <= usize::MAX,
    ensures
        r@ == base64_of(b@),
        r@.len() == 4 * ((b@.len() + 2) / 3),
{
    base64::engine::general_purpose::STANDARD.encode(b)
}

/// The event for a buffer of `taken` samples, drained or not, as a view.
pub open spec fn dispatch_event(
    taken: Seq<i16>,
    drained: bool,
    rate: int,
    ch: int,
    policy: ChunkPolicy,
    role: Role,
    current_amp: i16,
) -> Option<(Seq<char>, Seq<char>, i16)> {
    if drained {
        if peak_of(taken) > policy.amplitude_gate {
            Some((role.tag_spec(), base64_of(wav_bytes(rate, ch, taken)), peak_of(taken)))
        } else {
            Some((role.tag_spec(), Seq::empty(), current_amp))
        }
    } else if level_due(taken.len() as int, rate, ch) {
        Some((role.tag_spec(), Seq::empty(), current_amp))
    } else {
        None
    }
}

pub open spec fn event_view(r: Option<AudioPayload>) -> Option<(Seq<char>, Seq<char>, i16)> {
    match r {
        Some(p) => Some(p@),
        None => None,
    }
}

fn level_event(role: Role, amplitude: i16) -> (r: AudioPayload)
    ensures
        r@ == (role.tag_spec(), Seq::<char>::empty(), amplitude),
{
    AudioPayload { speaker: role.tag(), data: String::new(), amplitude }
}

/// Runs after each block has been appended to `buf`. Past the chunk limit
/// the buffer is emptied and its contents become one event. A loud chunk,
/// whose largest magnitude is above `policy.amplitude_gate`, is sent as
/// encoded audio with that magnitude; a quiet one as an event with no
/// audio whose amplitude is `current_amp`, the peak of the newest block.
/// Below the limit the buffer is kept, and an event with no audio comes
/// about every 200 ms of audio.
pub fn check_and_send_buffer(
    buf: &mut Vec<i16>,
    sample_rate: u32,
    channels: u16,
    policy: ChunkPolicy,
    role: Role,
    current_amp: i16,
) -> (r: Option<AudioPayload>)
    requires
        stream_shape_ok(sample_rate as int, channels as int),
        old(buf)@.len() as int % channels as int == 0,
        old(buf)@.len() <= MAX_CHUNK_SAMPLES,
    ensures
        ({
            let d = drains(old(buf)@.len() as int, sample_rate as int, channels as int, policy);
            &&& d ==> final(buf)@ == Seq::<i16>::empty()
            &&& !d ==> final(buf)@ == old(buf)@
            &&& event_view(r) == dispatch_event(
                old(buf)@,
                d,
                sample_rate as int,
                channels as int,
                policy,
                role,
                current_amp,
            )
        }),
{
    proof {
        assert(sample_rate as int * channels as int <= u32::MAX as int * u16::MAX as int)
            by (nonlinear_arith)
            requires sample_rate <= u32::MAX, channels <= u16::MAX;
        assert(sample_rate as int * channels as int * policy.chunk_seconds as int <= u32::MAX as int
            * u16::MAX as int * u8::MAX as int) by (nonlinear_arith)
            requires
                sample_rate as int * channels as int <= u32::MAX as int * u16::MAX as int,
                policy.chunk_seconds <= u8::MAX,
                0 <= sample_rate as int * channels as int,
        ;
    }
    let per_second: u64 = sample_rate as u64 * channels as u64;
    let limit: u64 = per_second * policy.chunk_seconds as u64;
    if buf.len() as u64 > limit {
        let mut taken: Vec<i16> = Vec::new();
        core::mem::swap(buf, &mut taken);
        let max_amp = peak(taken.as_slice());
        if max_amp > policy.amplitude_gate {
            proof {
                lemma_wav_round_trip(sample_rate, channels, taken@);
            }
            let wav = create_wav_data(sample_rate, channels, &taken);
            let b64 = encode_base64(&wav);
            Some(AudioPayload { speaker: role.tag(), data: b64, amplitude: max_amp })
        } else {
            Some(level_event(role, current_amp))
        }
    } else {
        let interval: u64 = per_second / 5;
        if interval > 0 && (buf.len() as u64) % interval < channels as u64 * 2 {
            Some(level_event(role, current_amp))
        } else {
            None
        }
    }
}

} // verus!
