//! Per-stream capture state: the accumulation buffer of one open stream and
//! what happens to it on each block the hardware delivers.
use vstd::prelude::*;
use crate::dispatch::{
    check_and_send_buffer, chunk_limit, dispatch_event, drains, event_view, stream_shape_ok,
    AudioPayload, ChunkPolicy, Role, MAX_CHUNK_SAMPLES,
};
use crate::negotiate::{SampleEncoding, StreamSpec};
use crate::samples::{from_unsigned, from_unsigned_spec, magnitude, peak_of};

verus! {

/// A block of unsigned samples in the canonical domain.
pub open spec fn unsigned_block(data: Seq<u16>) -> Seq<i16> {
    Seq::new(data.len(), |i: int| from_unsigned_spec(data[i]))
}

/// Whether a stream can be opened on `config`: an encoding that converts to
/// the canonical domain, and a shape its chunks can be encoded in.
pub open spec fn openable(config: StreamSpec) -> bool {
    config.encoding != SampleEncoding::Other && stream_shape_ok(
        config.sample_rate as int,
        config.channels as int,
    )
}

proof fn lemma_whole_frames(a: int, b: int, ch: int)
    requires
        ch > 0,
        a >= 0,
        b >= 0,
        a % ch == 0,
        b % ch == 0,
    ensures
        (a + b) % ch == 0,
{
    vstd::arithmetic::div_mod::lemma_mod_adds(a, b, ch);
}

/// The accumulation buffer of one open stream, with the configuration,
/// role and chunking policy it was opened with.
pub struct CaptureState {
    buffer: Vec<i16>,
    config: StreamSpec,
    role: Role,
    policy: ChunkPolicy,
}

impl CaptureState {
    pub closed spec fn pending(&self) -> Seq<i16> {
        self.buffer@
    }

    pub closed spec fn config_spec(&self) -> StreamSpec {
        self.config
    }

    pub closed spec fn role_spec(&self) -> Role {
        self.role
    }

    pub closed spec fn policy_spec(&self) -> ChunkPolicy {
        self.policy
    }

    /// The buffer holds whole frames and never more than one chunk.
    pub closed spec fn wf(&self) -> bool {
        &&& openable(self.config)
        &&& self.buffer@.len() as int % self.config.channels as int == 0
        &&& self.buffer@.len() <= chunk_limit(
            self.config.sample_rate as int,
            self.config.channels as int,
            self.policy.chunk_seconds as int,
        )
    }

    /// Opens the state of a stream on `config`; `None` when no stream can be
    /// opened on it.
    pub fn open(config: StreamSpec, role: Role, policy: ChunkPolicy) -> (r: Option<CaptureState>)
        ensures
            r.is_some() <==> openable(config),
            r.is_some() ==> ({
                let s = r.unwrap();
                &&& s.wf()
                &&& s.pending() == Seq::<i16>::empty()
                &&& s.config_spec() == config
                &&& s.role_spec() == role
                &&& s.policy_spec() == policy
            }),
    {
        proof {
            assert(config.sample_rate as int * 2 * config.channels as int <= u32::MAX as int * 2
                * u16::MAX as int) by (nonlinear_arith)
                requires config.sample_rate <= u32::MAX, config.channels <= u16::MAX;
        }
        let shape_ok = config.sample_rate > 0 && config.channels > 0 && config.sample_rate as u64
            * 2 * config.channels as u64 <= u32::MAX as u64;
        match config.encoding {
            SampleEncoding::Other => None,
            _ => {
                if shape_ok {
                    proof {
                        assert(0 <= config.sample_rate as int * config.channels as int
                            * policy.chunk_seconds as int) by (nonlinear_arith)
                            requires config.sample_rate >= 0, config.channels >= 0, policy.chunk_seconds >= 0;
                    }
                    let st = CaptureState { buffer: Vec::new(), config, role, policy };
                    assert(st.buffer@.len() == 0);
                    assert(st.wf());
                    Some(st)
                } else {
                    None
                }
            },
        }
    }

    /// Number of samples waiting in the buffer.
    pub fn pending_len(&self) -> (r: usize)
        ensures
            r == self.pending().len(),
    {
        self.buffer.len()
    }

    pub fn config(&self) -> (r: StreamSpec)
        ensures
            r == self.config_spec(),
    {
        self.config
    }

    /// Appends a block of canonical samples, then runs the chunk dispatch
    /// with the block's peak; returns the event to hand to the sink.
    pub fn accept_i16(&mut self, data: &[i16]) -> (r: Option<AudioPayload>)
        requires
            old(self).wf(),
            data@.len() as int % old(self).config_spec().channels as int == 0,
            old(self).pending().len() + data@.len() <= MAX_CHUNK_SAMPLES,
        ensures
            final(self).wf(),
            final(self).config_spec() == old(self).config_spec(),
            final(self).role_spec() == old(self).role_spec(),
            final(self).policy_spec() == old(self).policy_spec(),
            ({
                let all = old(self).pending() + data@;
                let c = old(self).config_spec();
                let d = drains(all.len() as int, c.sample_rate as int, c.channels as int, old(self).policy_spec());
                &&& final(self).pending() == (if d { Seq::<i16>::empty() } else { all })
                &&& event_view(r) == dispatch_event(
                    all,
                    d,
                    c.sample_rate as int,
                    c.channels as int,
                    old(self).policy_spec(),
                    old(self).role_spec(),
                    peak_of(data@),
                )
            }),
    {
        let ghost start = self.buffer@;
        let mut block_peak: i16 = 0;
        let mut i: usize = 0;
        while i < data.len()
            invariant
                i <= data@.len(),
                self.buffer@ == start + data@.take(i as int),
                block_peak == peak_of(data@.take(i as int)),
                self.config == old(self).config,
                self.role == old(self).role,
                self.policy == old(self).policy,
            decreases data@.len() - i,
        {
            let s = data[i];
            self.buffer.push(s);
            let m = magnitude(s);
            if m > block_peak {
                block_peak = m;
            }
            proof {
                assert(data@.take(i as int + 1).drop_last() == data@.take(i as int));
                assert(start + data@.take(i as int + 1) == (start + data@.take(i as int)).push(s));
            }
            i += 1;
        }
        proof {
            assert(data@.take(i as int) == data@);
            lemma_whole_frames(start.len() as int, data@.len() as int, self.config.channels as int);
        }
        self.dispatch(block_peak)
    }

    /// Converts a block of unsigned samples to the canonical domain, appends
    /// it, then runs the chunk dispatch with the converted block's peak.
    pub fn accept_u16(&mut self, data: &[u16]) -> (r: Option<AudioPayload>)
        requires
            old(self).wf(),
            data@.len() as int % old(self).config_spec().channels as int == 0,
            old(self).pending().len() + data@.len() <= MAX_CHUNK_SAMPLES,
        ensures
            final(self).wf(),
            final(self).config_spec() == old(self).config_spec(),
            final(self).role_spec() == old(self).role_spec(),
            final(self).policy_spec() == old(self).policy_spec(),
            ({
                let block = unsigned_block(data@);
                let all = old(self).pending() + block;
                let c = old(self).config_spec();
                let d = drains(all.len() as int, c.sample_rate as int, c.channels as int, old(self).policy_spec());
                &&& final(self).pending() == (if d { Seq::<i16>::empty() } else { all })
                &&& event_view(r) == dispatch_event(
                    all,
                    d,
                    c.sample_rate as int,
                    c.channels as int,
                    old(self).policy_spec(),
                    old(self).role_spec(),
                    peak_of(block),
                )
            }),
    {
        let ghost start = self.buffer@;
        let ghost block = unsigned_block(data@);
        let mut block_peak: i16 = 0;
        let mut i: usize = 0;
        while i < data.len()
            invariant
                i <= data@.len(),
                block == unsigned_block(data@),
                self.buffer@ == start + block.take(i as int),
                block_peak == peak_of(block.take(i as int)),
                self.config == old(self).config,
                self.role == old(self).role,
                self.policy == old(self).policy,
            decreases data@.len() - i,
        {
            let s = from_unsigned(data[i]);
            self.buffer.push(s);
            let m = magnitude(s);
            if m > block_peak {
                block_peak = m;
            }
            proof {
                assert(block.take(i as int + 1).drop_last() == block.take(i as int));
                assert(start + block.take(i as int + 1) == (start + block.take(i as int)).push(s));
            }
            i += 1;
        }
        proof {
            assert(block.take(i as int) == block);
            lemma_whole_frames(start.len() as int, data@.len() as int, self.config.channels as int);
        }
        self.dispatch(block_peak)
    }

    fn dispatch(&mut self, block_peak: i16) -> (r: Option<AudioPayload>)
        requires
            openable(old(self).config),
            old(self).buffer@.len() as int % old(self).config.channels as int == 0,
            old(self).buffer@.len() <= MAX_CHUNK_SAMPLES,
        ensures
            final(self).wf(),
            final(self).config == old(self).config,
            final(self).role == old(self).role,
            final(self).policy == old(self).policy,
            ({
                let all = old(self).buffer@;
                let c = old(self).config;
                let d = drains(all.len() as int, c.sample_rate as int, c.channels as int, old(self).policy);
                &&& final(self).buffer@ == (if d { Seq::<i16>::empty() } else { all })
                &&& event_view(r) == dispatch_event(
                    all,
                    d,
                    c.sample_rate as int,
                    c.channels as int,
                    old(self).policy,
                    old(self).role,
                    block_peak,
                )
            }),
    {
        check_and_send_buffer(
            &mut self.buffer,
            self.config.sample_rate,
            self.config.channels,
            self.policy,
            self.role,
            block_peak,
        )
    }
}

} // verus!
