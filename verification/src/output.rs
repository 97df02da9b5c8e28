#![verifier::loop_isolation(false)]

//! The real-time output pipeline: paces graph evaluation to the free space
//! of a bounded ring buffer shared with an audio callback, damps amplitude
//! changes, and mutes under overload instead of blocking.
//!
//! The buffer is the `ringbuf` crate's single-producer single-consumer ring;
//! the consuming side runs on a platform audio thread, so the contracts here
//! state only what holds of every outcome.

use vstd::prelude::*;
use ringbuf::HeapRb;
use crate::damper::{damper_iter, LinearDamper};
use crate::frame::{Frame, UNIT};
use crate::rack::Rack;

verus! {

/// The producing end of the rack's bounded output ring, from the `ringbuf`
/// crate.  Verus cannot take that crate's generic bounds, so the producer
/// sits in an opaque holder and is spoken of only through the trusted
/// wrappers below.
#[verifier::external_body]
pub struct FrameProducer {
    inner: ringbuf::HeapProducer<Frame>,
}

/// The consuming end of the ring, handed to the audio callback.
#[verifier::external_body]
pub struct FrameConsumer {
    inner: ringbuf::HeapConsumer<Frame>,
}

/// The fixed capacity a bounded frame ring was created with.
pub uninterp spec fn rb_capacity(p: FrameProducer) -> nat;

/// The frames this producing end has ever appended to its ring, in order.
/// Only the producer appends, so its history grows only through the wrappers
/// below, whatever the consuming thread does.
pub uninterp spec fn rb_history(p: FrameProducer) -> Seq<Frame>;

/// Relies on HeapRb::new and SharedRb::split: the ring holds exactly
/// `capacity` places (`new` panics on zero) and splits into one producer and
/// one consumer of the same buffer.
#[verifier::external_body]
fn rb_new(capacity: usize) -> (r: (FrameProducer, FrameConsumer))
    requires
        capacity >= 1,
    ensures
        rb_capacity(r.0) == capacity,
        rb_history(r.0) == Seq::<Frame>::empty(),
{
    let (producer, consumer) = HeapRb::new(capacity).split();
    (FrameProducer { inner: producer }, FrameConsumer { inner: consumer })
}

/// Relies on Producer::push: appends the frame if a place is free at this
/// moment, else hands it back unchanged and appends nothing; the capacity
/// never changes.
#[verifier::external_body]
fn rb_push(p: &mut FrameProducer, frame: Frame) -> (r: Result<(), Frame>)
    ensures
        rb_capacity(*final(p)) == rb_capacity(*old(p)),
        r is Ok ==> rb_history(*final(p)) == rb_history(*old(p)).push(frame),
        r is Err ==> r->Err_0 == frame && rb_history(*final(p)) == rb_history(*old(p)),
{
    p.inner.push(frame)
}

/// Relies on Producer::free_len: the number of free places at this moment,
/// never more than the capacity; a concurrent consumer can only free more.
#[verifier::external_body]
fn rb_free_len(p: &FrameProducer) -> (r: usize)
    ensures
        r <= rb_capacity(*p),
{
    p.inner.free_len()
}

/// Relies on Producer::len: the number of occupied places at this moment,
/// never more than the capacity.
#[verifier::external_body]
pub fn rb_len(p: &FrameProducer) -> (r: usize)
    ensures
        r <= rb_capacity(*p),
{
    p.inner.len()
}

/// Relies on Consumer::pop: takes the oldest frame if one is present.
#[verifier::external_body]
pub fn consumer_pop(c: &mut FrameConsumer) -> (r: Option<Frame>)
{
    c.inner.pop()
}

/// The first `n` frames of a batch, each scaled by the damper amplitude of
/// its step: frame `i` carries the gain after `i + 1` damping steps from
/// `start` toward `target`.
pub open spec fn damped_frames(
    frames: Seq<Frame>,
    start: int,
    max_dif: int,
    target: int,
    n: nat,
) -> Seq<Frame> {
    Seq::new(
        n,
        |i: int| frames[i].spec_scale(damper_iter(start, max_dif, target, (i + 1) as nat)),
    )
}

/// One live audio output stream: the producing end of the ring, paced and
/// damped.  The consuming end lives with the device callback.
pub struct StreamInstance {
    /// Producing end of the shared bounded ring.
    pub producer: FrameProducer,
    /// Samples per second of the attached device.
    pub sample_rate: u32,
    /// Channel count of the attached device.
    pub channels: u16,
    /// Anti-click damper on the applied gain.
    pub damper: LinearDamper,
    /// Requested gain; the damper chases it.
    pub volume: i64,
    /// While muted the damper's target is silence.
    pub muted: bool,
    /// Set when the buffer runs too far ahead ("falling behind"): the damper
    /// then also aims at silence until the stream catches up.
    pub protection: bool,
}

impl StreamInstance {
    pub open spec fn wf(self) -> bool {
        &&& self.damper.wf()
        &&& self.damper.max_dif >= 1
        &&& self.sample_rate >= 1
    }

    /// The damper's current target: silence while muted or overloaded, else
    /// the requested volume.
    pub open spec fn target(self) -> int {
        if self.muted || self.protection {
            0
        } else {
            self.volume as int
        }
    }

    /// The ring capacity for a given rate: 150 milliseconds of frames.
    pub open spec fn spec_ring_size(sample_rate: int) -> int {
        if sample_rate * 15 / 100 >= 1 {
            sample_rate * 15 / 100
        } else {
            1
        }
    }

    /// Opens a stream: a fresh ring of about 150 ms, a cutoff damper for the
    /// rate, and half volume.  Returns the consuming end for the device
    /// callback.
    pub fn new(sample_rate: u32, channels: u16) -> (r: (StreamInstance, FrameConsumer))
        requires
            sample_rate >= 1,
        ensures
            r.0.wf(),
            r.0.sample_rate == sample_rate,
            r.0.channels == channels,
            r.0.volume == UNIT / 2,
            !r.0.muted,
            !r.0.protection,
            r.0.damper.current == 0,
            rb_capacity(r.0.producer) == Self::spec_ring_size(sample_rate as int),
    {
        let size64: u64 = sample_rate as u64 * 15 / 100;
        let size: usize = if size64 >= 1 {
            size64 as usize
        } else {
            1
        };
        let (producer, consumer) = rb_new(size);
        let stream = StreamInstance {
            producer,
            sample_rate,
            channels,
            damper: LinearDamper::new_cutoff(sample_rate),
            volume: UNIT / 2,
            muted: false,
            protection: false,
        };
        (stream, consumer)
    }

    pub fn sample_rate(&self) -> (r: u32)
        ensures
            r == self.sample_rate,
    {
        self.sample_rate
    }

    pub fn channels(&self) -> (r: u16)
        ensures
            r == self.channels,
    {
        self.channels
    }

    /// Free places in the ring at this moment.
    pub fn free_len(&self) -> (r: usize)
        ensures
            r <= rb_capacity(self.producer),
    {
        rb_free_len(&self.producer)
    }

    pub fn set_volume(&mut self, volume: i64)
        ensures
            *final(self) == (StreamInstance { volume, ..*old(self) }),
    {
        self.volume = volume;
    }

    pub fn set_muted(&mut self, muted: bool)
        ensures
            *final(self) == (StreamInstance { muted, ..*old(self) }),
    {
        self.muted = muted;
    }

    /// Overload check: with more free space than the damper needs to fade a
    /// whole unit, the stream is falling behind, and output mutes until it
    /// catches up.  Returns the free-space reading the decision used.
    pub fn update_protection(&mut self) -> (n: usize)
        requires
            old(self).wf(),
        ensures
            final(self).wf(),
            n <= rb_capacity(old(self).producer),
            final(self).protection <==> n > UNIT as int / old(self).damper.max_dif as int,
            *final(self) == (StreamInstance { protection: final(self).protection, ..*old(self) }),
    {
        let n = rb_free_len(&self.producer);
        let cutoff = self.damper.cutoff_samples();
        self.protection = n as i128 > cutoff as i128;
        n
    }

    /// Pushes a batch of frames, each scaled by one damper step toward the
    /// current target, until the ring reports no space.  Returns how many
    /// frames entered the ring; the damper has stepped once per push, plus
    /// once for a frame refused by a full ring.
    pub fn push_frames(&mut self, frames: &Vec<Frame>) -> (pushed: usize)
        requires
            old(self).wf(),
        ensures
            final(self).wf(),
            pushed <= frames@.len(),
            rb_capacity(final(self).producer) == rb_capacity(old(self).producer),
            // exactly the first `pushed` damped frames entered the ring
            rb_history(final(self).producer) == rb_history(old(self).producer) + damped_frames(
                frames@,
                old(self).damper.current as int,
                old(self).damper.max_dif as int,
                old(self).target(),
                pushed as nat,
            ),
            final(self).volume == old(self).volume,
            final(self).muted == old(self).muted,
            final(self).protection == old(self).protection,
            final(self).sample_rate == old(self).sample_rate,
            final(self).damper.max_dif == old(self).damper.max_dif,
            ({
                let steps: nat = if pushed < frames@.len() {
                    (pushed + 1) as nat
                } else {
                    pushed as nat
                };
                final(self).damper.current == damper_iter(
                    old(self).damper.current as int,
                    old(self).damper.max_dif as int,
                    old(self).target(),
                    steps,
                )
            }),
    {
        let target: i64 = if self.muted || self.protection {
            0
        } else {
            self.volume
        };
        let ghost t0 = self.target();
        let mut i: usize = 0;
        while i < frames.len()
            invariant
                i <= frames@.len(),
                self.wf(),
                self.damper.max_dif == old(self).damper.max_dif,
                self.volume == old(self).volume,
                self.muted == old(self).muted,
                self.protection == old(self).protection,
                self.sample_rate == old(self).sample_rate,
                self.channels == old(self).channels,
                rb_capacity(self.producer) == rb_capacity(old(self).producer),
                rb_history(self.producer) == rb_history(old(self).producer) + damped_frames(
                    frames@,
                    old(self).damper.current as int,
                    old(self).damper.max_dif as int,
                    t0,
                    i as nat,
                ),
                target == t0,
                t0 == old(self).target(),
                self.damper.current == damper_iter(
                    old(self).damper.current as int,
                    old(self).damper.max_dif as int,
                    t0,
                    i as nat,
                ),
            decreases frames@.len() - i,
        {
            let ghost before = self.damper.current as int;
            let ampl = self.damper.frame(target);
            proof {
                assert(damper_iter(
                    old(self).damper.current as int,
                    old(self).damper.max_dif as int,
                    t0,
                    (i + 1) as nat,
                ) == damper_iter(self.damper.current as int, old(self).damper.max_dif as int, t0, 0nat)) by {
                    lemma_damper_iter_snoc(
                        old(self).damper.current as int,
                        old(self).damper.max_dif as int,
                        t0,
                        i as nat,
                    );
                }
            }
            let frame = frames[i].scale(ampl);
            match rb_push(&mut self.producer, frame) {
                Result::Ok(()) => {},
                Result::Err(_) => {
                    return i;
                },
            }
            i = i + 1;
            proof {
                assert(rb_history(self.producer) == rb_history(old(self).producer)
                    + damped_frames(
                    frames@,
                    old(self).damper.current as int,
                    old(self).damper.max_dif as int,
                    t0,
                    i as nat,
                )) by {
                    let d0 = damped_frames(
                        frames@,
                        old(self).damper.current as int,
                        old(self).damper.max_dif as int,
                        t0,
                        (i - 1) as nat,
                    );
                    let d1 = damped_frames(
                        frames@,
                        old(self).damper.current as int,
                        old(self).damper.max_dif as int,
                        t0,
                        i as nat,
                    );
                    assert(d1 =~= d0.push(frames@[i - 1].spec_scale(damper_iter(
                        old(self).damper.current as int,
                        old(self).damper.max_dif as int,
                        t0,
                        i as nat,
                    ))));
                }
            }
        }
        i
    }
}

/// Unrolling one more damping step from the back.
proof fn lemma_damper_iter_snoc(start: int, max_dif: int, target: int, n: nat)
    ensures
        damper_iter(start, max_dif, target, n + 1) == crate::damper::damper_step(
            damper_iter(start, max_dif, target, n),
            max_dif,
            target,
        ),
    decreases n,
{
    let next = crate::damper::damper_step(start, max_dif, target);
    if n == 0 {
        assert(damper_iter(next, max_dif, target, 0) == next);
        assert(damper_iter(start, max_dif, target, 1) == next);
    } else {
        lemma_damper_iter_snoc(next, max_dif, target, (n - 1) as nat);
        assert(damper_iter(start, max_dif, target, n + 1)
            == damper_iter(next, max_dif, target, ((n - 1) + 1) as nat));
        assert(damper_iter(start, max_dif, target, n)
            == damper_iter(next, max_dif, target, (n - 1) as nat));
    }
}

/// One rendering tick: reads how many frames the ring can take, refreshes
/// the overload flag from that reading, evaluates the rack for exactly that
/// many samples, mixes each sample's sink contributions into one frame, and
/// pushes the damped result.  Backpressure is expressed by producing no more
/// than the ring reported free.
///
/// Returns `(requested, pushed, rows)`: `pushed <= requested <= capacity`,
/// `rows` is the ghost record of the evaluation's per-sample sink
/// contributions, and exactly the first `pushed` of their damped mixes
/// entered the ring, in order.
pub fn render_tick(rack: &mut Rack, stream: &mut StreamInstance) -> (r: (
    usize,
    usize,
    Ghost<Seq<Seq<Frame>>>,
))
    requires
        old(rack).wf(),
        old(stream).wf(),
    ensures
        final(rack).wf(),
        final(stream).wf(),
        r.0 <= rb_capacity(old(stream).producer),
        r.1 <= r.0,
        rb_capacity(final(stream).producer) == rb_capacity(old(stream).producer),
        final(stream).protection <==> r.0 > UNIT as int / old(stream).damper.max_dif as int,
        final(rack).instances@.len() == old(rack).instances@.len(),
        // the tick is exactly `r.0` samples of evaluation ...
        crate::rack::eval_samples(
            r.0 as nat,
            crate::rack::flat_order(old(rack).io.processing_order@),
            old(stream).sample_rate,
            old(rack).instances@,
            final(rack).instances@,
            old(rack).io,
            final(rack).io,
            r.2@,
        ),
        // ... and exactly the first `r.1` of their damped per-sample mixes
        // entered the ring, in order
        rb_history(final(stream).producer) == rb_history(old(stream).producer) + damped_frames(
            Seq::new(r.2@.len(), |k: int| Frame::spec_mix(r.2@[k])),
            old(stream).damper.current as int,
            old(stream).damper.max_dif as int,
            if old(stream).muted || r.0 > UNIT as int / old(stream).damper.max_dif as int {
                0
            } else {
                old(stream).volume as int
            },
            r.1 as nat,
        ),
{
    let requested = stream.update_protection();
    let per_sample = rack.process_amount(stream.sample_rate(), requested);
    let ghost rows = per_sample@.map_values(|v: Vec<Frame>| v@);

    let mut mixed: Vec<Frame> = Vec::new();
    let mut i: usize = 0;
    while i < per_sample.len()
        invariant
            i <= per_sample@.len(),
            mixed@.len() == i,
            forall|k: int|
                0 <= k < i ==> (#[trigger] mixed@[k]) == Frame::spec_mix(per_sample@[k]@),
        decreases per_sample@.len() - i,
    {
        mixed.push(Frame::mix(&per_sample[i]));
        i = i + 1;
    }

    let ghost stream_mid = *stream;
    let pushed = stream.push_frames(&mixed);
    proof {
        // the mixes the push saw are exactly the mixes of the evaluation rows
        assert(mixed@ =~= Seq::new(rows.len(), |k: int| Frame::spec_mix(rows[k])));
        assert(stream_mid.target() == if old(stream).muted || requested > UNIT as int / old(
            stream,
        ).damper.max_dif as int {
            0int
        } else {
            old(stream).volume as int
        });
        assert(rb_history(stream_mid.producer) == rb_history(old(stream).producer));
    }
    (requested, pushed, Ghost(rows))
}

} // verus!
