#![verifier::loop_isolation(false)]

//! A sample player module: plays a decoded frame buffer from a seek
//! position.  Decoding audio files into that buffer is outside the core; the
//! buffer arrives as plain frames.

use vstd::prelude::*;
use crate::frame::Frame;
use crate::instance::InstanceHandle;
use crate::io::{Io, PortHandle};
use crate::module::{ModuleDescription, ModuleKind, PortDescription, PortId, PortType};
use crate::rack::ProcessContext;
use crate::types::{PortValue, ValueType};

verus! {

/// The frame output of a player.
pub struct FileOutput;

impl FileOutput {
    pub open spec fn spec_id() -> PortId {
        PortId { id: 12, value_type: ValueType::Frame }
    }

    pub fn id() -> (r: PortId)
        ensures
            r == Self::spec_id(),
    {
        PortId::new(12, ValueType::Frame)
    }

    pub fn describe() -> (r: PortDescription)
        ensures
            r.id == Self::spec_id(),
            r.port_type == PortType::Output,
    {
        PortDescription::output(Self::id(), "output")
    }
}

/// One player evaluation step: while playing, the frame at the seek position
/// goes on the output and the seek advances; past the end, playback stops
/// and rewinds; otherwise silence.
pub open spec fn file_step(
    pre: File,
    post: File,
    h: InstanceHandle,
    rate: u32,
    io_pre: Io,
    io_post: Io,
    sunk_pre: Seq<Frame>,
    sunk_post: Seq<Frame>,
) -> bool {
    let frame = if pre.playing && pre.seek < pre.buffer@.len() {
        pre.buffer@[pre.seek as int]
    } else {
        Frame::Mono(0)
    };
    &&& post.buffer@ == pre.buffer@
    &&& io_pre.wrote_output(
        io_post,
        PortHandle { id: FileOutput::spec_id(), instance: h },
        PortValue::Frame(frame),
    )
    &&& if pre.playing && pre.seek < pre.buffer@.len() {
        post.seek == pre.seek + 1 && post.playing
    } else if pre.playing {
        post.seek == 0 && !post.playing
    } else {
        post.seek == pre.seek && !post.playing
    }
    &&& sunk_post == sunk_pre
}

/// Plays a decoded buffer of frames, one per sample, stopping at its end.
pub struct File {
    pub buffer: Vec<Frame>,
    pub seek: usize,
    pub playing: bool,
}

impl File {
    pub fn new() -> (r: Self)
        ensures
            r.buffer@.len() == 0,
            r.seek == 0,
            !r.playing,
    {
        Self { buffer: Vec::new(), seek: 0, playing: false }
    }

    /// Installs a decoded buffer and rewinds.
    pub fn load_buffer(&mut self, buffer: Vec<Frame>)
        ensures
            final(self).buffer@ == buffer@,
            final(self).seek == 0,
            final(self).playing == old(self).playing,
    {
        self.buffer = buffer;
        self.seek = 0;
    }

    pub fn describe() -> (r: ModuleDescription)
        ensures
            r.kind == ModuleKind::File,
            r.name@ == "File"@,
            r.inputs@.len() == 0,
            r.outputs@.len() == 1,
            r.outputs@[0].id == FileOutput::spec_id(),
    {
        ModuleDescription::new(ModuleKind::File).name("File").port(FileOutput::describe())
    }

    /// One evaluation step: while playing, emits the frame at the seek
    /// position and advances; at the end of the buffer playback stops and
    /// rewinds.  Otherwise emits silence.
    pub fn process(&mut self, ctx: &mut ProcessContext)
        requires
            old(ctx).io.wf(),
        ensures
            final(ctx).io.wf(),
            final(ctx).sample_rate == old(ctx).sample_rate,
            final(ctx).handle == old(ctx).handle,
            file_step(
                *old(self),
                *final(self),
                old(ctx).handle,
                old(ctx).sample_rate,
                old(ctx).io,
                final(ctx).io,
                old(ctx).sunk@,
                final(ctx).sunk@,
            ),
    {
        let frame = if self.playing {
            if self.seek < self.buffer.len() {
                self.seek = self.seek + 1;
                self.buffer[self.seek - 1]
            } else {
                self.playing = false;
                self.seek = 0;
                Frame::Mono(0)
            }
        } else {
            Frame::Mono(0)
        };
        ctx.set_output(FileOutput::id(), PortValue::Frame(frame));
    }
}

impl Default for File {
    fn default() -> (r: Self)
        ensures
            r.buffer@.len() == 0,
            r.seek == 0,
            !r.playing,
    {
        Self::new()
    }
}

} // verus!
