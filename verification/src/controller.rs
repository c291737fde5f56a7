//! The display controller: the state shared between the interrupt-driven
//! receive path and the periodic display path, and the two transitions
//! that drive it.
//!
//! `receive_byte` is the per-byte step of the serial protocol parser; it
//! assembles frames into a scratch buffer and, on completion, publishes
//! the frame under the shared next-frame slot, discarding any unconsumed
//! predecessor. `display_tick` renders one row of the current frame and,
//! only at the row-7 frame boundary, swaps in a published frame and
//! returns the old buffer to the pool. On the target the two paths run
//! at different priorities; each call here is one of the short critical
//! sections, so "take old, publish new, free old" is atomic from either
//! side's perspective.
//!
//! Wire protocol: the byte 0xFF is an unconditional frame-start marker,
//! never a data byte. The marker itself counts as the first of the 192
//! framed bytes, so the 191 bytes that follow it fill byte-view positions
//! 1 through 191 of the frame; position 0 keeps the fresh buffer's
//! default value 0. A data byte with no frame in progress is silently
//! dropped; there is no checksum and no recovery other than waiting for
//! the next marker.

use crate::color::black;
use crate::color::Color;
use crate::image::byte_view;
use crate::image::spec_put_byte;
use crate::image::Image;
use crate::matrix::row_events;
use crate::matrix::init_events;
use crate::matrix::Matrix;
use crate::matrix::PinEvent;
use crate::pool::FrameHandle;
use crate::pool::FramePool;
use vstd::prelude::*;

verus! {

/// The number of bytes counted per frame: the start marker plus the
/// payload that fills the 192-byte view.
pub const FRAME_SIZE: usize = 192;

/// The pool holds one buffer for the frame being displayed, one for the
/// frame being received, and one transient buffer for the published
/// frame during hand-off.
pub const POOL_CAPACITY: usize = 3;

pub struct Controller {
    pool: FramePool,
    next_frame: Option<FrameHandle>,
    current: FrameHandle,
    rx: FrameHandle,
    rx_pos: usize,
    collecting: bool,
    next_line: usize,
    matrix: Matrix,
}

impl Controller {
    /// The frame the display path is rendering.
    pub closed spec fn current_image(&self) -> Seq<Color> {
        self.current@
    }

    /// The published frame awaiting display, if any.
    pub closed spec fn next_image(&self) -> Option<Seq<Color>> {
        match self.next_frame {
            Some(h) => Some(h@),
            None => None,
        }
    }

    /// The scratch frame the receive path is filling.
    pub closed spec fn rx_image(&self) -> Seq<Color> {
        self.rx@
    }

    /// How many bytes of the current frame have been counted, the start
    /// marker included.
    pub closed spec fn position(&self) -> int {
        self.rx_pos as int
    }

    /// Whether a frame-start marker has been seen and the parser is
    /// accumulating bytes.
    pub closed spec fn is_collecting(&self) -> bool {
        self.collecting
    }

    /// The row the display path will render next.
    pub closed spec fn line(&self) -> int {
        self.next_line as int
    }

    /// The pin-event trace emitted so far.
    pub closed spec fn trace(&self) -> Seq<PinEvent> {
        self.matrix@
    }

    /// The controller's internal consistency: the pool has 3 slots; the
    /// display, receive and published buffers own distinct, live slots
    /// and nothing else is live; frames have 64 pixels; the byte counter
    /// stays within one frame.
    pub closed spec fn wf(&self) -> bool {
        &&& self.pool.capacity() == POOL_CAPACITY as int
        &&& self.current@.len() == 64
        &&& self.rx@.len() == 64
        &&& self.pool.slot_used(self.current.slot_id())
        &&& self.pool.slot_used(self.rx.slot_id())
        &&& self.current.slot_id() != self.rx.slot_id()
        &&& match self.next_frame {
            Some(h) => {
                &&& h@.len() == 64
                &&& self.pool.slot_used(h.slot_id())
                &&& h.slot_id() != self.current.slot_id()
                &&& h.slot_id() != self.rx.slot_id()
            },
            None => true,
        }
        &&& forall|s: int|
            #[trigger] self.pool.slot_used(s) ==> (s == self.current.slot_id() || s
                == self.rx.slot_id() || (self.next_frame is Some
                && s == self.next_frame->Some_0.slot_id()))
        &&& self.collecting ==> 1 <= self.rx_pos < FRAME_SIZE
        &&& !self.collecting ==> self.rx_pos == 0
        &&& self.next_line < 8
    }

    /// A controller in its reset state: pool claimed, one all-black frame
    /// held as current, one as receive scratch, nothing published, row 0
    /// next, the hardware power-up sequence performed.
    pub fn new() -> (c: Controller)
        ensures
            c.wf(),
            c.line() == 0,
            c.position() == 0,
            !c.is_collecting(),
            c.next_image() is None,
            c.current_image().len() == 64,
            forall|i: int| 0 <= i < 64 ==> c.current_image()[i] == black(),
            c.rx_image().len() == 64,
            forall|i: int| 0 <= i < 64 ==> c.rx_image()[i] == black(),
            c.trace() == init_events(),
    {
        let mut pool = FramePool::new(POOL_CAPACITY);
        let current = match pool.allocate() {
            Ok(h) => h,
            Err(_) => {
                proof {
                    assert(!pool.slot_used(0));
                }
                vstd::pervasive::unreached()
            },
        };
        let rx = match pool.allocate() {
            Ok(h) => h,
            Err(_) => {
                proof {
                    assert(!(pool.slot_used(0) && pool.slot_used(1) && pool.slot_used(2)));
                }
                vstd::pervasive::unreached()
            },
        };
        proof {
            assert(forall|s: int|
                #[trigger] pool.slot_used(s) ==> (s == current.slot_id() || s == rx.slot_id()));
        }
        Controller {
            pool,
            next_frame: None,
            current,
            rx,
            rx_pos: 0,
            collecting: false,
            next_line: 0,
            matrix: Matrix::new(),
        }
    }

    /// Handles one byte from the serial link. A 0xFF marker (re)starts
    /// frame collection at count 1, whatever came before. A data byte
    /// outside a frame changes nothing. A data byte inside a frame is
    /// written at the count's byte-view position; when the count reaches
    /// a full frame, the frame is published (discarding and recycling any
    /// unconsumed predecessor), a fresh all-black scratch buffer is
    /// allocated, and the parser returns to idle. The display state and
    /// the currently rendered frame are never touched.
    pub fn receive_byte(&mut self, b: u8)
        requires
            old(self).wf(),
        ensures
            final(self).wf(),
            final(self).trace() == old(self).trace(),
            final(self).line() == old(self).line(),
            final(self).current_image() == old(self).current_image(),
            b == 0xFF ==> {
                &&& final(self).is_collecting()
                &&& final(self).position() == 1
                &&& final(self).rx_image() == old(self).rx_image()
                &&& final(self).next_image() == old(self).next_image()
            },
            b != 0xFF && !old(self).is_collecting() ==> {
                &&& !final(self).is_collecting()
                &&& final(self).position() == 0
                &&& final(self).rx_image() == old(self).rx_image()
                &&& final(self).next_image() == old(self).next_image()
            },
            b != 0xFF && old(self).is_collecting() && old(self).position() < FRAME_SIZE - 1 ==> {
                &&& final(self).is_collecting()
                &&& final(self).position() == old(self).position() + 1
                &&& final(self).rx_image() == old(self).rx_image().update(
                    old(self).position() / 3,
                    spec_put_byte(
                        old(self).rx_image()[old(self).position() / 3],
                        old(self).position() % 3,
                        b,
                    ),
                )
                &&& byte_view(final(self).rx_image()) == byte_view(old(self).rx_image()).update(
                    old(self).position(),
                    b,
                )
                &&& final(self).next_image() == old(self).next_image()
            },
            b != 0xFF && old(self).is_collecting() && old(self).position() == FRAME_SIZE - 1 ==> {
                &&& !final(self).is_collecting()
                &&& final(self).position() == 0
                &&& final(self).next_image() == Some(
                    old(self).rx_image().update(
                        63,
                        spec_put_byte(old(self).rx_image()[63], 2, b),
                    ),
                )
                &&& final(self).rx_image().len() == 64
                &&& forall|i: int| 0 <= i < 64 ==> final(self).rx_image()[i] == black()
            },
    {
        if b == 0xFF {
            self.rx_pos = 1;
            self.collecting = true;
        } else if self.collecting {
            let pos = self.rx_pos;
            self.rx.image_mut().set_byte(pos, b);
            self.rx_pos = pos + 1;
            if self.rx_pos == FRAME_SIZE {
                // Take old, publish new, free old: one atomic hand-off.
                let stale = self.next_frame.take();
                match stale {
                    Some(h) => self.pool.release(h),
                    None => {},
                }
                let mut published = match self.pool.allocate() {
                    Ok(h) => h,
                    Err(_) => {
                        proof {
                            assert(!(self.pool.slot_used(0) && self.pool.slot_used(1)
                                && self.pool.slot_used(2)));
                        }
                        vstd::pervasive::unreached()
                    },
                };
                core::mem::swap(&mut published, &mut self.rx);
                self.next_frame = Some(published);
                self.rx_pos = 0;
                self.collecting = false;
            }
        }
    }

    /// Renders one row of the current frame on the matrix and advances to
    /// the next row. Only after rendering row 7 — the frame boundary —
    /// does it look at the published slot: a waiting frame is swapped in
    /// (in place, no copy) and the retired buffer returns to the pool.
    /// Mid-frame ticks never change which frame is being rendered, so a
    /// frame published mid-refresh is observed exactly at the next
    /// boundary.
    pub fn display_tick(&mut self)
        requires
            old(self).wf(),
        ensures
            final(self).wf(),
            final(self).trace() == old(self).trace() + row_events(
                old(self).line(),
                old(self).current_image().subrange(
                    8 * old(self).line(),
                    8 * old(self).line() + 8,
                ),
            ),
            final(self).line() == if old(self).line() == 7 {
                0int
            } else {
                old(self).line() + 1
            },
            final(self).position() == old(self).position(),
            final(self).is_collecting() == old(self).is_collecting(),
            final(self).rx_image() == old(self).rx_image(),
            old(self).line() != 7 ==> {
                &&& final(self).current_image() == old(self).current_image()
                &&& final(self).next_image() == old(self).next_image()
            },
            old(self).line() == 7 ==> {
                &&& final(self).next_image() is None
                &&& final(self).current_image() == (match old(self).next_image() {
                    Some(img) => img,
                    None => old(self).current_image(),
                })
            },
    {
        let line = self.next_line;
        let pixels = self.current.image().row(line);
        self.matrix.send_row(line, pixels);
        if line == 7 {
            self.next_line = 0;
            let taken = self.next_frame.take();
            match taken {
                Some(mut h) => {
                    core::mem::swap(&mut h, &mut self.current);
                    self.pool.release(h);
                },
                None => {},
            }
        } else {
            self.next_line = line + 1;
        }
    }

    /// Read-only access to the frame the display path is rendering.
    pub fn current(&self) -> (img: &Image)
        ensures
            img@ == self.current_image(),
    {
        self.current.image()
    }

    /// Read-only access to the published frame, if one is waiting.
    pub fn published(&self) -> (o: Option<&Image>)
        ensures
            match o {
                Some(img) => self.next_image() == Some(img@),
                None => self.next_image() is None,
            },
    {
        match &self.next_frame {
            Some(h) => Some(h.image()),
            None => None,
        }
    }

    /// Whether a frame is currently being collected.
    pub fn collecting(&self) -> (c: bool)
        ensures
            c == self.is_collecting(),
    {
        self.collecting
    }

    /// The current byte count within the frame being collected.
    pub fn pos(&self) -> (p: usize)
        ensures
            p == self.position(),
    {
        self.rx_pos
    }

    /// The row the display path will render on the next tick.
    pub fn next_row(&self) -> (r: usize)
        ensures
            r == self.line(),
    {
        self.next_line
    }

    /// The pin-event trace emitted so far.
    pub fn events(&self) -> (t: &Vec<PinEvent>)
        ensures
            t@ == self.trace(),
    {
        self.matrix.events()
    }

    /// Hands the accumulated pin-event trace to the caller (who replays
    /// it onto the hardware) and starts a fresh one.
    pub fn take_events(&mut self) -> (t: Vec<PinEvent>)
        ensures
            t@ == old(self).trace(),
            final(self).trace() == Seq::<PinEvent>::empty(),
            final(self).wf() == old(self).wf(),
            final(self).line() == old(self).line(),
            final(self).position() == old(self).position(),
            final(self).is_collecting() == old(self).is_collecting(),
            final(self).rx_image() == old(self).rx_image(),
            final(self).current_image() == old(self).current_image(),
            final(self).next_image() == old(self).next_image(),
    {
        self.matrix.take_events()
    }
}

} // verus!
