//! The driver facade: owns the bus, the two control lines, the
//! configuration and the scratch buffer, and exposes the drawing
//! operations.

use vstd::prelude::*;

use crate::color::{
    expand_bits_bytes, expand_bits_prefix, fill_solid_prefix, lemma_solid_bytes_concat,
    lemma_solid_bytes_len, lemma_solid_bytes_prefix, solid_bytes, Rgb565,
};
use crate::config::{madctl_byte, madctl_value, Config, Orientation};
use crate::framing::{
    be16, bytes_of_frames, dc_levels_of_frames, frame_bytes, frame_dc_levels,
    lemma_bytes_of_frames3, lemma_bytes_of_frames_concat, lemma_bytes_of_frames_push,
    lemma_bytes_of_frames_take_step, lemma_dc_levels_of_frames3, lemma_dc_levels_of_frames_push,
    lemma_dc_levels_of_frames_take_step, lemma_take_prefix_left, lemma_wrote_prefix_extend,
    lemma_wrote_prefix_widen, window_frames, wrote_prefix, Frame,
};
use crate::instruction::Instruction;
use crate::interface::{Bus, ControlPin, Error, Timer};
use crate::init::{
    entry_frame, init_command_frame, init_command_frames, init_delay, init_entries, init_frames,
    INIT_LEN,
};
use crate::rotation::{
    apply_set_rotation, logical_h, logical_w, rect_window, transform_pt, Rotation,
};
use crate::BUF_SIZE;

verus! {

/// Pixels per chunk of a batched solid fill. The chunk size is a fixed
/// constant, not proportional to the draw size, so that the transfer runs
/// out of the bounded scratch buffer.
pub const CHUNK_PIXELS: usize = 512;

/// The visible span of a requested extent starting at `pos`, clipped
/// against a frame `limit`: the full extent where it fits, the remaining
/// span otherwise. Meaningful for `pos < limit`.
pub open spec fn clip_extent(pos: u16, want: u16, limit: u16) -> u16 {
    if pos + want <= limit {
        want
    } else {
        (limit - pos) as u16
    }
}

/// The height of the block a bitmap write covers for a given width: the
/// scratch buffer's pixel capacity divided by the width, rounded up.
pub open spec fn write_area_height(width: u16) -> int {
    crate::MAX_DATA_LEN as int / width as int + if crate::MAX_DATA_LEN as int % width as int > 0 {
        1int
    } else {
        0int
    }
}

/// Driver for a GC9307-class controller, generic over the serial bus, the
/// data/command and reset lines, and the delay capability of the board.
pub struct GC9307C<SPI, DC, RST, TIMER> where
    SPI: Bus,
    DC: ControlPin,
    RST: ControlPin,
    TIMER: Timer,
 {
    /// The serial bus the controller listens on.
    pub spi: SPI,
    /// Data/command select line: low for opcodes, high for data.
    pub dc: DC,
    /// Hardware reset line, active low.
    pub rst: RST,
    /// Panel configuration.
    pub config: Config,
    /// Reusable scratch buffer for chunked pixel transfers.
    pub buffer: Vec<u8>,
    /// Current software rotation of the logical frame.
    pub current_rotation: Rotation,
    /// Logical frame width, kept in step with the rotation.
    pub logical_width: u16,
    /// Logical frame height, kept in step with the rotation.
    pub logical_height: u16,
    /// The delay capability of the board.
    pub timer: TIMER,
}

impl<SPI, DC, RST, TIMER> GC9307C<SPI, DC, RST, TIMER> where
    SPI: Bus,
    DC: ControlPin,
    RST: ControlPin,
    TIMER: Timer,
 {
    /// A well-formed driver: usable configuration, logical dimensions that
    /// match the current rotation, and a full-size scratch buffer.
    pub open spec fn wf(self) -> bool {
        &&& self.config.wf()
        &&& self.logical_width == logical_w(
            self.current_rotation,
            self.config.width,
            self.config.height,
        )
        &&& self.logical_height == logical_h(
            self.current_rotation,
            self.config.width,
            self.config.height,
        )
        &&& self.buffer@.len() == BUF_SIZE
    }

    /// Everything but the bus, the control lines and the scratch bytes is
    /// unchanged: configuration, rotation state and buffer size.
    pub open spec fn state_preserved(self, pre: Self) -> bool {
        &&& self.config == pre.config
        &&& self.current_rotation == pre.current_rotation
        &&& self.logical_width == pre.logical_width
        &&& self.logical_height == pre.logical_height
        &&& self.buffer@.len() == pre.buffer@.len()
    }

    /// Build a driver over the given capabilities. The scratch buffer must
    /// hold exactly [`BUF_SIZE`] bytes; rotation starts at 0 degrees, where
    /// the logical frame equals the physical one.
    pub fn new(config: Config, spi: SPI, dc: DC, rst: RST, buffer: Vec<u8>, timer: TIMER) -> (d:
        Self)
        requires
            config.wf(),
            buffer@.len() == BUF_SIZE,
        ensures
            d.wf(),
            d.config == config,
            d.current_rotation == Rotation::Deg0,
            d.logical_width == config.width,
            d.logical_height == config.height,
            d.spi == spi,
            d.dc == dc,
            d.rst == rst,
            d.buffer == buffer,
            d.timer == timer,
    {
        GC9307C {
            spi,
            dc,
            rst,
            config,
            buffer,
            current_rotation: Rotation::Deg0,
            logical_width: config.width,
            logical_height: config.height,
            timer,
        }
    }

    /// Frame one command: the opcode is driven out after pulling the
    /// data/command line low; only when there are any, the line is then
    /// pulled high and the parameter bytes follow. On a transport error
    /// some prefix of the frame has crossed the bus.
    fn write_command(&mut self, cmd: u8, params: &[u8]) -> (res: Result<(), Error<SPI::BusError>>)
        ensures
            final(self).state_preserved(*old(self)),
            final(self).buffer == old(self).buffer,
            final(self).rst == old(self).rst,
            final(self).timer == old(self).timer,
            res is Ok ==> final(self).spi.written() == old(self).spi.written() + frame_bytes(
                (Frame { cmd, params: params@ }),
            ),
            res is Ok ==> final(self).dc.is_high() == (params@.len() > 0),
            res is Ok ==> final(self).dc.levels() == old(self).dc.levels() + frame_dc_levels(
                (Frame { cmd, params: params@ }),
            ),
            res is Err ==> wrote_prefix(
                old(self).spi.written(),
                final(self).spi.written(),
                frame_bytes((Frame { cmd, params: params@ })),
            ),
            res is Err ==> final(self).dc.levels() == old(self).dc.levels() + seq![false]
                || final(self).dc.levels() == old(self).dc.levels() + seq![false, true],
            res is Err ==> res matches Err(Error::Comm(_)),
    {
        let ghost frame = Frame { cmd, params: params@ };
        self.dc.set_low();
        let opcode: [u8; 1] = [cmd];
        match self.spi.write(opcode.as_slice()) {
            Ok(()) => {},
            Err(e) => {
                proof {
                    let k = choose|k: int|
                        0 <= k <= opcode@.len() && self.spi.written() == old(self).spi.written()
                            + #[trigger] opcode@.take(k);
                    lemma_take_prefix_left(seq![cmd], params@, k);
                    assert(opcode@ =~= seq![cmd]);
                    assert(frame_bytes(frame).take(k) == opcode@.take(k));
                }
                return Err(Error::Comm(e));
            },
        }
        if params.len() > 0 {
            self.dc.set_high();
            proof {
                assert(self.dc.levels() =~= old(self).dc.levels() + seq![false, true]);
            }
            match self.spi.write(params) {
                Ok(()) => {},
                Err(e) => {
                    proof {
                        assert(opcode@ =~= seq![cmd]);
                        lemma_wrote_prefix_extend(
                            old(self).spi.written(),
                            self.spi.written(),
                            seq![cmd],
                            params@,
                        );
                    }
                    return Err(Error::Comm(e));
                },
            }
        }
        proof {
            assert(final(self).spi.written() =~= old(self).spi.written() + frame_bytes(frame));
            if params@.len() > 0 {
                assert(final(self).dc.levels() =~= old(self).dc.levels() + frame_dc_levels(
                    frame,
                ));
            }
        }
        Ok(())
    }

    /// Write raw pixel data after pulling the data/command line high, for
    /// streaming after a MemoryWrite command. On a transport error some
    /// prefix of the data has crossed the bus.
    fn write_raw_data(&mut self, data: &[u8]) -> (res: Result<(), Error<SPI::BusError>>)
        ensures
            final(self).state_preserved(*old(self)),
            final(self).buffer == old(self).buffer,
            final(self).rst == old(self).rst,
            final(self).timer == old(self).timer,
            final(self).dc.is_high(),
            final(self).dc.levels() == old(self).dc.levels() + seq![true],
            res is Ok ==> final(self).spi.written() == old(self).spi.written() + data@,
            res is Err ==> wrote_prefix(
                old(self).spi.written(),
                final(self).spi.written(),
                data@,
            ),
            res is Err ==> res matches Err(Error::Comm(_)),
    {
        self.dc.set_high();
        match self.spi.write(data) {
            Ok(()) => Ok(()),
            Err(e) => Err(Error::Comm(e)),
        }
    }

    /// Bring the panel up: pulse the hardware reset, replay the
    /// initialization table entry by entry with its delays — the settle
    /// delay after SleepOut among them — then issue the configured
    /// orientation. Leaves the controller awake, display on, armed with a
    /// pending MemoryWrite. A transport error aborts the sequence at the
    /// failing write; some prefix of the intended byte stream has crossed
    /// the bus then.
    pub fn init(&mut self) -> (res: Result<(), Error<SPI::BusError>>)
        requires
            old(self).wf(),
        ensures
            final(self).wf(),
            final(self).state_preserved(*old(self)),
            final(self).config == old(self).config,
            final(self).rst.is_high(),
            final(self).rst.levels() == old(self).rst.levels() + seq![true, false, true],
            final(self).timer.elapsed() == old(self).timer.elapsed() + seq![10u64, 10u64, 120u64]
                || final(self).timer.elapsed() == old(self).timer.elapsed() + seq![
                10u64,
                10u64,
                120u64,
                200u64,
            ],
            res is Ok ==> final(self).timer.elapsed() == old(self).timer.elapsed() + seq![
                10u64,
                10u64,
                120u64,
                200u64,
            ],
            res is Ok ==> final(self).spi.written() == old(self).spi.written() + bytes_of_frames(
                init_frames(old(self).config),
            ),
            res is Ok ==> final(self).dc.levels() == old(self).dc.levels() + dc_levels_of_frames(
                init_frames(old(self).config),
            ),
            res is Err ==> wrote_prefix(
                old(self).spi.written(),
                final(self).spi.written(),
                bytes_of_frames(init_frames(old(self).config)),
            ),
            res is Err ==> res matches Err(Error::Comm(_)),
    {
        let ghost c = old(self).config;
        let ghost cmds = init_command_frames();
        let ghost madctl_frame = Frame {
            cmd: Instruction::MemoryAccessControl.opcode_spec(),
            params: seq![madctl_byte(c.orientation, c.rgb)],
        };
        proof {
            lemma_bytes_of_frames_push(cmds, madctl_frame);
            lemma_dc_levels_of_frames_push(cmds, madctl_frame);
            assert(init_frames(c) == cmds + seq![madctl_frame]);
        }
        self.reset()?;
        let entries = init_entries();
        proof {
            assert(cmds.take(0) =~= Seq::<Frame>::empty());
            assert(self.spi.written() =~= old(self).spi.written() + bytes_of_frames(
                cmds.take(0),
            ));
            assert(self.dc.levels() =~= old(self).dc.levels() + dc_levels_of_frames(
                cmds.take(0),
            ));
        }
        let mut idx: usize = 0;
        while idx < entries.len()
            invariant
                idx <= entries@.len(),
                entries@.len() == INIT_LEN,
                forall|i: int|
                    0 <= i < INIT_LEN ==> #[trigger] entry_frame(entries@[i])
                        == init_command_frame(i) && entries@[i].delay_after_ms == init_delay(i),
                cmds == init_command_frames(),
                c == old(self).config,
                madctl_frame == (Frame {
                    cmd: Instruction::MemoryAccessControl.opcode_spec(),
                    params: seq![madctl_byte(c.orientation, c.rgb)],
                }),
                init_frames(c) == cmds + seq![madctl_frame],
                bytes_of_frames(init_frames(c)) == bytes_of_frames(cmds) + frame_bytes(
                    madctl_frame,
                ),
                self.wf(),
                self.state_preserved(*old(self)),
                self.config == old(self).config,
                self.rst.is_high(),
                self.rst.levels() == old(self).rst.levels() + seq![true, false, true],
                self.timer.elapsed() == old(self).timer.elapsed() + if idx > 32 {
                    seq![10u64, 10u64, 120u64, 200u64]
                } else {
                    seq![10u64, 10u64, 120u64]
                },
                self.spi.written() == old(self).spi.written() + bytes_of_frames(
                    cmds.take(idx as int),
                ),
                self.dc.levels() == old(self).dc.levels() + dc_levels_of_frames(
                    cmds.take(idx as int),
                ),
            decreases entries@.len() - idx,
        {
            let e = &entries[idx];
            proof {
                assert(entry_frame(entries@[idx as int]) == init_command_frame(idx as int));
                assert(cmds[idx as int] == init_command_frame(idx as int));
            }
            match self.write_command(e.cmd, e.params.as_slice()) {
                Ok(()) => {},
                Err(err) => {
                    proof {
                        lemma_wrote_prefix_extend(
                            old(self).spi.written(),
                            self.spi.written(),
                            bytes_of_frames(cmds.take(idx as int)),
                            frame_bytes(cmds[idx as int]),
                        );
                        lemma_bytes_of_frames_take_step(cmds, idx + 1);
                        lemma_bytes_of_frames_concat(cmds.take(idx + 1), cmds.skip(idx + 1));
                        assert(cmds.take(idx + 1) + cmds.skip(idx + 1) =~= cmds);
                        lemma_wrote_prefix_widen(
                            old(self).spi.written(),
                            self.spi.written(),
                            bytes_of_frames(cmds.take(idx + 1)),
                            bytes_of_frames(cmds.skip(idx + 1)),
                        );
                        lemma_wrote_prefix_widen(
                            old(self).spi.written(),
                            self.spi.written(),
                            bytes_of_frames(cmds),
                            frame_bytes(madctl_frame),
                        );
                    }
                    return Err(err);
                },
            }
            if e.delay_after_ms > 0 {
                self.timer.delay_ms(e.delay_after_ms);
                proof {
                    assert(self.timer.elapsed() =~= old(self).timer.elapsed() + seq![
                        10u64,
                        10u64,
                        120u64,
                        200u64,
                    ]);
                }
            }
            proof {
                lemma_bytes_of_frames_take_step(cmds, idx + 1);
                lemma_dc_levels_of_frames_take_step(cmds, idx + 1);
                assert(self.spi.written() =~= old(self).spi.written() + bytes_of_frames(
                    cmds.take(idx + 1),
                ));
                assert(self.dc.levels() =~= old(self).dc.levels() + dc_levels_of_frames(
                    cmds.take(idx + 1),
                ));
            }
            idx = idx + 1;
        }
        proof {
            assert(cmds.take(INIT_LEN as int) =~= cmds);
        }
        match self.set_orientation(self.config.orientation) {
            Ok(()) => {},
            Err(err) => {
                proof {
                    lemma_wrote_prefix_extend(
                        old(self).spi.written(),
                        self.spi.written(),
                        bytes_of_frames(cmds),
                        frame_bytes(madctl_frame),
                    );
                }
                return Err(err);
            },
        }
        proof {
            assert(frame_dc_levels(madctl_frame) == seq![false, true]);
            assert(self.spi.written() =~= old(self).spi.written() + bytes_of_frames(
                init_frames(c),
            ));
            assert(self.dc.levels() =~= old(self).dc.levels() + dc_levels_of_frames(
                init_frames(c),
            ));
        }
        Ok(())
    }

    /// Pulse the reset line high, low, then high again, holding 10, 10 and
    /// 120 milliseconds after the three edges, as the controller's boot
    /// timing asks. No bytes cross the bus.
    pub fn reset(&mut self) -> (res: Result<(), Error<SPI::BusError>>)
        ensures
            final(self).state_preserved(*old(self)),
            final(self).buffer == old(self).buffer,
            final(self).spi == old(self).spi,
            final(self).dc == old(self).dc,
            final(self).rst.is_high(),
            final(self).rst.levels() == old(self).rst.levels() + seq![true, false, true],
            final(self).timer.elapsed() == old(self).timer.elapsed() + seq![
                10u64,
                10u64,
                120u64,
            ],
            res is Ok,
    {
        self.rst.set_high();
        self.timer.delay_ms(10);
        self.rst.set_low();
        self.timer.delay_ms(10);
        self.rst.set_high();
        self.timer.delay_ms(120);
        proof {
            assert(self.rst.levels() =~= old(self).rst.levels() + seq![true, false, true]);
            assert(self.timer.elapsed() =~= old(self).timer.elapsed() + seq![
                10u64,
                10u64,
                120u64,
            ]);
        }
        Ok(())
    }

    /// Program the MemoryAccessControl register for an orientation and
    /// record it in the configuration. On a transport error the
    /// configuration is left as it was.
    pub fn set_orientation(&mut self, orientation: Orientation) -> (res: Result<
        (),
        Error<SPI::BusError>,
    >)
        requires
            old(self).wf(),
        ensures
            final(self).wf(),
            final(self).current_rotation == old(self).current_rotation,
            final(self).logical_width == old(self).logical_width,
            final(self).logical_height == old(self).logical_height,
            final(self).buffer == old(self).buffer,
            final(self).rst == old(self).rst,
            final(self).timer == old(self).timer,
            res is Ok ==> final(self).config == (Config {
                orientation,
                ..old(self).config
            }),
            res is Ok ==> final(self).spi.written() == old(self).spi.written() + frame_bytes(
                (Frame {
                    cmd: Instruction::MemoryAccessControl.opcode_spec(),
                    params: seq![madctl_byte(orientation, old(self).config.rgb)],
                }),
            ),
            res is Ok ==> final(self).dc.levels() == old(self).dc.levels() + seq![false, true],
            res is Err ==> final(self).config == old(self).config,
            res is Err ==> wrote_prefix(
                old(self).spi.written(),
                final(self).spi.written(),
                frame_bytes(
                    (Frame {
                        cmd: Instruction::MemoryAccessControl.opcode_spec(),
                        params: seq![madctl_byte(orientation, old(self).config.rgb)],
                    }),
                ),
            ),
            res is Err ==> res matches Err(Error::Comm(_)),
    {
        let value = madctl_value(orientation, self.config.rgb);
        let params: [u8; 1] = [value];
        proof {
            assert(params@ =~= seq![madctl_byte(orientation, old(self).config.rgb)]);
        }
        match self.write_command(Instruction::MemoryAccessControl.opcode(), params.as_slice()) {
            Ok(()) => {},
            Err(e) => {
                return Err(e);
            },
        }
        self.config.orientation = orientation;
        Ok(())
    }

    /// Sets the global offset of the displayed image. The offset must keep
    /// every physical coordinate inside a 16-bit address field.
    pub fn set_offset(&mut self, dx: u16, dy: u16)
        requires
            old(self).wf(),
            old(self).config.width + dx <= 0x1_0000,
            old(self).config.height + dy <= 0x1_0000,
        ensures
            final(self).wf(),
            final(self).config == (Config { dx, dy, ..old(self).config }),
            final(self).current_rotation == old(self).current_rotation,
            final(self).logical_width == old(self).logical_width,
            final(self).logical_height == old(self).logical_height,
            final(self).buffer == old(self).buffer,
            final(self).spi == old(self).spi,
            final(self).dc == old(self).dc,
            final(self).rst == old(self).rst,
            final(self).timer == old(self).timer,
    {
        self.config.dx = dx;
        self.config.dy = dy;
    }

    /// Set the current rotation and recompute the logical dimensions: equal
    /// to the physical frame at 0 and 180 degrees, swapped at 90 and 270.
    /// Setting the same rotation twice leaves the state exactly as one set.
    pub fn set_rotation(&mut self, rotation: Rotation)
        requires
            old(self).wf(),
        ensures
            final(self).wf(),
            final(self).current_rotation == rotation,
            final(self).logical_width == logical_w(
                rotation,
                old(self).config.width,
                old(self).config.height,
            ),
            final(self).logical_height == logical_h(
                rotation,
                old(self).config.width,
                old(self).config.height,
            ),
            (final(self).current_rotation, final(self).logical_width, final(self).logical_height)
                == apply_set_rotation(
                (old(self).current_rotation, old(self).logical_width, old(self).logical_height),
                rotation,
                old(self).config.width,
                old(self).config.height,
            ),
            final(self).config == old(self).config,
            final(self).buffer == old(self).buffer,
            final(self).spi == old(self).spi,
            final(self).dc == old(self).dc,
            final(self).rst == old(self).rst,
            final(self).timer == old(self).timer,
    {
        self.current_rotation = rotation;
        match rotation {
            Rotation::Deg0 | Rotation::Deg180 => {
                self.logical_width = self.config.width;
                self.logical_height = self.config.height;
            },
            Rotation::Deg90 | Rotation::Deg270 => {
                self.logical_width = self.config.height;
                self.logical_height = self.config.width;
            },
        }
    }

    /// Get current rotation.
    pub fn rotation(&self) -> (r: Rotation)
        ensures
            r == self.current_rotation,
    {
        self.current_rotation
    }

    /// Get logical screen dimensions (width, height) after rotation.
    pub fn logical_dimensions(&self) -> (d: (u16, u16))
        ensures
            d.0 == self.logical_width,
            d.1 == self.logical_height,
    {
        (self.logical_width, self.logical_height)
    }

    /// Transform logical coordinates to physical coordinates based on the
    /// current rotation.
    pub fn transform_coordinates(&self, x: u16, y: u16) -> (p: (u16, u16))
        requires
            self.wf(),
            x < self.logical_width,
            y < self.logical_height,
        ensures
            (p.0 as int, p.1 as int) == transform_pt(
                self.current_rotation,
                self.logical_width as int,
                self.logical_height as int,
                x as int,
                y as int,
            ),
            p.0 < self.config.width,
            p.1 < self.config.height,
    {
        match self.current_rotation {
            Rotation::Deg0 => (x, y),
            Rotation::Deg90 => (self.logical_height - 1 - y, x),
            Rotation::Deg180 => (self.logical_width - 1 - x, self.logical_height - 1 - y),
            Rotation::Deg270 => (y, self.logical_width - 1 - x),
        }
    }

    /// Transform a rectangle of the logical frame, given by origin and size,
    /// to its physical window, returned as origin and size. Width and height
    /// are never distorted, only swapped when the rotation swaps the axes.
    pub fn transform_rect(&self, x: u16, y: u16, width: u16, height: u16) -> (r: (
        u16,
        u16,
        u16,
        u16,
    ))
        requires
            self.wf(),
            1 <= width,
            1 <= height,
            x + width <= self.logical_width,
            y + height <= self.logical_height,
        ensures
            ({
                let (ax, ay, bx, by) = rect_window(
                    self.current_rotation,
                    self.logical_width as int,
                    self.logical_height as int,
                    x as int,
                    y as int,
                    x + width - 1,
                    y + height - 1,
                );
                &&& r.0 == ax
                &&& r.1 == ay
                &&& r.2 == bx - ax + 1
                &&& r.3 == by - ay + 1
            }),
    {
        let (x1, y1) = self.transform_coordinates(x, y);
        let (x2, y2) = self.transform_coordinates(x + width - 1, y + height - 1);
        let min_x = if x1 <= x2 {
            x1
        } else {
            x2
        };
        let max_x = if x1 <= x2 {
            x2
        } else {
            x1
        };
        let min_y = if y1 <= y2 {
            y1
        } else {
            y2
        };
        let max_y = if y1 <= y2 {
            y2
        } else {
            y1
        };
        (min_x, min_y, max_x - min_x + 1, max_y - min_y + 1)
    }

    /// Program the address window for a rectangle given by two corners of
    /// the logical frame, then arm the controller for the pixel stream.
    /// Reversed corners are normalized; the next data write must follow at
    /// once, and after a transport error the window must be re-issued.
    pub fn set_address_window(&mut self, sx: u16, sy: u16, ex: u16, ey: u16) -> (res: Result<
        (),
        Error<SPI::BusError>,
    >)
        requires
            old(self).wf(),
            sx < old(self).logical_width,
            ex < old(self).logical_width,
            sy < old(self).logical_height,
            ey < old(self).logical_height,
        ensures
            final(self).wf(),
            final(self).state_preserved(*old(self)),
            final(self).buffer == old(self).buffer,
            final(self).rst == old(self).rst,
            final(self).timer == old(self).timer,
            res is Ok ==> final(self).spi.written() == old(self).spi.written() + bytes_of_frames(
                window_frames(
                    old(self).config,
                    old(self).current_rotation,
                    sx,
                    sy,
                    ex,
                    ey,
                ),
            ),
            res is Ok ==> !final(self).dc.is_high(),
            res is Ok ==> final(self).dc.levels() == old(self).dc.levels() + dc_levels_of_frames(
                window_frames(
                    old(self).config,
                    old(self).current_rotation,
                    sx,
                    sy,
                    ex,
                    ey,
                ),
            ),
            res is Err ==> wrote_prefix(
                old(self).spi.written(),
                final(self).spi.written(),
                bytes_of_frames(
                    window_frames(
                        old(self).config,
                        old(self).current_rotation,
                        sx,
                        sy,
                        ex,
                        ey,
                    ),
                ),
            ),
            res is Err ==> res matches Err(Error::Comm(_)),
    {
        let ghost frames = window_frames(
            old(self).config,
            old(self).current_rotation,
            sx,
            sy,
            ex,
            ey,
        );
        let (x1, y1) = self.transform_coordinates(sx, sy);
        let (x2, y2) = self.transform_coordinates(ex, ey);
        let min_x = if x1 <= x2 {
            x1
        } else {
            x2
        };
        let max_x = if x1 <= x2 {
            x2
        } else {
            x1
        };
        let min_y = if y1 <= y2 {
            y1
        } else {
            y2
        };
        let max_y = if y1 <= y2 {
            y2
        } else {
            y1
        };
        let sx_off = min_x + self.config.dx;
        let ex_off = max_x + self.config.dx;
        let sy_off = min_y + self.config.dy;
        let ey_off = max_y + self.config.dy;
        let col: [u8; 4] = [
            (sx_off / 256) as u8,
            (sx_off % 256) as u8,
            (ex_off / 256) as u8,
            (ex_off % 256) as u8,
        ];
        let page: [u8; 4] = [
            (sy_off / 256) as u8,
            (sy_off % 256) as u8,
            (ey_off / 256) as u8,
            (ey_off % 256) as u8,
        ];
        let none: [u8; 0] = [];
        let ghost fb0 = frame_bytes(frames[0]);
        let ghost fb1 = frame_bytes(frames[1]);
        let ghost fb2 = frame_bytes(frames[2]);
        proof {
            assert(col@ =~= be16(sx_off) + be16(ex_off));
            assert(page@ =~= be16(sy_off) + be16(ey_off));
            assert(none@ =~= Seq::<u8>::empty());
            lemma_bytes_of_frames3(frames[0], frames[1], frames[2]);
            lemma_dc_levels_of_frames3(frames[0], frames[1], frames[2]);
            assert(frames =~= seq![frames[0], frames[1], frames[2]]);
            assert(frames[0] == (Frame {
                cmd: Instruction::ColumnAddressSet.opcode_spec(),
                params: col@,
            }));
            assert(frames[1] == (Frame {
                cmd: Instruction::PageAddressSet.opcode_spec(),
                params: page@,
            }));
            assert(frames[2] == (Frame {
                cmd: Instruction::MemoryWrite.opcode_spec(),
                params: none@,
            }));
        }
        match self.write_command(Instruction::ColumnAddressSet.opcode(), col.as_slice()) {
            Ok(()) => {},
            Err(e) => {
                proof {
                    lemma_wrote_prefix_widen(
                        old(self).spi.written(),
                        self.spi.written(),
                        fb0,
                        fb1 + fb2,
                    );
                    assert(fb0 + (fb1 + fb2) =~= bytes_of_frames(frames));
                }
                return Err(e);
            },
        }
        match self.write_command(Instruction::PageAddressSet.opcode(), page.as_slice()) {
            Ok(()) => {},
            Err(e) => {
                proof {
                    lemma_wrote_prefix_extend(
                        old(self).spi.written(),
                        self.spi.written(),
                        fb0,
                        fb1,
                    );
                    lemma_wrote_prefix_widen(
                        old(self).spi.written(),
                        self.spi.written(),
                        fb0 + fb1,
                        fb2,
                    );
                }
                return Err(e);
            },
        }
        match self.write_command(Instruction::MemoryWrite.opcode(), none.as_slice()) {
            Ok(()) => {},
            Err(e) => {
                proof {
                    assert((old(self).spi.written() + fb0) + fb1 =~= old(self).spi.written() + (
                    fb0 + fb1));
                    lemma_wrote_prefix_extend(
                        old(self).spi.written(),
                        self.spi.written(),
                        fb0 + fb1,
                        fb2,
                    );
                }
                return Err(e);
            },
        }
        proof {
            assert(final(self).spi.written() =~= old(self).spi.written() + bytes_of_frames(
                frames,
            ));
            assert(final(self).dc.levels() =~= old(self).dc.levels() + dc_levels_of_frames(
                frames,
            ));
        }
        Ok(())
    }

    /// Stream `total_pixels` pixels of one color through the scratch
    /// buffer: the 2-byte pattern is laid down once, full chunks of
    /// [`CHUNK_PIXELS`] pixels are sent, then one partial remainder chunk.
    /// On a transport error some prefix of the pixel stream has crossed
    /// the bus.
    fn stream_solid(&mut self, raw: u16, total_pixels: u32) -> (res: Result<
        (),
        Error<SPI::BusError>,
    >)
        requires
            old(self).wf(),
        ensures
            final(self).wf(),
            final(self).state_preserved(*old(self)),
            final(self).rst == old(self).rst,
            final(self).timer == old(self).timer,
            final(self).dc.is_high(),
            final(self).dc.levels() == old(self).dc.levels() + seq![true],
            res is Ok ==> final(self).spi.written() == old(self).spi.written() + solid_bytes(
                raw,
                total_pixels as nat,
            ),
            res is Err ==> wrote_prefix(
                old(self).spi.written(),
                final(self).spi.written(),
                solid_bytes(raw, total_pixels as nat),
            ),
            res is Err ==> res matches Err(Error::Comm(_)),
    {
        fill_solid_prefix(&mut self.buffer, raw, CHUNK_PIXELS);
        self.dc.set_high();
        let chunk_px: u32 = CHUNK_PIXELS as u32;
        let full: u32 = total_pixels / chunk_px;
        let rem: u32 = total_pixels % chunk_px;
        proof {
            vstd::arithmetic::div_mod::lemma_fundamental_div_mod(
                total_pixels as int,
                CHUNK_PIXELS as int,
            );
        }
        let mut i: u32 = 0;
        while i < full
            invariant
                i <= full,
                full == total_pixels / CHUNK_PIXELS as u32,
                full * CHUNK_PIXELS <= total_pixels,
                self.wf(),
                self.state_preserved(*old(self)),
                self.rst == old(self).rst,
                self.timer == old(self).timer,
                self.dc.is_high(),
                self.dc.levels() == old(self).dc.levels() + seq![true],
                self.buffer@.subrange(0, 2 * CHUNK_PIXELS) == solid_bytes(raw, CHUNK_PIXELS as nat),
                self.spi.written() == old(self).spi.written() + solid_bytes(
                    raw,
                    (i * CHUNK_PIXELS) as nat,
                ),
            decreases full - i,
        {
            let ghost done = (i * CHUNK_PIXELS) as nat;
            let chunk = vstd::slice::slice_subrange(self.buffer.as_slice(), 0, 2 * CHUNK_PIXELS);
            match self.spi.write(chunk) {
                Ok(()) => {},
                Err(e) => {
                    proof {
                        lemma_solid_bytes_concat(raw, done, CHUNK_PIXELS as nat);
                        lemma_wrote_prefix_extend(
                            old(self).spi.written(),
                            self.spi.written(),
                            solid_bytes(raw, done),
                            solid_bytes(raw, CHUNK_PIXELS as nat),
                        );
                        let sent = (done + CHUNK_PIXELS) as nat;
                        lemma_solid_bytes_concat(raw, sent, (total_pixels as nat - sent) as nat);
                        lemma_wrote_prefix_widen(
                            old(self).spi.written(),
                            self.spi.written(),
                            solid_bytes(raw, sent),
                            solid_bytes(raw, (total_pixels as nat - sent) as nat),
                        );
                    }
                    return Err(Error::Comm(e));
                },
            }
            proof {
                lemma_solid_bytes_concat(raw, done, CHUNK_PIXELS as nat);
            }
            i = i + 1;
        }
        if rem > 0 {
            proof {
                lemma_solid_bytes_len(raw, CHUNK_PIXELS as nat);
                lemma_solid_bytes_prefix(raw, CHUNK_PIXELS as nat, rem as nat);
                assert(self.buffer@.subrange(0, 2 * rem as int) =~= self.buffer@.subrange(
                    0,
                    2 * CHUNK_PIXELS,
                ).subrange(0, 2 * rem as int));
            }
            let chunk = vstd::slice::slice_subrange(self.buffer.as_slice(), 0, (rem as usize) * 2);
            match self.spi.write(chunk) {
                Ok(()) => {},
                Err(e) => {
                    proof {
                        lemma_wrote_prefix_extend(
                            old(self).spi.written(),
                            self.spi.written(),
                            solid_bytes(raw, (full * CHUNK_PIXELS) as nat),
                            solid_bytes(raw, rem as nat),
                        );
                        lemma_solid_bytes_concat(raw, (full * CHUNK_PIXELS) as nat, rem as nat);
                    }
                    return Err(Error::Comm(e));
                },
            }
            proof {
                lemma_solid_bytes_concat(raw, (full * CHUNK_PIXELS) as nat, rem as nat);
            }
        }
        proof {
            assert(self.spi.written() =~= old(self).spi.written() + solid_bytes(
                raw,
                total_pixels as nat,
            ));
        }
        Ok(())
    }

    /// Fill the entire logical frame — and with it the entire physical
    /// panel — with a single color. On a transport error some prefix of
    /// the intended window and pixel stream has crossed the bus.
    pub fn fill_screen(&mut self, color: Rgb565) -> (res: Result<(), Error<SPI::BusError>>)
        requires
            old(self).wf(),
        ensures
            final(self).wf(),
            final(self).state_preserved(*old(self)),
            final(self).rst == old(self).rst,
            final(self).timer == old(self).timer,
            ({
                let frames = window_frames(
                    old(self).config,
                    old(self).current_rotation,
                    0,
                    0,
                    (old(self).logical_width - 1) as u16,
                    (old(self).logical_height - 1) as u16,
                );
                let intended = bytes_of_frames(frames) + solid_bytes(
                    color.raw,
                    (old(self).config.width * old(self).config.height) as nat,
                );
                &&& (res is Ok ==> final(self).spi.written() == old(self).spi.written()
                    + intended)
                &&& (res is Ok ==> final(self).dc.levels() == old(self).dc.levels()
                    + dc_levels_of_frames(frames) + seq![true])
                &&& (res is Err ==> wrote_prefix(
                    old(self).spi.written(),
                    final(self).spi.written(),
                    intended,
                ))
            }),
            res is Err ==> res matches Err(Error::Comm(_)),
    {
        let w = self.logical_width;
        let h = self.logical_height;
        let ghost frames = window_frames(
            old(self).config,
            old(self).current_rotation,
            0,
            0,
            (w - 1) as u16,
            (h - 1) as u16,
        );
        let ghost pixels = solid_bytes(
            color.raw,
            (old(self).config.width * old(self).config.height) as nat,
        );
        match self.set_address_window(0, 0, w - 1, h - 1) {
            Ok(()) => {},
            Err(e) => {
                proof {
                    lemma_wrote_prefix_widen(
                        old(self).spi.written(),
                        self.spi.written(),
                        bytes_of_frames(frames),
                        pixels,
                    );
                }
                return Err(e);
            },
        }
        let width32 = self.config.width as u32;
        let height32 = self.config.height as u32;
        proof {
            assert(width32 * height32 < 0x1_0000_0000) by (nonlinear_arith)
                requires
                    width32 < 0x1_0000,
                    height32 < 0x1_0000,
            ;
        }
        let total: u32 = width32 * height32;
        match self.stream_solid(color.raw, total) {
            Ok(()) => Ok(()),
            Err(e) => {
                proof {
                    lemma_wrote_prefix_extend(
                        old(self).spi.written(),
                        self.spi.written(),
                        bytes_of_frames(frames),
                        pixels,
                    );
                }
                Err(e)
            },
        }
    }

    /// Fill the entire physical panel with a single color; the whole-panel
    /// alias of the batched solid fill.
    pub fn fill_color(&mut self, color: Rgb565) -> (res: Result<(), Error<SPI::BusError>>)
        requires
            old(self).wf(),
        ensures
            final(self).wf(),
            final(self).state_preserved(*old(self)),
            final(self).rst == old(self).rst,
            final(self).timer == old(self).timer,
            ({
                let frames = window_frames(
                    old(self).config,
                    old(self).current_rotation,
                    0,
                    0,
                    (old(self).logical_width - 1) as u16,
                    (old(self).logical_height - 1) as u16,
                );
                let intended = bytes_of_frames(frames) + solid_bytes(
                    color.raw,
                    (old(self).config.width * old(self).config.height) as nat,
                );
                &&& (res is Ok ==> final(self).spi.written() == old(self).spi.written()
                    + intended)
                &&& (res is Ok ==> final(self).dc.levels() == old(self).dc.levels()
                    + dc_levels_of_frames(frames) + seq![true])
                &&& (res is Err ==> wrote_prefix(
                    old(self).spi.written(),
                    final(self).spi.written(),
                    intended,
                ))
            }),
            res is Err ==> res matches Err(Error::Comm(_)),
    {
        self.fill_screen(color)
    }

    /// Fill a rectangle of the logical frame with a color. A rectangle
    /// whose origin lies off the frame, or with a zero extent, is a no-op
    /// that touches neither the bus nor the control lines — never an
    /// error; one that sticks out is clipped to the visible span. On a
    /// transport error some prefix of the intended window and pixel
    /// stream has crossed the bus.
    pub fn fill_rect(&mut self, x: u16, y: u16, width: u16, height: u16, color: Rgb565) -> (res:
        Result<(), Error<SPI::BusError>>)
        requires
            old(self).wf(),
        ensures
            final(self).wf(),
            final(self).state_preserved(*old(self)),
            final(self).rst == old(self).rst,
            final(self).timer == old(self).timer,
            (x >= old(self).logical_width || y >= old(self).logical_height || width == 0 || height
                == 0) ==> res is Ok && final(self).spi == old(self).spi && final(self).dc == old(
                self,
            ).dc,
            ({
                let aw = clip_extent(x, width, old(self).logical_width);
                let ah = clip_extent(y, height, old(self).logical_height);
                let frames = window_frames(
                    old(self).config,
                    old(self).current_rotation,
                    x,
                    y,
                    (x + aw - 1) as u16,
                    (y + ah - 1) as u16,
                );
                let intended = bytes_of_frames(frames) + solid_bytes(
                    color.raw,
                    (aw * ah) as nat,
                );
                x < old(self).logical_width && y < old(self).logical_height && width > 0 && height
                    > 0 ==> {
                    &&& (res is Ok ==> final(self).spi.written() == old(self).spi.written()
                        + intended)
                    &&& (res is Ok ==> final(self).dc.levels() == old(self).dc.levels()
                        + dc_levels_of_frames(frames) + seq![true])
                    &&& (res is Err ==> wrote_prefix(
                        old(self).spi.written(),
                        final(self).spi.written(),
                        intended,
                    ))
                }
            }),
            res is Err ==> res matches Err(Error::Comm(_)),
    {
        if x >= self.logical_width || y >= self.logical_height {
            return Ok(());
        }
        let aw = if width <= self.logical_width - x {
            width
        } else {
            self.logical_width - x
        };
        let ah = if height <= self.logical_height - y {
            height
        } else {
            self.logical_height - y
        };
        if aw == 0 || ah == 0 {
            return Ok(());
        }
        let ghost frames = window_frames(
            old(self).config,
            old(self).current_rotation,
            x,
            y,
            (x + aw - 1) as u16,
            (y + ah - 1) as u16,
        );
        let ghost pixels = solid_bytes(color.raw, (aw * ah) as nat);
        match self.set_address_window(x, y, x + aw - 1, y + ah - 1) {
            Ok(()) => {},
            Err(e) => {
                proof {
                    lemma_wrote_prefix_widen(
                        old(self).spi.written(),
                        self.spi.written(),
                        bytes_of_frames(frames),
                        pixels,
                    );
                }
                return Err(e);
            },
        }
        let aw32 = aw as u32;
        let ah32 = ah as u32;
        proof {
            assert(aw32 * ah32 < 0x1_0000_0000) by (nonlinear_arith)
                requires
                    aw32 < 0x1_0000,
                    ah32 < 0x1_0000,
            ;
        }
        let total: u32 = aw32 * ah32;
        match self.stream_solid(color.raw, total) {
            Ok(()) => Ok(()),
            Err(e) => {
                proof {
                    lemma_wrote_prefix_extend(
                        old(self).spi.written(),
                        self.spi.written(),
                        bytes_of_frames(frames),
                        pixels,
                    );
                }
                Err(e)
            },
        }
    }

    /// Draw a single pixel of the logical frame; a pixel off the frame is
    /// silently ignored, touching neither the bus nor the control lines.
    pub fn set_pixel(&mut self, x: u16, y: u16, color: Rgb565) -> (res: Result<
        (),
        Error<SPI::BusError>,
    >)
        requires
            old(self).wf(),
        ensures
            final(self).wf(),
            final(self).state_preserved(*old(self)),
            final(self).rst == old(self).rst,
            final(self).timer == old(self).timer,
            (x >= old(self).logical_width || y >= old(self).logical_height) ==> res is Ok
                && final(self).spi == old(self).spi && final(self).dc == old(self).dc,
            ({
                let frames = window_frames(
                    old(self).config,
                    old(self).current_rotation,
                    x,
                    y,
                    x,
                    y,
                );
                let intended = bytes_of_frames(frames) + solid_bytes(color.raw, 1);
                x < old(self).logical_width && y < old(self).logical_height ==> {
                    &&& (res is Ok ==> final(self).spi.written() == old(self).spi.written()
                        + intended)
                    &&& (res is Ok ==> final(self).dc.levels() == old(self).dc.levels()
                        + dc_levels_of_frames(frames) + seq![true])
                    &&& (res is Err ==> wrote_prefix(
                        old(self).spi.written(),
                        final(self).spi.written(),
                        intended,
                    ))
                }
            }),
            res is Err ==> res matches Err(Error::Comm(_)),
    {
        if x >= self.logical_width || y >= self.logical_height {
            return Ok(());
        }
        let ghost frames = window_frames(old(self).config, old(self).current_rotation, x, y, x, y);
        let bytes: [u8; 2] = [(color.raw / 256) as u8, (color.raw % 256) as u8];
        proof {
            assert(solid_bytes(color.raw, 0) == Seq::<u8>::empty());
            assert(solid_bytes(color.raw, 1) =~= bytes@);
        }
        match self.set_address_window(x, y, x, y) {
            Ok(()) => {},
            Err(e) => {
                proof {
                    lemma_wrote_prefix_widen(
                        old(self).spi.written(),
                        self.spi.written(),
                        bytes_of_frames(frames),
                        solid_bytes(color.raw, 1),
                    );
                }
                return Err(e);
            },
        }
        match self.write_raw_data(bytes.as_slice()) {
            Ok(()) => Ok(()),
            Err(e) => {
                proof {
                    lemma_wrote_prefix_extend(
                        old(self).spi.written(),
                        self.spi.written(),
                        bytes_of_frames(frames),
                        solid_bytes(color.raw, 1),
                    );
                }
                Err(e)
            },
        }
    }

    /// Write a 1-bit-per-pixel bitmap (most significant bit first in each
    /// byte) as a block of `width` columns starting at `(x, y)`: the block
    /// height is the scratch buffer's pixel capacity divided by the width,
    /// rounded up, and each bit becomes one foreground or background
    /// pixel. The bitmap must fit the scratch buffer's pixel capacity — a
    /// hard bound, since the buffer never grows; a bitmap past it
    /// degrades, documentedly, to a whole-panel fill with the background
    /// color. On a transport error some prefix of the intended stream has
    /// crossed the bus.
    pub fn write_area(
        &mut self,
        x: u16,
        y: u16,
        width: u16,
        data: &[u8],
        color: Rgb565,
        bg_color: Rgb565,
    ) -> (res: Result<(), Error<SPI::BusError>>)
        requires
            old(self).wf(),
            1 <= width,
            x + width <= old(self).logical_width,
            y + write_area_height(width) <= old(self).logical_height,
        ensures
            final(self).wf(),
            final(self).state_preserved(*old(self)),
            final(self).rst == old(self).rst,
            final(self).timer == old(self).timer,
            ({
                let frames = if 8 * data@.len() <= crate::MAX_DATA_LEN {
                    window_frames(
                        old(self).config,
                        old(self).current_rotation,
                        x,
                        y,
                        (x + width - 1) as u16,
                        (y + write_area_height(width) - 1) as u16,
                    )
                } else {
                    window_frames(
                        old(self).config,
                        old(self).current_rotation,
                        0,
                        0,
                        (old(self).logical_width - 1) as u16,
                        (old(self).logical_height - 1) as u16,
                    )
                };
                let intended = if 8 * data@.len() <= crate::MAX_DATA_LEN {
                    bytes_of_frames(frames) + expand_bits_bytes(data@, color.raw, bg_color.raw)
                } else {
                    bytes_of_frames(frames) + solid_bytes(
                        bg_color.raw,
                        (old(self).config.width * old(self).config.height) as nat,
                    )
                };
                &&& (res is Ok ==> final(self).spi.written() == old(self).spi.written()
                    + intended)
                &&& (res is Ok ==> final(self).dc.levels() == old(self).dc.levels()
                    + dc_levels_of_frames(frames) + seq![true])
                &&& (res is Err ==> wrote_prefix(
                    old(self).spi.written(),
                    final(self).spi.written(),
                    intended,
                ))
            }),
            res is Err ==> res matches Err(Error::Comm(_)),
    {
        if data.len() > crate::MAX_DATA_LEN / 8 {
            // The bitmap cannot fit the scratch buffer: the documented
            // degradation path, a whole-panel fill with the background.
            return self.fill_screen(bg_color);
        }
        let capacity = crate::MAX_DATA_LEN as u16;
        let height = capacity / width + if capacity % width > 0 {
            1
        } else {
            0
        };
        proof {
            assert(height as int == write_area_height(width));
            if width as int <= 1152 {
                assert(1152int / width as int >= 1) by (nonlinear_arith)
                    requires
                        1 <= width as int <= 1152,
                ;
            } else {
                assert(1152int % width as int == 1152) by (nonlinear_arith)
                    requires
                        width as int > 1152,
                ;
            }
            assert(height >= 1);
        }
        let ghost frames = window_frames(
            old(self).config,
            old(self).current_rotation,
            x,
            y,
            (x + width - 1) as u16,
            (y + write_area_height(width) - 1) as u16,
        );
        let ghost expanded = expand_bits_bytes(data@, color.raw, bg_color.raw);
        match self.set_address_window(x, y, x + width - 1, y + height - 1) {
            Ok(()) => {},
            Err(e) => {
                proof {
                    lemma_wrote_prefix_widen(
                        old(self).spi.written(),
                        self.spi.written(),
                        bytes_of_frames(frames),
                        expanded,
                    );
                }
                return Err(e);
            },
        }
        expand_bits_prefix(&mut self.buffer, data, color.raw, bg_color.raw);
        self.dc.set_high();
        let n = data.len() * 16;
        let chunk = vstd::slice::slice_subrange(self.buffer.as_slice(), 0, n);
        proof {
            assert(chunk@ == expanded);
        }
        match self.spi.write(chunk) {
            Ok(()) => {},
            Err(e) => {
                proof {
                    lemma_wrote_prefix_extend(
                        old(self).spi.written(),
                        self.spi.written(),
                        bytes_of_frames(frames),
                        expanded,
                    );
                }
                return Err(Error::Comm(e));
            },
        }
        Ok(())
    }

    /// Draw one 12 x 16 digit (0-9) pixel by pixel; anything above 9 is
    /// ignored, as are pixels that fall off the frame and transport errors
    /// of single pixels.
    pub fn draw_digit(&mut self, x: u16, y: u16, digit: u8, color: Rgb565) -> (res: Result<
        (),
        Error<SPI::BusError>,
    >)
        requires
            old(self).wf(),
            x + 11 <= u16::MAX,
            y + 15 <= u16::MAX,
        ensures
            final(self).wf(),
            final(self).state_preserved(*old(self)),
            final(self).rst == old(self).rst,
            final(self).timer == old(self).timer,
            digit > 9 ==> final(self).spi == old(self).spi && final(self).dc == old(self).dc,
            res is Ok,
    {
        if digit > 9 {
            return Ok(());
        }
        let font_data = crate::font::get_digit_font_data(digit);
        let mut row: usize = 0;
        while row < 16
            invariant
                row <= 16,
                x + 11 <= u16::MAX,
                y + 15 <= u16::MAX,
                self.wf(),
                self.state_preserved(*old(self)),
                self.rst == old(self).rst,
                self.timer == old(self).timer,
            decreases 16 - row,
        {
            let mut col: usize = 0;
            while col < 12
                invariant
                    row < 16,
                    col <= 12,
                    x + 11 <= u16::MAX,
                    y + 15 <= u16::MAX,
                    self.wf(),
                    self.state_preserved(*old(self)),
                    self.rst == old(self).rst,
                    self.timer == old(self).timer,
                decreases 12 - col,
            {
                let byte_index = row * 2 + col / 8;
                let bit_index: u8 = (7 - (col % 8)) as u8;
                let pixel_on = (font_data[byte_index] >> bit_index) & 1 == 1;
                if pixel_on {
                    let _ = self.set_pixel(x + col as u16, y + row as u16, color);
                }
                col = col + 1;
            }
            row = row + 1;
        }
        Ok(())
    }

    /// Draw an angle as decimal digits followed by a degree symbol, for
    /// read-outs such as the current rotation.
    pub fn draw_angle_text(&mut self, x: u16, y: u16, angle: u16, color: Rgb565) -> (res: Result<
        (),
        Error<SPI::BusError>,
    >)
        requires
            old(self).wf(),
            x + 42 <= u16::MAX,
            y + 15 <= u16::MAX,
        ensures
            final(self).wf(),
            final(self).state_preserved(*old(self)),
            final(self).rst == old(self).rst,
            final(self).timer == old(self).timer,
            res is Ok,
    {
        let mut current_x = x;
        if angle >= 100 {
            let hundreds = (angle / 100) as u8;
            self.draw_digit(current_x, y, hundreds, color)?;
            current_x = current_x + 13;
        }
        if angle >= 10 {
            let tens = ((angle / 10) % 10) as u8;
            self.draw_digit(current_x, y, tens, color)?;
            current_x = current_x + 13;
        }
        let ones = (angle % 10) as u8;
        self.draw_digit(current_x, y, ones, color)?;
        current_x = current_x + 13;
        self.draw_degree_symbol(current_x, y, color)?;
        Ok(())
    }

    /// Draw a small 4 x 4 circle as the degree symbol.
    fn draw_degree_symbol(&mut self, x: u16, y: u16, color: Rgb565) -> (res: Result<
        (),
        Error<SPI::BusError>,
    >)
        requires
            old(self).wf(),
            x + 3 <= u16::MAX,
            y + 3 <= u16::MAX,
        ensures
            final(self).wf(),
            final(self).state_preserved(*old(self)),
            final(self).rst == old(self).rst,
            final(self).timer == old(self).timer,
            res is Ok,
    {
        let circle_pixels: [(u16, u16); 8] = [
            (1, 0),
            (2, 0),
            (0, 1),
            (3, 1),
            (0, 2),
            (3, 2),
            (1, 3),
            (2, 3),
        ];
        let mut i: usize = 0;
        while i < 8
            invariant
                i <= 8,
                x + 3 <= u16::MAX,
                y + 3 <= u16::MAX,
                forall|k: int| 0 <= k < 8 ==> circle_pixels@[k].0 <= 3 && circle_pixels@[k].1 <= 3,
                self.wf(),
                self.state_preserved(*old(self)),
                self.rst == old(self).rst,
                self.timer == old(self).timer,
            decreases 8 - i,
        {
            let (dx, dy) = circle_pixels[i];
            let _ = self.set_pixel(x + dx, y + dy, color);
            i = i + 1;
        }
        Ok(())
    }
}

/// The address fields a window carries never truncate: for corners inside
/// the logical frame of a usable configuration, the physical bounds with
/// the global offset added all fit a 16-bit address field, in order.
pub proof fn lemma_window_fields_fit(
    c: Config,
    r: Rotation,
    sx: u16,
    sy: u16,
    ex: u16,
    ey: u16,
)
    requires
        c.wf(),
        sx < logical_w(r, c.width, c.height),
        ex < logical_w(r, c.width, c.height),
        sy < logical_h(r, c.width, c.height),
        ey < logical_h(r, c.width, c.height),
    ensures
        ({
            let (ax, ay, bx, by) = rect_window(
                r,
                logical_w(r, c.width, c.height) as int,
                logical_h(r, c.width, c.height) as int,
                sx as int,
                sy as int,
                ex as int,
                ey as int,
            );
            &&& 0 <= ax + c.dx <= bx + c.dx <= 0xFFFF
            &&& 0 <= ay + c.dy <= by + c.dy <= 0xFFFF
        }),
{
}

/// A clipped solid fill never issues an address window outside the
/// physical frame: for any in-frame origin and non-zero extents, the
/// window of the clipped rectangle — before the global offset — lies
/// inside `[0, width) x [0, height)`.
pub proof fn lemma_fill_rect_window_in_bounds(
    c: Config,
    r: Rotation,
    x: u16,
    y: u16,
    width: u16,
    height: u16,
)
    requires
        c.wf(),
        x < logical_w(r, c.width, c.height),
        y < logical_h(r, c.width, c.height),
        1 <= width,
        1 <= height,
    ensures
        ({
            let lw = logical_w(r, c.width, c.height);
            let lh = logical_h(r, c.width, c.height);
            let aw = clip_extent(x, width, lw);
            let ah = clip_extent(y, height, lh);
            let (ax, ay, bx, by) = rect_window(
                r,
                lw as int,
                lh as int,
                x as int,
                y as int,
                x + aw - 1,
                y + ah - 1,
            );
            &&& 0 <= ax <= bx < c.width
            &&& 0 <= ay <= by < c.height
        }),
{
    let lw = logical_w(r, c.width, c.height);
    let lh = logical_h(r, c.width, c.height);
    let aw = clip_extent(x, width, lw);
    let ah = clip_extent(y, height, lh);
    crate::rotation::lemma_rect_window_dims(
        r,
        c.width,
        c.height,
        x as int,
        y as int,
        aw as int,
        ah as int,
    );
}

} // verus!
