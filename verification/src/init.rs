//! The initialization sequencer: the fixed, ordered table of
//! (opcode, parameters, post-write delay) entries that brings the panel up,
//! and a small model of the controller registers it programs.
//!
//! The table is data, not logic; it is kept as one literal ordered sequence
//! so that bring-up is bit-exact. It ends with SleepOut (whose settle delay
//! the panel needs before it answers further commands), DisplayOn and a
//! pending MemoryWrite; the configured orientation command follows it.

use vstd::prelude::*;

use crate::config::{madctl_byte, Config};
use crate::framing::Frame;

verus! {

/// One entry of the initialization table: an opcode, its parameter bytes,
/// and the milliseconds to wait after the write.
pub struct InitEntry {
    /// The opcode byte.
    pub cmd: u8,
    /// The parameter bytes, possibly none.
    pub params: Vec<u8>,
    /// Milliseconds to wait after the write, usually none.
    pub delay_after_ms: u64,
}

/// The frame an initialization entry puts on the bus.
pub open spec fn entry_frame(e: InitEntry) -> Frame {
    Frame { cmd: e.cmd, params: e.params@ }
}

/// The number of fixed entries of the initialization table.
pub const INIT_LEN: usize = 35;

/// Frame `i` of the fixed part of the initialization sequence.
pub open spec fn init_command_frame(i: int) -> Frame {
    if i == 0 {
        Frame { cmd: 0xfe, params: seq![] }
    } else if i == 1 {
        Frame { cmd: 0xef, params: seq![] }
    } else if i == 2 {
        Frame { cmd: 0x36, params: seq![0x48] }
    } else if i == 3 {
        Frame { cmd: 0x3a, params: seq![0x05] }
    } else if i == 4 {
        Frame { cmd: 0x85, params: seq![0xc0] }
    } else if i == 5 {
        Frame { cmd: 0x86, params: seq![0x98] }
    } else if i == 6 {
        Frame { cmd: 0x87, params: seq![0x28] }
    } else if i == 7 {
        Frame { cmd: 0x89, params: seq![0x33] }
    } else if i == 8 {
        Frame { cmd: 0x8b, params: seq![0x84] }
    } else if i == 9 {
        Frame { cmd: 0x8d, params: seq![0x3b] }
    } else if i == 10 {
        Frame { cmd: 0x8e, params: seq![0x0f] }
    } else if i == 11 {
        Frame { cmd: 0x8f, params: seq![0x70] }
    } else if i == 12 {
        Frame { cmd: 0xe8, params: seq![0x13, 0x17] }
    } else if i == 13 {
        Frame { cmd: 0xec, params: seq![0x57, 0x07, 0xff] }
    } else if i == 14 {
        Frame { cmd: 0xed, params: seq![0x18, 0x09] }
    } else if i == 15 {
        Frame { cmd: 0xc9, params: seq![0x10] }
    } else if i == 16 {
        Frame { cmd: 0xff, params: seq![0x61] }
    } else if i == 17 {
        Frame { cmd: 0x99, params: seq![0x3a] }
    } else if i == 18 {
        Frame { cmd: 0x9d, params: seq![0x43] }
    } else if i == 19 {
        Frame { cmd: 0x98, params: seq![0x3e] }
    } else if i == 20 {
        Frame { cmd: 0x9c, params: seq![0x4b] }
    } else if i == 21 {
        Frame { cmd: 0xf0, params: seq![0x06, 0x08, 0x08, 0x06, 0x05, 0x1d] }
    } else if i == 22 {
        Frame { cmd: 0xf2, params: seq![0x00, 0x01, 0x09, 0x07, 0x04, 0x23] }
    } else if i == 23 {
        Frame { cmd: 0xf1, params: seq![0x3b, 0x68, 0x66, 0x36, 0x35, 0x2f] }
    } else if i == 24 {
        Frame { cmd: 0xf3, params: seq![0x37, 0x6a, 0x66, 0x37, 0x35, 0x35] }
    } else if i == 25 {
        Frame { cmd: 0xfa, params: seq![0x80, 0x0f] }
    } else if i == 26 {
        Frame { cmd: 0xbe, params: seq![0x11] }
    } else if i == 27 {
        Frame { cmd: 0xcb, params: seq![0x02] }
    } else if i == 28 {
        Frame { cmd: 0xcd, params: seq![0x22] }
    } else if i == 29 {
        Frame { cmd: 0x9b, params: seq![0xff] }
    } else if i == 30 {
        Frame { cmd: 0x35, params: seq![0x00] }
    } else if i == 31 {
        Frame { cmd: 0x44, params: seq![0x00, 0x0a] }
    } else if i == 32 {
        Frame { cmd: 0x11, params: seq![] }
    } else if i == 33 {
        Frame { cmd: 0x29, params: seq![] }
    } else {
        Frame { cmd: 0x2c, params: seq![] }
    }
}

/// The fixed part of the initialization sequence, in order.
pub open spec fn init_command_frames() -> Seq<Frame> {
    Seq::new(INIT_LEN as nat, |i: int| init_command_frame(i))
}

/// The delay that follows entry `i`: the panel needs at least 200 ms to
/// settle after SleepOut before it answers further commands.
pub open spec fn init_delay(i: int) -> u64 {
    if i == 32 {
        200
    } else {
        0
    }
}

/// Every frame the whole initialization puts on the bus: the fixed table,
/// then the MemoryAccessControl frame of the configured orientation.
pub open spec fn init_frames(c: Config) -> Seq<Frame> {
    init_command_frames() + seq![
        Frame { cmd: 0x36, params: seq![madctl_byte(c.orientation, c.rgb)] },
    ]
}

/// The initialization table as a value, for replay entry by entry.
pub fn init_entries() -> (r: Vec<InitEntry>)
    ensures
        r@.len() == INIT_LEN,
        forall|i: int|
            0 <= i < INIT_LEN ==> #[trigger] entry_frame(r@[i]) == init_command_frame(i)
                && r@[i].delay_after_ms == init_delay(i),
{
    let mut r: Vec<InitEntry> = Vec::new();
    r.push(InitEntry { cmd: 0xfe, params: Vec::new(), delay_after_ms: 0 });
    r.push(InitEntry { cmd: 0xef, params: Vec::new(), delay_after_ms: 0 });
    r.push(InitEntry { cmd: 0x36, params: params1(0x48), delay_after_ms: 0 });
    r.push(InitEntry { cmd: 0x3a, params: params1(0x05), delay_after_ms: 0 });
    r.push(InitEntry { cmd: 0x85, params: params1(0xc0), delay_after_ms: 0 });
    r.push(InitEntry { cmd: 0x86, params: params1(0x98), delay_after_ms: 0 });
    r.push(InitEntry { cmd: 0x87, params: params1(0x28), delay_after_ms: 0 });
    r.push(InitEntry { cmd: 0x89, params: params1(0x33), delay_after_ms: 0 });
    r.push(InitEntry { cmd: 0x8b, params: params1(0x84), delay_after_ms: 0 });
    r.push(InitEntry { cmd: 0x8d, params: params1(0x3b), delay_after_ms: 0 });
    r.push(InitEntry { cmd: 0x8e, params: params1(0x0f), delay_after_ms: 0 });
    r.push(InitEntry { cmd: 0x8f, params: params1(0x70), delay_after_ms: 0 });
    r.push(InitEntry { cmd: 0xe8, params: params2(0x13, 0x17), delay_after_ms: 0 });
    r.push(InitEntry { cmd: 0xec, params: params3(0x57, 0x07, 0xff), delay_after_ms: 0 });
    r.push(InitEntry { cmd: 0xed, params: params2(0x18, 0x09), delay_after_ms: 0 });
    r.push(InitEntry { cmd: 0xc9, params: params1(0x10), delay_after_ms: 0 });
    r.push(InitEntry { cmd: 0xff, params: params1(0x61), delay_after_ms: 0 });
    r.push(InitEntry { cmd: 0x99, params: params1(0x3a), delay_after_ms: 0 });
    r.push(InitEntry { cmd: 0x9d, params: params1(0x43), delay_after_ms: 0 });
    r.push(InitEntry { cmd: 0x98, params: params1(0x3e), delay_after_ms: 0 });
    r.push(InitEntry { cmd: 0x9c, params: params1(0x4b), delay_after_ms: 0 });
    r.push(
        InitEntry { cmd: 0xf0, params: params6(0x06, 0x08, 0x08, 0x06, 0x05, 0x1d), delay_after_ms: 0 },
    );
    r.push(
        InitEntry { cmd: 0xf2, params: params6(0x00, 0x01, 0x09, 0x07, 0x04, 0x23), delay_after_ms: 0 },
    );
    r.push(
        InitEntry { cmd: 0xf1, params: params6(0x3b, 0x68, 0x66, 0x36, 0x35, 0x2f), delay_after_ms: 0 },
    );
    r.push(
        InitEntry { cmd: 0xf3, params: params6(0x37, 0x6a, 0x66, 0x37, 0x35, 0x35), delay_after_ms: 0 },
    );
    r.push(InitEntry { cmd: 0xfa, params: params2(0x80, 0x0f), delay_after_ms: 0 });
    r.push(InitEntry { cmd: 0xbe, params: params1(0x11), delay_after_ms: 0 });
    r.push(InitEntry { cmd: 0xcb, params: params1(0x02), delay_after_ms: 0 });
    r.push(InitEntry { cmd: 0xcd, params: params1(0x22), delay_after_ms: 0 });
    r.push(InitEntry { cmd: 0x9b, params: params1(0xff), delay_after_ms: 0 });
    r.push(InitEntry { cmd: 0x35, params: params1(0x00), delay_after_ms: 0 });
    r.push(InitEntry { cmd: 0x44, params: params2(0x00, 0x0a), delay_after_ms: 0 });
    r.push(InitEntry { cmd: 0x11, params: Vec::new(), delay_after_ms: 200 });
    r.push(InitEntry { cmd: 0x29, params: Vec::new(), delay_after_ms: 0 });
    r.push(InitEntry { cmd: 0x2c, params: Vec::new(), delay_after_ms: 0 });
    assert forall|i: int|
        0 <= i < INIT_LEN implies #[trigger] entry_frame(r@[i]) == init_command_frame(i)
        && r@[i].delay_after_ms == init_delay(i) by {}
    r
}

/// The controller registers the initialization touches that outlive it:
/// the MemoryAccessControl value (orientation and color order), the sleep
/// state and the display-output state.
pub ghost struct ControllerState {
    /// The MemoryAccessControl register, `None` while never written.
    pub madctl: Option<u8>,
    /// True while the controller is in its low-power mode.
    pub sleeping: bool,
    /// True while panel output is enabled.
    pub display_on: bool,
}

/// How one command frame changes the modeled controller registers. Every
/// write is absolute; commands outside the model leave it unchanged.
pub open spec fn apply_frame(s: ControllerState, f: Frame) -> ControllerState {
    if f.cmd == 0x36 && f.params.len() == 1 {
        ControllerState { madctl: Some(f.params[0]), ..s }
    } else if f.cmd == 0x11 {
        ControllerState { sleeping: false, ..s }
    } else if f.cmd == 0x10 {
        ControllerState { sleeping: true, ..s }
    } else if f.cmd == 0x29 {
        ControllerState { display_on: true, ..s }
    } else if f.cmd == 0x28 {
        ControllerState { display_on: false, ..s }
    } else {
        s
    }
}

/// Fold a frame sequence over the controller model, in order.
pub open spec fn apply_frames(s: ControllerState, fs: Seq<Frame>) -> ControllerState
    decreases fs.len(),
{
    if fs.len() == 0 {
        s
    } else {
        apply_frame(apply_frames(s, fs.drop_last()), fs.last())
    }
}

/// The value the last MemoryAccessControl frame of a sequence writes, if
/// there is one.
pub open spec fn last_madctl(fs: Seq<Frame>) -> Option<u8>
    decreases fs.len(),
{
    if fs.len() == 0 {
        None
    } else if fs.last().cmd == 0x36 && fs.last().params.len() == 1 {
        Some(fs.last().params[0])
    } else {
        last_madctl(fs.drop_last())
    }
}

/// The sleep state the last SleepIn or SleepOut frame of a sequence
/// leaves, if there is one.
pub open spec fn last_sleep(fs: Seq<Frame>) -> Option<bool>
    decreases fs.len(),
{
    if fs.len() == 0 {
        None
    } else if fs.last().cmd == 0x10 {
        Some(true)
    } else if fs.last().cmd == 0x11 {
        Some(false)
    } else {
        last_sleep(fs.drop_last())
    }
}

/// The output state the last DisplayOn or DisplayOff frame of a sequence
/// leaves, if there is one.
pub open spec fn last_display(fs: Seq<Frame>) -> Option<bool>
    decreases fs.len(),
{
    if fs.len() == 0 {
        None
    } else if fs.last().cmd == 0x29 {
        Some(true)
    } else if fs.last().cmd == 0x28 {
        Some(false)
    } else {
        last_display(fs.drop_last())
    }
}

/// The folded MemoryAccessControl value is the last one written, or the
/// initial one where none is.
pub proof fn lemma_apply_frames_madctl(s: ControllerState, fs: Seq<Frame>)
    ensures
        apply_frames(s, fs).madctl == if last_madctl(fs) is Some {
            last_madctl(fs)
        } else {
            s.madctl
        },
    decreases fs.len(),
{
    if fs.len() > 0 {
        lemma_apply_frames_madctl(s, fs.drop_last());
    }
}

/// The folded sleep state is the last one written, or the initial one
/// where none is.
pub proof fn lemma_apply_frames_sleep(s: ControllerState, fs: Seq<Frame>)
    ensures
        apply_frames(s, fs).sleeping == match last_sleep(fs) {
            Option::Some(b) => b,
            Option::None => s.sleeping,
        },
    decreases fs.len(),
{
    if fs.len() > 0 {
        lemma_apply_frames_sleep(s, fs.drop_last());
    }
}

/// The folded display-output state is the last one written, or the initial
/// one where none is.
pub proof fn lemma_apply_frames_display(s: ControllerState, fs: Seq<Frame>)
    ensures
        apply_frames(s, fs).display_on == match last_display(fs) {
            Option::Some(b) => b,
            Option::None => s.display_on,
        },
    decreases fs.len(),
{
    if fs.len() > 0 {
        lemma_apply_frames_display(s, fs.drop_last());
    }
}

/// The initialization sequence determines the modeled controller state
/// completely, whatever state the controller was in: orientation as
/// configured, awake, display on.
pub proof fn lemma_init_establishes(s: ControllerState, c: Config)
    ensures
        apply_frames(s, init_frames(c)) == (ControllerState {
            madctl: Some(madctl_byte(c.orientation, c.rgb)),
            sleeping: false,
            display_on: true,
        }),
{
    let fs = init_frames(c);
    let cmds = init_command_frames();
    let c34 = cmds.drop_last();
    let c33 = c34.drop_last();
    assert(fs.drop_last() =~= cmds);
    assert(fs.last().cmd == 0x36 && fs.last().params.len() == 1);
    assert(last_madctl(fs) == Some(madctl_byte(c.orientation, c.rgb)));
    assert(cmds.last() == init_command_frame(34));
    assert(c34.last() == init_command_frame(33));
    assert(c33.last() == init_command_frame(32));
    assert(last_display(fs) == last_display(cmds));
    assert(last_display(cmds) == last_display(c34));
    assert(last_display(c34) == Some(true));
    assert(last_sleep(fs) == last_sleep(cmds));
    assert(last_sleep(cmds) == last_sleep(c34));
    assert(last_sleep(c34) == last_sleep(c33));
    assert(last_sleep(c33) == Some(false));
    lemma_apply_frames_madctl(s, fs);
    lemma_apply_frames_sleep(s, fs);
    lemma_apply_frames_display(s, fs);
}

/// Replaying the initialization sequence twice in a row leaves the modeled
/// controller state exactly as one replay does: bring-up is idempotent.
pub proof fn lemma_init_idempotent(s: ControllerState, c: Config)
    ensures
        apply_frames(apply_frames(s, init_frames(c)), init_frames(c)) == apply_frames(
            s,
            init_frames(c),
        ),
{
    lemma_init_establishes(s, c);
    lemma_init_establishes(apply_frames(s, init_frames(c)), c);
}

fn params1(a: u8) -> (r: Vec<u8>)
    ensures
        r@ == seq![a],
{
    let mut v: Vec<u8> = Vec::new();
    v.push(a);
    proof {
        assert(v@ =~= seq![a]);
    }
    v
}

fn params2(a: u8, b: u8) -> (r: Vec<u8>)
    ensures
        r@ == seq![a, b],
{
    let mut v: Vec<u8> = Vec::new();
    v.push(a);
    v.push(b);
    proof {
        assert(v@ =~= seq![a, b]);
    }
    v
}

fn params3(a: u8, b: u8, c: u8) -> (r: Vec<u8>)
    ensures
        r@ == seq![a, b, c],
{
    let mut v: Vec<u8> = Vec::new();
    v.push(a);
    v.push(b);
    v.push(c);
    proof {
        assert(v@ =~= seq![a, b, c]);
    }
    v
}

fn params6(a: u8, b: u8, c: u8, d: u8, e: u8, f: u8) -> (r: Vec<u8>)
    ensures
        r@ == seq![a, b, c, d, e, f],
{
    let mut v: Vec<u8> = Vec::new();
    v.push(a);
    v.push(b);
    v.push(c);
    v.push(d);
    v.push(e);
    v.push(f);
    proof {
        assert(v@ =~= seq![a, b, c, d, e, f]);
    }
    v
}

} // verus!
