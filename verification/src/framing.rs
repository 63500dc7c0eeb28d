//! The wire model: command frames, their byte encoding, and the three-frame
//! sequence that programs an address window.
//!
//! A frame is one opcode with its parameter bytes; on the wire the opcode
//! travels with the data/command line low and the parameters with it high.
//! Driver contracts describe the bus traffic of an operation as a sequence
//! of frames, flattened to bytes.

use vstd::prelude::*;

use crate::color::{hi_byte, lo_byte};
use crate::config::Config;
use crate::rotation::{logical_h, logical_w, rect_window, Rotation};

verus! {

/// One command frame: an opcode and its parameter bytes.
pub ghost struct Frame {
    /// The opcode byte.
    pub cmd: u8,
    /// The parameter bytes, possibly none.
    pub params: Seq<u8>,
}

/// The bytes of one frame as they cross the bus: opcode, then parameters.
pub open spec fn frame_bytes(f: Frame) -> Seq<u8> {
    seq![f.cmd] + f.params
}

/// The bytes of a sequence of frames, in order.
pub open spec fn bytes_of_frames(s: Seq<Frame>) -> Seq<u8>
    decreases s.len(),
{
    if s.len() == 0 {
        Seq::empty()
    } else {
        bytes_of_frames(s.drop_last()) + frame_bytes(s.last())
    }
}

/// Flattening one more frame appends its bytes.
pub proof fn lemma_bytes_of_frames_push(s: Seq<Frame>, f: Frame)
    ensures
        bytes_of_frames(s + seq![f]) == bytes_of_frames(s) + frame_bytes(f),
{
    let t = s + seq![f];
    assert(t.drop_last() =~= s);
    assert(t.last() == f);
}

/// Step lemma for walking a frame sequence front to back: the bytes of the
/// first `k` frames are the bytes of the first `k - 1` followed by frame
/// `k - 1`'s bytes.
pub proof fn lemma_bytes_of_frames_take_step(s: Seq<Frame>, k: int)
    requires
        1 <= k <= s.len(),
    ensures
        bytes_of_frames(s.take(k)) == bytes_of_frames(s.take(k - 1)) + frame_bytes(s[k - 1]),
{
    let t = s.take(k);
    assert(t.drop_last() =~= s.take(k - 1));
    assert(t.last() == s[k - 1]);
}

/// The bytes of exactly three frames, written out.
pub proof fn lemma_bytes_of_frames3(f0: Frame, f1: Frame, f2: Frame)
    ensures
        bytes_of_frames(seq![f0, f1, f2]) == frame_bytes(f0) + frame_bytes(f1) + frame_bytes(f2),
{
    let s1 = seq![f0];
    let s2 = seq![f0, f1];
    let s3 = seq![f0, f1, f2];
    assert(s3.drop_last() =~= s2);
    assert(s2.drop_last() =~= s1);
    assert(s1.drop_last() =~= Seq::<Frame>::empty());
    assert(bytes_of_frames(Seq::<Frame>::empty()) == Seq::<u8>::empty());
    assert(bytes_of_frames(s1) =~= frame_bytes(f0));
    assert(bytes_of_frames(s2) =~= frame_bytes(f0) + frame_bytes(f1));
    assert(bytes_of_frames(s3) =~= frame_bytes(f0) + frame_bytes(f1) + frame_bytes(f2));
}

/// The bytes of a concatenation of frame sequences, in order.
pub proof fn lemma_bytes_of_frames_concat(a: Seq<Frame>, b: Seq<Frame>)
    ensures
        bytes_of_frames(a + b) == bytes_of_frames(a) + bytes_of_frames(b),
    decreases b.len(),
{
    if b.len() == 0 {
        assert(a + b =~= a);
        assert(bytes_of_frames(a) + bytes_of_frames(b) =~= bytes_of_frames(a));
    } else {
        lemma_bytes_of_frames_concat(a, b.drop_last());
        assert((a + b).drop_last() =~= a + b.drop_last());
        assert((a + b).last() == b.last());
        assert(bytes_of_frames(a) + (bytes_of_frames(b.drop_last()) + frame_bytes(b.last()))
            =~= (bytes_of_frames(a) + bytes_of_frames(b.drop_last())) + frame_bytes(b.last()));
    }
}

/// The data/command levels one frame drives on the select line: low for
/// the opcode, then high when parameters follow.
pub open spec fn frame_dc_levels(f: Frame) -> Seq<bool> {
    if f.params.len() > 0 {
        seq![false, true]
    } else {
        seq![false]
    }
}

/// The data/command levels a sequence of frames drives, in order.
pub open spec fn dc_levels_of_frames(s: Seq<Frame>) -> Seq<bool>
    decreases s.len(),
{
    if s.len() == 0 {
        Seq::empty()
    } else {
        dc_levels_of_frames(s.drop_last()) + frame_dc_levels(s.last())
    }
}

/// Driving one more frame appends its levels.
pub proof fn lemma_dc_levels_of_frames_push(s: Seq<Frame>, f: Frame)
    ensures
        dc_levels_of_frames(s + seq![f]) == dc_levels_of_frames(s) + frame_dc_levels(f),
{
    let t = s + seq![f];
    assert(t.drop_last() =~= s);
    assert(t.last() == f);
}

/// Step lemma for walking a frame sequence front to back, on the select
/// line's level history.
pub proof fn lemma_dc_levels_of_frames_take_step(s: Seq<Frame>, k: int)
    requires
        1 <= k <= s.len(),
    ensures
        dc_levels_of_frames(s.take(k)) == dc_levels_of_frames(s.take(k - 1)) + frame_dc_levels(
            s[k - 1],
        ),
{
    let t = s.take(k);
    assert(t.drop_last() =~= s.take(k - 1));
    assert(t.last() == s[k - 1]);
}

/// The levels of exactly three frames, written out.
pub proof fn lemma_dc_levels_of_frames3(f0: Frame, f1: Frame, f2: Frame)
    ensures
        dc_levels_of_frames(seq![f0, f1, f2]) == frame_dc_levels(f0) + frame_dc_levels(f1)
            + frame_dc_levels(f2),
{
    let s1 = seq![f0];
    let s2 = seq![f0, f1];
    let s3 = seq![f0, f1, f2];
    assert(s3.drop_last() =~= s2);
    assert(s2.drop_last() =~= s1);
    assert(s1.drop_last() =~= Seq::<Frame>::empty());
    assert(dc_levels_of_frames(Seq::<Frame>::empty()) == Seq::<bool>::empty());
    assert(dc_levels_of_frames(s1) =~= frame_dc_levels(f0));
    assert(dc_levels_of_frames(s2) =~= frame_dc_levels(f0) + frame_dc_levels(f1));
    assert(dc_levels_of_frames(s3) =~= frame_dc_levels(f0) + frame_dc_levels(f1)
        + frame_dc_levels(f2));
}

/// `post` extends `pre` by some prefix of the `intended` byte stream: what
/// a transfer that may have failed part-way leaves on the bus.
pub open spec fn wrote_prefix(pre: Seq<u8>, post: Seq<u8>, intended: Seq<u8>) -> bool {
    exists|k: int| 0 <= k <= intended.len() && post == pre + #[trigger] intended.take(k)
}

/// Taking from a concatenation past the head takes from the tail.
pub proof fn lemma_take_concat(a: Seq<u8>, b: Seq<u8>, k: int)
    requires
        0 <= k <= b.len(),
    ensures
        (a + b).take(a.len() + k) == a + b.take(k),
{
    assert((a + b).take(a.len() + k) =~= a + b.take(k));
}

/// Taking from a concatenation within the head takes from the head.
pub proof fn lemma_take_prefix_left(a: Seq<u8>, c: Seq<u8>, m: int)
    requires
        0 <= m <= a.len(),
    ensures
        (a + c).take(m) == a.take(m),
{
    assert((a + c).take(m) =~= a.take(m));
}

/// A complete head followed by a prefix of the tail is a prefix of the
/// whole.
pub proof fn lemma_wrote_prefix_extend(pre: Seq<u8>, post: Seq<u8>, a: Seq<u8>, b: Seq<u8>)
    requires
        wrote_prefix(pre + a, post, b),
    ensures
        wrote_prefix(pre, post, a + b),
{
    let k = choose|k: int| 0 <= k <= b.len() && post == (pre + a) + #[trigger] b.take(k);
    lemma_take_concat(a, b, k);
    assert((pre + a) + b.take(k) =~= pre + (a + b).take(a.len() + k));
}

/// A prefix of a head stream is a prefix of the head followed by anything.
pub proof fn lemma_wrote_prefix_widen(pre: Seq<u8>, post: Seq<u8>, a: Seq<u8>, c: Seq<u8>)
    requires
        wrote_prefix(pre, post, a),
    ensures
        wrote_prefix(pre, post, a + c),
{
    let k = choose|k: int| 0 <= k <= a.len() && post == pre + #[trigger] a.take(k);
    lemma_take_prefix_left(a, c, k);
}

/// A 16-bit address field, most significant byte first.
pub open spec fn be16(v: u16) -> Seq<u8> {
    seq![hi_byte(v), lo_byte(v)]
}

/// The three frames that program an address window for a rectangle given by
/// two corners of the logical frame: ColumnAddressSet and PageAddressSet
/// with the global offset applied to the transformed physical bounds, then
/// MemoryWrite to arm the controller for the pixel stream.
pub open spec fn window_frames(
    c: Config,
    r: Rotation,
    sx: u16,
    sy: u16,
    ex: u16,
    ey: u16,
) -> Seq<Frame> {
    let lw = logical_w(r, c.width, c.height) as int;
    let lh = logical_h(r, c.width, c.height) as int;
    let (ax, ay, bx, by) = rect_window(r, lw, lh, sx as int, sy as int, ex as int, ey as int);
    seq![
        Frame { cmd: 0x2A, params: be16((ax + c.dx) as u16) + be16((bx + c.dx) as u16) },
        Frame { cmd: 0x2B, params: be16((ay + c.dy) as u16) + be16((by + c.dy) as u16) },
        Frame { cmd: 0x2C, params: Seq::empty() },
    ]
}

} // verus!
