//! RGB565 color values and their big-endian wire encoding.
//!
//! The controller expects pixel data most-significant-byte first; every
//! transfer path of the driver (single pixel, solid fill, bitmap expansion)
//! uses this one convention.

use vstd::prelude::*;

verus! {

/// A 16-bit RGB565 color: 5 bits red, 6 bits green, 5 bits blue.
#[derive(Debug, Clone, Copy, PartialEq, Eq, Structural)]
pub struct Rgb565 {
    /// The raw 16-bit value, red in the top 5 bits.
    pub raw: u16,
}

impl Rgb565 {
    /// Packed raw value for the given channel values, each masked to its
    /// channel width (5, 6 and 5 bits).
    pub open spec fn pack_spec(r: u8, g: u8, b: u8) -> u16 {
        (((r % 32) as u16) * 2048 + ((g % 64) as u16) * 32 + ((b % 32) as u16)) as u16
    }

    /// Build a color from its red, green and blue channel values; channel
    /// bits beyond each channel's width are ignored.
    pub fn new(r: u8, g: u8, b: u8) -> (c: Rgb565)
        ensures
            c.raw == Rgb565::pack_spec(r, g, b),
    {
        Rgb565 { raw: ((r % 32) as u16) * 2048 + ((g % 64) as u16) * 32 + ((b % 32) as u16) }
    }

    /// Build a color directly from a raw 16-bit RGB565 value.
    pub fn from_raw(raw: u16) -> (c: Rgb565)
        ensures
            c.raw == raw,
    {
        Rgb565 { raw }
    }
}

/// High byte of a 16-bit value in big-endian order.
pub open spec fn hi_byte(v: u16) -> u8 {
    (v / 256) as u8
}

/// Low byte of a 16-bit value in big-endian order.
pub open spec fn lo_byte(v: u16) -> u8 {
    (v % 256) as u8
}

/// The 16-bit value encoded by a big-endian byte pair.
pub open spec fn word_of_bytes(hi: u8, lo: u8) -> u16 {
    ((hi as int) * 256 + (lo as int)) as u16
}

/// Splitting a value into its big-endian bytes and reading them back is the
/// identity, for every 16-bit value.
pub proof fn lemma_word_roundtrip(v: u16)
    ensures
        word_of_bytes(hi_byte(v), lo_byte(v)) == v,
{
}

/// Decode one big-endian byte pair, as the panel reads pixel data.
pub fn decode_pixel(hi: u8, lo: u8) -> (v: u16)
    ensures
        v == word_of_bytes(hi, lo),
{
    (hi as u16) * 256 + (lo as u16)
}

/// Encode a raw 16-bit value as its big-endian byte pair.
pub fn encode_pixel(v: u16) -> (b: (u8, u8))
    ensures
        b.0 == hi_byte(v),
        b.1 == lo_byte(v),
{
    ((v / 256) as u8, (v % 256) as u8)
}

/// The byte stream of `n` pixels of one color, big-endian per pixel.
pub open spec fn solid_bytes(raw: u16, n: nat) -> Seq<u8>
    decreases n,
{
    if n == 0 {
        Seq::empty()
    } else {
        solid_bytes(raw, (n - 1) as nat) + seq![hi_byte(raw), lo_byte(raw)]
    }
}

/// A solid byte stream of `n` pixels holds `2 * n` bytes.
pub proof fn lemma_solid_bytes_len(raw: u16, n: nat)
    ensures
        solid_bytes(raw, n).len() == 2 * n,
    decreases n,
{
    if n > 0 {
        lemma_solid_bytes_len(raw, (n - 1) as nat);
    }
}

/// Every byte of a solid stream is the color's high byte at even offsets and
/// its low byte at odd offsets.
pub proof fn lemma_solid_bytes_index(raw: u16, n: nat, i: int)
    requires
        0 <= i < 2 * n,
    ensures
        solid_bytes(raw, n)[i] == if i % 2 == 0 {
            hi_byte(raw)
        } else {
            lo_byte(raw)
        },
    decreases n,
{
    lemma_solid_bytes_len(raw, n);
    if n > 0 {
        lemma_solid_bytes_len(raw, (n - 1) as nat);
        if i < 2 * (n - 1) {
            lemma_solid_bytes_index(raw, (n - 1) as nat, i);
        }
    }
}

/// Solid streams concatenate: `a` pixels followed by `b` pixels of the same
/// color are `a + b` pixels of it.
pub proof fn lemma_solid_bytes_concat(raw: u16, a: nat, b: nat)
    ensures
        solid_bytes(raw, a) + solid_bytes(raw, b) == solid_bytes(raw, a + b),
    decreases b,
{
    if b == 0 {
        assert(solid_bytes(raw, a) + solid_bytes(raw, 0) =~= solid_bytes(raw, a));
    } else {
        lemma_solid_bytes_concat(raw, a, (b - 1) as nat);
        assert(solid_bytes(raw, a) + (solid_bytes(raw, (b - 1) as nat) + seq![
            hi_byte(raw),
            lo_byte(raw),
        ]) =~= (solid_bytes(raw, a) + solid_bytes(raw, (b - 1) as nat)) + seq![
            hi_byte(raw),
            lo_byte(raw),
        ]);
    }
}

/// A prefix of a solid stream, cut at a pixel boundary, is itself a solid
/// stream of that many pixels.
pub proof fn lemma_solid_bytes_prefix(raw: u16, n: nat, m: nat)
    requires
        m <= n,
    ensures
        solid_bytes(raw, n).subrange(0, 2 * m as int) == solid_bytes(raw, m),
    decreases n,
{
    lemma_solid_bytes_len(raw, n);
    lemma_solid_bytes_len(raw, m);
    if m == n {
        assert(solid_bytes(raw, n).subrange(0, 2 * m as int) =~= solid_bytes(raw, n));
    } else {
        lemma_solid_bytes_len(raw, (n - 1) as nat);
        lemma_solid_bytes_prefix(raw, (n - 1) as nat, m);
        assert(solid_bytes(raw, n).subrange(0, 2 * m as int) =~= solid_bytes(
            raw,
            (n - 1) as nat,
        ).subrange(0, 2 * m as int));
    }
}

/// Decoding any 2-byte pair of a solid stream yields the original 16-bit
/// color, for every color value and every pixel position.
pub proof fn lemma_solid_roundtrip(raw: u16, n: nat, i: int)
    requires
        0 <= i < n,
    ensures
        word_of_bytes(solid_bytes(raw, n)[2 * i], solid_bytes(raw, n)[2 * i + 1]) == raw,
{
    lemma_solid_bytes_index(raw, n, 2 * i);
    lemma_solid_bytes_index(raw, n, 2 * i + 1);
    lemma_word_roundtrip(raw);
}

/// Whether bit `j` of a byte is set, counting the most significant bit
/// first, as a 1-bit-per-pixel bitmap is read.
pub open spec fn bit_set(b: u8, j: int) -> bool {
    (b >> ((7 - j) as u8)) & 1 == 1
}

/// The color of pixel `p` of an expanded bitmap: the foreground color where
/// the bit is set, the background color where it is clear.
pub open spec fn expanded_color(d: Seq<u8>, fg: u16, bg: u16, p: int) -> u16 {
    if bit_set(d[p / 8], p % 8) {
        fg
    } else {
        bg
    }
}

/// The byte stream of a 1-bit-per-pixel bitmap expanded to big-endian
/// RGB565: two bytes for every bit, foreground for set bits, background for
/// clear ones.
pub open spec fn expand_bits_bytes(d: Seq<u8>, fg: u16, bg: u16) -> Seq<u8> {
    Seq::new(
        d.len() * 16,
        |i: int|
            if i % 2 == 0 {
                hi_byte(expanded_color(d, fg, bg, i / 2))
            } else {
                lo_byte(expanded_color(d, fg, bg, i / 2))
            },
    )
}

/// Expand a bitmap into the first `16 * data.len()` bytes of a scratch
/// buffer, leaving the rest of the buffer untouched.
pub fn expand_bits_prefix(buf: &mut Vec<u8>, data: &[u8], fg: u16, bg: u16)
    requires
        16 * data@.len() <= old(buf)@.len(),
    ensures
        final(buf)@.len() == old(buf)@.len(),
        final(buf)@.subrange(0, 16 * data@.len() as int) == expand_bits_bytes(data@, fg, bg),
        forall|j: int|
            16 * data@.len() <= j < old(buf)@.len() ==> final(buf)@[j] == old(buf)@[j],
{
    let len = data.len();
    let n = buf.len();
    assert(16 * len <= n);
    let ghost target = expand_bits_bytes(data@, fg, bg);
    let mut i: usize = 0;
    while i < len
        invariant
            i <= len,
            len == data@.len(),
            16 * len <= n <= usize::MAX,
            n == buf@.len(),
            buf@.len() == old(buf)@.len(),
            target == expand_bits_bytes(data@, fg, bg),
            forall|t: int| 0 <= t < 16 * i ==> buf@[t] == target[t],
            forall|j: int| 16 * i <= j < old(buf)@.len() ==> buf@[j] == old(buf)@[j],
        decreases len - i,
    {
        let bits = data[i];
        let mut j: usize = 0;
        while j < 8
            invariant
                i < len,
                j <= 8,
                len == data@.len(),
                16 * len <= n <= usize::MAX,
                n == buf@.len(),
                buf@.len() == old(buf)@.len(),
                bits == data@[i as int],
                target == expand_bits_bytes(data@, fg, bg),
                forall|t: int| 0 <= t < 16 * i + 2 * j ==> buf@[t] == target[t],
                forall|j2: int|
                    16 * i + 2 * j <= j2 < old(buf)@.len() ==> buf@[j2] == old(buf)@[j2],
            decreases 8 - j,
        {
            let shift: u8 = (7 - j) as u8;
            let color: u16 = if (bits >> shift) & 1 == 1 {
                fg
            } else {
                bg
            };
            let p = i * 8 + j;
            proof {
                vstd::arithmetic::div_mod::lemma_fundamental_div_mod_converse(
                    p as int,
                    8,
                    i as int,
                    j as int,
                );
                assert(expanded_color(data@, fg, bg, p as int) == color);
            }
            buf.set(2 * p, (color / 256) as u8);
            buf.set(2 * p + 1, (color % 256) as u8);
            j = j + 1;
        }
        i = i + 1;
    }
    proof {
        assert(final(buf)@.subrange(0, 16 * data@.len() as int) =~= expand_bits_bytes(
            data@,
            fg,
            bg,
        ));
    }
}

/// Fill the first `pixels` pixel slots of a scratch buffer with one color's
/// big-endian pattern, leaving the rest of the buffer untouched.
pub fn fill_solid_prefix(buf: &mut Vec<u8>, raw: u16, pixels: usize)
    requires
        2 * pixels <= old(buf)@.len(),
    ensures
        final(buf)@.len() == old(buf)@.len(),
        final(buf)@.subrange(0, 2 * pixels as int) == solid_bytes(raw, pixels as nat),
        forall|j: int|
            2 * pixels <= j < old(buf)@.len() ==> final(buf)@[j] == old(buf)@[j],
{
    let n = buf.len();
    assert(2 * pixels <= n);
    let hi: u8 = (raw / 256) as u8;
    let lo: u8 = (raw % 256) as u8;
    let mut i: usize = 0;
    while i < pixels
        invariant
            i <= pixels,
            2 * pixels <= usize::MAX,
            2 * pixels <= buf@.len(),
            buf@.len() == old(buf)@.len(),
            hi == hi_byte(raw),
            lo == lo_byte(raw),
            buf@.subrange(0, 2 * i as int) == solid_bytes(raw, i as nat),
            forall|j: int| 2 * i <= j < old(buf)@.len() ==> buf@[j] == old(buf)@[j],
        decreases pixels - i,
    {
        proof {
            lemma_solid_bytes_len(raw, i as nat);
        }
        buf.set(2 * i, hi);
        buf.set(2 * i + 1, lo);
        i = i + 1;
        proof {
            assert(buf@.subrange(0, 2 * i as int) =~= solid_bytes(
                raw,
                (i - 1) as nat,
            ) + seq![hi_byte(raw), lo_byte(raw)]);
        }
    }
    proof {
        assert(buf@.subrange(0, 2 * pixels as int) == solid_bytes(raw, pixels as nat));
    }
}

} // verus!
