//! Tests for the driver facade: address windows, fills, rotation, bitmap
//! writes, initialization and error surfacing, observed through mock
//! capabilities that record the bus traffic.

use gc9307c::init::init_entries;
use gc9307c::{Bus, Config, ControlPin, Error, Orientation, Rgb565, Rotation, Timer, GC9307C};
use gc9307c::{BUF_SIZE, OFFSET_X, SCREEN_HEIGHT, SCREEN_WIDTH};

struct MockBus {
    log: Vec<u8>,
    fail_from_write: Option<usize>,
    writes: usize,
}

impl Bus for MockBus {
    type BusError = u8;

    fn write(&mut self, data: &[u8]) -> Result<(), u8> {
        if let Some(n) = self.fail_from_write {
            if self.writes >= n {
                return Err(7);
            }
        }
        self.writes += 1;
        self.log.extend_from_slice(data);
        Ok(())
    }
}

struct MockPin {
    high: bool,
    log: Vec<bool>,
}

impl ControlPin for MockPin {
    fn set_high(&mut self) {
        self.high = true;
        self.log.push(true);
    }

    fn set_low(&mut self) {
        self.high = false;
        self.log.push(false);
    }
}

struct MockTimer {
    log: Vec<u64>,
}

impl Timer for MockTimer {
    fn delay_ms(&mut self, milliseconds: u64) {
        self.log.push(milliseconds);
    }
}

type Driver = GC9307C<MockBus, MockPin, MockPin, MockTimer>;

fn mock_pin() -> MockPin {
    MockPin { high: false, log: Vec::new() }
}

fn new_driver(config: Config) -> Driver {
    GC9307C::new(
        config,
        MockBus { log: Vec::new(), fail_from_write: None, writes: 0 },
        mock_pin(),
        mock_pin(),
        vec![0u8; BUF_SIZE],
        MockTimer { log: Vec::new() },
    )
}

fn failing_driver(config: Config, fail_from_write: usize) -> Driver {
    GC9307C::new(
        config,
        MockBus { log: Vec::new(), fail_from_write: Some(fail_from_write), writes: 0 },
        mock_pin(),
        mock_pin(),
        vec![0u8; BUF_SIZE],
        MockTimer { log: Vec::new() },
    )
}

/// The wired physical frame of the panel: 172 x 320 portrait, visible area
/// offset on the column axis.
fn portrait_config() -> Config {
    Config {
        rgb: false,
        inverted: false,
        orientation: Orientation::Portrait,
        width: SCREEN_WIDTH,
        height: SCREEN_HEIGHT,
        dx: OFFSET_X,
        dy: 0,
    }
}

/// The eleven bytes that program one address window.
fn window_bytes(sx: u16, sy: u16, ex: u16, ey: u16) -> Vec<u8> {
    let mut v = Vec::new();
    v.push(0x2A);
    v.extend_from_slice(&sx.to_be_bytes());
    v.extend_from_slice(&ex.to_be_bytes());
    v.push(0x2B);
    v.extend_from_slice(&sy.to_be_bytes());
    v.extend_from_slice(&ey.to_be_bytes());
    v.push(0x2C);
    v
}

fn solid(raw: u16, pixels: usize) -> Vec<u8> {
    let mut v = Vec::new();
    for _ in 0..pixels {
        v.extend_from_slice(&raw.to_be_bytes());
    }
    v
}

#[test]
fn address_window_applies_offset() {
    let mut d = new_driver(Config::default());
    d.set_address_window(10, 20, 30, 40).unwrap();
    assert_eq!(d.spi.log, window_bytes(10, 54, 30, 74));
}

#[test]
fn address_window_normalizes_reversed_corners() {
    let mut a = new_driver(Config::default());
    let mut b = new_driver(Config::default());
    a.set_address_window(10, 20, 30, 40).unwrap();
    b.set_address_window(30, 40, 10, 20).unwrap();
    assert_eq!(a.spi.log, b.spi.log);
}

#[test]
fn address_window_under_each_rotation() {
    // A 6 x 4 physical frame without offset; the logical rectangle with
    // corners (1,1) and (2,2) lands on a known physical window per rotation.
    let config = Config { width: 6, height: 4, dx: 0, dy: 0, ..Config::default() };
    let expected = [
        (Rotation::Deg0, window_bytes(1, 1, 2, 2)),
        (Rotation::Deg90, window_bytes(3, 1, 4, 2)),
        (Rotation::Deg180, window_bytes(3, 1, 4, 2)),
        (Rotation::Deg270, window_bytes(1, 1, 2, 2)),
    ];
    for (r, bytes) in expected {
        let mut d = new_driver(config);
        d.set_rotation(r);
        d.set_address_window(1, 1, 2, 2).unwrap();
        assert_eq!(d.spi.log, bytes, "window for {:?}", r);
    }
}

#[test]
fn set_offset_moves_window() {
    let mut d = new_driver(Config::default());
    d.set_offset(5, 6);
    d.set_address_window(0, 0, 1, 1).unwrap();
    assert_eq!(d.spi.log, window_bytes(5, 6, 6, 7));
}

#[test]
fn set_pixel_writes_one_big_endian_pixel() {
    let mut d = new_driver(Config::default());
    d.set_pixel(5, 6, Rgb565::from_raw(0x1234)).unwrap();
    let mut expected = window_bytes(5, 40, 5, 40);
    expected.extend_from_slice(&[0x12, 0x34]);
    assert_eq!(d.spi.log, expected);
}

#[test]
fn set_pixel_off_frame_is_noop() {
    let mut d = new_driver(Config::default());
    d.set_pixel(320, 0, Rgb565::from_raw(0xFFFF)).unwrap();
    d.set_pixel(0, 172, Rgb565::from_raw(0xFFFF)).unwrap();
    assert!(d.spi.log.is_empty());
}

#[test]
fn fill_rect_small_rectangle() {
    let mut d = new_driver(Config::default());
    d.fill_rect(1, 1, 2, 2, Rgb565::from_raw(0xABCD)).unwrap();
    let mut expected = window_bytes(1, 35, 2, 36);
    expected.extend_from_slice(&solid(0xABCD, 4));
    assert_eq!(d.spi.log, expected);
}

#[test]
fn fill_rect_clips_to_frame() {
    let mut d = new_driver(Config::default());
    d.fill_rect(300, 150, 100, 100, Rgb565::from_raw(0x5555)).unwrap();
    // Clipped to the 20 x 22 visible span.
    let mut expected = window_bytes(300, 184, 319, 205);
    expected.extend_from_slice(&solid(0x5555, 20 * 22));
    assert_eq!(d.spi.log, expected);
}

#[test]
fn fill_rect_window_stays_inside_panel() {
    // Whatever rectangle is asked for, the issued window, with the global
    // offset taken off again, stays inside the physical frame.
    let cases = [(0u16, 0u16, 5u16, 5u16), (300, 150, 100, 100), (319, 171, 1000, 1000), (0, 0, 320, 172)];
    for r in [Rotation::Deg0, Rotation::Deg90, Rotation::Deg180, Rotation::Deg270] {
        for (x, y, w, h) in cases {
            let mut d = new_driver(Config::default());
            d.set_rotation(r);
            let (lw, lh) = d.logical_dimensions();
            if x >= lw || y >= lh {
                continue;
            }
            d.fill_rect(x, y, w, h, Rgb565::from_raw(0x0001)).unwrap();
            let log = &d.spi.log;
            assert_eq!(log[0], 0x2A);
            let sx = u16::from_be_bytes([log[1], log[2]]);
            let ex = u16::from_be_bytes([log[3], log[4]]);
            assert_eq!(log[5], 0x2B);
            let sy = u16::from_be_bytes([log[6], log[7]]);
            let ey = u16::from_be_bytes([log[8], log[9]]);
            assert!(sx <= ex && ex < 320, "columns out of panel");
            assert!(sy >= 34 && sy <= ey && ey < 34 + 172, "pages out of panel");
        }
    }
}

#[test]
fn fill_rect_off_frame_or_empty_is_noop() {
    let mut d = new_driver(Config::default());
    d.fill_rect(320, 0, 10, 10, Rgb565::from_raw(0xFFFF)).unwrap();
    d.fill_rect(0, 172, 10, 10, Rgb565::from_raw(0xFFFF)).unwrap();
    d.fill_rect(0, 0, 0, 5, Rgb565::from_raw(0xFFFF)).unwrap();
    d.fill_rect(0, 0, 5, 0, Rgb565::from_raw(0xFFFF)).unwrap();
    assert!(d.spi.log.is_empty());
}

#[test]
fn fill_screen_covers_whole_frame() {
    let mut d = new_driver(Config::default());
    d.fill_screen(Rgb565::from_raw(0x07E0)).unwrap();
    let mut expected = window_bytes(0, 34, 319, 205);
    expected.extend_from_slice(&solid(0x07E0, 320 * 172));
    assert_eq!(d.spi.log, expected);
}

#[test]
fn fill_color_matches_fill_screen() {
    let mut a = new_driver(Config::default());
    let mut b = new_driver(Config::default());
    a.fill_screen(Rgb565::from_raw(0xBEEF)).unwrap();
    b.fill_color(Rgb565::from_raw(0xBEEF)).unwrap();
    assert_eq!(a.spi.log, b.spi.log);
}

#[test]
fn rotation_90_swaps_logical_dimensions_and_covers_panel() {
    // Physical 172 x 320 panel, rotated 90 degrees: the logical frame is
    // 320 x 172, and filling all of it covers the entire physical panel.
    let mut d = new_driver(portrait_config());
    d.set_rotation(Rotation::Deg90);
    assert_eq!(d.logical_dimensions(), (320, 172));
    d.fill_rect(0, 0, 320, 172, Rgb565::from_raw(0xF800)).unwrap();
    let mut expected = window_bytes(34, 0, 34 + 171, 319);
    expected.extend_from_slice(&solid(0xF800, 320 * 172));
    assert_eq!(d.spi.log, expected);
}

#[test]
fn set_rotation_twice_is_idempotent() {
    for r in [Rotation::Deg0, Rotation::Deg90, Rotation::Deg180, Rotation::Deg270] {
        let mut d = new_driver(Config::default());
        d.set_rotation(r);
        let once = (d.rotation(), d.logical_dimensions());
        d.set_rotation(r);
        let twice = (d.rotation(), d.logical_dimensions());
        assert_eq!(once, twice);
    }
}

#[test]
fn transform_is_bijective_on_small_frame() {
    // On a 5 x 4 frame, every rotation maps the logical grid one-to-one
    // onto the physical grid.
    let config = Config { width: 5, height: 4, dx: 0, dy: 0, ..Config::default() };
    for r in [Rotation::Deg0, Rotation::Deg90, Rotation::Deg180, Rotation::Deg270] {
        let mut d = new_driver(config);
        d.set_rotation(r);
        let (lw, lh) = d.logical_dimensions();
        assert_eq!(lw as u32 * lh as u32, 20);
        let mut seen = [[false; 4]; 5];
        for x in 0..lw {
            for y in 0..lh {
                let (px, py) = d.transform_coordinates(x, y);
                assert!(px < 5 && py < 4);
                assert!(!seen[px as usize][py as usize], "two points collide");
                seen[px as usize][py as usize] = true;
            }
        }
        assert!(seen.iter().all(|col| col.iter().all(|s| *s)));
    }
}

#[test]
fn transform_roundtrip_through_inverse() {
    // Mapping through a rotation and back through its inverse recovers the
    // point; the inverse is read over its own logical dimensions.
    let config = Config { width: 7, height: 3, dx: 0, dy: 0, ..Config::default() };
    let pairs = [
        (Rotation::Deg0, Rotation::Deg0),
        (Rotation::Deg90, Rotation::Deg270),
        (Rotation::Deg180, Rotation::Deg180),
        (Rotation::Deg270, Rotation::Deg90),
    ];
    for (r, inv) in pairs {
        let mut fwd = new_driver(config);
        fwd.set_rotation(r);
        let (lw, lh) = fwd.logical_dimensions();
        // The inverse transform reads the physical frame as its logical one.
        let inv_config = Config { width: lw, height: lh, ..config };
        let mut bwd = new_driver(inv_config);
        bwd.set_rotation(inv);
        for x in 0..lw {
            for y in 0..lh {
                let (px, py) = fwd.transform_coordinates(x, y);
                assert_eq!(bwd.transform_coordinates(px, py), (x, y));
            }
        }
    }
}

#[test]
fn transform_rect_keeps_dimensions() {
    let config = Config { width: 100, height: 60, dx: 0, dy: 0, ..Config::default() };
    for r in [Rotation::Deg0, Rotation::Deg90, Rotation::Deg180, Rotation::Deg270] {
        let mut d = new_driver(config);
        d.set_rotation(r);
        let swaps = matches!(r, Rotation::Deg90 | Rotation::Deg270);
        let (_, _, w, h) = d.transform_rect(1, 2, 10, 20);
        if swaps {
            assert_eq!((w, h), (20, 10));
        } else {
            assert_eq!((w, h), (10, 20));
        }
        let (_, _, w, h) = d.transform_rect(0, 0, 1, 1);
        assert_eq!((w, h), (1, 1));
    }
}

#[test]
fn write_area_fills_exact_block() {
    // A 144-column bitmap of 144 bytes is 1152 bits, exactly the scratch
    // buffer's pixel capacity: the block is 144 x 8, all foreground.
    let mut d = new_driver(Config::default());
    let data = [0xFFu8; 144];
    d.write_area(0, 0, 144, &data, Rgb565::from_raw(0xF800), Rgb565::from_raw(0x0000)).unwrap();
    let mut expected = window_bytes(0, 34, 143, 41);
    expected.extend_from_slice(&solid(0xF800, 1152));
    assert_eq!(d.spi.log, expected);
}

#[test]
fn write_area_expands_bits_msb_first() {
    let mut d = new_driver(Config::default());
    let data = [0xA0u8];
    d.write_area(0, 0, 8, &data, Rgb565::from_raw(0xF800), Rgb565::from_raw(0x001F)).unwrap();
    // Window of the 8 x 144 block.
    let mut expected = window_bytes(0, 34, 7, 177);
    // 0xA0 is 1010 0000: foreground, background, foreground, then clear.
    expected.extend_from_slice(&[0xF8, 0x00, 0x00, 0x1F, 0xF8, 0x00]);
    expected.extend_from_slice(&solid(0x001F, 5));
    assert_eq!(d.spi.log, expected);
}

#[test]
fn init_replays_whole_sequence() {
    let mut d = new_driver(Config::default());
    d.init().unwrap();
    let log = &d.spi.log;
    // The fixed table is 91 bytes, the orientation frame 2 more.
    assert_eq!(log.len(), 93);
    assert_eq!(&log[..6], &[0xFE, 0xEF, 0x36, 0x48, 0x3A, 0x05]);
    // It ends with SleepOut, DisplayOn, MemoryWrite, then the configured
    // orientation (Landscape with the BGR bit).
    assert_eq!(&log[log.len() - 5..], &[0x11, 0x29, 0x2C, 0x36, 0x28]);
}

#[derive(PartialEq, Eq, Debug, Clone, Copy)]
struct PanelState {
    madctl: Option<u8>,
    sleeping: bool,
    display_on: bool,
}

/// Replay a recorded byte log against the register model, using the known
/// frame lengths of the initialization sequence to split it into frames.
fn interpret_init_log(log: &[u8], replays: usize) -> PanelState {
    let entries = init_entries();
    let mut state = PanelState { madctl: None, sleeping: true, display_on: false };
    let mut pos = 0;
    for _ in 0..replays {
        for e in entries.iter() {
            let cmd = log[pos];
            assert_eq!(cmd, e.cmd);
            let params = &log[pos + 1..pos + 1 + e.params.len()];
            assert_eq!(params, &e.params[..]);
            apply(&mut state, cmd, params);
            pos += 1 + e.params.len();
        }
        // The orientation frame that closes every replay.
        apply(&mut state, log[pos], &log[pos + 1..pos + 2]);
        assert_eq!(log[pos], 0x36);
        pos += 2;
    }
    assert_eq!(pos, log.len());
    state
}

fn apply(state: &mut PanelState, cmd: u8, params: &[u8]) {
    match cmd {
        0x36 if params.len() == 1 => state.madctl = Some(params[0]),
        0x11 => state.sleeping = false,
        0x10 => state.sleeping = true,
        0x29 => state.display_on = true,
        0x28 => state.display_on = false,
        _ => {}
    }
}

#[test]
fn double_init_leaves_same_state() {
    let mut once = new_driver(Config::default());
    once.init().unwrap();
    let mut twice = new_driver(Config::default());
    twice.init().unwrap();
    twice.init().unwrap();
    // The second replay issues exactly the same bytes again ...
    assert_eq!(twice.spi.log.len(), 2 * once.spi.log.len());
    assert_eq!(&twice.spi.log[..once.spi.log.len()], &once.spi.log[..]);
    assert_eq!(&twice.spi.log[once.spi.log.len()..], &once.spi.log[..]);
    // ... and leaves the modeled orientation and power state unchanged.
    let s1 = interpret_init_log(&once.spi.log, 1);
    let s2 = interpret_init_log(&twice.spi.log, 2);
    assert_eq!(s1, s2);
    assert_eq!(s1.madctl, Some(0x28));
    assert!(!s1.sleeping);
    assert!(s1.display_on);
}

#[test]
fn set_orientation_issues_register_value() {
    let mut d = new_driver(Config::default());
    d.set_orientation(Orientation::Portrait).unwrap();
    // BGR wiring sets the color-order bit.
    assert_eq!(d.spi.log, vec![0x36, 0x48]);
    assert_eq!(d.config.orientation, Orientation::Portrait);

    let rgb_config = Config { rgb: true, ..Config::default() };
    let mut d = new_driver(rgb_config);
    d.set_orientation(Orientation::Portrait).unwrap();
    assert_eq!(d.spi.log, vec![0x36, 0x40]);
}

#[test]
fn reset_is_silent_on_the_bus() {
    let mut d = new_driver(Config::default());
    d.reset().unwrap();
    assert!(d.spi.log.is_empty());
    assert!(d.rst.high);
}

#[test]
fn reset_pulses_line_with_boot_holds() {
    let mut d = new_driver(Config::default());
    d.reset().unwrap();
    // High, low, high — with the 10/10/120 ms holds after the edges.
    assert_eq!(d.rst.log, vec![true, false, true]);
    assert_eq!(d.timer.log, vec![10, 10, 120]);
    assert!(d.dc.log.is_empty());
}

#[test]
fn init_performs_reset_pulse_and_settle_delay() {
    let mut d = new_driver(Config::default());
    d.init().unwrap();
    assert_eq!(d.rst.log, vec![true, false, true]);
    // The three boot holds, then the settle delay after SleepOut.
    assert_eq!(d.timer.log, vec![10, 10, 120, 200]);
}

#[test]
fn command_framing_drives_select_line() {
    // Each command pulls the line low for its opcode and high for its
    // parameters; the parameterless MemoryWrite leaves it low, and the
    // pixel data that follows pulls it high again.
    let mut d = new_driver(Config::default());
    d.set_address_window(0, 0, 1, 1).unwrap();
    assert_eq!(d.dc.log, vec![false, true, false, true, false]);
    assert!(!d.dc.high);
    let mut d = new_driver(Config::default());
    d.set_pixel(1, 1, Rgb565::from_raw(0x1234)).unwrap();
    assert_eq!(d.dc.log, vec![false, true, false, true, false, true]);
    assert!(d.dc.high);
}

#[test]
fn noop_draws_touch_no_lines() {
    let mut d = new_driver(Config::default());
    d.fill_rect(320, 0, 10, 10, Rgb565::from_raw(0xFFFF)).unwrap();
    d.set_pixel(0, 172, Rgb565::from_raw(0xFFFF)).unwrap();
    assert!(d.spi.log.is_empty());
    assert!(d.dc.log.is_empty());
    assert!(d.rst.log.is_empty());
    assert!(d.timer.log.is_empty());
}

#[test]
fn write_area_over_capacity_degrades_to_panel_fill() {
    // 145 bytes are 1160 bits, past the 1152-pixel scratch capacity: the
    // documented degradation, a whole-panel fill with the background.
    let mut d = new_driver(Config::default());
    let data = [0xFFu8; 145];
    d.write_area(0, 0, 144, &data, Rgb565::from_raw(0xF800), Rgb565::from_raw(0x001F)).unwrap();
    let mut expected = window_bytes(0, 34, 319, 205);
    expected.extend_from_slice(&solid(0x001F, 320 * 172));
    assert_eq!(d.spi.log, expected);
}

#[test]
fn transport_errors_surface_as_comm() {
    let mut d = failing_driver(Config::default(), 0);
    match d.fill_screen(Rgb565::from_raw(0x0000)) {
        Err(Error::Comm(e)) => assert_eq!(e, 7),
        other => panic!("expected a communication error, got {:?}", other.is_ok()),
    }
    let mut d = failing_driver(Config::default(), 0);
    assert!(d.init().is_err());
    // A failed orientation write leaves the configuration as it was.
    let mut d = failing_driver(Config::default(), 0);
    let before = d.config.orientation;
    assert!(d.set_orientation(Orientation::PortraitSwapped).is_err());
    assert_eq!(d.config.orientation, before);
}

#[test]
fn mid_stream_error_aborts_fill() {
    // Window programming succeeds (three writes for the opcodes plus two
    // for parameters), then the pixel stream fails.
    let mut d = failing_driver(Config::default(), 5);
    assert!(d.fill_screen(Rgb565::from_raw(0x0F0F)).is_err());
    assert_eq!(d.spi.log.len(), 11);
}

#[test]
fn draw_digit_writes_glyph_pixels() {
    let mut d = new_driver(Config::default());
    d.draw_digit(10, 10, 1, Rgb565::from_raw(0xFFFF)).unwrap();
    // Digit 1 has 31 set bits; each becomes one windowed pixel write.
    let set_bits: u32 =
        gc9307c::get_digit_font_data(1).iter().map(|b| b.count_ones()).sum();
    assert_eq!(d.spi.log.len(), set_bits as usize * 13);
    // Digits above 9 draw nothing.
    let mut d = new_driver(Config::default());
    d.draw_digit(10, 10, 10, Rgb565::from_raw(0xFFFF)).unwrap();
    assert!(d.spi.log.is_empty());
}

#[test]
fn draw_angle_text_draws_all_digits() {
    let mut d = new_driver(Config::default());
    d.draw_angle_text(10, 10, 270, Rgb565::from_raw(0xFFFF)).unwrap();
    assert!(!d.spi.log.is_empty());
}
