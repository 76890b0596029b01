use wl_zenwindow::gamma::ByteOrder;
use wl_zenwindow::render::{
    alpha_to_u8, create_gamma_ramp, premultiply_argb, update_gamma, Action, Extent, GammaState, Paint, Surface,
    SurfaceConfig, SurfaceKey, SurfaceRole,
};
use wl_zenwindow::{Brightness, Color, Opacity};

fn parts(x: f64) -> i64 {
    (x * 1e15).round() as i64
}

fn read_ramp(size: u32, brightness: f64) -> Vec<u16> {
    let buf = create_gamma_ramp(size, Brightness::new(parts(brightness)), ByteOrder::Little);
    buf.chunks_exact(2)
        .map(|c| u16::from_le_bytes([c[0], c[1]]))
        .collect()
}

fn overlay(alpha_modifier: bool, viewport: bool) -> Surface {
    Surface {
        output: 4,
        output_name: Some("DP-1".to_string()),
        role: SurfaceRole::Overlay,
        viewport,
        alpha_modifier,
        gamma: GammaState::Unavailable,
        config: SurfaceConfig::Ready {
            width: 1920,
            height: 1080,
        },
    }
}

#[test]
fn render_surface_config_pending_has_no_dimensions() {
    assert_eq!(SurfaceConfig::Pending.dimensions(), None);
}

#[test]
fn render_surface_config_ready_returns_dimensions() {
    let config = SurfaceConfig::Ready {
        width: 1920,
        height: 1080,
    };
    assert_eq!(config.dimensions(), Some((1920, 1080)));
}

#[test]
fn render_surface_config_ready_zero_width_returns_none() {
    let config = SurfaceConfig::Ready {
        width: 0,
        height: 1080,
    };
    assert_eq!(config.dimensions(), None);
}

#[test]
fn render_surface_config_ready_zero_height_returns_none() {
    let config = SurfaceConfig::Ready {
        width: 1920,
        height: 0,
    };
    assert_eq!(config.dimensions(), None);
}

#[test]
fn render_surface_config_ready_both_zero_returns_none() {
    let config = SurfaceConfig::Ready {
        width: 0,
        height: 0,
    };
    assert_eq!(config.dimensions(), None);
}

#[test]
fn render_premultiply_fully_opaque() {
    assert_eq!(premultiply_argb(255, 128, 0, 255), 0xFF_FF_80_00);
}

#[test]
fn render_premultiply_fully_transparent() {
    assert_eq!(premultiply_argb(255, 255, 255, 0), 0x00_00_00_00);
}

#[test]
fn render_premultiply_half_alpha() {
    let result = premultiply_argb(255, 0, 0, 128);
    let r = (result >> 16) & 0xFF;
    let a = (result >> 24) & 0xFF;
    assert_eq!(a, 128);
    assert_eq!(r, 128);
}

#[test]
fn render_premultiply_channel_order() {
    let result = premultiply_argb(0xAA, 0xBB, 0xCC, 0xFF);
    assert_eq!(result, 0xFF_AA_BB_CC);
}

#[test]
fn render_gamma_ramp_zero_brightness() {
    let values = read_ramp(256, 0.0);
    assert_eq!(values.len(), 256 * 3);
    assert!(values.iter().all(|&v| v == 0));
}

#[test]
fn render_gamma_ramp_full_brightness_linear() {
    let values = read_ramp(256, 1.0);
    assert_eq!(values.len(), 256 * 3);
    assert_eq!(values[0], 0);
    assert_eq!(values[255], 65535);
}

#[test]
fn render_gamma_ramp_half_brightness() {
    let values = read_ramp(256, 0.5);
    assert_eq!(values[255], 32767);
}

#[test]
fn render_gamma_ramp_three_identical_channels() {
    let values = read_ramp(256, 0.7);
    let r = &values[0..256];
    let g = &values[256..512];
    let b = &values[512..768];
    assert_eq!(r, g);
    assert_eq!(g, b);
}

#[test]
fn alpha_byte_rounds_down() {
    assert_eq!(alpha_to_u8(Opacity::new(parts(0.85))), 216);
    assert_eq!(alpha_to_u8(Opacity::new(parts(0.5))), 127);
    assert_eq!(alpha_to_u8(Opacity::opaque()), 255);
    assert_eq!(alpha_to_u8(Opacity::transparent()), 0);
}

#[test]
fn alpha_byte_agrees_with_floating_point() {
    for i in 0..=1000u32 {
        let x = f64::from(i) / 1000.0;
        assert_eq!(alpha_to_u8(Opacity::new(parts(x))), (x * 255.0) as u8);
    }
}

#[test]
fn multiplier_agrees_with_floating_point() {
    for alpha in 0..=255u8 {
        let opacity = Opacity::new((i64::from(alpha) * 1_000_000_000_000_000 + 254) / 255);
        assert_eq!(alpha_to_u8(opacity), alpha);
        let paint = overlay(true, true).draw(Color::black(), opacity, true).unwrap();
        let expected = (f64::from(alpha) / 255.0 * f64::from(u32::MAX)) as u32;
        assert_eq!(paint.multiplier, Some(expected));
    }
}

#[test]
fn alpha_modifier_and_viewporter_paint_one_opaque_pixel() {
    let paint = overlay(true, true)
        .draw(Color::new(10, 20, 30), Opacity::new(parts(0.5)), true)
        .unwrap();
    assert_eq!(
        paint,
        Paint {
            surface: SurfaceKey {
                output: 4,
                role: SurfaceRole::Overlay
            },
            multiplier: Some(127 * 0x0101_0101),
            destination: Some(Extent {
                width: 1920,
                height: 1080
            }),
            release: false,
            width: 1,
            height: 1,
            stride: 4,
            pixel: 0xFF_0A_14_1E,
        }
    );
}

#[test]
fn viewporter_alone_bakes_alpha_into_one_pixel() {
    let paint = overlay(false, true)
        .draw(Color::new(255, 0, 0), Opacity::new(parts(0.5)), true)
        .unwrap();
    assert_eq!(paint.multiplier, None);
    assert_eq!(paint.width, 1);
    assert_eq!(paint.pixel, 0x7F_7F_00_00);
}

#[test]
fn neither_fills_a_full_buffer() {
    let paint = overlay(false, false)
        .draw(Color::new(0, 0, 255), Opacity::opaque(), false)
        .unwrap();
    assert_eq!(paint.multiplier, None);
    assert_eq!(paint.destination, None);
    assert!(paint.release);
    assert_eq!((paint.width, paint.height, paint.stride), (1920, 1080, 7680));
    assert_eq!(paint.pixel, 0xFF_00_00_FF);
}

#[test]
fn pending_surface_is_not_painted() {
    let mut surface = overlay(true, true);
    surface.config = SurfaceConfig::Pending;
    assert_eq!(surface.draw(Color::black(), Opacity::opaque(), true), None);
}

#[test]
fn gamma_needs_a_ready_control() {
    let half = Brightness::new(parts(0.5));
    let mut surface = overlay(true, true);
    assert_eq!(update_gamma(&surface, half), None);
    surface.gamma = GammaState::Pending(9);
    assert_eq!(update_gamma(&surface, half), None);
    surface.gamma.receive_size(256);
    assert_eq!(
        update_gamma(&surface, half),
        Some(Action::SetGamma {
            control: 9,
            size: 256,
            brightness: half
        })
    );
    surface.gamma.fail();
    surface.gamma.receive_size(256);
    assert_eq!(surface.gamma, GammaState::Unavailable);
}
