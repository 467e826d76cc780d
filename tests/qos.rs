use std::time::Duration;
use video_qos::engine::adjust_ratio;
use video_qos::qos::{AdjustMode, VideoQoS, FPS, MAX_FPS, MIN_FPS};
use video_qos::quality::{
    decode_quality, Quality, BR_BALANCED, BR_BEST, BR_MAX, BR_MIN, BR_SPEED,
    IMAGE_QUALITY_BALANCED, IMAGE_QUALITY_BEST, IMAGE_QUALITY_LOW,
};

/// Wire value of a custom ratio of `x * 2 / 100`.
fn custom_wire(x: i32) -> i32 {
    x << 8
}

#[test]
fn decode_named_presets() {
    assert_eq!(decode_quality(IMAGE_QUALITY_BALANCED), Quality::Balanced);
    assert_eq!(decode_quality(IMAGE_QUALITY_LOW), Quality::Low);
    assert_eq!(decode_quality(IMAGE_QUALITY_BEST), Quality::Best);
}

#[test]
fn decode_custom_ratio() {
    // 50 * 2 / 100 = 1.0
    assert_eq!(decode_quality(custom_wire(50)), Quality::Custom(1000));
    // 100 * 2 / 100 = 2.0
    assert_eq!(decode_quality(custom_wire(100)), Quality::Custom(2000));
    // 37 * 2 / 100 = 0.74; the low 8 bits are ignored
    assert_eq!(decode_quality(custom_wire(37) | 0x7f), Quality::Custom(740));
}

#[test]
fn decode_custom_ratio_is_clamped() {
    assert_eq!(decode_quality(0), Quality::Custom(BR_MIN));
    assert_eq!(decode_quality(custom_wire(5)), Quality::Custom(BR_MIN));
    assert_eq!(decode_quality(custom_wire(0xfff)), Quality::Custom(BR_MAX));
    assert_eq!(decode_quality(-1), Quality::Custom(BR_MAX));
}

#[test]
fn preset_ratios() {
    assert_eq!(Quality::Balanced.ratio(), BR_BALANCED);
    assert_eq!(Quality::Low.ratio(), BR_SPEED);
    assert_eq!(Quality::Best.ratio(), BR_BEST);
    assert_eq!(Quality::Custom(1234).ratio(), 1234);
    assert!(Quality::Custom(1234).is_custom());
    assert!(!Quality::Best.is_custom());
}

#[test]
fn correction_boost_without_bitrate() {
    assert_eq!(adjust_ratio(1000, 0, Quality::Custom(2000), true), 1150);
}

#[test]
fn correction_growth_cap() {
    // ratio_add_150kbps = 1150 * 1.0 / 1000 = 1.15; the boost reaches it exactly
    assert_eq!(adjust_ratio(1000, 1000, Quality::Best, true), 1150);
    // ratio_add_150kbps = 2150 * 1.0 / 2000 = 1.075 < 1.15: the boost is capped
    assert_eq!(adjust_ratio(1000, 2000, Quality::Best, true), 1075);
    // below BR_SPEED the cap does not apply: 0.4 * 1.15 = 0.46
    assert_eq!(adjust_ratio(400, 2000, Quality::Custom(2000), true), 460);
}

#[test]
fn correction_floor_and_ceiling() {
    // never above the target
    assert_eq!(adjust_ratio(1000, 0, Quality::Low, true), BR_SPEED);
    assert_eq!(adjust_ratio(2000, 0, Quality::Balanced, false), BR_BALANCED);
    // best: floor 0.6 without a bitrate
    assert_eq!(adjust_ratio(100, 0, Quality::Best, false), 600);
    // best: floor limited by the 1 Mbps ratio, 0.3 * 1000 / 1000 = 0.3
    assert_eq!(adjust_ratio(300, 1000, Quality::Best, false), 300);
    // best: the 1 Mbps ratio 0.1 * 1000 / 5000 is raised to 0.1, then the floor to 0.2
    assert_eq!(adjust_ratio(100, 5000, Quality::Best, false), BR_MIN);
    // balanced: floor 0.335
    assert_eq!(adjust_ratio(100, 0, Quality::Balanced, false), 335);
    // low and custom: floor 0.1
    assert_eq!(adjust_ratio(100, 0, Quality::Custom(2000), false), 100);
}

#[test]
fn correction_settles_without_dynamic_screen() {
    let r = adjust_ratio(800, 3000, Quality::Best, false);
    assert_eq!(r, 800);
    assert_eq!(adjust_ratio(r, 3000, Quality::Best, false), r);
}

#[test]
fn default_state() {
    let mut q = VideoQoS::default();
    assert_eq!(q.fps(), FPS);
    assert_eq!(q.fixed_fps(), None);
    assert_eq!(q.ratio(), BR_BALANCED);
    assert_eq!(q.bitrate(), 0);
    assert!(!q.record());
    assert!(!q.in_vbr_state());
    assert_eq!(q.latest_quality(), Quality::Balanced);
    assert_eq!(q.adjust_mode(), AdjustMode::Smoothed);
}

#[test]
fn ratio_stays_in_bounds() {
    let mut q = VideoQoS::default();
    q.on_connection_open(1, true);
    q.user_image_quality(1, custom_wire(0xfff), 10);
    assert_eq!(q.ratio(), BR_MAX);
    q.user_image_quality(1, custom_wire(1), 11);
    assert_eq!(q.ratio(), BR_MIN);
}

#[test]
fn latest_request_wins_across_viewers() {
    let mut q = VideoQoS::default();
    q.on_connection_open(1, false);
    q.on_connection_open(2, false);
    q.user_image_quality(1, IMAGE_QUALITY_BEST, 10);
    q.user_image_quality(2, IMAGE_QUALITY_LOW, 5);
    assert_eq!(q.latest_quality(), Quality::Best);
    assert_eq!(q.ratio(), BR_BEST);
    q.user_image_quality(2, custom_wire(50), 20);
    assert_eq!(q.latest_quality(), Quality::Custom(1000));
    assert_eq!(q.ratio(), 1000);
    q.user_image_quality(1, IMAGE_QUALITY_LOW, 30);
    assert_eq!(q.latest_quality(), Quality::Low);
    assert_eq!(q.ratio(), BR_SPEED);
}

#[test]
fn unknown_viewer_is_ignored() {
    let mut q = VideoQoS::default();
    q.on_connection_open(1, false);
    q.user_image_quality(7, IMAGE_QUALITY_BEST, 10);
    q.user_record(7, true);
    assert_eq!(q.latest_quality(), Quality::Balanced);
    assert_eq!(q.ratio(), BR_BALANCED);
    assert!(!q.record());
}

#[test]
fn recording_flag() {
    let mut q = VideoQoS::default();
    q.on_connection_open(1, false);
    q.on_connection_open(2, false);
    q.user_record(2, true);
    assert!(q.record());
    q.user_record(2, false);
    assert!(!q.record());
    q.user_record(1, true);
    q.on_connection_close(1);
    assert!(!q.record());
}

#[test]
fn reopening_a_viewer_clears_its_request() {
    let mut q = VideoQoS::default();
    q.on_connection_open(1, false);
    q.user_image_quality(1, IMAGE_QUALITY_BEST, 10);
    q.on_connection_open(1, false);
    assert_eq!(q.latest_quality(), Quality::Balanced);
}

#[test]
fn vbr_gate_follows_outputs() {
    let mut q = VideoQoS::default();
    q.on_connection_open(1, true);
    assert!(q.in_vbr_state());
    q.new_display("primary".to_string());
    assert!(q.in_vbr_state());
    q.new_display("second".to_string());
    q.set_support_changing_quality("second", false);
    assert!(!q.in_vbr_state());
    q.set_support_changing_quality("unknown", true);
    assert!(!q.in_vbr_state());
    q.remove_display("second");
    assert!(q.in_vbr_state());
    q.on_connection_open(2, false);
    assert!(!q.in_vbr_state());
}

#[test]
fn reattaching_an_output_resets_its_flag() {
    let mut q = VideoQoS::default();
    q.on_connection_open(1, true);
    q.new_display("primary".to_string());
    q.set_support_changing_quality("primary", false);
    assert!(!q.in_vbr_state());
    q.new_display("primary".to_string());
    assert!(q.in_vbr_state());
}

#[test]
fn last_close_resets_everything() {
    let mut q = VideoQoS::default();
    q.on_connection_open(1, true);
    q.on_connection_open(2, true);
    q.set_fixed_fps(Some(100));
    q.store_bitrate(3000);
    q.user_image_quality(1, IMAGE_QUALITY_BEST, 10);
    q.new_display("primary".to_string());
    q.on_connection_close(1);
    assert_eq!(q.fps(), 100);
    assert_eq!(q.bitrate(), 3000);
    q.on_connection_close(2);
    assert_eq!(q.fps(), FPS);
    assert_eq!(q.fixed_fps(), None);
    assert_eq!(q.ratio(), BR_BALANCED);
    assert_eq!(q.bitrate(), 0);
    assert!(!q.in_vbr_state());
    q.on_connection_open(3, false);
    assert_eq!(q.fps(), FPS);
    assert_eq!(q.fixed_fps(), None);
    assert_eq!(q.ratio(), BR_BALANCED);
    assert_eq!(q.bitrate(), 0);
    assert_eq!(q.latest_quality(), Quality::Balanced);
}

#[test]
fn fixed_fps_is_clamped() {
    let mut q = VideoQoS::default();
    q.set_fixed_fps(Some(30));
    assert_eq!(q.fps(), MIN_FPS);
    assert_eq!(q.fixed_fps(), Some(MIN_FPS));
    q.set_fixed_fps(Some(500));
    assert_eq!(q.fps(), MAX_FPS);
    q.set_fixed_fps(Some(90));
    assert_eq!(q.fps(), 90);
    q.set_fixed_fps(None);
    assert_eq!(q.fps(), FPS);
    assert_eq!(q.fixed_fps(), None);
}

#[test]
fn frame_interval() {
    let mut q = VideoQoS::default();
    assert_eq!(q.spf_nanos(), 1_000_000_000 / 59);
    assert_eq!(q.spf(), Duration::from_nanos(16_949_152));
    q.set_fixed_fps(Some(100));
    assert_eq!(q.spf(), Duration::from_millis(10));
}

/// A session whose ratio (0.5, from a low request) is below the target (2.0): viewer 1
/// asked for low last, then disconnected, leaving viewer 2's older custom request.
fn session_below_target(mode: AdjustMode, abr: bool) -> VideoQoS {
    let mut q = VideoQoS::with_mode(mode);
    q.on_connection_open(1, abr);
    q.on_connection_open(2, abr);
    q.user_image_quality(2, custom_wire(100), 5);
    q.user_image_quality(1, IMAGE_QUALITY_LOW, 10);
    q.on_connection_close(1);
    q.new_display("primary".to_string());
    assert_eq!(q.ratio(), BR_SPEED);
    assert_eq!(q.latest_quality(), Quality::Custom(2000));
    q
}

#[test]
fn window_with_dynamic_screen_boosts_ratio() {
    let mut q = session_below_target(AdjustMode::Smoothed, true);
    // starts the clock; six sends make the screen dynamic
    q.update_display_data("primary", 6, 1_000);
    assert_eq!(q.ratio(), BR_SPEED);
    // window not elapsed yet
    q.update_display_data("primary", 0, 3_999);
    assert_eq!(q.ratio(), BR_SPEED);
    q.update_display_data("primary", 0, 4_000);
    assert_eq!(q.ratio(), 575);
    // counters were reset: no boost in the next window, and the ratio stays
    q.update_display_data("primary", 5, 7_000);
    assert_eq!(q.ratio(), 575);
    // a report from an unknown output still drives the cadence
    q.update_display_data("unknown", 100, 10_000);
    assert_eq!(q.ratio(), 575);
}

#[test]
fn window_growth_is_capped_by_bitrate() {
    let mut q = session_below_target(AdjustMode::Smoothed, true);
    q.store_bitrate(10_000);
    q.update_display_data("primary", 0, 0);
    q.update_display_data("primary", 6, 3_000);
    // ratio_add_150kbps = 10150 * 0.5 / 10000 = 0.5075 < 0.575
    assert_eq!(q.ratio(), 507);
}

#[test]
fn window_without_vbr_passes_target_through() {
    let mut q = session_below_target(AdjustMode::Smoothed, false);
    q.update_display_data("primary", 0, 0);
    q.update_display_data("primary", 0, 3_000);
    assert_eq!(q.ratio(), 2000);
}

#[test]
fn direct_mode_ignores_activity() {
    let mut q = session_below_target(AdjustMode::Direct, true);
    q.update_display_data("primary", 6, 0);
    q.update_display_data("primary", 6, 3_000);
    q.update_display_data("primary", 6, 60_000);
    assert_eq!(q.ratio(), BR_SPEED);
    q.set_adjust_mode(AdjustMode::Smoothed);
    q.update_display_data("primary", 6, 61_000);
    q.update_display_data("primary", 0, 64_000);
    assert_eq!(q.ratio(), 575);
}
