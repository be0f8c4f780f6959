use viewtree::frontlight::LightLevels;
use viewtree::settings::{guess_frontlight, numeral, sort_by_timestamp, LightPreset};

fn preset(level: Option<u16>, intensity: u8, warmth: u8, timestamp: u64) -> LightPreset {
    LightPreset {
        lightsensor_level: level,
        frontlight_levels: LightLevels { intensity, warmth },
        timestamp,
    }
}

#[test]
fn guess_needs_two_presets_test() {
    assert_eq!(guess_frontlight(Some(10), &vec![]), None);
    assert_eq!(guess_frontlight(Some(10), &vec![preset(Some(10), 1, 2, 0)]), None);
    assert_eq!(guess_frontlight(None, &vec![preset(Some(10), 1, 2, 0)]), None);
}

#[test]
fn guess_selects_the_preset_with_the_nearest_level_test() {
    let presets = vec![
        preset(Some(40), 10, 11, 1),
        preset(Some(58), 20, 21, 2),
        preset(Some(120), 30, 31, 3),
    ];
    assert_eq!(
        guess_frontlight(Some(118), &presets),
        Some(LightLevels { intensity: 30, warmth: 31 })
    );
    assert_eq!(
        guess_frontlight(Some(0), &presets),
        Some(LightLevels { intensity: 10, warmth: 11 })
    );
    assert_eq!(
        guess_frontlight(Some(60), &presets),
        Some(LightLevels { intensity: 20, warmth: 21 })
    );
    assert_eq!(
        guess_frontlight(Some(65535), &presets),
        Some(LightLevels { intensity: 30, warmth: 31 })
    );
}

#[test]
fn guess_prefers_the_first_of_two_equally_near_presets_test() {
    let presets = vec![preset(Some(40), 10, 11, 1), preset(Some(60), 20, 21, 2)];
    assert_eq!(
        guess_frontlight(Some(50), &presets),
        Some(LightLevels { intensity: 10, warmth: 11 })
    );
    let swapped = vec![preset(Some(60), 20, 21, 1), preset(Some(40), 10, 11, 2)];
    assert_eq!(
        guess_frontlight(Some(50), &swapped),
        Some(LightLevels { intensity: 20, warmth: 21 })
    );
}

#[test]
fn guess_without_a_reading_takes_the_preset_saved_last_test() {
    let presets = vec![
        preset(Some(40), 10, 11, 1),
        preset(Some(58), 20, 21, 2),
        preset(None, 30, 31, 3),
    ];
    assert_eq!(guess_frontlight(None, &presets), Some(LightLevels { intensity: 30, warmth: 31 }));
}

#[test]
fn guess_passes_over_presets_saved_without_a_reading_test() {
    let presets = vec![
        preset(None, 10, 11, 1),
        preset(Some(500), 20, 21, 2),
        preset(None, 30, 31, 3),
    ];
    assert_eq!(
        guess_frontlight(Some(3), &presets),
        Some(LightLevels { intensity: 20, warmth: 21 })
    );
    let blind = vec![preset(None, 10, 11, 1), preset(None, 30, 31, 3)];
    assert_eq!(guess_frontlight(Some(3), &blind), Some(LightLevels { intensity: 30, warmth: 31 }));
}

#[test]
fn sort_by_timestamp_orders_oldest_first_test() {
    let mut presets = vec![
        preset(Some(1), 1, 1, 30),
        preset(Some(2), 2, 2, 10),
        preset(Some(3), 3, 3, 20),
    ];
    sort_by_timestamp(&mut presets);
    assert_eq!(
        presets,
        vec![preset(Some(2), 2, 2, 10), preset(Some(3), 3, 3, 20), preset(Some(1), 1, 1, 30)]
    );
}

#[test]
fn sort_by_timestamp_keeps_the_order_of_equal_timestamps_test() {
    let mut presets = vec![
        preset(Some(1), 1, 1, 5),
        preset(Some(2), 2, 2, 5),
        preset(Some(3), 3, 3, 1),
        preset(Some(4), 4, 4, 5),
    ];
    sort_by_timestamp(&mut presets);
    assert_eq!(
        presets,
        vec![
            preset(Some(3), 3, 3, 1),
            preset(Some(1), 1, 1, 5),
            preset(Some(2), 2, 2, 5),
            preset(Some(4), 4, 4, 5),
        ]
    );
    let mut none: Vec<LightPreset> = vec![];
    sort_by_timestamp(&mut none);
    assert_eq!(none, vec![]);
}

#[test]
fn preset_name_is_the_level_in_lux_test() {
    assert_eq!(preset(Some(120), 0, 0, 0).name(), "120 lx");
    assert_eq!(preset(Some(0), 0, 0, 0).name(), "0 lx");
    assert_eq!(preset(Some(65535), 0, 0, 0).name(), "65535 lx");
}

#[test]
fn preset_name_without_a_level_is_the_time_of_day_test() {
    assert_eq!(preset(None, 0, 0, 0).name(), "00:00");
    assert_eq!(preset(None, 0, 0, 3600 * 13 + 60 * 7 + 59).name(), "13:07");
    assert_eq!(preset(None, 0, 0, 86400 + 3600 * 23 + 60 * 59).name(), "23:59");
}

#[test]
fn numeral_writes_decimal_digits_test() {
    assert_eq!(numeral(0), "0");
    assert_eq!(numeral(7), "7");
    assert_eq!(numeral(10), "10");
    assert_eq!(numeral(1234567890), "1234567890");
    assert_eq!(numeral(u64::MAX), "18446744073709551615");
}
