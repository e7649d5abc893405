use led_meter::color::{red_color, white_color, Color};
use led_meter::dispatch::{colors_for_device, PolicyWarning};
use led_meter::fraction::Fraction;
use led_meter::recipe::{
    recipe_for, render, DeviceRecipe, Layout, Segment, COMMANDER_CORE, DOMINATOR_PLATINUM,
    FAN_COUNT, G502_HERO, MSI_X670E, FAN_LEDS, RING_LEDS,
};
use led_meter::sampler::{Metric, Readings, Sampler};

fn frac(num: i128, den: u64) -> Fraction {
    Fraction::new(num, den).expect("a positive denominator")
}

fn readings(cpu: (i128, u64), memory: (i128, u64)) -> Readings {
    Readings { cpu: frac(cpu.0, cpu.1), memory: frac(memory.0, memory.1) }
}

#[test]
fn names_of_the_table() {
    assert_eq!(DOMINATOR_PLATINUM, "Corsair Dominator Platinum");
    assert_eq!(COMMANDER_CORE, "Corsair Commander Core");
    assert_eq!(G502_HERO, "G502 HERO Gaming Mouse");
    assert_eq!(MSI_X670E, "MSI X670E GAMING PLUS WIFI (MS-7E16)");
    assert_eq!((RING_LEDS, FAN_COUNT, FAN_LEDS), (24, 6, 5));
}

#[test]
fn recipe_of_the_memory_modules() {
    match recipe_for("Corsair Dominator Platinum", 12) {
        DeviceRecipe::Lit { metric, start, end, segments } => {
            assert_eq!(metric, Metric::Memory);
            assert_eq!(start, white_color());
            assert_eq!(end, red_color());
            assert_eq!(segments, vec![Segment { layout: Layout::Gradient, len: 12 }]);
        }
        other => panic!("not lit: {:?}", other),
    }
}

#[test]
fn recipe_of_the_cooler() {
    match recipe_for("Corsair Commander Core", 3) {
        DeviceRecipe::Lit { metric, start, end, segments } => {
            assert_eq!(metric, Metric::Cpu);
            assert_eq!(start, white_color());
            assert_eq!(end, red_color());
            let mut expected = vec![Segment { layout: Layout::Gradient, len: 24 }];
            for _ in 0..6 {
                expected.push(Segment { layout: Layout::Block, len: 5 });
            }
            assert_eq!(segments, expected);
        }
        other => panic!("not lit: {:?}", other),
    }
}

#[test]
fn recipe_of_the_mouse() {
    match recipe_for("G502 HERO Gaming Mouse", 2) {
        DeviceRecipe::Lit { metric, start, end, segments } => {
            assert_eq!(metric, Metric::Cpu);
            assert_eq!(start, white_color());
            assert_eq!(end, red_color());
            assert_eq!(segments, vec![Segment { layout: Layout::Block, len: 2 }]);
        }
        other => panic!("not lit: {:?}", other),
    }
}

#[test]
fn recipe_of_the_mainboard_and_of_strangers() {
    assert!(matches!(
        recipe_for("MSI X670E GAMING PLUS WIFI (MS-7E16)", 9),
        DeviceRecipe::Excluded
    ));
    assert!(matches!(recipe_for("Some Keyboard", 9), DeviceRecipe::Unknown));
    assert!(matches!(recipe_for("", 9), DeviceRecipe::Unknown));
    assert!(matches!(recipe_for("corsair dominator platinum", 9), DeviceRecipe::Unknown));
    assert!(matches!(recipe_for("Corsair Dominator Platinum ", 9), DeviceRecipe::Unknown));
}

#[test]
fn render_joins_the_segments_in_order() {
    let segments = vec![
        Segment { layout: Layout::Block, len: 2 },
        Segment { layout: Layout::Gradient, len: 4 },
        Segment { layout: Layout::Block, len: 0 },
        Segment { layout: Layout::Block, len: 1 },
    ];
    let colors = render(&segments, frac(1, 2), &white_color(), &red_color());
    let half = Color::new(127, 64, 64);
    assert_eq!(
        colors,
        vec![half, half, red_color(), red_color(), white_color(), white_color(), half]
    );
    assert!(render(&Vec::new(), frac(1, 2), &white_color(), &red_color()).is_empty());
}

#[test]
fn unknown_device_gets_no_colours_and_a_warning() {
    let r = readings((1, 2), (1, 2));
    for name in ["Some Keyboard", "", "Corsair", "G502"] {
        let update = colors_for_device(name, 10, &r);
        assert!(update.colors.is_empty());
        assert_eq!(update.warning, Some(PolicyWarning::UnknownDevice));
        assert!(!update.should_send());
    }
}

#[test]
fn device_without_leds_gets_no_colours_and_a_warning() {
    let r = readings((1, 2), (1, 2));
    for name in [
        "Corsair Dominator Platinum",
        "Corsair Commander Core",
        "G502 HERO Gaming Mouse",
        "MSI X670E GAMING PLUS WIFI (MS-7E16)",
        "Some Keyboard",
    ] {
        let update = colors_for_device(name, 0, &r);
        assert!(update.colors.is_empty());
        assert_eq!(update.warning, Some(PolicyWarning::NoLeds));
        assert!(!update.should_send());
    }
}

#[test]
fn excluded_device_gets_no_colours_and_no_warning() {
    let r = readings((1, 2), (1, 2));
    let update = colors_for_device("MSI X670E GAMING PLUS WIFI (MS-7E16)", 7, &r);
    assert!(update.colors.is_empty());
    assert_eq!(update.warning, None);
    assert!(!update.should_send());
}

#[test]
fn memory_modules_show_the_memory_as_a_bar() {
    let r = readings((0, 1), (3, 4));
    let update = colors_for_device("Corsair Dominator Platinum", 10, &r);
    // The fill position is 7.5.
    let mut expected = vec![red_color(); 7];
    expected.push(Color::new(127, 64, 64));
    expected.push(white_color());
    expected.push(white_color());
    assert_eq!(update.colors, expected);
    assert_eq!(update.warning, None);
    assert!(update.should_send());
}

#[test]
fn cooler_shows_the_processor_on_ring_and_fans() {
    let r = readings((1, 2), (0, 1));
    let update = colors_for_device("Corsair Commander Core", 54, &r);
    let mut expected = vec![red_color(); 12];
    expected.extend(vec![white_color(); 12]);
    expected.extend(vec![Color::new(127, 64, 64); 30]);
    assert_eq!(update.colors, expected);
    assert_eq!(update.colors.len(), 54);
    assert_eq!(update.warning, None);
    assert!(update.should_send());
}

#[test]
fn mouse_shows_the_processor_in_one_colour() {
    let r = readings((1, 1), (0, 1));
    let update = colors_for_device("G502 HERO Gaming Mouse", 2, &r);
    assert_eq!(update.colors, vec![red_color(); 2]);
    assert_eq!(update.warning, None);
    assert!(update.should_send());
}

#[test]
fn one_tick_from_measurements_to_colours() {
    let mut sampler = Sampler::new(10).expect("a horizon within bounds");
    let r = sampler.tick(300_000, 7, 10).expect("some memory");

    let mouse = colors_for_device("G502 HERO Gaming Mouse", 8, &r);
    assert_eq!(mouse.colors, vec![Color::new(127, 89, 89); 8]);
    assert_eq!(mouse.warning, None);

    let memory = colors_for_device("Corsair Dominator Platinum", 10, &r);
    let mut expected = vec![Color::new(127, 0, 0); 7];
    expected.extend(vec![Color::new(127, 127, 127); 3]);
    assert_eq!(memory.colors, expected);
    assert_eq!(memory.warning, None);
}

#[test]
fn smoothed_processor_of_several_ticks_drives_the_colours() {
    let mut sampler = Sampler::new(2).expect("a horizon within bounds");
    let _ = sampler.tick(1_000_000, 1, 2).expect("some memory");
    let _ = sampler.tick(0, 1, 2).expect("some memory");
    let r = sampler.tick(600_000, 1, 2).expect("some memory");
    // The window holds 0 and 600_000: the mean is three tenths.
    let mouse = colors_for_device("G502 HERO Gaming Mouse", 1, &r);
    assert_eq!(mouse.colors, vec![Color::new(127, 89, 89)]);
}
