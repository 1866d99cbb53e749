use rainbow_rogue::map::{World, SPECTRUM};

#[test]
fn cycle_steps_forward_and_wraps() {
    assert_eq!(World::Red.cycle(1), World::Orange);
    assert_eq!(World::Violet.cycle(1), World::Red);
    assert_eq!(World::Red.cycle(-1), World::Violet);
    assert_eq!(World::Green.cycle(7), World::Green);
    assert_eq!(World::Green.cycle(-14), World::Green);
    assert_eq!(World::Blue.cycle(i32::MAX), SPECTRUM[(4 + (i32::MAX as i64 % 7)) as usize % 7]);
    assert_eq!(World::Red.cycle(i32::MIN), SPECTRUM[(i32::MIN as i64).rem_euclid(7) as usize]);
}

#[test]
fn spectrum_index_matches_spectrum_order() {
    for (i, w) in SPECTRUM.iter().enumerate() {
        assert_eq!(w.spectrum_index(), i);
    }
}

#[test]
fn as_str_names_each_plane() {
    let names = ["Red", "Orange", "Yellow", "Green", "Blue", "Indigo", "Violet"];
    for (i, w) in SPECTRUM.iter().enumerate() {
        assert_eq!(w.as_str(), names[i]);
    }
}
