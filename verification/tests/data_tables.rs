use rainbow_rogue::ai::BehaviorContext;
use rainbow_rogue::color::Rgb;
use rainbow_rogue::data::items::{starter_consumables, ConsumableEffect, ConsumableTemplate};
use rainbow_rogue::data::monsters::MonsterTemplate;
use rainbow_rogue::data::{builtin_rules, WorldRuleSet};
use rainbow_rogue::ecs::components::{
    ConcordanceId, IntentStep, Inventory, MonsterTag, PlaneAttunements, PlayerTag, Portal,
    Viewshed, WorldAffinity,
};
use rainbow_rogue::geometry::Point;
use rainbow_rogue::map::{world_color, World, SPECTRUM};

#[test]
fn builtin_rules_cover_the_spectrum() {
    let rules: Vec<WorldRuleSet> = builtin_rules();
    assert_eq!(rules.len(), 7);
    for (i, rule) in rules.iter().enumerate() {
        assert_eq!(rule.world, SPECTRUM[i]);
    }
    assert_eq!(rules[0].notes, "Heat blooms amplify melee damage.");
    assert_eq!(rules[3].notes, "Regrowth tiles slowly mend allies.");
    assert_eq!(rules[6].notes, "Curses thread through unseen resonance.");
}

#[test]
fn starter_consumables_depend_on_the_plane() {
    let red = starter_consumables(World::Red);
    assert_eq!(red.len(), 2);
    assert_eq!(red[0].name, "Thermal Draft");
    assert_eq!(red[0].description, "Restores 8 HP with a warming rush.");
    assert_eq!(red[0].effect, ConsumableEffect::Heal { amount: 8 });
    assert_eq!(red[0].color, Rgb { r: 255, g: 165, b: 0 });
    assert_eq!(red[1].name, "Ember Nova");
    assert_eq!(red[1].effect, ConsumableEffect::Nova { damage: 6, radius: 3 });
    assert_eq!(red[1].color, Rgb { r: 255, g: 0, b: 0 });
    let blue = starter_consumables(World::Blue);
    assert_eq!(blue.len(), 1);
    assert_eq!(blue[0].name, "Stillwater Draught");
    assert_eq!(blue[0].effect, ConsumableEffect::Heal { amount: 10 });
    assert_eq!(blue[0].color, Rgb { r: 173, g: 216, b: 230 });
    for world in [World::Orange, World::Yellow, World::Green, World::Indigo, World::Violet] {
        let kit = starter_consumables(world);
        assert_eq!(kit.len(), 1);
        assert_eq!(kit[0].name, "Prismatic Tonic");
        assert_eq!(kit[0].effect, ConsumableEffect::Cleanse);
        assert_eq!(kit[0].color, Rgb { r: 255, g: 0, b: 255 });
    }
    let made = ConsumableTemplate::new("a", "b", Rgb::black(), ConsumableEffect::Blink { range: 2 });
    assert_eq!((made.name, made.description), ("a", "b"));
    assert_eq!(made.effect, ConsumableEffect::Blink { range: 2 });
}

#[test]
fn every_plane_has_two_kinds_of_monster() {
    let expected = [
        [("Ember Imp", 'i', (255, 140, 76), 65, 6, 3, 0), ("Cinder Wolf", 'w', (255, 90, 90), 55, 10, 4, 1)],
        [("Acid Puff", 'a', (255, 180, 90), 60, 8, 3, 0), ("Flask Golem", 'g', (210, 140, 60), 45, 14, 5, 2)],
        [("Prism Ghost", 'p', (255, 255, 140), 35, 7, 2, 1), ("Sun Mite", 'm', (250, 230, 120), 50, 5, 2, 0)],
        [("Thorn Hopper", 'h', (140, 220, 120), 50, 9, 3, 1), ("Bloom Sentinel", 'b', (90, 200, 90), 30, 16, 4, 3)],
        [("Glacier Crab", 'c', (120, 170, 255), 40, 12, 3, 2), ("Stillwater Shade", 's', (90, 140, 255), 35, 8, 4, 1)],
        [("Mindworm", 'n', (170, 140, 255), 45, 6, 4, 0), ("Phase Stalker", 'q', (150, 120, 220), 55, 10, 5, 1)],
        [("Hex Bat", 'x', (220, 120, 255), 50, 7, 3, 0), ("Veil Revenant", 'v', (200, 90, 255), 40, 13, 5, 2)],
    ];
    for (i, world) in SPECTRUM.iter().enumerate() {
        let kinds = MonsterTemplate::for_world(*world);
        assert_eq!(kinds.len(), 2);
        for k in 0..2 {
            let (name, glyph, (r, g, b), chance, hp, power, defense) = expected[i][k];
            assert_eq!(kinds[k].name, name);
            assert_eq!(kinds[k].glyph, glyph);
            assert_eq!(kinds[k].color, Rgb { r, g, b });
            assert_eq!(kinds[k].wander_chance, chance);
            assert_eq!((kinds[k].hp, kinds[k].power, kinds[k].defense), (hp, power, defense));
        }
    }
}

#[test]
fn world_colours() {
    let expected = [
        (255, 95, 86), (255, 170, 64), (241, 241, 87), (126, 211, 33), (96, 165, 255),
        (120, 98, 240), (193, 126, 255),
    ];
    for (i, world) in SPECTRUM.iter().enumerate() {
        let (r, g, b) = expected[i];
        assert_eq!(world_color(*world), Rgb::from_u8(r, g, b));
    }
    assert_eq!(Rgb::black(), Rgb { r: 0, g: 0, b: 0 });
    assert_eq!(Rgb::orange(), Rgb { r: 255, g: 165, b: 0 });
    assert_eq!(Rgb::magenta(), Rgb { r: 255, g: 0, b: 255 });
    assert_eq!(Rgb::light_blue(), Rgb { r: 173, g: 216, b: 230 });
    assert_eq!(Rgb::red(), Rgb { r: 255, g: 0, b: 0 });
    assert_eq!(World::default(), World::Red);
}

#[test]
fn component_defaults() {
    assert_eq!(IntentStep::default().delta, Point::new(0, 0));
    let vs = Viewshed::default();
    assert_eq!((vs.radius, vs.dirty), (0, false));
    assert!(vs.visible.is_empty() && vs.remembered.is_empty());
    assert_eq!(
        WorldAffinity::default(),
        WorldAffinity { primary: World::Red, resist: None, vulnerable: None }
    );
    let attunements = PlaneAttunements::default();
    assert!(attunements.unlocked.is_empty());
    assert_eq!(attunements.perks, 0);
    assert_eq!(ConcordanceId::default(), ConcordanceId(0));
    assert!(Inventory::default().slots.is_empty());
    assert_eq!(PlayerTag::default(), PlayerTag);
    assert_eq!(MonsterTag::default(), MonsterTag);
    let portal = Portal { to_world: World::Blue, cost: 2, key_mask: 1, cooldown: 0 };
    assert_eq!(portal.to_world, World::Blue);
    assert_eq!(BehaviorContext::new(World::Indigo).focus_world, World::Indigo);
}
