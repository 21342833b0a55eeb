use game_of_life::fps::FpsCounter;
use game_of_life::rules::{
    BoolData, BoolHist, ColorData, ConwayColors, ConwayWithHistory, RGBData, RGBRules,
};
use game_of_life::{ColoredDataType, Game, PrintableDataType, RandomInit, RuleSet, Timer};

#[test]
fn history_shifts_and_counts() {
    let dead = BoolHist { current: false, history: (false, false, false, false, false) };
    let live = BoolHist { current: true, history: (true, false, false, false, false) };
    let window = [&live, &live, &dead, &dead, &live, &dead, &dead, &dead, &dead];
    let r = ConwayWithHistory::next(&window);
    assert!(r.current);
    assert_eq!(r.history, (false, false, false, false, true));
    let old = BoolHist { current: false, history: (true, true, false, true, false) };
    assert_eq!(old.get_color(), (120, 120, 120, 255));
    assert_eq!(live.get_color(), (255, 255, 255, 255));
}

#[test]
fn history_game_keeps_five_generations() {
    let cells: Vec<BoolHist> = [
        0, 0, 0, 0, 0, //
        0, 0, 0, 0, 0, //
        0, 1, 1, 1, 0, //
        0, 0, 0, 0, 0, //
        0, 0, 0, 0, 0,
    ]
    .iter()
        .map(|&v| BoolHist { current: v == 1, history: (false, false, false, false, false) })
        .collect();
    let mut g: Game<ConwayWithHistory> = Game::init_with_data(cells, 5).unwrap();
    g.next_step();
    g.next_step();
    let end = g.index((1, 2));
    assert!(end.current);
    assert_eq!(end.history, (false, false, false, true, false));
    let top = g.index((2, 1));
    assert!(!top.current);
    assert_eq!(top.history, (false, false, false, false, true));
    assert_eq!(top.get_color(), (40, 40, 40, 255));
}

#[test]
fn color_channels_evolve_apart() {
    let c = |r: bool, g: bool, b: bool| ColorData { r, g, b };
    let me = c(true, false, true);
    let n = c(true, true, false);
    let z = c(false, false, false);
    let window = [&n, &n, &z, &z, &me, &z, &n, &z, &z];
    let r = ConwayColors::next(&window);
    assert!(r.r);
    assert!(r.g);
    assert!(!r.b);
    assert_eq!(me.get_color(), (255, 0, 255, 255));
}

#[test]
fn colours_beat_each_other() {
    let r = RGBData::Red;
    let g = RGBData::Green;
    let b = RGBData::Blue;
    assert!(matches!(RGBRules::next(&[&b, &b, &b, &g, &r, &g, &g, &g, &g]), RGBData::Blue));
    assert!(matches!(RGBRules::next(&[&b, &b, &g, &g, &r, &g, &g, &g, &g]), RGBData::Red));
    assert!(matches!(RGBRules::next(&[&r, &r, &r, &b, &g, &b, &b, &b, &b]), RGBData::Red));
    assert!(matches!(RGBRules::next(&[&g, &g, &g, &r, &b, &r, &r, &r, &r]), RGBData::Green));
    assert!(matches!(RGBRules::next(&[&g, &g, &r, &r, &b, &r, &r, &r, &r]), RGBData::Blue));
    assert_eq!(RGBData::Green.get_color(), (75, 150, 0, 255));
}

#[test]
fn glyphs_and_colours_of_plain_cells() {
    assert_eq!(BoolData { value: true }.get_char(), '*');
    assert_eq!(BoolData { value: false }.get_char(), '_');
    assert_eq!(BoolData { value: false }.get_color(), (0, 0, 0, 255));
}

#[test]
fn random_cells_take_every_value() {
    let mut seen = [false; 3];
    let mut alive = [false; 2];
    for _ in 0..300 {
        match RGBData::rnd() {
            RGBData::Red => seen[0] = true,
            RGBData::Green => seen[1] = true,
            RGBData::Blue => seen[2] = true,
        }
        alive[BoolData::rnd().value as usize] = true;
    }
    assert_eq!(seen, [true; 3]);
    assert_eq!(alive, [true; 2]);
    let h = BoolHist::rnd();
    assert_eq!(h.history, (false, false, false, false, false));
}

#[test]
fn timer_keeps_labels_in_order() {
    let mut t = Timer::new();
    assert!(t.laps().is_empty());
    t.add("start");
    t.add("grid");
    t.add("step");
    let laps = t.laps();
    let labels: Vec<&str> = laps.iter().map(|l| l.1).collect();
    assert_eq!(labels, vec!["grid", "step"]);
}

#[test]
fn fps_counts_recent_calls() {
    let mut f = FpsCounter::new();
    assert_eq!(f.get(), 1);
    assert_eq!(f.get(), 2);
    assert_eq!(f.get(), 3);
}
