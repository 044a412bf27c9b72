use aquarium_espresso::behavior::{initial_act, next_act, ActCues, FishAct, Personality, SpKey};

fn quiet() -> ActCues {
    ActCues {
        timer_done: false,
        reached: false,
        next_due: false,
        roam_roll: false,
        startled: false,
        stressed: false,
        calm: false,
        above_band: false,
    }
}

const ORD: Personality = Personality::Ordinary;

#[test]
fn kinds_start_in_their_own_activity() {
    assert_eq!(initial_act(SpKey::Corydoras), FishAct::Graze);
    assert_eq!(initial_act(SpKey::Yamato), FishAct::Pick);
    assert_eq!(initial_act(SpKey::Neon), FishAct::Swim);
    assert_eq!(initial_act(SpKey::Guppy), FishAct::Swim);
    assert_eq!(initial_act(SpKey::Card), FishAct::Swim);
}

#[test]
fn shrimp_cycle() {
    let y = SpKey::Yamato;
    let done = ActCues { timer_done: true, ..quiet() };
    assert_eq!(next_act(y, FishAct::Pick, ORD, quiet()), FishAct::Pick);
    assert_eq!(next_act(y, FishAct::Pick, ORD, done), FishAct::Crawl);
    assert_eq!(next_act(y, FishAct::Crawl, ORD, quiet()), FishAct::Crawl);
    assert_eq!(next_act(y, FishAct::Crawl, ORD, done), FishAct::Pick);
    let roam = ActCues { reached: true, next_due: true, roam_roll: true, ..quiet() };
    assert_eq!(next_act(y, FishAct::Crawl, ORD, roam), FishAct::SwimOff);
    let no_roll = ActCues { reached: true, next_due: true, ..quiet() };
    assert_eq!(next_act(y, FishAct::Crawl, ORD, no_roll), FishAct::Pick);
    assert_eq!(next_act(y, FishAct::SwimOff, ORD, ActCues { reached: true, ..quiet() }), FishAct::Pick);
    assert_eq!(next_act(y, FishAct::Flick, ORD, quiet()), FishAct::Flick);
    assert_eq!(next_act(y, FishAct::Flick, ORD, done), FishAct::Pick);
    assert_eq!(next_act(y, FishAct::Swim, ORD, quiet()), FishAct::Pick);
}

#[test]
fn startled_shrimp_flicks() {
    let s = ActCues { startled: true, ..quiet() };
    for a in [FishAct::Pick, FishAct::Crawl, FishAct::SwimOff, FishAct::Flick] {
        assert_eq!(next_act(SpKey::Yamato, a, ORD, s), FishAct::Flick);
    }
}

#[test]
fn shrimp_above_its_band_swims_off() {
    let up = ActCues { above_band: true, ..quiet() };
    assert_eq!(next_act(SpKey::Yamato, FishAct::Pick, ORD, up), FishAct::SwimOff);
    assert_eq!(next_act(SpKey::Yamato, FishAct::Crawl, ORD, up), FishAct::Crawl);
}

#[test]
fn catfish_cycle() {
    let c = SpKey::Corydoras;
    let done = ActCues { timer_done: true, ..quiet() };
    assert_eq!(next_act(c, FishAct::Graze, ORD, ActCues { reached: true, ..quiet() }), FishAct::Rest);
    assert_eq!(next_act(c, FishAct::Rest, ORD, done), FishAct::Graze);
    assert_eq!(next_act(c, FishAct::Rest, ORD, ActCues { next_due: true, ..done }), FishAct::Dash);
    assert_eq!(next_act(c, FishAct::Dash, ORD, ActCues { reached: true, ..quiet() }), FishAct::Air);
    assert_eq!(next_act(c, FishAct::Air, ORD, done), FishAct::Settle);
    assert_eq!(next_act(c, FishAct::Settle, ORD, done), FishAct::Graze);
    assert_eq!(next_act(c, FishAct::Hover, ORD, quiet()), FishAct::Graze);
}

#[test]
fn stressed_catfish_stops_resting() {
    let s = ActCues { stressed: true, ..quiet() };
    assert_eq!(next_act(SpKey::Corydoras, FishAct::Rest, ORD, s), FishAct::Graze);
    let g = ActCues { reached: true, ..s };
    assert_eq!(next_act(SpKey::Corydoras, FishAct::Graze, ORD, g), FishAct::Graze);
}

#[test]
fn catfish_above_its_band_settles() {
    let up = ActCues { above_band: true, ..quiet() };
    assert_eq!(next_act(SpKey::Corydoras, FishAct::Graze, ORD, up), FishAct::Settle);
    assert_eq!(next_act(SpKey::Corydoras, FishAct::Rest, ORD, up), FishAct::Settle);
    assert_eq!(next_act(SpKey::Corydoras, FishAct::Dash, ORD, up), FishAct::Dash);
}

#[test]
fn swimmers_take_up_their_side_activity() {
    let go = ActCues { next_due: true, calm: true, ..quiet() };
    assert_eq!(next_act(SpKey::BlackTetra, FishAct::Swim, Personality::Hoverer, go), FishAct::Hold);
    assert_eq!(next_act(SpKey::Guppy, FishAct::Swim, Personality::Gulper, go), FishAct::Rise);
    assert_eq!(next_act(SpKey::Guppy, FishAct::Swim, Personality::Loafer, go), FishAct::Park);
    assert_eq!(next_act(SpKey::Neon, FishAct::Swim, ORD, go), FishAct::Swim);
    let restless = ActCues { next_due: true, ..quiet() };
    assert_eq!(next_act(SpKey::Guppy, FishAct::Swim, Personality::Gulper, restless), FishAct::Swim);
}

#[test]
fn swimmer_side_activities_return_to_swimming() {
    let g = SpKey::Guppy;
    let p = Personality::Gulper;
    let done = ActCues { timer_done: true, ..quiet() };
    assert_eq!(next_act(g, FishAct::Rise, p, ActCues { reached: true, ..quiet() }), FishAct::Gulp);
    assert_eq!(next_act(g, FishAct::Gulp, p, done), FishAct::Sink);
    assert_eq!(next_act(g, FishAct::Sink, p, done), FishAct::Swim);
    assert_eq!(next_act(g, FishAct::Park, p, done), FishAct::Hover);
    assert_eq!(next_act(g, FishAct::Hover, p, done), FishAct::Swim);
    assert_eq!(next_act(g, FishAct::Hold, p, done), FishAct::Swim);
    assert_eq!(next_act(g, FishAct::Hold, p, quiet()), FishAct::Hold);
    assert_eq!(next_act(g, FishAct::Graze, p, done), FishAct::Graze);
}

#[test]
fn creatures_stay_in_their_repertoire() {
    let shrimp = [FishAct::Pick, FishAct::Crawl, FishAct::SwimOff, FishAct::Flick];
    let mut a = initial_act(SpKey::Yamato);
    for step in 0..200u32 {
        let c = ActCues {
            timer_done: step % 3 == 0,
            reached: step % 5 == 0,
            next_due: step % 2 == 0,
            roam_roll: step % 7 < 3,
            startled: step % 11 == 0,
            stressed: step % 13 == 0,
            calm: step % 4 == 0,
            above_band: step % 17 == 0,
        };
        a = next_act(SpKey::Yamato, a, ORD, c);
        assert!(shrimp.contains(&a));
    }
}
