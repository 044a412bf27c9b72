use vstd::prelude::*;

verus! {

/// The kinds of creature in the tank.
#[derive(Clone, Copy, PartialEq, Eq, Debug, Structural)]
pub enum SpKey {
    Neon,
    Guppy,
    BlackTetra,
    Corydoras,
    Yamato,
    Card,
    EbiFry,
}

/// A swimmer's temperament: which side activity it takes up when calm.
#[derive(Clone, Copy, PartialEq, Eq, Debug, Structural)]
pub enum Personality {
    Ordinary,
    Gulper,
    Loafer,
    Hoverer,
}

/// What a creature is doing.
#[derive(Clone, Copy, PartialEq, Eq, Debug, Structural)]
pub enum FishAct {
    Swim,
    Rise,
    Gulp,
    Sink,
    Park,
    Hover,
    Hold,
    Graze,
    Rest,
    Dash,
    Air,
    Settle,
    Pick,
    Crawl,
    SwimOff,
    Flick,
}

/// The observations a creature's next activity depends on, taken this frame
/// after its timers have run down.
///
/// - `timer_done`: the current activity's timer has run out.
/// - `reached`: the current activity's goal is reached (the spot it heads for,
///   or for a rising or diving creature the height it aims at).
/// - `next_due`: the timer until the next side activity has run out.
/// - `roam_roll`: a shrimp's chance to swim off came up.
/// - `startled`: a shrimp is startled into a flick (the water is stressed, its
///   flick has recharged and the per-frame chance came up).
/// - `stressed`: the water is stressed enough to rouse a resting catfish.
/// - `calm`: the water is calm enough for a swimmer to take up a side activity.
/// - `above_band`: the creature has drifted above its depth band.
#[derive(Clone, Copy, PartialEq, Eq, Debug, Structural)]
pub struct ActCues {
    pub timer_done: bool,
    pub reached: bool,
    pub next_due: bool,
    pub roam_roll: bool,
    pub startled: bool,
    pub stressed: bool,
    pub calm: bool,
    pub above_band: bool,
}

/// The activities a shrimp moves between.
pub open spec fn shrimp_act(a: FishAct) -> bool {
    a == FishAct::Pick || a == FishAct::Crawl || a == FishAct::SwimOff || a == FishAct::Flick
}

/// The activities a catfish moves between.
pub open spec fn cory_act(a: FishAct) -> bool {
    a == FishAct::Graze || a == FishAct::Rest || a == FishAct::Dash || a == FishAct::Air
        || a == FishAct::Settle
}

/// The activities a midwater swimmer moves between.
pub open spec fn swimmer_act(a: FishAct) -> bool {
    a == FishAct::Swim || a == FishAct::Hold || a == FishAct::Rise || a == FishAct::Gulp
        || a == FishAct::Sink || a == FishAct::Park || a == FishAct::Hover
}

/// The activities open to a kind of creature.
pub open spec fn in_repertoire(key: SpKey, a: FishAct) -> bool {
    match key {
        SpKey::Yamato => shrimp_act(a),
        SpKey::Corydoras => cory_act(a),
        _ => swimmer_act(a),
    }
}

/// A shrimp's next activity.
pub open spec fn shrimp_next(act: FishAct, c: ActCues) -> FishAct {
    let a = match act {
        FishAct::Pick => if c.timer_done {
            FishAct::Crawl
        } else {
            FishAct::Pick
        },
        FishAct::Crawl => if c.reached || c.timer_done {
            if c.next_due && c.roam_roll {
                FishAct::SwimOff
            } else {
                FishAct::Pick
            }
        } else {
            FishAct::Crawl
        },
        FishAct::SwimOff => if c.reached || c.timer_done {
            FishAct::Pick
        } else {
            FishAct::SwimOff
        },
        FishAct::Flick => if c.timer_done {
            FishAct::Pick
        } else {
            FishAct::Flick
        },
        _ => FishAct::Pick,
    };
    let a = if c.startled && a != FishAct::Flick {
        FishAct::Flick
    } else {
        a
    };
    if a == FishAct::Pick && c.above_band {
        FishAct::SwimOff
    } else {
        a
    }
}

/// A catfish's next activity.
pub open spec fn cory_next(act: FishAct, c: ActCues) -> FishAct {
    let a = match act {
        FishAct::Graze => if c.reached || c.timer_done {
            FishAct::Rest
        } else {
            FishAct::Graze
        },
        FishAct::Rest => if c.timer_done {
            if c.next_due {
                FishAct::Dash
            } else {
                FishAct::Graze
            }
        } else {
            FishAct::Rest
        },
        FishAct::Dash => if c.reached || c.timer_done {
            FishAct::Air
        } else {
            FishAct::Dash
        },
        FishAct::Air => if c.timer_done {
            FishAct::Settle
        } else {
            FishAct::Air
        },
        FishAct::Settle => if c.reached || c.timer_done {
            FishAct::Graze
        } else {
            FishAct::Settle
        },
        _ => FishAct::Graze,
    };
    let a = if c.stressed && a == FishAct::Rest {
        FishAct::Graze
    } else {
        a
    };
    if (a == FishAct::Graze || a == FishAct::Rest) && c.above_band {
        FishAct::Settle
    } else {
        a
    }
}

/// A midwater swimmer's next activity.
pub open spec fn swimmer_next(act: FishAct, pers: Personality, c: ActCues) -> FishAct {
    match act {
        FishAct::Hold => if c.timer_done {
            FishAct::Swim
        } else {
            FishAct::Hold
        },
        FishAct::Swim => if pers != Personality::Ordinary && c.next_due && c.calm {
            match pers {
                Personality::Hoverer => FishAct::Hold,
                Personality::Gulper => FishAct::Rise,
                _ => FishAct::Park,
            }
        } else {
            FishAct::Swim
        },
        FishAct::Rise => if c.reached || c.timer_done {
            FishAct::Gulp
        } else {
            FishAct::Rise
        },
        FishAct::Gulp => if c.timer_done {
            FishAct::Sink
        } else {
            FishAct::Gulp
        },
        FishAct::Sink => if c.reached || c.timer_done {
            FishAct::Swim
        } else {
            FishAct::Sink
        },
        FishAct::Park => if c.reached || c.timer_done {
            FishAct::Hover
        } else {
            FishAct::Park
        },
        FishAct::Hover => if c.timer_done {
            FishAct::Swim
        } else {
            FishAct::Hover
        },
        _ => act,
    }
}

/// The next activity of a creature of kind `key`.
pub open spec fn act_after(key: SpKey, act: FishAct, pers: Personality, c: ActCues) -> FishAct {
    match key {
        SpKey::Yamato => shrimp_next(act, c),
        SpKey::Corydoras => cory_next(act, c),
        _ => swimmer_next(act, pers, c),
    }
}

/// The activity a creature of kind `key` starts in.
pub open spec fn first_act(key: SpKey) -> FishAct {
    match key {
        SpKey::Corydoras => FishAct::Graze,
        SpKey::Yamato => FishAct::Pick,
        _ => FishAct::Swim,
    }
}

/// The activity a creature of kind `key` starts in.
pub fn initial_act(key: SpKey) -> (a: FishAct)
    ensures
        a == first_act(key),
{
    match key {
        SpKey::Corydoras => FishAct::Graze,
        SpKey::Yamato => FishAct::Pick,
        _ => FishAct::Swim,
    }
}

fn shrimp_step(act: FishAct, c: ActCues) -> (a: FishAct)
    ensures
        a == shrimp_next(act, c),
{
    let a = match act {
        FishAct::Pick => if c.timer_done {
            FishAct::Crawl
        } else {
            FishAct::Pick
        },
        FishAct::Crawl => if c.reached || c.timer_done {
            if c.next_due && c.roam_roll {
                FishAct::SwimOff
            } else {
                FishAct::Pick
            }
        } else {
            FishAct::Crawl
        },
        FishAct::SwimOff => if c.reached || c.timer_done {
            FishAct::Pick
        } else {
            FishAct::SwimOff
        },
        FishAct::Flick => if c.timer_done {
            FishAct::Pick
        } else {
            FishAct::Flick
        },
        _ => FishAct::Pick,
    };
    let a = if c.startled && a != FishAct::Flick {
        FishAct::Flick
    } else {
        a
    };
    if a == FishAct::Pick && c.above_band {
        FishAct::SwimOff
    } else {
        a
    }
}

fn cory_step(act: FishAct, c: ActCues) -> (a: FishAct)
    ensures
        a == cory_next(act, c),
{
    let a = match act {
        FishAct::Graze => if c.reached || c.timer_done {
            FishAct::Rest
        } else {
            FishAct::Graze
        },
        FishAct::Rest => if c.timer_done {
            if c.next_due {
                FishAct::Dash
            } else {
                FishAct::Graze
            }
        } else {
            FishAct::Rest
        },
        FishAct::Dash => if c.reached || c.timer_done {
            FishAct::Air
        } else {
            FishAct::Dash
        },
        FishAct::Air => if c.timer_done {
            FishAct::Settle
        } else {
            FishAct::Air
        },
        FishAct::Settle => if c.reached || c.timer_done {
            FishAct::Graze
        } else {
            FishAct::Settle
        },
        _ => FishAct::Graze,
    };
    let a = if c.stressed && a == FishAct::Rest {
        FishAct::Graze
    } else {
        a
    };
    if (a == FishAct::Graze || a == FishAct::Rest) && c.above_band {
        FishAct::Settle
    } else {
        a
    }
}

fn swimmer_step(act: FishAct, pers: Personality, c: ActCues) -> (a: FishAct)
    ensures
        a == swimmer_next(act, pers, c),
{
    match act {
        FishAct::Hold => if c.timer_done {
            FishAct::Swim
        } else {
            FishAct::Hold
        },
        FishAct::Swim => if pers != Personality::Ordinary && c.next_due && c.calm {
            match pers {
                Personality::Hoverer => FishAct::Hold,
                Personality::Gulper => FishAct::Rise,
                _ => FishAct::Park,
            }
        } else {
            FishAct::Swim
        },
        FishAct::Rise => if c.reached || c.timer_done {
            FishAct::Gulp
        } else {
            FishAct::Rise
        },
        FishAct::Gulp => if c.timer_done {
            FishAct::Sink
        } else {
            FishAct::Gulp
        },
        FishAct::Sink => if c.reached || c.timer_done {
            FishAct::Swim
        } else {
            FishAct::Sink
        },
        FishAct::Park => if c.reached || c.timer_done {
            FishAct::Hover
        } else {
            FishAct::Park
        },
        FishAct::Hover => if c.timer_done {
            FishAct::Swim
        } else {
            FishAct::Hover
        },
        _ => act,
    }
}

/// Decides a creature's next activity from its kind, current activity,
/// temperament and this frame's observations. Shrimps pick, crawl, swim off
/// and flick; catfish graze, rest, dash for air and settle; every other kind
/// swims and, when calm, takes up its temperament's side activity.
pub fn next_act(key: SpKey, act: FishAct, pers: Personality, cues: ActCues) -> (a: FishAct)
    ensures
        a == act_after(key, act, pers, cues),
{
    match key {
        SpKey::Yamato => shrimp_step(act, cues),
        SpKey::Corydoras => cory_step(act, cues),
        _ => swimmer_step(act, pers, cues),
    }
}

/// A creature starts in one of its own kind's activities.
pub proof fn lemma_first_act_in_repertoire(key: SpKey)
    ensures
        in_repertoire(key, first_act(key)),
{
}

/// A creature never leaves its kind's repertoire.
pub proof fn lemma_act_stays_in_repertoire(key: SpKey, act: FishAct, pers: Personality, c: ActCues)
    requires
        in_repertoire(key, act),
    ensures
        in_repertoire(key, act_after(key, act, pers, c)),
{
}

/// The activity after following a run of frames' observations from `act`.
pub open spec fn act_run(key: SpKey, act: FishAct, pers: Personality, cues: Seq<ActCues>) -> FishAct
    decreases cues.len(),
{
    if cues.len() == 0 {
        act
    } else {
        act_after(key, act_run(key, act, pers, cues.drop_last()), pers, cues.last())
    }
}

/// However the frames go, a creature only ever does what its kind does.
pub proof fn lemma_run_stays_in_repertoire(key: SpKey, pers: Personality, cues: Seq<ActCues>)
    ensures
        in_repertoire(key, act_run(key, first_act(key), pers, cues)),
    decreases cues.len(),
{
    if cues.len() > 0 {
        lemma_run_stays_in_repertoire(key, pers, cues.drop_last());
        lemma_act_stays_in_repertoire(
            key,
            act_run(key, first_act(key), pers, cues.drop_last()),
            pers,
            cues.last(),
        );
    }
}

/// A startled shrimp flicks, whatever it was doing.
pub proof fn lemma_startled_shrimp_flicks(act: FishAct, pers: Personality, c: ActCues)
    requires
        c.startled,
    ensures
        act_after(SpKey::Yamato, act, pers, c) == FishAct::Flick,
{
}

/// A catfish does not stay resting in stressed water.
pub proof fn lemma_stressed_cory_does_not_rest(act: FishAct, pers: Personality, c: ActCues)
    requires
        c.stressed,
    ensures
        act_after(SpKey::Corydoras, act, pers, c) != FishAct::Rest,
{
}

/// A swimmer without a temperament keeps swimming.
pub proof fn lemma_plain_swimmer_keeps_swimming(key: SpKey, c: ActCues)
    requires
        key != SpKey::Yamato,
        key != SpKey::Corydoras,
    ensures
        act_after(key, FishAct::Swim, Personality::Ordinary, c) == FishAct::Swim,
{
}

/// A swimmer leaves plain swimming only for its temperament's side activity:
/// hoverers hold, gulpers rise for air, loafers park.
pub proof fn lemma_side_activity_follows_personality(key: SpKey, pers: Personality, c: ActCues)
    requires
        key != SpKey::Yamato,
        key != SpKey::Corydoras,
        pers != Personality::Ordinary,
    ensures
        act_after(key, FishAct::Swim, pers, c) == (if c.next_due && c.calm {
            match pers {
                Personality::Hoverer => FishAct::Hold,
                Personality::Gulper => FishAct::Rise,
                _ => FishAct::Park,
            }
        } else {
            FishAct::Swim
        }),
{
}

/// A swimmer keeps at its activity until that activity's timer runs out or,
/// for an activity that heads somewhere, its goal is reached: holding,
/// gulping and hovering last while their timer runs; rising, sinking and
/// parking while, besides, the goal is not reached.
pub proof fn lemma_swimmer_keeps_at_it(key: SpKey, act: FishAct, pers: Personality, c: ActCues)
    requires
        key != SpKey::Yamato,
        key != SpKey::Corydoras,
        swimmer_act(act),
        act != FishAct::Swim,
        !c.timer_done,
        act == FishAct::Rise || act == FishAct::Sink || act == FishAct::Park ==> !c.reached,
    ensures
        act_after(key, act, pers, c) == act,
{
}

/// A swimmer leaves a timed activity once its timer runs out.
pub proof fn lemma_swimmer_moves_on(key: SpKey, act: FishAct, pers: Personality, c: ActCues)
    requires
        key != SpKey::Yamato,
        key != SpKey::Corydoras,
        swimmer_act(act),
        act != FishAct::Swim,
        c.timer_done,
    ensures
        act_after(key, act, pers, c) != act,
        in_repertoire(key, act_after(key, act, pers, c)),
{
}

/// A catfish keeps at its activity while its timer runs and its goal is not
/// reached, unless stress rouses it from rest or it drifts above its band
/// while grazing or resting.
pub proof fn lemma_cory_keeps_at_it(act: FishAct, pers: Personality, c: ActCues)
    requires
        cory_act(act),
        !c.timer_done,
        act != FishAct::Air && act != FishAct::Rest ==> !c.reached,
        act == FishAct::Rest ==> !c.stressed,
        act == FishAct::Graze || act == FishAct::Rest ==> !c.above_band,
    ensures
        act_after(SpKey::Corydoras, act, pers, c) == act,
{
}

/// A shrimp keeps at its activity while its timer runs and its goal is not
/// reached, unless it is startled, or drifts above its band while picking.
pub proof fn lemma_shrimp_keeps_at_it(act: FishAct, pers: Personality, c: ActCues)
    requires
        shrimp_act(act),
        !c.timer_done,
        act == FishAct::Crawl || act == FishAct::SwimOff ==> !c.reached,
        act != FishAct::Flick ==> !c.startled,
        act == FishAct::Pick ==> !c.above_band,
    ensures
        act_after(SpKey::Yamato, act, pers, c) == act,
{
}

/// A shrimp swims off only when its next outing is due and the chance came
/// up as it finished crawling, or when it drifts above its band while picking;
/// one already swimming off keeps on until it arrives or its timer runs out.
pub proof fn lemma_shrimp_swims_off_only_when_due(act: FishAct, pers: Personality, c: ActCues)
    requires
        act_after(SpKey::Yamato, act, pers, c) == FishAct::SwimOff,
    ensures
        !c.startled,
        act == FishAct::SwimOff || c.above_band || (act == FishAct::Crawl && c.next_due && c.roam_roll
            && (c.reached || c.timer_done)),
{
}

/// A catfish dashes for air only from rest, when its rest is over and its next
/// outing is due; once dashing it keeps on until it is up or its timer runs out.
pub proof fn lemma_cory_dashes_only_when_due(act: FishAct, pers: Personality, c: ActCues)
    requires
        act_after(SpKey::Corydoras, act, pers, c) == FishAct::Dash,
    ensures
        (act == FishAct::Rest && c.timer_done && c.next_due) || (act == FishAct::Dash && !c.reached
            && !c.timer_done),
{
}

} // verus!
