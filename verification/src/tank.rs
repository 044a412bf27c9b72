use vstd::prelude::*;
use rand::Rng;
use crate::behavior::SpKey;

verus! {

/// Number of neon schools.
pub const N_SCHOOLS: usize = 3;

/// Number of guppy strains.
pub const N_STRAINS: usize = 5;

/// Most guppies a tank holds.
pub const N_GUPPY: usize = 8;

/// Number of guppies the custom character takes the place of, when there is one.
pub const N_CARDS: usize = 3;

/// Number of neons on a shrimp day.
pub const N_NEON_SHRIMPDAY: usize = 5;

/// Draws a random index in `0..=hi`.
///
/// Calls `rand::Rng::gen_range` on the thread-local generator with the
/// inclusive range `0..=hi`; the contract claims only that the draw lies in
/// that range (which value comes is left to chance).
#[verifier::external_body]
pub(crate) fn draw_at_most(hi: usize) -> (r: usize)
    ensures
        r <= hi,
{
    rand::thread_rng().gen_range(0..=hi)
}

/// `s` with the entries at `i` and `j` exchanged.
pub open spec fn swapped(s: Seq<usize>, i: int, j: int) -> Seq<usize> {
    s.update(i, s[j]).update(j, s[i])
}

/// The school slots after exchanging slot 2 with slot `j2`, then slot 1 with
/// slot `j1`, starting from the identity order.
pub open spec fn shuffled(j2: int, j1: int) -> Seq<usize> {
    swapped(swapped(seq![0usize, 1usize, 2usize], 2, j2), 1, j1)
}

/// Each school slot `0..N_SCHOOLS` appears exactly once.
pub open spec fn is_slot_permutation(s: Seq<usize>) -> bool {
    &&& s.len() == N_SCHOOLS
    &&& forall|i: int| 0 <= i < N_SCHOOLS ==> #[trigger] s[i] < N_SCHOOLS
    &&& forall|i: int, j: int| 0 <= i < j < N_SCHOOLS ==> #[trigger] s[i] != #[trigger] s[j]
}

/// Shuffles the school slots by the given draws: slot 2 is exchanged with
/// slot `j2`, then slot 1 with slot `j1`.
pub fn shuffle_slots(j2: usize, j1: usize) -> (slot: [usize; N_SCHOOLS])
    requires
        j2 <= 2,
        j1 <= 1,
    ensures
        slot@ == shuffled(j2 as int, j1 as int),
        is_slot_permutation(slot@),
{
    let mut slot = [0usize, 1, 2];
    let t = slot[2];
    slot[2] = slot[j2];
    slot[j2] = t;
    let t = slot[1];
    slot[1] = slot[j1];
    slot[j1] = t;
    assert(slot@ =~= shuffled(j2 as int, j1 as int));
    slot
}

/// A random order of the school slots, each slot appearing once.
pub fn school_slots() -> (slot: [usize; N_SCHOOLS])
    ensures
        is_slot_permutation(slot@),
        exists|j2: int, j1: int| 0 <= j2 <= 2 && 0 <= j1 <= 1 && slot@ == shuffled(j2, j1),
{
    let j2 = draw_at_most(2);
    let j1 = draw_at_most(1);
    shuffle_slots(j2, j1)
}

/// The strains in stocking order: `counts[g]` copies of strain `g`, strain by
/// strain from strain 0 up to (not including) strain `g`.
pub open spec fn strain_run(counts: Seq<usize>, g: int) -> Seq<usize>
    decreases g,
{
    if g <= 0 {
        Seq::empty()
    } else {
        strain_run(counts, g - 1) + Seq::new(counts[g - 1] as nat, |k: int| (g - 1) as usize)
    }
}

/// At most the first `N_GUPPY` entries of `s`.
pub open spec fn first_guppies(s: Seq<usize>) -> Seq<usize> {
    if s.len() <= N_GUPPY {
        s
    } else {
        s.take(N_GUPPY as int)
    }
}

/// The total of the first `g` counts.
pub open spec fn count_total(counts: Seq<usize>, g: int) -> int
    decreases g,
{
    if g <= 0 {
        0
    } else {
        count_total(counts, g - 1) + counts[g - 1]
    }
}

proof fn lemma_strain_run_shape(counts: Seq<usize>, g: int)
    requires
        0 <= g <= counts.len(),
        g <= N_STRAINS,
    ensures
        strain_run(counts, g).len() == count_total(counts, g),
        forall|i: int| 0 <= i < strain_run(counts, g).len() ==> #[trigger] strain_run(counts, g)[i] < g,
        forall|i: int, j: int|
            0 <= i <= j < strain_run(counts, g).len() ==> #[trigger] strain_run(counts, g)[i]
                <= #[trigger] strain_run(counts, g)[j],
    decreases g,
{
    if g > 0 {
        lemma_strain_run_shape(counts, g - 1);
        let prev = strain_run(counts, g - 1);
        let cur = strain_run(counts, g);
        assert forall|i: int| 0 <= i < cur.len() implies #[trigger] cur[i] < g by {
            if i < prev.len() {
                assert(cur[i] == prev[i]);
            }
        }
        assert forall|i: int, j: int| 0 <= i <= j < cur.len() implies #[trigger] cur[i] <= #[trigger] cur[j] by {
            if j < prev.len() {
                assert(cur[i] == prev[i]);
                assert(cur[j] == prev[j]);
            } else if i < prev.len() {
                assert(cur[i] == prev[i]);
                assert(prev[i] < g - 1);
                assert(cur[j] == (g - 1) as usize);
            } else {
                assert(cur[i] == (g - 1) as usize);
                assert(cur[j] == (g - 1) as usize);
            }
        }
    }
}

/// The guppy strains to stock, in order: each strain's count of fish, strain
/// by strain, cut off at `N_GUPPY` fish.
pub fn guppy_roster(counts: &[usize; N_STRAINS]) -> (gs: Vec<usize>)
    ensures
        gs@ == first_guppies(strain_run(counts@, N_STRAINS as int)),
        gs@.len() == (if count_total(counts@, N_STRAINS as int) < N_GUPPY {
            count_total(counts@, N_STRAINS as int)
        } else {
            N_GUPPY as int
        }),
        forall|i: int| 0 <= i < gs@.len() ==> #[trigger] gs@[i] < N_STRAINS,
        forall|i: int, j: int| 0 <= i <= j < gs@.len() ==> #[trigger] gs@[i] <= #[trigger] gs@[j],
{
    let mut gs: Vec<usize> = Vec::new();
    let mut g: usize = 0;
    while g < N_STRAINS
        invariant
            g <= N_STRAINS,
            gs@ == first_guppies(strain_run(counts@, g as int)),
        decreases N_STRAINS - g,
    {
        let n = counts[g];
        let mut c: usize = 0;
        while c < n
            invariant
                c <= n,
                g < N_STRAINS,
                n == counts@[g as int],
                gs@ == first_guppies(
                    strain_run(counts@, g as int) + Seq::new(c as nat, |k: int| g),
                ),
            decreases n - c,
        {
            let ghost s = strain_run(counts@, g as int) + Seq::new(c as nat, |k: int| g);
            let ghost s2 = strain_run(counts@, g as int) + Seq::new((c + 1) as nat, |k: int| g);
            assert(s2 =~= s.push(g));
            if gs.len() < N_GUPPY {
                gs.push(g);
                assert(gs@ =~= first_guppies(s2));
            } else {
                assert(first_guppies(s2) =~= first_guppies(s));
            }
            c += 1;
        }
        assert(strain_run(counts@, g as int + 1) =~= strain_run(counts@, g as int) + Seq::new(
            n as nat,
            |k: int| g,
        ));
        g += 1;
    }
    proof {
        lemma_strain_run_shape(counts@, N_STRAINS as int);
    }
    gs
}

/// How many of each kind a fresh tank is stocked with.
#[derive(Clone, Copy, Debug)]
pub struct TankCounts {
    pub neon: usize,
    pub guppy: [usize; N_STRAINS],
    pub black_tetra: usize,
    pub corydoras: usize,
    pub yamato: usize,
}

/// One creature to put in a fresh tank: the kind it belongs to, the kind it
/// is shown and behaves as, its guppy strain (0 for other kinds), and for a
/// schooling neon the school it joins.
#[derive(Clone, Copy, PartialEq, Eq, Debug, Structural)]
pub struct Stocking {
    pub home: SpKey,
    pub shown: SpKey,
    pub strain: usize,
    pub school: bool,
    pub sid: usize,
}

/// A creature of kind `key` that neither schools nor has a strain.
pub open spec fn loner(key: SpKey) -> Stocking {
    Stocking { home: key, shown: key, strain: 0, school: false, sid: 0 }
}

/// The school the `k`-th neon joins: all in the middle school on a shrimp day,
/// otherwise dealt round the schools in turn.
pub open spec fn neon_school(k: int, shrimp_day: bool) -> int {
    if shrimp_day {
        1
    } else {
        k % (N_SCHOOLS as int)
    }
}

/// The number of neons stocked.
pub open spec fn neon_count(counts: TankCounts, shrimp_day: bool) -> int {
    if shrimp_day {
        N_NEON_SHRIMPDAY as int
    } else {
        counts.neon as int
    }
}

/// The neons to stock.
pub open spec fn neon_plan(counts: TankCounts, shrimp_day: bool) -> Seq<Stocking> {
    Seq::new(
        neon_count(counts, shrimp_day) as nat,
        |k: int|
            Stocking {
                home: SpKey::Neon,
                shown: SpKey::Neon,
                strain: 0,
                school: true,
                sid: neon_school(k, shrimp_day) as usize,
            },
    )
}

/// The kind a guppy is shown as: on an ebi day every guppy wears the fried
/// shrimp guise.
pub open spec fn guppy_guise(ebi_day: bool) -> SpKey {
    if ebi_day {
        SpKey::EbiFry
    } else {
        SpKey::Guppy
    }
}

/// The kind a creature of kind `home` is shown as on the day: guppies take
/// the fried shrimp guise on an ebi day, every other kind shows as itself.
pub open spec fn shown_as(home: SpKey, ebi_day: bool) -> SpKey {
    if home == SpKey::Guppy {
        guppy_guise(ebi_day)
    } else {
        home
    }
}

/// The kind a creature of kind `home` is shown as, on an ebi day or not.
pub fn shown_kind(home: SpKey, ebi_day: bool) -> (k: SpKey)
    ensures
        k == shown_as(home, ebi_day),
{
    match home {
        SpKey::Guppy => if ebi_day {
            SpKey::EbiFry
        } else {
            SpKey::Guppy
        },
        _ => home,
    }
}

/// The custom character that takes a guppy's place.
pub open spec fn card_stocking() -> Stocking {
    Stocking { home: SpKey::Card, shown: SpKey::Card, strain: 0, school: false, sid: 0 }
}

/// The guppies to stock, one per roster entry, the first `cards` of them
/// replaced by the custom character.
pub open spec fn guppy_plan(counts: TankCounts, ebi_day: bool, cards: int) -> Seq<Stocking> {
    let roster = first_guppies(strain_run(counts.guppy@, N_STRAINS as int));
    Seq::new(
        roster.len(),
        |i: int|
            if i < cards {
                card_stocking()
            } else {
                Stocking {
                    home: SpKey::Guppy,
                    shown: guppy_guise(ebi_day),
                    strain: roster[i],
                    school: false,
                    sid: 0,
                }
            },
    )
}

/// `n` loners of kind `key`.
pub open spec fn loners(key: SpKey, n: int) -> Seq<Stocking> {
    Seq::new(n as nat, |i: int| loner(key))
}

/// The creatures of a fresh tank, in order: neons, guppies (the first `cards`
/// of them replaced by the custom character), black tetras, corydoras and, on
/// a shrimp day only, yamato shrimps.
pub open spec fn tank_plan(counts: TankCounts, shrimp_day: bool, ebi_day: bool, cards: int) -> Seq<
    Stocking,
> {
    neon_plan(counts, shrimp_day) + guppy_plan(counts, ebi_day, cards) + loners(
        SpKey::BlackTetra,
        counts.black_tetra as int,
    ) + loners(SpKey::Corydoras, counts.corydoras as int) + (if shrimp_day {
        loners(SpKey::Yamato, counts.yamato as int)
    } else {
        Seq::empty()
    })
}

/// Appends `n` loners of kind `key`.
fn push_loners(plan: &mut Vec<Stocking>, key: SpKey, n: usize)
    ensures
        final(plan)@ == old(plan)@ + loners(key, n as int),
{
    let ghost start = plan@;
    let mut i: usize = 0;
    while i < n
        invariant
            i <= n,
            plan@ == start + loners(key, i as int),
        decreases n - i,
    {
        plan.push(Stocking { home: key, shown: key, strain: 0, school: false, sid: 0 });
        i += 1;
        assert(plan@ =~= start + loners(key, i as int));
    }
}

/// The creatures to put in a fresh tank, in stocking order: the neons (five,
/// all in the middle school, on a shrimp day; otherwise the neon count, dealt
/// round the schools), the guppy roster (its first `cards` fish replaced by
/// the custom character, the rest shown in the fried shrimp guise on an ebi
/// day), the black tetras, the corydoras, and the yamato shrimps on a shrimp
/// day.
pub fn tank_stocking(counts: &TankCounts, shrimp_day: bool, ebi_day: bool, cards: usize) -> (plan: Vec<
    Stocking,
>)
    ensures
        plan@ == tank_plan(*counts, shrimp_day, ebi_day, cards as int),
{
    let mut plan: Vec<Stocking> = Vec::new();
    let n_neon = if shrimp_day {
        N_NEON_SHRIMPDAY
    } else {
        counts.neon
    };
    let mut k: usize = 0;
    while k < n_neon
        invariant
            k <= n_neon,
            n_neon as int == neon_count(*counts, shrimp_day),
            plan@ == neon_plan(*counts, shrimp_day).take(k as int),
        decreases n_neon - k,
    {
        let sid = if shrimp_day {
            1
        } else {
            k % N_SCHOOLS
        };
        plan.push(Stocking { home: SpKey::Neon, shown: SpKey::Neon, strain: 0, school: true, sid });
        k += 1;
        assert(plan@ =~= neon_plan(*counts, shrimp_day).take(k as int));
    }
    assert(plan@ =~= neon_plan(*counts, shrimp_day));
    let roster = guppy_roster(&counts.guppy);
    let shown = if ebi_day {
        SpKey::EbiFry
    } else {
        SpKey::Guppy
    };
    let ghost neons = plan@;
    let mut i: usize = 0;
    while i < roster.len()
        invariant
            i <= roster@.len(),
            roster@ == first_guppies(strain_run(counts.guppy@, N_STRAINS as int)),
            shown == guppy_guise(ebi_day),
            plan@ == neons + guppy_plan(*counts, ebi_day, cards as int).take(i as int),
        decreases roster@.len() - i,
    {
        if i < cards {
            plan.push(Stocking { home: SpKey::Card, shown: SpKey::Card, strain: 0, school: false, sid: 0 });
        } else {
            plan.push(Stocking { home: SpKey::Guppy, shown, strain: roster[i], school: false, sid: 0 });
        }
        i += 1;
        assert(plan@ =~= neons + guppy_plan(*counts, ebi_day, cards as int).take(i as int));
    }
    assert(plan@ =~= neons + guppy_plan(*counts, ebi_day, cards as int));
    push_loners(&mut plan, SpKey::BlackTetra, counts.black_tetra);
    push_loners(&mut plan, SpKey::Corydoras, counts.corydoras);
    if shrimp_day {
        push_loners(&mut plan, SpKey::Yamato, counts.yamato);
    }
    assert(plan@ =~= tank_plan(*counts, shrimp_day, ebi_day, cards as int));
    plan
}

/// Where entry `i` of a fresh tank's plan comes from: the neons, the guppy
/// roster, the black tetras, the corydoras, or the shrimps.
proof fn lemma_plan_segment(counts: TankCounts, shrimp_day: bool, ebi_day: bool, cards: int, i: int)
    requires
        0 <= i < tank_plan(counts, shrimp_day, ebi_day, cards).len(),
    ensures
        ({
            let a = neon_plan(counts, shrimp_day);
            let b = guppy_plan(counts, ebi_day, cards);
            let c = loners(SpKey::BlackTetra, counts.black_tetra as int);
            let d = loners(SpKey::Corydoras, counts.corydoras as int);
            let p = tank_plan(counts, shrimp_day, ebi_day, cards);
            ||| (i < a.len() && p[i] == a[i])
            ||| (a.len() <= i < a.len() + b.len() && p[i] == b[i - a.len()])
            ||| (a.len() + b.len() <= i && p[i] == loner(SpKey::BlackTetra) && i < a.len() + b.len()
                + c.len())
            ||| (a.len() + b.len() + c.len() <= i && p[i] == loner(SpKey::Corydoras) && i < a.len()
                + b.len() + c.len() + d.len())
            ||| (shrimp_day && a.len() + b.len() + c.len() + d.len() <= i && p[i] == loner(
                SpKey::Yamato,
            ))
        }),
{
    let a = neon_plan(counts, shrimp_day);
    let b = guppy_plan(counts, ebi_day, cards);
    let c = loners(SpKey::BlackTetra, counts.black_tetra as int);
    let d = loners(SpKey::Corydoras, counts.corydoras as int);
    let e: Seq<Stocking> = if shrimp_day {
        loners(SpKey::Yamato, counts.yamato as int)
    } else {
        Seq::empty()
    };
    let p = tank_plan(counts, shrimp_day, ebi_day, cards);
    if i < a.len() {
        assert(p[i] == a[i]);
    } else if i < a.len() + b.len() {
        assert(p[i] == b[i - a.len()]);
    } else if i < a.len() + b.len() + c.len() {
        assert(p[i] == c[i - a.len() - b.len()]);
    } else if i < a.len() + b.len() + c.len() + d.len() {
        assert(p[i] == d[i - a.len() - b.len() - c.len()]);
    } else {
        assert(p[i] == e[i - a.len() - b.len() - c.len() - d.len()]);
    }
}

/// Every schooling creature of a fresh tank joins one of the schools, and only
/// neons school.
pub proof fn lemma_plan_schools_valid(counts: TankCounts, shrimp_day: bool, ebi_day: bool, cards: int, i: int)
    requires
        0 <= i < tank_plan(counts, shrimp_day, ebi_day, cards).len(),
    ensures
        tank_plan(counts, shrimp_day, ebi_day, cards)[i].school ==> {
            &&& tank_plan(counts, shrimp_day, ebi_day, cards)[i].sid < N_SCHOOLS
            &&& tank_plan(counts, shrimp_day, ebi_day, cards)[i].home == SpKey::Neon
        },
{
    lemma_plan_segment(counts, shrimp_day, ebi_day, cards, i);
}

/// Shrimps only come on a shrimp day; creatures are shown as their own kind
/// except guppies on an ebi day, which all wear the fried shrimp guise.
pub proof fn lemma_plan_kinds(counts: TankCounts, shrimp_day: bool, ebi_day: bool, cards: int, i: int)
    requires
        0 <= i < tank_plan(counts, shrimp_day, ebi_day, cards).len(),
    ensures
        tank_plan(counts, shrimp_day, ebi_day, cards)[i].home == SpKey::Yamato ==> shrimp_day,
        tank_plan(counts, shrimp_day, ebi_day, cards)[i].shown == shown_as(
            tank_plan(counts, shrimp_day, ebi_day, cards)[i].home,
            ebi_day,
        ),
{
    lemma_plan_segment(counts, shrimp_day, ebi_day, cards, i);
}

/// The custom character takes the place of exactly the first `cards` guppies
/// of the roster (all of them when there are fewer): an entry is the custom
/// character just when it stands among those first guppy places.
pub proof fn lemma_plan_cards(counts: TankCounts, shrimp_day: bool, ebi_day: bool, cards: int, i: int)
    requires
        0 <= i < tank_plan(counts, shrimp_day, ebi_day, cards).len(),
    ensures
        (tank_plan(counts, shrimp_day, ebi_day, cards)[i].shown == SpKey::Card) == (neon_count(
            counts,
            shrimp_day,
        ) <= i && i < neon_count(counts, shrimp_day) + cards && i < neon_count(counts, shrimp_day)
            + guppy_plan(counts, ebi_day, cards).len()),
        tank_plan(counts, shrimp_day, ebi_day, cards)[i].shown == SpKey::Card
            ==> tank_plan(counts, shrimp_day, ebi_day, cards)[i] == card_stocking(),
{
    lemma_plan_segment(counts, shrimp_day, ebi_day, cards, i);
}

/// Every neon of a fresh tank schools: the plan opens with the neons, each of
/// them schooling, all in the middle school on a shrimp day and otherwise
/// dealt round the schools in turn; no later entry is a neon.
pub proof fn lemma_plan_neons_school(counts: TankCounts, shrimp_day: bool, ebi_day: bool, cards: int, i: int)
    requires
        0 <= i < tank_plan(counts, shrimp_day, ebi_day, cards).len(),
    ensures
        (tank_plan(counts, shrimp_day, ebi_day, cards)[i].home == SpKey::Neon) == (i < neon_count(
            counts,
            shrimp_day,
        )),
        i < neon_count(counts, shrimp_day) ==> {
            &&& tank_plan(counts, shrimp_day, ebi_day, cards)[i].school
            &&& tank_plan(counts, shrimp_day, ebi_day, cards)[i].shown == SpKey::Neon
            &&& shrimp_day ==> tank_plan(counts, shrimp_day, ebi_day, cards)[i].sid == 1
            &&& !shrimp_day ==> tank_plan(counts, shrimp_day, ebi_day, cards)[i].sid == i % 3
        },
        shrimp_day ==> neon_count(counts, shrimp_day) == 5,
        !shrimp_day ==> neon_count(counts, shrimp_day) == counts.neon,
{
    lemma_plan_segment(counts, shrimp_day, ebi_day, cards, i);
}

/// The number of guppy places a fresh tank has: the strain counts' total, up
/// to `N_GUPPY`.
pub open spec fn guppy_places(counts: TankCounts) -> int {
    let t = count_total(counts.guppy@, N_STRAINS as int);
    if t < N_GUPPY {
        t
    } else {
        N_GUPPY as int
    }
}

/// A fresh tank holds, in this order, its neons, its guppy places (guppies or
/// the custom character), `black_tetra` black tetras, `corydoras` corydoras
/// and, on a shrimp day only, `yamato` shrimps.
pub proof fn lemma_plan_layout(counts: TankCounts, shrimp_day: bool, ebi_day: bool, cards: int, i: int)
    requires
        0 <= i < tank_plan(counts, shrimp_day, ebi_day, cards).len(),
    ensures
        tank_plan(counts, shrimp_day, ebi_day, cards).len() == neon_count(counts, shrimp_day)
            + guppy_places(counts) + counts.black_tetra + counts.corydoras + (if shrimp_day {
            counts.yamato as int
        } else {
            0
        }),
        ({
            let p = tank_plan(counts, shrimp_day, ebi_day, cards);
            let g0 = neon_count(counts, shrimp_day);
            let t0 = g0 + guppy_places(counts);
            let c0 = t0 + counts.black_tetra;
            let y0 = c0 + counts.corydoras;
            &&& (p[i].home == SpKey::Guppy || p[i].home == SpKey::Card) == (g0 <= i < t0)
            &&& (p[i].home == SpKey::BlackTetra) == (t0 <= i < c0)
            &&& (p[i].home == SpKey::Corydoras) == (c0 <= i < y0)
            &&& (p[i].home == SpKey::Yamato) == (y0 <= i)
        }),
{
    lemma_strain_run_shape(counts.guppy@, N_STRAINS as int);
    lemma_plan_segment(counts, shrimp_day, ebi_day, cards, i);
}

} // verus!
