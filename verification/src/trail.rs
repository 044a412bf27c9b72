use vstd::prelude::*;

verus! {

/// Number of points a trail remembers.
pub const TRAIL_CAP: usize = 128;

/// The recent path of a swimmer: a ring of `TRAIL_CAP` slots holding the last
/// points pushed, the newest in the slot under the cursor `head`.
///
/// Its view is the remembered points, newest first.
pub struct Trail<T> {
    pts: Vec<T>,
    n: usize,
    head: usize,
}

impl<T> View for Trail<T> {
    type V = Seq<T>;

    closed spec fn view(&self) -> Seq<T> {
        Seq::new(self.n as nat, |k: int| self.pts@[(self.head - k) % (TRAIL_CAP as int)])
    }
}

/// What a new trail remembers after the points `ps` are pushed onto it in
/// order: the last `TRAIL_CAP` of them at most, newest first.
pub open spec fn history<T>(ps: Seq<T>) -> Seq<T> {
    let n: nat = if ps.len() < TRAIL_CAP {
        ps.len()
    } else {
        TRAIL_CAP as nat
    };
    Seq::new(n, |k: int| ps[ps.len() - 1 - k])
}

impl<T> Trail<T> {
    /// The trail is as pushing the points `ps` in order onto a new trail
    /// leaves it: it remembers their history and its cursor has moved once
    /// per point from the last slot.
    pub open spec fn holds_pushes(&self, ps: Seq<T>) -> bool {
        &&& self.wf()
        &&& self@ == history(ps)
        &&& self.cursor() == (ps.len() + TRAIL_CAP - 1) % (TRAIL_CAP as int)
    }

    /// The ring has `TRAIL_CAP` slots, the cursor is on one of them and at most
    /// `TRAIL_CAP` points are remembered.
    pub closed spec fn wf(&self) -> bool {
        &&& self.pts@.len() == TRAIL_CAP
        &&& self.n <= TRAIL_CAP
        &&& self.head < TRAIL_CAP
    }

    /// The slot holding the newest point.
    pub closed spec fn cursor(&self) -> int {
        self.head as int
    }

    /// The raw contents of the ring's slots.
    pub closed spec fn slots(&self) -> Seq<T> {
        self.pts@
    }

    /// The physical slot that is `back` steps behind the newest point.
    pub open spec fn slot_back(&self, back: int) -> int {
        (self.cursor() + 2 * TRAIL_CAP - back) % (TRAIL_CAP as int)
    }
}

impl<T: Copy> Trail<T> {
    /// An empty trail whose slots all hold `fill`, the cursor on the last slot.
    pub fn new(fill: T) -> (t: Self)
        ensures
            t.wf(),
            t.holds_pushes(Seq::<T>::empty()),
            t@ == Seq::<T>::empty(),
            t.cursor() == TRAIL_CAP - 1,
            t.slots() == Seq::new(TRAIL_CAP as nat, |i: int| fill),
    {
        let mut pts: Vec<T> = Vec::new();
        let mut i: usize = 0;
        while i < TRAIL_CAP
            invariant
                i <= TRAIL_CAP,
                pts@.len() == i,
                forall|k: int| 0 <= k < i ==> #[trigger] pts@[k] == fill,
            decreases TRAIL_CAP - i,
        {
            pts.push(fill);
            i += 1;
        }
        let t = Trail { pts, n: 0, head: TRAIL_CAP - 1 };
        assert(t@ =~= Seq::<T>::empty());
        assert(history(Seq::<T>::empty()) =~= Seq::<T>::empty());
        assert(t.slots() =~= Seq::new(TRAIL_CAP as nat, |i: int| fill));
        t
    }

    /// Records a new point: it becomes the newest, every remembered point moves
    /// one step back, and once the trail is full the oldest is forgotten.
    pub fn push(&mut self, p: T)
        requires
            old(self).wf(),
        ensures
            final(self).wf(),
            final(self).cursor() == (old(self).cursor() + 1) % (TRAIL_CAP as int),
            final(self).slots() == old(self).slots().update(final(self).cursor(), p),
            final(self)@ == (if old(self)@.len() < TRAIL_CAP {
                seq![p] + old(self)@
            } else {
                seq![p] + old(self)@.drop_last()
            }),
            final(self)@.len() == (if old(self)@.len() < TRAIL_CAP {
                old(self)@.len() + 1int
            } else {
                TRAIL_CAP as int
            }),
            final(self)@[0] == p,
            forall|k: int|
                0 <= k < final(self)@.len() - 1 ==> #[trigger] final(self)@[k + 1] == old(self)@[k],
            forall|ps: Seq<T>| #[trigger] old(self).holds_pushes(ps) ==> final(self).holds_pushes(ps.push(p)),
    {
        let ghost before = *self;
        let h = (self.head + 1) % TRAIL_CAP;
        self.pts.set(h, p);
        self.head = h;
        if self.n < TRAIL_CAP {
            self.n = self.n + 1;
        }
        let ghost expect = if before@.len() < TRAIL_CAP {
            seq![p] + before@
        } else {
            seq![p] + before@.drop_last()
        };
        assert forall|k: int| 0 <= k < self@.len() implies #[trigger] self@[k] == expect[k] by {
            if k > 0 {
                assert((self.head - k) % 128 == (before.head - (k - 1)) % 128);
                assert((self.head - k) % 128 != self.head as int);
            }
        }
        assert(self@ =~= expect);
        assert forall|ps: Seq<T>| #[trigger] before.holds_pushes(ps) implies self.holds_pushes(ps.push(p)) by {
            let h = history(ps.push(p));
            assert(h.len() == self@.len());
            assert forall|k: int| 0 <= k < h.len() implies h[k] == self@[k] by {
                if k > 0 {
                    assert(before@[k - 1] == ps[ps.len() - 1 - (k - 1)]);
                }
            }
            assert(h =~= self@);
        }
    }

    /// The number of remembered points.
    pub fn len(&self) -> (r: usize)
        requires
            self.wf(),
        ensures
            r == self@.len(),
            r <= TRAIL_CAP,
    {
        self.n
    }

    /// The slot holding the newest point.
    pub fn head(&self) -> (r: usize)
        requires
            self.wf(),
        ensures
            r == self.cursor(),
            r < TRAIL_CAP,
    {
        self.head
    }

    /// The physical slot that is `back` steps behind the newest point.
    pub fn idx(&self, back: usize) -> (r: usize)
        requires
            self.wf(),
            back <= self.cursor() + 2 * TRAIL_CAP,
        ensures
            r == self.slot_back(back as int),
            r < TRAIL_CAP,
    {
        (self.head + TRAIL_CAP * 2 - back) % TRAIL_CAP
    }

    /// The point stored in slot `i`.
    pub fn slot(&self, i: usize) -> (p: T)
        requires
            self.wf(),
            i < TRAIL_CAP,
        ensures
            p == self.slots()[i as int],
    {
        self.pts[i]
    }

    /// After points are pushed in order onto a new trail, looking back `j`
    /// steps reads the `j`-th most recent push, for every `j` below the number
    /// of points remembered, which is the number pushed up to `TRAIL_CAP`;
    /// only pushes older than that are overwritten.
    pub proof fn lemma_pushes_read_back(&self, ps: Seq<T>)
        requires
            self.holds_pushes(ps),
        ensures
            self@.len() == (if ps.len() < TRAIL_CAP {
                ps.len() as int
            } else {
                TRAIL_CAP as int
            }),
            ps.len() >= 1 ==> self.cursor() == (ps.len() - 1) % (TRAIL_CAP as int),
            forall|j: int|
                0 <= j < self@.len() ==> #[trigger] self.slots()[self.slot_back(j)] == ps[ps.len() - 1 - j],
    {
        assert forall|j: int| 0 <= j < self@.len() implies #[trigger] self.slots()[self.slot_back(j)]
            == ps[ps.len() - 1 - j] by {
            self.lemma_idx_reads_history(j);
        }
    }

    /// The slot `back` steps behind the newest point holds the `back`-th most
    /// recent point, for every remembered point.
    pub proof fn lemma_idx_reads_history(&self, back: int)
        requires
            0 <= back < self@.len(),
        ensures
            self.slots()[self.slot_back(back)] == self@[back],
    {
        assert((self.cursor() + 256 - back) % 128 == (self.cursor() - back) % 128);
    }
}

} // verus!
