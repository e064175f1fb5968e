//! Decisions of the frame driver.
//!
//! The host loads the script, lets a few warm-up frames pass so that screen
//! metrics settle, calls the script's `init` once, and then, each frame,
//! refreshes the frame snapshot, calls `update` and `draw`, and yields to
//! the frame pacer. This module decides which of those steps a frame runs;
//! the host performs them and reports back.
use vstd::prelude::*;

verus! {

/// Frames that pass, with the snapshot refreshed, before `init` is called.
pub const WARMUP_FRAMES: u32 = 3;

/// Where the driver stands. A loaded script waits out its warm-up frames;
/// the frame that follows calls `init` and the driver then runs until it
/// terminates.
#[derive(Clone, Copy, Debug, PartialEq, Eq, Structural)]
pub enum Phase {
    Loaded,
    Running,
    Terminated,
}

/// Which of the entry points the script's module defines.
#[derive(Clone, Copy, Debug, PartialEq, Eq, Structural)]
pub struct EntryPoints {
    pub init: bool,
    pub update: bool,
    pub draw: bool,
}

/// One step of a frame, performed by the host in the order given.
#[derive(Clone, Copy, Debug, PartialEq, Eq, Structural)]
pub enum Action {
    /// Refresh the frame snapshot (time, screen size, fps).
    Refresh,
    /// Call `init(hub)` and keep what it returns as the script state.
    Init,
    /// Call `update(hub, state)`.
    Update,
    /// Call `draw(surface, state)`.
    Draw,
    /// Wait for the next frame.
    Yield,
    /// Tear down the script environment and stop.
    Shutdown,
}

/// The script call that raised an error.
#[derive(Clone, Copy, Debug, PartialEq, Eq, Structural)]
pub enum Stage {
    Init,
    Update,
    Draw,
}

/// What the host does after a script call raised an error.
#[derive(Clone, Copy, Debug, PartialEq, Eq, Structural)]
pub enum Recovery {
    /// Report the error and stop.
    Abort,
    /// Report the error and go on with the next step.
    Continue,
}

/// The steps of a frame that runs the script: a refresh first, then the
/// callbacks that the script defines, then the yield.
pub open spec fn callbacks(e: EntryPoints, with_init: bool) -> Seq<Action> {
    seq![Action::Refresh] + (if with_init && e.init {
        seq![Action::Init]
    } else {
        Seq::empty()
    }) + (if e.update {
        seq![Action::Update]
    } else {
        Seq::empty()
    }) + (if e.draw {
        seq![Action::Draw]
    } else {
        Seq::empty()
    }) + seq![Action::Yield]
}

/// How many times `a` occurs in `p`.
pub open spec fn count_of(p: Seq<Action>, a: Action) -> nat
    decreases p.len(),
{
    if p.len() == 0 {
        0
    } else {
        (if p[0] == a {
            1nat
        } else {
            0nat
        }) + count_of(p.drop_first(), a)
    }
}

/// Whether the action runs script code.
pub open spec fn is_callback(a: Action) -> bool {
    a == Action::Init || a == Action::Update || a == Action::Draw
}

/// Position of an action within a frame.
pub open spec fn rank(a: Action) -> int {
    match a {
        Action::Refresh => 0,
        Action::Init => 1,
        Action::Update => 2,
        Action::Draw => 3,
        Action::Yield => 4,
        Action::Shutdown => 5,
    }
}

/// Every step comes after the steps of lower rank, and none repeats.
pub open spec fn strictly_ordered(p: Seq<Action>) -> bool {
    forall|i: int, j: int| 0 <= i < j < p.len() ==> rank(p[i]) < rank(p[j])
}

/// How many times `a` is issued over the frames whose quit requests are
/// `quits`, starting from `d`.
pub open spec fn issued(d: FrameDriver, quits: Seq<bool>, a: Action) -> nat
    decreases quits.len(),
{
    if quits.len() == 0 {
        0
    } else {
        count_of(d.plan(quits[0]), a) + issued(d.next(quits[0]), quits.drop_first(), a)
    }
}

proof fn lemma_count_concat(p: Seq<Action>, q: Seq<Action>, a: Action)
    ensures
        count_of(p + q, a) == count_of(p, a) + count_of(q, a),
    decreases p.len(),
{
    if p.len() == 0 {
        assert(p + q =~= q);
    } else {
        lemma_count_concat(p.drop_first(), q, a);
        assert((p + q).drop_first() =~= p.drop_first() + q);
    }
}

proof fn lemma_count_single(x: Action, a: Action)
    ensures
        count_of(seq![x], a) == (if x == a {
            1nat
        } else {
            0nat
        }),
{
    assert(seq![x].drop_first() =~= Seq::<Action>::empty());
    assert(count_of(Seq::<Action>::empty(), a) == 0);
}

proof fn lemma_count_optional(present: bool, x: Action, a: Action)
    ensures
        count_of(
            if present {
                seq![x]
            } else {
                Seq::empty()
            },
            a,
        ) == (if present && x == a {
            1nat
        } else {
            0nat
        }),
{
    lemma_count_single(x, a);
}

proof fn lemma_count_callbacks(e: EntryPoints, with_init: bool, a: Action)
    ensures
        count_of(callbacks(e, with_init), a) == (if a == Action::Refresh || a == Action::Yield {
            1nat
        } else if a == Action::Init {
            if with_init && e.init {
                1nat
            } else {
                0nat
            }
        } else if a == Action::Update {
            if e.update {
                1nat
            } else {
                0nat
            }
        } else if a == Action::Draw {
            if e.draw {
                1nat
            } else {
                0nat
            }
        } else {
            0nat
        }),
{
    let s0 = seq![Action::Refresh];
    let s1: Seq<Action> = if with_init && e.init {
        seq![Action::Init]
    } else {
        Seq::empty()
    };
    let s2: Seq<Action> = if e.update {
        seq![Action::Update]
    } else {
        Seq::empty()
    };
    let s3: Seq<Action> = if e.draw {
        seq![Action::Draw]
    } else {
        Seq::empty()
    };
    let s4 = seq![Action::Yield];
    lemma_count_concat(s0, s1, a);
    lemma_count_concat(s0 + s1, s2, a);
    lemma_count_concat(s0 + s1 + s2, s3, a);
    lemma_count_concat(s0 + s1 + s2 + s3, s4, a);
    lemma_count_single(Action::Refresh, a);
    lemma_count_single(Action::Yield, a);
    lemma_count_optional(with_init && e.init, Action::Init, a);
    lemma_count_optional(e.update, Action::Update, a);
    lemma_count_optional(e.draw, Action::Draw, a);
}

proof fn lemma_ordered_concat(p: Seq<Action>, q: Seq<Action>)
    requires
        strictly_ordered(p),
        strictly_ordered(q),
        forall|i: int, j: int| 0 <= i < p.len() && 0 <= j < q.len() ==> rank(p[i]) < rank(q[j]),
    ensures
        strictly_ordered(p + q),
{
    assert forall|i: int, j: int| 0 <= i < j < (p + q).len() implies rank((p + q)[i]) < rank(
        (p + q)[j],
    ) by {
        if j < p.len() {
        } else if i < p.len() {
            assert(rank(p[i]) < rank(q[j - p.len()]));
        } else {
            assert(rank(q[i - p.len()]) < rank(q[j - p.len()]));
        }
    }
}

proof fn lemma_callbacks_ordered(e: EntryPoints, with_init: bool)
    ensures
        strictly_ordered(callbacks(e, with_init)),
        callbacks(e, with_init)[0] == Action::Refresh,
{
    let s0 = seq![Action::Refresh];
    let s1: Seq<Action> = if with_init && e.init {
        seq![Action::Init]
    } else {
        Seq::empty()
    };
    let s2: Seq<Action> = if e.update {
        seq![Action::Update]
    } else {
        Seq::empty()
    };
    let s3: Seq<Action> = if e.draw {
        seq![Action::Draw]
    } else {
        Seq::empty()
    };
    let s4 = seq![Action::Yield];
    lemma_ordered_concat(s0, s1);
    lemma_ordered_concat(s0 + s1, s2);
    lemma_ordered_concat(s0 + s1 + s2, s3);
    lemma_ordered_concat(s0 + s1 + s2 + s3, s4);
}

/// Within every frame the steps keep one order, none repeated: the snapshot
/// is refreshed first, before any script call; then `init`, `update` and
/// `draw`, those that the frame runs, in that order; the yield comes last.
pub proof fn lemma_frame_order(d: FrameDriver, quit: bool)
    ensures
        strictly_ordered(d.plan(quit)),
        forall|i: int|
            0 <= i < d.plan(quit).len() && is_callback(#[trigger] d.plan(quit)[i]) ==> d.plan(
                quit,
            )[0] == Action::Refresh,
{
    if d.phase_spec() != Phase::Terminated && !quit {
        if d.phase_spec() == Phase::Running {
            lemma_callbacks_ordered(d.entries_spec(), false);
        } else if d.warmup_spec() > 0 {
        } else {
            lemma_callbacks_ordered(d.entries_spec(), true);
        }
    }
}

proof fn lemma_plan_init(d: FrameDriver, quit: bool)
    ensures
        count_of(d.plan(quit), Action::Init) <= 1,
        count_of(d.plan(quit), Action::Init) == 1 ==> d.phase_spec() == Phase::Loaded
            && d.next(quit).phase_spec() == Phase::Running,
        d.phase_spec() != Phase::Loaded ==> count_of(d.plan(quit), Action::Init) == 0
            && d.next(quit).phase_spec() != Phase::Loaded,
{
    lemma_count_single(Action::Shutdown, Action::Init);
    lemma_count_callbacks(d.entries_spec(), false, Action::Init);
    lemma_count_callbacks(d.entries_spec(), true, Action::Init);
    lemma_count_concat(seq![Action::Refresh], seq![Action::Yield], Action::Init);
    lemma_count_single(Action::Refresh, Action::Init);
    lemma_count_single(Action::Yield, Action::Init);
    assert(seq![Action::Refresh, Action::Yield] =~= seq![Action::Refresh] + seq![Action::Yield]);
}

/// Over any run of frames, `init` is called at most once, and never once the
/// driver has left the loaded phase.
pub proof fn lemma_init_at_most_once(d: FrameDriver, quits: Seq<bool>)
    ensures
        issued(d, quits, Action::Init) <= 1,
        d.phase_spec() != Phase::Loaded ==> issued(d, quits, Action::Init) == 0,
    decreases quits.len(),
{
    if quits.len() > 0 {
        lemma_plan_init(d, quits[0]);
        lemma_init_at_most_once(d.next(quits[0]), quits.drop_first());
    }
}

/// A running script has its state threaded through exactly one `update` and
/// one `draw` per frame (those that its module defines), after one refresh:
/// over `n` frames without a quit request, `n` of each, and the driver is
/// still running.
pub proof fn lemma_once_per_frame(d: FrameDriver, quits: Seq<bool>)
    requires
        d.phase_spec() == Phase::Running,
        forall|i: int| 0 <= i < quits.len() ==> !quits[i],
    ensures
        issued(d, quits, Action::Refresh) == quits.len(),
        issued(d, quits, Action::Update) == (if d.entries_spec().update {
            quits.len()
        } else {
            0
        }),
        issued(d, quits, Action::Draw) == (if d.entries_spec().draw {
            quits.len()
        } else {
            0
        }),
        issued(d, quits, Action::Init) == 0,
    decreases quits.len(),
{
    if quits.len() > 0 {
        assert(d.next(quits[0]) == d);
        lemma_count_callbacks(d.entries_spec(), false, Action::Refresh);
        lemma_count_callbacks(d.entries_spec(), false, Action::Update);
        lemma_count_callbacks(d.entries_spec(), false, Action::Draw);
        lemma_count_callbacks(d.entries_spec(), false, Action::Init);
        lemma_once_per_frame(d, quits.drop_first());
    }
}

pub struct FrameDriver {
    phase: Phase,
    warmup_left: u32,
    entries: EntryPoints,
}

impl FrameDriver {
    pub closed spec fn phase_spec(&self) -> Phase {
        self.phase
    }

    pub closed spec fn warmup_spec(&self) -> nat {
        self.warmup_left as nat
    }

    pub closed spec fn entries_spec(&self) -> EntryPoints {
        self.entries
    }

    /// The steps of the next frame.
    pub closed spec fn plan(&self, quit: bool) -> Seq<Action> {
        if self.phase == Phase::Terminated {
            Seq::empty()
        } else if quit {
            seq![Action::Shutdown]
        } else if self.phase == Phase::Running {
            callbacks(self.entries, false)
        } else if self.warmup_left > 0 {
            seq![Action::Refresh, Action::Yield]
        } else {
            callbacks(self.entries, true)
        }
    }

    /// The driver after the next frame.
    pub closed spec fn next(&self, quit: bool) -> FrameDriver {
        if self.phase == Phase::Terminated {
            *self
        } else if quit {
            FrameDriver { phase: Phase::Terminated, ..*self }
        } else if self.phase == Phase::Running {
            *self
        } else if self.warmup_left > 0 {
            FrameDriver { warmup_left: (self.warmup_left - 1) as u32, ..*self }
        } else {
            FrameDriver { phase: Phase::Running, ..*self }
        }
    }

    /// A driver for a freshly loaded script with the given entry points,
    /// which waits `warmup` frames before calling `init`.
    pub fn new(entries: EntryPoints, warmup: u32) -> (r: Self)
        ensures
            r.phase_spec() == Phase::Loaded,
            r.warmup_spec() == warmup,
            r.entries_spec() == entries,
    {
        FrameDriver { phase: Phase::Loaded, warmup_left: warmup, entries }
    }

    pub fn phase(&self) -> (r: Phase)
        ensures
            r == self.phase_spec(),
    {
        self.phase
    }

    /// Decides the steps of the next frame; `quit` says whether the host has
    /// been asked to quit.
    pub fn begin_frame(&mut self, quit: bool) -> (r: Vec<Action>)
        ensures
            r@ == old(self).plan(quit),
            *final(self) == old(self).next(quit),
    {
        let mut r: Vec<Action> = Vec::new();
        if self.phase == Phase::Terminated {
            return r;
        }
        if quit {
            self.phase = Phase::Terminated;
            r.push(Action::Shutdown);
            return r;
        }
        if self.phase == Phase::Loaded && self.warmup_left > 0 {
            self.warmup_left = self.warmup_left - 1;
            r.push(Action::Refresh);
            r.push(Action::Yield);
            assert(r@ =~= seq![Action::Refresh, Action::Yield]);
            return r;
        }
        let with_init = self.phase == Phase::Loaded;
        self.phase = Phase::Running;
        r.push(Action::Refresh);
        if with_init && self.entries.init {
            r.push(Action::Init);
        }
        if self.entries.update {
            r.push(Action::Update);
        }
        if self.entries.draw {
            r.push(Action::Draw);
        }
        r.push(Action::Yield);
        assert(r@ =~= callbacks(self.entries, with_init));
        r
    }

    /// Decides what follows an error raised by the script. An error in
    /// `init` ends the run, since there is no state to go on with; one in
    /// `update` or `draw` is reported and the run goes on with the next
    /// step, so that a single bad frame does not end the program.
    pub fn on_error(&mut self, stage: Stage) -> (r: Recovery)
        ensures
            r == (if stage == Stage::Init {
                Recovery::Abort
            } else {
                Recovery::Continue
            }),
            final(self).phase_spec() == (if stage == Stage::Init {
                Phase::Terminated
            } else {
                old(self).phase_spec()
            }),
            final(self).warmup_spec() == old(self).warmup_spec(),
            final(self).entries_spec() == old(self).entries_spec(),
    {
        match stage {
            Stage::Init => {
                self.phase = Phase::Terminated;
                Recovery::Abort
            },
            _ => Recovery::Continue,
        }
    }
}

} // verus!
