//! The tick path: a scan goes through keyberon's debouncer and layout engine,
//! and the resolved keycodes through the report pipeline.
use vstd::prelude::*;
use keyberon::debounce::Debouncer;
use keyberon::layout::{Event, Layout};
use crate::layout::{layers_ok, layout_codes, LayoutEngine, LayoutInput};
use crate::report::{report_of, writes, HidPipeline};

verus! {

#[verifier::external_type_specification]
#[verifier::external_body]
#[verifier::reject_recursive_types(T)]
pub struct ExDebouncer<T>(Debouncer<T>);

/// A confirmed change of one key: pressed or released, at (row, column).
#[derive(Clone, Copy, Debug, PartialEq, Eq, Structural)]
pub struct KeyEvent {
    pub pressed: bool,
    pub row: u8,
    pub col: u8,
}

/// A scan grid small enough for every key to be named by a byte pair.
pub open spec fn grid_fits(grid: Seq<Vec<bool>>) -> bool {
    grid.len() <= 256 && forall|r: int| 0 <= r < grid.len() ==> #[trigger] grid[r]@.len() <= 256
}

/// Key changes in strictly increasing (row, column) order: row by row, each
/// key once at most.
pub open spec fn row_major(events: Seq<KeyEvent>) -> bool {
    forall|i: int, j: int|
        0 <= i < j < events.len() ==> {
            ||| events[i].row < events[j].row
            ||| (events[i].row == events[j].row && events[i].col < events[j].col)
        }
}

/// The layout input for a confirmed key change.
pub open spec fn input_of(e: KeyEvent) -> LayoutInput {
    if e.pressed {
        LayoutInput::Press { row: e.row, col: e.col }
    } else {
        LayoutInput::Release { row: e.row, col: e.col }
    }
}

/// The layout inputs for a sequence of key changes, in the same order.
pub open spec fn inputs_of(events: Seq<KeyEvent>) -> Seq<LayoutInput> {
    events.map_values(|e: KeyEvent| input_of(e))
}

/// The changed keys of one row among its first `j` columns, in column
/// order, each with its new state.
pub open spec fn row_changes(o: Seq<bool>, n: Seq<bool>, row: int, j: nat) -> Seq<KeyEvent>
    decreases j,
{
    if j == 0 {
        Seq::empty()
    } else {
        let c = j - 1;
        let before = row_changes(o, n, row, (j - 1) as nat);
        if c < o.len() && c < n.len() && o[c] != n[c] {
            before.push(KeyEvent { pressed: n[c], row: row as u8, col: c as u8 })
        } else {
            before
        }
    }
}

/// The changed keys among the first `k` rows, row by row.
pub open spec fn grid_changes(o: Seq<Seq<bool>>, n: Seq<Seq<bool>>, k: nat) -> Seq<KeyEvent>
    decreases k,
{
    if k == 0 {
        Seq::empty()
    } else {
        let r = k - 1;
        let before = grid_changes(o, n, (k - 1) as nat);
        if r < o.len() && r < n.len() {
            before + row_changes(o[r], n[r], r, n[r].len())
        } else {
            before
        }
    }
}

/// Every key whose state differs between `o` and `n`, in row-major order,
/// each with its state in `n`.
pub open spec fn changes(o: Seq<Seq<bool>>, n: Seq<Seq<bool>>) -> Seq<KeyEvent> {
    grid_changes(o, n, n.len())
}

/// A scan as rows of key states.
pub open spec fn cells(grid: Seq<Vec<bool>>) -> Seq<Seq<bool>> {
    grid.map_values(|row: Vec<bool>| row@)
}

/// The state a debouncer confirms.
pub uninterp spec fn confirmed(d: Debouncer<Vec<Vec<bool>>>) -> Seq<Seq<bool>>;

/// The differing scan a debouncer is counting agreeing scans of.
pub uninterp spec fn candidate(d: Debouncer<Vec<Vec<bool>>>) -> Seq<Seq<bool>>;

/// How many agreeing scans of the candidate a debouncer has counted.
pub uninterp spec fn agreeing(d: Debouncer<Vec<Vec<bool>>>) -> nat;

/// How many agreeing scans a debouncer lets pass before it confirms a change.
pub uninterp spec fn settle_of(d: Debouncer<Vec<Vec<bool>>>) -> nat;

/// A debouncer's state: confirmed scan, candidate scan, agreeing count.
pub open spec fn model(d: Debouncer<Vec<Vec<bool>>>) -> (Seq<Seq<bool>>, Seq<Seq<bool>>, nat) {
    (confirmed(d), candidate(d), agreeing(d))
}

/// The count of agreeing scans after scan `g`: a new candidate starts at one.
pub open spec fn run_after(m: (Seq<Seq<bool>>, Seq<Seq<bool>>, nat), g: Seq<Seq<bool>>) -> nat {
    if m.1 != g {
        1
    } else {
        m.2 + 1
    }
}

/// Whether scan `g` confirms a change: it differs from the confirmed state
/// and has now agreed on more than `settle` scans in a row.
pub open spec fn fires(m: (Seq<Seq<bool>>, Seq<Seq<bool>>, nat), settle: nat, g: Seq<Seq<bool>>) -> bool {
    m.0 != g && run_after(m, g) > settle
}

/// A debouncer's state after scan `g`. A scan equal to the confirmed state
/// resets the count; a confirmed change swaps the confirmed state for `g`.
pub open spec fn debounce_next(
    m: (Seq<Seq<bool>>, Seq<Seq<bool>>, nat),
    settle: nat,
    g: Seq<Seq<bool>>,
) -> (Seq<Seq<bool>>, Seq<Seq<bool>>, nat) {
    if m.0 == g {
        (m.0, m.1, 0)
    } else if fires(m, settle, g) {
        (g, m.0, 0)
    } else {
        (m.0, g, run_after(m, g))
    }
}

/// The state after `k` scans that all equal `g`.
pub open spec fn debounce_run(
    m: (Seq<Seq<bool>>, Seq<Seq<bool>>, nat),
    settle: nat,
    g: Seq<Seq<bool>>,
    k: nat,
) -> (Seq<Seq<bool>>, Seq<Seq<bool>>, nat)
    decreases k,
{
    if k == 0 {
        m
    } else {
        debounce_next(debounce_run(m, settle, g, (k - 1) as nat), settle, g)
    }
}

proof fn lemma_run_counts(
    m: (Seq<Seq<bool>>, Seq<Seq<bool>>, nat),
    settle: nat,
    g: Seq<Seq<bool>>,
    j: nat,
)
    requires
        m.1 != g || m.2 == 0,
        1 <= j <= settle,
    ensures
        m.0 != g ==> debounce_run(m, settle, g, j) == (m.0, g, j),
        m.0 == g ==> debounce_run(m, settle, g, j).0 == g,
    decreases j,
{
    assert(debounce_run(m, settle, g, 0) == m);
    if j > 1 {
        lemma_run_counts(m, settle, g, (j - 1) as nat);
    }
    assert(debounce_run(m, settle, g, j) == debounce_next(
        debounce_run(m, settle, g, (j - 1) as nat),
        settle,
        g,
    ));
}

/// A key change is confirmed only after more than `settle` scans in a row
/// agree on it: a run of at most `settle` equal scans that follows a
/// different scan confirms nothing, and leaves the confirmed state as it was.
/// One scan more confirms it.
pub proof fn lemma_debounce_soak(
    m: (Seq<Seq<bool>>, Seq<Seq<bool>>, nat),
    settle: nat,
    g: Seq<Seq<bool>>,
    k: nat,
)
    requires
        m.1 != g || m.2 == 0,
        k <= settle,
    ensures
        forall|j: nat| j < k ==> !fires(#[trigger] debounce_run(m, settle, g, j), settle, g),
        debounce_run(m, settle, g, k).0 == m.0 || m.0 == g,
        m.0 != g ==> fires(debounce_run(m, settle, g, settle), settle, g),
        debounce_run(m, settle, g, settle + 1).0 == g,
{
    assert forall|j: nat| j < k implies !fires(#[trigger] debounce_run(m, settle, g, j), settle, g) by {
        if j >= 1 {
            lemma_run_counts(m, settle, g, j);
        }
    }
    if k >= 1 {
        lemma_run_counts(m, settle, g, k);
    }
    if settle >= 1 {
        lemma_run_counts(m, settle, g, settle);
    }
}

/// Relies on keyberon's `Debouncer::new`: a debouncer at rest on `cur`
/// that confirms a change after more than `settle` agreeing scans. Its
/// agreement counter is a `u16` that never passes `settle + 1`.
#[verifier::external_body]
fn new_debouncer(cur: Vec<Vec<bool>>, new: Vec<Vec<bool>>, settle: u16) -> (d: Debouncer<Vec<Vec<bool>>>)
    requires
        settle < u16::MAX,
    ensures
        confirmed(d) == cells(cur@),
        candidate(d) == cells(new@),
        agreeing(d) == 0,
        settle_of(d) == settle,
{
    Debouncer::new(cur, new, settle)
}

/// Relies on keyberon's `Debouncer::events`: the key changes that this scan
/// confirms, by the rule of `Debouncer::update`. Each names a key of the
/// scan and carries its new state there; the coordinates are converted with
/// a panic above 255, and the agreeing count is a `u16` incremented by one;
/// the precondition rules out both.
#[verifier::external_body]
fn debounce(d: &mut Debouncer<Vec<Vec<bool>>>, grid: Vec<Vec<bool>>) -> (r: Vec<KeyEvent>)
    requires
        grid_fits(grid@),
        agreeing(*old(d)) <= settle_of(*old(d)) < u16::MAX,
    ensures
        model(*final(d)) == debounce_next(model(*old(d)), settle_of(*old(d)), cells(grid@)),
        settle_of(*final(d)) == settle_of(*old(d)),
        !fires(model(*old(d)), settle_of(*old(d)), cells(grid@)) ==> r@.len() == 0,
        fires(model(*old(d)), settle_of(*old(d)), cells(grid@)) ==> r@ == changes(
            confirmed(*old(d)),
            cells(grid@),
        ),
        forall|i: int|
            0 <= i < r@.len() ==> {
                let e = #[trigger] r@[i];
                &&& (e.row as int) < grid@.len()
                &&& (e.col as int) < grid@[e.row as int]@.len()
                &&& e.pressed == grid@[e.row as int]@[e.col as int]
            },
        row_major(r@),
{
    d.events(grid).map(|e| match e {
        Event::Press(row, col) => KeyEvent { pressed: true, row, col },
        Event::Release(row, col) => KeyEvent { pressed: false, row, col },
    }).collect()
}

/// What the tick task owns: the debouncer, the layout engine and the report
/// pipeline, with the key changes that the last scan confirmed.
pub struct Engine {
    debouncer: Debouncer<Vec<Vec<bool>>>,
    layout: LayoutEngine,
    pipeline: HidPipeline,
    events: Ghost<Seq<KeyEvent>>,
}

impl Engine {
    /// The last report that was physically transmitted.
    pub closed spec fn last_sent(&self) -> Seq<u8> {
        self.pipeline@
    }

    /// The debouncer's state.
    pub closed spec fn debounce_state(&self) -> (Seq<Seq<bool>>, Seq<Seq<bool>>, nat) {
        model(self.debouncer)
    }

    /// Agreeing scans the debouncer lets pass before it confirms a change.
    pub closed spec fn settle(&self) -> nat {
        settle_of(self.debouncer)
    }

    /// The debouncer's count stays within its settle count, below
    /// `u16::MAX`, and the layout's layers keep it clear of panics.
    pub closed spec fn wf(&self) -> bool {
        &&& agreeing(self.debouncer) <= settle_of(self.debouncer) < u16::MAX
        &&& self.layout.safe()
    }

    /// Everything handed to the layout engine since this engine was made.
    pub closed spec fn inputs(&self) -> Seq<LayoutInput> {
        self.layout.handed()
    }

    /// The key changes that the last scan confirmed.
    pub closed spec fn scan_events(&self) -> Seq<KeyEvent> {
        self.events@
    }

    /// The keycodes the layout engine resolves now.
    pub closed spec fn codes(&self) -> Seq<u8> {
        self.layout.codes()
    }

    /// An engine over `layout`, at rest on the scan `rest`, that confirms a
    /// key change after more than `settle` agreeing scans. Nothing has been
    /// sent yet.
    ///
    /// keyberon's layout stops with a panic when a hold-tap starts while
    /// another one is undecided (a hold-tap inside a multiple-action cell, or
    /// a hold-tap whose hold or tap action is a hold-tap again), and when the
    /// active layer numbers add up past `usize`. The layers of `layout` must
    /// hold neither of these.
    pub fn new(layout: Layout, rest: Vec<Vec<bool>>, settle: u16) -> (e: Engine)
        requires
            settle < u16::MAX,
            layers_ok(layout),
        ensures
            e.wf(),
            e.debounce_state() == (cells(rest@), cells(rest@), 0nat),
            e.settle() == settle,
            e.last_sent() == seq![0u8; 8],
            e.codes() == layout_codes(layout),
            e.inputs() == Seq::<LayoutInput>::empty(),
            e.scan_events() == Seq::<KeyEvent>::empty(),
    {
        let same = rest.clone();
        assert(cells(same@) =~= cells(rest@));
        Engine {
            debouncer: new_debouncer(rest, same, settle),
            layout: LayoutEngine::new(layout),
            pipeline: HidPipeline::new(),
            events: Ghost(Seq::empty()),
        }
    }

    /// The last report that was physically transmitted.
    pub fn last_report(&self) -> (r: &Vec<u8>)
        ensures
            r@ == self.last_sent(),
    {
        self.pipeline.last_report()
    }

    /// The layout engine, to read its keycodes.
    pub fn layout(&self) -> (l: &Layout)
        ensures
            layout_codes(*l) == self.codes(),
    {
        self.layout.layout()
    }

    /// One scan-debounce-layout cycle, then the send decision. The key
    /// changes that this scan confirms reach the layout engine once each, row
    /// by row, all before one layout tick. Returns the report for the
    /// keycodes the layout then resolves when it differs from the last
    /// transmitted one, and `None` when nothing is to be written.
    pub fn tick(&mut self, grid: Vec<Vec<bool>>) -> (r: Option<Vec<u8>>)
        requires
            old(self).wf(),
            grid_fits(grid@),
        ensures
            final(self).wf(),
            final(self).settle() == old(self).settle(),
            final(self).debounce_state() == debounce_next(
                old(self).debounce_state(),
                old(self).settle(),
                cells(grid@),
            ),
            !fires(old(self).debounce_state(), old(self).settle(), cells(grid@))
                ==> final(self).scan_events().len() == 0,
            fires(old(self).debounce_state(), old(self).settle(), cells(grid@))
                ==> final(self).scan_events() == changes(old(self).debounce_state().0, cells(grid@)),
            final(self).last_sent() == old(self).last_sent(),
            row_major(final(self).scan_events()),
            forall|i: int|
                0 <= i < final(self).scan_events().len() ==> {
                    let e = #[trigger] final(self).scan_events()[i];
                    &&& (e.row as int) < grid@.len()
                    &&& (e.col as int) < grid@[e.row as int]@.len()
                    &&& e.pressed == grid@[e.row as int]@[e.col as int]
                },
            final(self).inputs() == old(self).inputs() + inputs_of(final(self).scan_events()).push(
                LayoutInput::Tick,
            ),
            r.is_some() == writes(old(self).last_sent(), final(self).codes()),
            r matches Some(w) ==> w@ == report_of(final(self).codes()),
    {
        let events = debounce(&mut self.debouncer, grid);
        self.events = Ghost(events@);
        let ghost debounced = self.debouncer;
        let ghost start = self.layout.handed();
        let mut i: usize = 0;
        while i < events.len()
            invariant
                0 <= i <= events@.len(),
                self.pipeline@ == old(self).pipeline@,
                self.events@ == events@,
                self.debouncer == debounced,
                self.layout.safe(),
                start == old(self).layout.handed(),
                self.layout.handed() == start + inputs_of(events@.take(i as int)),
            decreases events@.len() - i,
        {
            let e = events[i];
            if e.pressed {
                self.layout.press(e.row, e.col);
            } else {
                self.layout.release(e.row, e.col);
            }
            proof {
                assert(inputs_of(events@.take(i + 1)) =~= inputs_of(events@.take(i as int)).push(
                    input_of(e),
                ));
                assert(self.layout.handed() =~= start + inputs_of(events@.take(i + 1)));
            }
            i = i + 1;
        }
        self.layout.tick();
        proof {
            assert(events@.take(events@.len() as int) =~= events@);
            assert(self.layout.handed() =~= start + inputs_of(events@).push(LayoutInput::Tick));
        }
        let codes = self.layout.keycodes();
        self.pipeline.send(&codes)
    }

    /// Records a report that was written to the endpoint successfully.
    pub fn sent(&mut self, report: &Vec<u8>)
        ensures
            final(self).last_sent() == report@,
            final(self).wf() == old(self).wf(),
            final(self).debounce_state() == old(self).debounce_state(),
            final(self).settle() == old(self).settle(),
            final(self).inputs() == old(self).inputs(),
            final(self).codes() == old(self).codes(),
    {
        self.pipeline.sent(report);
    }
}

} // verus!
