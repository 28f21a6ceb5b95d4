use vstd::prelude::*;
use crate::text::str_equal;
use crate::types::IconEntry;

verus! {

/// How many passes a restore makes at most: Explorer may move the icons again while the
/// desktop is still starting, so passes repeat until one finds every icon in place.
pub const RESTORE_ATTEMPTS: usize = 10;

/// The pause between two passes, in milliseconds.
pub const RETRY_DELAY_MS: u64 = 750;

/// How long to wait for the desktop's list view to exist and hold icons, in nanoseconds.
pub const DESKTOP_WAIT_TIMEOUT_NANOS: u128 = 60_000_000_000;

/// The pause between two looks for the desktop, in milliseconds.
pub const DESKTOP_POLL_INTERVAL_MS: u64 = 500;

/// The size, in UTF-16 units, of the buffer that receives an icon's name.
pub const TEXT_BUF_CHARS: usize = 512;

/// Where one icon of the desktop's list view must go.
#[derive(Debug, Clone, Copy, PartialEq, Eq, Structural)]
pub struct MoveTarget {
    /// The icon's index in the list view.
    pub index: usize,
    pub x: i32,
    pub y: i32,
}

/// The index of the last list view item with the given name: when two items share a
/// name, the later one is the one found, as a map filled in index order keeps it.
pub open spec fn last_index_of(names: Seq<Seq<char>>, name: Seq<char>) -> Option<int>
    decreases names.len(),
{
    if names.len() == 0 {
        None
    } else if names.last() == name {
        Some(names.len() - 1)
    } else {
        last_index_of(names.drop_last(), name)
    }
}

/// The moves that a profile asks for: for each saved icon, in order, whose name the
/// desktop shows, the item it names and the saved position.
pub open spec fn targets_spec(icons: Seq<IconEntry>, names: Seq<Seq<char>>) -> Seq<MoveTarget>
    decreases icons.len(),
{
    if icons.len() == 0 {
        seq![]
    } else {
        let rest = targets_spec(icons.drop_last(), names);
        let icon = icons.last();
        match last_index_of(names, icon.name@) {
            Some(i) => rest.push(MoveTarget { index: i as usize, x: icon.x, y: icon.y }),
            None => rest,
        }
    }
}

pub open spec fn name_views(names: Seq<String>) -> Seq<Seq<char>> {
    names.map_values(|s: String| s@)
}

fn find_last(names: &[String], name: &str) -> (r: Option<usize>)
    ensures
        r matches Some(i) ==> last_index_of(name_views(names@), name@) == Some(i as int),
        r is None ==> last_index_of(name_views(names@), name@) is None,
{
    let ghost all = name_views(names@);
    let mut j = names.len();
    assert(all.take(j as int) == all);
    while j > 0
        invariant
            all == name_views(names@),
            j <= all.len(),
            last_index_of(all, name@) == last_index_of(all.take(j as int), name@),
        decreases j,
    {
        let ghost prefix = all.take(j as int);
        assert(prefix.drop_last() == all.take(j - 1));
        assert(prefix.last() == names@[j - 1]@);
        if str_equal(names[j - 1].as_str(), name) {
            return Some(j - 1);
        }
        j = j - 1;
    }
    None
}

/// The moves for the icons of a profile, given the names of the list view items by index.
pub fn resolve_targets(icons: &[IconEntry], names: &[String]) -> (r: Vec<MoveTarget>)
    ensures
        r@ == targets_spec(icons@, name_views(names@)),
{
    let mut r: Vec<MoveTarget> = Vec::new();
    for k in 0..icons.len()
        invariant
            r@ == targets_spec(icons@.take(k as int), name_views(names@)),
    {
        assert(icons@.take(k + 1).drop_last() == icons@.take(k as int));
        assert(icons@.take(k + 1).last() == icons@[k as int]);
        let icon = &icons[k];
        match find_last(names, icon.name.as_str()) {
            Some(i) => r.push(MoveTarget { index: i, x: icon.x, y: icon.y }),
            None => {},
        }
    }
    assert(icons@.take(icons@.len() as int) == icons@);
    r
}

// ---------------------------------------------------------------------------
// The restore passes, as a machine that decides and lets the caller act.

/// Where a restore run stands.
#[derive(Debug, Clone, Copy, PartialEq, Eq, Structural)]
pub enum RestoreStage {
    /// Going through the moves of the current pass.
    Scan,
    /// Waiting for the position of the current move's icon.
    Check,
    /// The pass is over; the list view is being redrawn.
    Close,
    /// The run is over.
    Done,
}

/// What the caller must do next.
#[derive(Debug, Clone, Copy, PartialEq, Eq, Structural)]
pub enum RestoreAction {
    /// Put the item at `index` at (x, y).
    Move { index: usize, x: i32, y: i32 },
    /// Read the position of the item at `index` and hand it to the next step.
    Read { index: usize },
    /// Redraw the list view.
    Refresh,
    /// Wait `RETRY_DELAY_MS` before the next pass.
    Pause,
    /// The run is over: this many icons were moved in the pass that moved most.
    Finish { moved: usize },
}

/// A restore run: the moves, the pass, the move under way, the icons moved in this pass,
/// and the most any pass moved.
pub struct RestoreRun {
    targets: Vec<MoveTarget>,
    attempt: usize,
    cursor: usize,
    divergent: usize,
    moved: usize,
    stage: RestoreStage,
}

/// A restore run as plain values.
pub struct RestoreRunView {
    pub targets: Seq<MoveTarget>,
    pub attempt: nat,
    pub cursor: nat,
    pub divergent: nat,
    pub moved: nat,
    pub stage: RestoreStage,
}

impl View for RestoreRun {
    type V = RestoreRunView;

    closed spec fn view(&self) -> RestoreRunView {
        RestoreRunView {
            targets: self.targets@,
            attempt: self.attempt as nat,
            cursor: self.cursor as nat,
            divergent: self.divergent as nat,
            moved: self.moved as nat,
            stage: self.stage,
        }
    }
}

/// The bounds that every run keeps.
pub open spec fn restore_wf(v: RestoreRunView) -> bool {
    &&& v.attempt < RESTORE_ATTEMPTS
    &&& v.cursor <= v.targets.len()
    &&& v.divergent <= v.cursor
    &&& v.moved <= v.targets.len()
    &&& v.stage == RestoreStage::Check ==> v.cursor < v.targets.len() && v.attempt > 0
}

/// The next move of a pass, or the end of the pass. The first pass moves every icon;
/// a later pass first reads where the icon is.
pub open spec fn scan_spec(v: RestoreRunView) -> (RestoreRunView, RestoreAction) {
    if v.cursor < v.targets.len() {
        let t = v.targets[v.cursor as int];
        if v.attempt == 0 {
            (
                RestoreRunView { cursor: v.cursor + 1, divergent: v.divergent + 1, stage: RestoreStage::Scan, ..v },
                RestoreAction::Move { index: t.index, x: t.x, y: t.y },
            )
        } else {
            (RestoreRunView { stage: RestoreStage::Check, ..v }, RestoreAction::Read { index: t.index })
        }
    } else {
        (RestoreRunView { stage: RestoreStage::Close, ..v }, RestoreAction::Refresh)
    }
}

/// One step of a run. `observed` is the position read for the last `Read`; it matters
/// only then. An icon found at its place is left alone; any other is moved.
pub open spec fn restore_step_spec(v: RestoreRunView, observed: Option<(i32, i32)>) -> (
    RestoreRunView,
    RestoreAction,
) {
    match v.stage {
        RestoreStage::Scan => scan_spec(v),
        RestoreStage::Check => {
            let t = v.targets[v.cursor as int];
            if observed == Some((t.x, t.y)) {
                scan_spec(RestoreRunView { cursor: v.cursor + 1, stage: RestoreStage::Scan, ..v })
            } else {
                (
                    RestoreRunView {
                        cursor: v.cursor + 1,
                        divergent: v.divergent + 1,
                        stage: RestoreStage::Scan,
                        ..v
                    },
                    RestoreAction::Move { index: t.index, x: t.x, y: t.y },
                )
            }
        },
        RestoreStage::Close => {
            let m = if v.divergent > v.moved {
                v.divergent
            } else {
                v.moved
            };
            if v.divergent == 0 || v.attempt + 1 >= RESTORE_ATTEMPTS {
                (
                    RestoreRunView { moved: m, stage: RestoreStage::Done, ..v },
                    RestoreAction::Finish { moved: m as usize },
                )
            } else {
                (
                    RestoreRunView {
                        attempt: v.attempt + 1,
                        cursor: 0,
                        divergent: 0,
                        moved: m,
                        stage: RestoreStage::Scan,
                        ..v
                    },
                    RestoreAction::Pause,
                )
            }
        },
        RestoreStage::Done => (v, RestoreAction::Finish { moved: v.moved as usize }),
    }
}

/// How much of a run is left: it falls with every step until the run is over.
pub open spec fn restore_measure(v: RestoreRunView) -> nat {
    let per_pass = 2 * v.targets.len() + 3;
    let left = (RESTORE_ATTEMPTS - 1 - v.attempt) as nat;
    match v.stage {
        RestoreStage::Scan => left * per_pass + 2 * (v.targets.len() - v.cursor) as nat + 2,
        RestoreStage::Check => left * per_pass + 2 * (v.targets.len() - v.cursor) as nat + 1,
        RestoreStage::Close => left * per_pass + 1,
        RestoreStage::Done => 0,
    }
}

impl RestoreRun {
    /// Every run keeps the bounds of `restore_wf`.
    #[verifier::type_invariant]
    spec fn well_formed(&self) -> bool {
        restore_wf(self@)
    }

    /// A run that starts with the first pass.
    pub fn new(targets: Vec<MoveTarget>) -> (r: RestoreRun)
        ensures
            r@.targets == targets@,
            r@.attempt == 0,
            r@.cursor == 0,
            r@.divergent == 0,
            r@.moved == 0,
            r@.stage == RestoreStage::Scan,
            restore_wf(r@),
    {
        RestoreRun { targets, attempt: 0, cursor: 0, divergent: 0, moved: 0, stage: RestoreStage::Scan }
    }

    /// Whether the run waits for the position of an icon.
    pub fn awaiting_position(&self) -> (r: bool)
        ensures
            r == (self@.stage == RestoreStage::Check),
    {
        self.stage == RestoreStage::Check
    }

    fn scan(&mut self) -> (a: RestoreAction)
        ensures
            (final(self)@, a) == scan_spec(old(self)@),
            restore_wf(final(self)@),
    {
        proof {
            use_type_invariant(&*self);
        }
        if self.cursor < self.targets.len() {
            let t = self.targets[self.cursor];
            if self.attempt == 0 {
                self.stage = RestoreStage::Scan;
                self.cursor = self.cursor + 1;
                self.divergent = self.divergent + 1;
                RestoreAction::Move { index: t.index, x: t.x, y: t.y }
            } else {
                self.stage = RestoreStage::Check;
                RestoreAction::Read { index: t.index }
            }
        } else {
            self.stage = RestoreStage::Close;
            RestoreAction::Refresh
        }
    }

    /// Takes one step: says what to do next and moves the run on.
    pub fn step(&mut self, observed: Option<(i32, i32)>) -> (a: RestoreAction)
        ensures
            (final(self)@, a) == restore_step_spec(old(self)@, observed),
            restore_wf(final(self)@),
    {
        proof {
            use_type_invariant(&*self);
        }
        match self.stage {
            RestoreStage::Scan => self.scan(),
            RestoreStage::Check => {
                assert(self.cursor < self.targets.len());
                let t = self.targets[self.cursor];
                let in_place = match observed {
                    Some((x, y)) => x == t.x && y == t.y,
                    None => false,
                };
                if in_place {
                    self.stage = RestoreStage::Scan;
                    self.cursor = self.cursor + 1;
                    self.scan()
                } else {
                    self.stage = RestoreStage::Scan;
                    self.cursor = self.cursor + 1;
                    self.divergent = self.divergent + 1;
                    RestoreAction::Move { index: t.index, x: t.x, y: t.y }
                }
            },
            RestoreStage::Close => {
                if self.divergent > self.moved {
                    self.moved = self.divergent;
                }
                if self.divergent == 0 || self.attempt + 1 >= RESTORE_ATTEMPTS {
                    self.stage = RestoreStage::Done;
                    RestoreAction::Finish { moved: self.moved }
                } else {
                    self.attempt = self.attempt + 1;
                    self.divergent = 0;
                    self.cursor = 0;
                    self.stage = RestoreStage::Scan;
                    RestoreAction::Pause
                }
            },
            RestoreStage::Done => RestoreAction::Finish { moved: self.moved },
        }
    }
}

/// Every step of a run that is not over brings it nearer its end, so a restore always
/// ends, after at most `RESTORE_ATTEMPTS` passes.
pub proof fn lemma_restore_progress(v: RestoreRunView, observed: Option<(i32, i32)>)
    requires
        restore_wf(v),
        v.stage != RestoreStage::Done,
    ensures
        restore_measure(restore_step_spec(v, observed).0) < restore_measure(v),
{
    let per_pass = 2 * v.targets.len() + 3;
    let left = (RESTORE_ATTEMPTS - 1 - v.attempt) as nat;
    if v.stage == RestoreStage::Close && !(v.divergent == 0 || v.attempt + 1 >= RESTORE_ATTEMPTS) {
        let next_left = (RESTORE_ATTEMPTS - 1 - (v.attempt + 1)) as nat;
        assert(left == next_left + 1);
        assert(left * per_pass == next_left * per_pass + per_pass) by (nonlinear_arith)
            requires
                left == next_left + 1,
        ;
    }
}

/// A run starts with at most `RESTORE_ATTEMPTS * (2 * moves + 3)` steps before it.
pub proof fn lemma_restore_bound(targets: Seq<MoveTarget>)
    ensures
        restore_measure(
            RestoreRunView {
                targets,
                attempt: 0,
                cursor: 0,
                divergent: 0,
                moved: 0,
                stage: RestoreStage::Scan,
            },
        ) < RESTORE_ATTEMPTS * (2 * targets.len() + 3),
{
    let per_pass = 2 * targets.len() + 3;
    assert(9 * per_pass + 2 * targets.len() + 2 < 10 * per_pass) by (nonlinear_arith)
        requires
            per_pass == 2 * targets.len() + 3,
    ;
}

// ---------------------------------------------------------------------------
// What a restore run does, step by step.

/// A list view item's name found by `last_index_of` is the last item with that name; no
/// index is found only when no item has the name.
pub proof fn lemma_last_index_of(names: Seq<Seq<char>>, name: Seq<char>)
    ensures
        last_index_of(names, name) matches Some(i) ==> 0 <= i < names.len() && names[i] == name
            && forall|j: int| i < j < names.len() ==> names[j] != name,
        last_index_of(names, name) is None <==> forall|j: int|
            0 <= j < names.len() ==> names[j] != name,
    decreases names.len(),
{
    if names.len() > 0 {
        let rest = names.drop_last();
        lemma_last_index_of(rest, name);
        if names.last() != name {
            assert forall|j: int| 0 <= j < names.len() && names[j] == name implies exists|k: int|
                0 <= k < rest.len() && rest[k] == name by {
                assert(j < names.len() - 1);
                assert(rest[j] == name);
            }
            if last_index_of(rest, name) is None {
                assert forall|j: int| 0 <= j < names.len() implies names[j] != name by {
                    if j < names.len() - 1 {
                        assert(rest[j] == names[j]);
                    }
                }
            } else {
                let i = last_index_of(rest, name)->0;
                assert(rest[i] == names[i]);
                assert forall|j: int| i < j < names.len() implies names[j] != name by {
                    if j < names.len() - 1 {
                        assert(rest[j] == names[j]);
                    }
                }
                assert(!(forall|j: int| 0 <= j < names.len() ==> names[j] != name)) by {
                    assert(names[i] == name);
                }
            }
        } else {
            assert(!(forall|j: int| 0 <= j < names.len() ==> names[j] != name)) by {
                assert(names[names.len() - 1] == name);
            }
        }
    }
}

/// One saved icon gives a move exactly when some list view item has its name; the move
/// goes to the last such item and to the saved position.
pub proof fn lemma_single_icon_target(icon: IconEntry, names: Seq<Seq<char>>)
    requires
        names.len() <= usize::MAX,
    ensures
        targets_spec(seq![icon], names).len() <= 1,
        targets_spec(seq![icon], names).len() == 1 <==> exists|i: int|
            0 <= i < names.len() && names[i] == icon.name@,
        targets_spec(seq![icon], names).len() == 1 ==> ({
            let t = targets_spec(seq![icon], names)[0];
            &&& 0 <= t.index < names.len()
            &&& names[t.index as int] == icon.name@
            &&& forall|j: int| t.index < j < names.len() ==> names[j] != icon.name@
            &&& t.x == icon.x
            &&& t.y == icon.y
        }),
{
    lemma_last_index_of(names, icon.name@);
    let icons = seq![icon];
    assert(icons.drop_last() == Seq::<IconEntry>::empty());
    assert(icons.last() == icon);
    assert(targets_spec(icons.drop_last(), names) == Seq::<MoveTarget>::empty());
    if last_index_of(names, icon.name@) is None {
        assert(!exists|i: int| 0 <= i < names.len() && names[i] == icon.name@);
    } else {
        let i = last_index_of(names, icon.name@)->0;
        assert((i as usize) as int == i);
    }
}

/// The moves of a profile keep the order of its icons: the moves of the icons and one
/// more are the moves of the icons, then the move of the last one.
pub proof fn lemma_targets_in_order(icons: Seq<IconEntry>, icon: IconEntry, names: Seq<Seq<char>>)
    ensures
        targets_spec(icons.push(icon), names) == targets_spec(icons, names) + targets_spec(
            seq![icon],
            names,
        ),
{
    let one = seq![icon];
    assert(icons.push(icon).drop_last() == icons);
    assert(one.drop_last() == Seq::<IconEntry>::empty());
    assert(targets_spec(one.drop_last(), names) == Seq::<MoveTarget>::empty());
    assert(targets_spec(icons, names) + Seq::<MoveTarget>::empty() == targets_spec(icons, names));
}

/// In a later pass, the icon whose position was read is moved exactly when it is out of
/// place in either coordinate; an icon found at its saved (x, y) is left alone, and the
/// step goes on at once as the pass does with the next icon.
pub proof fn lemma_check_moves_displaced(v: RestoreRunView, ox: i32, oy: i32)
    requires
        restore_wf(v),
        v.stage == RestoreStage::Check,
    ensures
        (ox != v.targets[v.cursor as int].x || oy != v.targets[v.cursor as int].y)
            <==> restore_step_spec(v, Some((ox, oy))).1 == (RestoreAction::Move {
            index: v.targets[v.cursor as int].index,
            x: v.targets[v.cursor as int].x,
            y: v.targets[v.cursor as int].y,
        }),
        (ox != v.targets[v.cursor as int].x || oy != v.targets[v.cursor as int].y)
            <==> restore_step_spec(v, Some((ox, oy))).1 is Move,
        (ox != v.targets[v.cursor as int].x || oy != v.targets[v.cursor as int].y)
            ==> restore_step_spec(v, Some((ox, oy))).0.divergent == v.divergent + 1,
        (ox == v.targets[v.cursor as int].x && oy == v.targets[v.cursor as int].y)
            ==> restore_step_spec(v, Some((ox, oy))).0.divergent == v.divergent,
        restore_step_spec(v, Some((ox, oy))).0.cursor == v.cursor + 1,
        (ox == v.targets[v.cursor as int].x && oy == v.targets[v.cursor as int].y)
            ==> restore_step_spec(v, Some((ox, oy))) == restore_step_spec(
            RestoreRunView { cursor: v.cursor + 1, stage: RestoreStage::Scan, ..v },
            None,
        ),
{
    let t = v.targets[v.cursor as int];
    let after = RestoreRunView { cursor: v.cursor + 1, stage: RestoreStage::Scan, ..v };
    if ox == t.x && oy == t.y {
        assert(Some((ox, oy)) == Some((t.x, t.y)));
        assert(restore_step_spec(v, Some((ox, oy))) == scan_spec(after));
    } else {
        assert(Some((ox, oy)) != Some((t.x, t.y)));
    }
}

/// A position that could not be read counts as out of place.
pub proof fn lemma_check_unread_moves(v: RestoreRunView)
    requires
        restore_wf(v),
        v.stage == RestoreStage::Check,
    ensures
        ({
            let t = v.targets[v.cursor as int];
            restore_step_spec(v, None).1 == RestoreAction::Move { index: t.index, x: t.x, y: t.y }
        }),
{
}

/// The first pass moves every icon, in order, without reading any position; a later pass
/// reads the position of each icon first.
pub proof fn lemma_pass_visits_each_target(v: RestoreRunView, observed: Option<(i32, i32)>)
    requires
        restore_wf(v),
        v.stage == RestoreStage::Scan,
        v.cursor < v.targets.len(),
    ensures
        v.attempt == 0 ==> restore_step_spec(v, observed).1 == (RestoreAction::Move {
            index: v.targets[v.cursor as int].index,
            x: v.targets[v.cursor as int].x,
            y: v.targets[v.cursor as int].y,
        }),
        v.attempt == 0 ==> restore_step_spec(v, observed).0.cursor == v.cursor + 1,
        v.attempt == 0 ==> restore_step_spec(v, observed).0.divergent == v.divergent + 1,
        v.attempt > 0 ==> restore_step_spec(v, observed).1 == (RestoreAction::Read {
            index: v.targets[v.cursor as int].index,
        }),
        v.attempt > 0 ==> restore_step_spec(v, observed).0.cursor == v.cursor,
{
}

/// The larger of two counts.
pub open spec fn most(a: nat, b: nat) -> nat {
    if a > b {
        a
    } else {
        b
    }
}

/// At the end of a pass the list view is redrawn; the run ends after a pass that moved
/// nothing or after the last pass, reporting the most icons any pass moved; otherwise it
/// pauses and starts the next pass from the first icon. A run that is over stays over
/// and reports the same count again.
pub proof fn lemma_pass_end(v: RestoreRunView, observed: Option<(i32, i32)>)
    requires
        restore_wf(v),
    ensures
        v.stage == RestoreStage::Scan && v.cursor == v.targets.len() ==> restore_step_spec(
            v,
            observed,
        ).1 == RestoreAction::Refresh,
        v.stage == RestoreStage::Close && (v.divergent == 0 || v.attempt == RESTORE_ATTEMPTS - 1)
            ==> restore_step_spec(v, observed).1 == (RestoreAction::Finish {
            moved: most(v.divergent, v.moved) as usize,
        }),
        v.stage == RestoreStage::Close && (v.divergent == 0 || v.attempt == RESTORE_ATTEMPTS - 1)
            ==> restore_step_spec(v, observed).0.stage == RestoreStage::Done,
        v.stage == RestoreStage::Close && !(v.divergent == 0 || v.attempt == RESTORE_ATTEMPTS - 1)
            ==> restore_step_spec(v, observed).1 == RestoreAction::Pause,
        v.stage == RestoreStage::Close && !(v.divergent == 0 || v.attempt == RESTORE_ATTEMPTS - 1)
            ==> ({
            let next = restore_step_spec(v, observed).0;
            next.attempt == v.attempt + 1 && next.cursor == 0 && next.divergent == 0 && next.moved
                == most(v.divergent, v.moved) && next.stage == RestoreStage::Scan
        }),
        v.stage == RestoreStage::Done ==> restore_step_spec(v, observed) == (
            v,
            RestoreAction::Finish { moved: v.moved as usize },
        ),
{
}

// ---------------------------------------------------------------------------
// Waiting for the desktop at logon.

/// What to do while waiting for the desktop.
#[derive(Debug, Clone, Copy, PartialEq, Eq, Structural)]
pub enum DesktopWait {
    /// The desktop's list view exists and holds icons.
    Ready,
    /// The wait is over: look for the list view once more and take what that gives.
    GiveUp,
    /// Wait `DESKTOP_POLL_INTERVAL_MS` and look again.
    Poll,
}

/// The decision after one look for the desktop.
pub fn desktop_wait_step(has_icons: bool, elapsed_nanos: u128) -> (r: DesktopWait)
    ensures
        r == (if has_icons {
            DesktopWait::Ready
        } else if elapsed_nanos >= DESKTOP_WAIT_TIMEOUT_NANOS {
            DesktopWait::GiveUp
        } else {
            DesktopWait::Poll
        }),
{
    if has_icons {
        DesktopWait::Ready
    } else if elapsed_nanos >= DESKTOP_WAIT_TIMEOUT_NANOS {
        DesktopWait::GiveUp
    } else {
        DesktopWait::Poll
    }
}

} // verus!
