//! Camera view modes and focus selection.
use vstd::prelude::*;

verus! {

/// How the in-game camera is oriented relative to the followed target.
#[derive(Clone, Copy, Debug, PartialEq, Eq, Structural)]
pub enum CameraViewMode {
    /// Aligned with the body being orbited, keeping it "below" the view.
    Free,
    /// Rotates with the craft's attitude.
    Locked,
    /// Follows the surface-based prograde direction.
    Chase,
    /// Aligned with a fixed cardinal orientation in space.
    Orbital,
    /// Switches between free and orbital depending on the orbit.
    Auto,
}

impl CameraViewMode {
    /// The position of the mode in the cycle Free, Locked, Chase, Orbital, Auto.
    pub open spec fn ordinal(self) -> int {
        match self {
            CameraViewMode::Free => 0,
            CameraViewMode::Locked => 1,
            CameraViewMode::Chase => 2,
            CameraViewMode::Orbital => 3,
            CameraViewMode::Auto => 4,
        }
    }

    /// The mode with the given position in the cycle.
    pub open spec fn from_ordinal(i: int) -> CameraViewMode {
        if i == 0 {
            CameraViewMode::Free
        } else if i == 1 {
            CameraViewMode::Locked
        } else if i == 2 {
            CameraViewMode::Chase
        } else if i == 3 {
            CameraViewMode::Orbital
        } else {
            CameraViewMode::Auto
        }
    }

    /// The next mode in the cycle, wrapping from the last back to the first.
    pub open spec fn following(self) -> CameraViewMode {
        CameraViewMode::from_ordinal((self.ordinal() + 1) % 5)
    }

    /// The next mode in the cycle Free, Locked, Chase, Orbital, Auto, wrapping from the last
    /// back to the first.
    pub fn next(self) -> (r: CameraViewMode)
        ensures
            r == self.following(),
    {
        match self {
            CameraViewMode::Free => CameraViewMode::Locked,
            CameraViewMode::Locked => CameraViewMode::Chase,
            CameraViewMode::Chase => CameraViewMode::Orbital,
            CameraViewMode::Orbital => CameraViewMode::Auto,
            CameraViewMode::Auto => CameraViewMode::Free,
        }
    }
}

/// Stepping through the view modes five times comes back to the starting mode, and no fewer
/// steps do.
pub proof fn lemma_view_mode_cycle(m: CameraViewMode)
    ensures
        m.following().following().following().following().following() == m,
        m.following() != m,
        m.following().following() != m,
        m.following().following().following() != m,
        m.following().following().following().following() != m,
{
}

/// How the in-game camera is rotated while it follows a target.
#[derive(Clone, Copy, Debug, PartialEq, Eq, Structural)]
pub enum CameraOrientation {
    /// No rotation: a fixed cardinal orientation.
    Fixed,
    /// Rotated so that the target's primary is "below" in the view.
    AlignedToPrimary,
    /// Rotated towards the target's own attitude.
    FollowAttitude,
}

/// The orientation the view mode calls for: Free aligns to the primary when the primary is
/// known; Auto does so only when the target is on a suborbital trajectory (periapsis below and
/// apoapsis above the primary's surface), and is fixed otherwise; Locked follows the target's
/// attitude; Orbital and Chase are fixed.
pub open spec fn orientation_for(mode: CameraViewMode, primary_known: bool, suborbital: bool) -> CameraOrientation {
    match mode {
        CameraViewMode::Free => if primary_known {
            CameraOrientation::AlignedToPrimary
        } else {
            CameraOrientation::Fixed
        },
        CameraViewMode::Auto => if primary_known && suborbital {
            CameraOrientation::AlignedToPrimary
        } else {
            CameraOrientation::Fixed
        },
        CameraViewMode::Locked => CameraOrientation::FollowAttitude,
        CameraViewMode::Orbital | CameraViewMode::Chase => CameraOrientation::Fixed,
    }
}

/// Chooses how the camera is rotated in the given view mode. `primary_known` says whether the
/// followed target's primary could be found; `suborbital` whether its orbit dips below the
/// primary's surface while reaching above it.
pub fn camera_orientation(mode: CameraViewMode, primary_known: bool, suborbital: bool) -> (r: CameraOrientation)
    ensures
        r == orientation_for(mode, primary_known, suborbital),
{
    match mode {
        CameraViewMode::Orbital => CameraOrientation::Fixed,
        CameraViewMode::Free => {
            if primary_known {
                CameraOrientation::AlignedToPrimary
            } else {
                CameraOrientation::Fixed
            }
        },
        CameraViewMode::Locked => CameraOrientation::FollowAttitude,
        CameraViewMode::Chase => CameraOrientation::Fixed,
        CameraViewMode::Auto => {
            if primary_known && suborbital {
                CameraOrientation::AlignedToPrimary
            } else {
                CameraOrientation::Fixed
            }
        },
    }
}

/// Auto mode switches between the Free and the Orbital orientation: it is oriented as Free
/// on a suborbital trajectory and as Orbital otherwise.
pub proof fn lemma_auto_switches_free_and_orbital(primary_known: bool, suborbital: bool)
    ensures
        orientation_for(CameraViewMode::Auto, primary_known, suborbital) == if suborbital {
            orientation_for(CameraViewMode::Free, primary_known, suborbital)
        } else {
            orientation_for(CameraViewMode::Orbital, primary_known, suborbital)
        },
{
}

/// The camera actions requested in one frame.
#[derive(Clone, Copy, Debug)]
pub struct FocusActions {
    /// Stop following any entity.
    pub focus_none: bool,
    /// Follow the controlled vessel.
    pub focus_controlled_vessel: bool,
    /// Follow the next focusable entity.
    pub focus_next: bool,
    /// Follow the previous focusable entity.
    pub focus_prev: bool,
}

/// The first vessel, in the given order, that is controlled.
pub open spec fn first_controlled(vessels: Seq<(u64, bool)>) -> Option<u64>
    decreases vessels.len(),
{
    if vessels.len() == 0 {
        None
    } else if vessels[0].1 {
        Some(vessels[0].0)
    } else {
        first_controlled(vessels.drop_first())
    }
}

/// The position of `target` in `targets` (meaningful when it occurs there once).
pub open spec fn position_of(targets: Seq<u64>, target: u64) -> int {
    choose|j: int| 0 <= j < targets.len() && targets[j] == target
}

/// The focus after cycling through `targets` (sorted ascending): forward walks them in
/// descending order and backward in ascending order, wrapping around; with no current focus
/// the first target in walking order is taken; a current focus that is not a target, or an
/// empty list of targets, leaves the focus unchanged.
pub open spec fn cycled_focus(targets: Seq<u64>, forward: bool, current: Option<u64>) -> Option<u64> {
    let n = targets.len() as int;
    if n == 0 {
        current
    } else {
        match current {
            None => Some(
                if forward {
                    targets[n - 1]
                } else {
                    targets[0]
                },
            ),
            Some(c) => if targets.contains(c) {
                let j = position_of(targets, c);
                Some(
                    if forward {
                        if j == 0 {
                            targets[n - 1]
                        } else {
                            targets[j - 1]
                        }
                    } else {
                        if j + 1 == n {
                            targets[0]
                        } else {
                            targets[j + 1]
                        }
                    },
                )
            } else {
                current
            },
        }
    }
}

/// The followed entity after applying the frame's focus actions in order: clearing, then
/// focusing the first controlled vessel if there is one, then cycling (forward when "next"
/// is requested, backward when only "previous" is).
pub open spec fn focus_after(
    target: Option<u64>,
    actions: FocusActions,
    vessels: Seq<(u64, bool)>,
    targets: Seq<u64>,
) -> Option<u64> {
    let cleared = if actions.focus_none {
        None
    } else {
        target
    };
    let controlled = if actions.focus_controlled_vessel && first_controlled(vessels) is Some {
        first_controlled(vessels)
    } else {
        cleared
    };
    if actions.focus_next || actions.focus_prev {
        cycled_focus(targets, actions.focus_next, controlled)
    } else {
        controlled
    }
}

/// The first controlled vessel among `vessels` (entity id and whether it is controlled).
pub fn first_controlled_vessel(vessels: &Vec<(u64, bool)>) -> (r: Option<u64>)
    ensures
        r == first_controlled(vessels@),
{
    let mut i: usize = 0;
    proof {
        assert(vessels@.skip(0) =~= vessels@);
    }
    while i < vessels.len()
        invariant
            i <= vessels.len(),
            first_controlled(vessels@) == first_controlled(vessels@.skip(i as int)),
        decreases vessels.len() - i,
    {
        proof {
            assert(vessels@.skip(i as int).drop_first() =~= vessels@.skip(i + 1));
        }
        if vessels[i].1 {
            return Some(vessels[i].0);
        }
        i += 1;
    }
    proof {
        assert(vessels@.skip(i as int) =~= Seq::<(u64, bool)>::empty());
    }
    None
}

/// Cycles the focus through the focusable entities `targets`, sorted ascending.
pub fn cycle_focus(targets: &Vec<u64>, forward: bool, current: Option<u64>) -> (r: Option<u64>)
    requires
        targets@.no_duplicates(),
    ensures
        r == cycled_focus(targets@, forward, current),
{
    let n = targets.len();
    if n == 0 {
        return current;
    }
    let first = if forward {
        targets[n - 1]
    } else {
        targets[0]
    };
    match current {
        None => Some(first),
        Some(c) => {
            // Walk the targets in the chosen order; `k` counts the steps taken.
            let mut k: usize = 0;
            while k < n
                invariant
                    n == targets.len(),
                    n > 0,
                    k <= n,
                    targets@.no_duplicates(),
                    first == if forward {
                        targets@[n - 1]
                    } else {
                        targets@[0]
                    },
                    current == Some(c),
                    forward ==> forall|t: int| n - k <= t < n ==> #[trigger] targets@[t] != c,
                    !forward ==> forall|t: int| 0 <= t < k ==> #[trigger] targets@[t] != c,
                decreases n - k,
            {
                let j = if forward {
                    n - 1 - k
                } else {
                    k
                };
                if targets[j] == c {
                    proof {
                        assert(targets@.contains(c));
                        assert(0 <= j < targets@.len() && targets@[j as int] == c);
                        let p = position_of(targets@, c);
                        assert(0 <= p < targets@.len() && targets@[p] == c);
                        assert(targets@[p] == targets@[j as int]);
                        assert(p == j as int);
                    }
                    if k + 1 < n {
                        let next = if forward {
                            n - 2 - k
                        } else {
                            k + 1
                        };
                        return Some(targets[next]);
                    } else {
                        return Some(first);
                    }
                }
                k += 1;
            }
            proof {
                assert(!targets@.contains(c));
            }
            current
        },
    }
}

/// The entity the camera follows after the frame's focus actions. `vessels` lists each
/// vessel and whether it is controlled; `targets` lists the focusable entities in ascending
/// order.
pub fn change_focus(
    target: Option<u64>,
    actions: FocusActions,
    vessels: &Vec<(u64, bool)>,
    targets: &Vec<u64>,
) -> (r: Option<u64>)
    requires
        targets@.no_duplicates(),
    ensures
        r == focus_after(target, actions, vessels@, targets@),
{
    let mut focus = target;
    if actions.focus_none {
        focus = None;
    }
    if actions.focus_controlled_vessel {
        if let Some(id) = first_controlled_vessel(vessels) {
            focus = Some(id);
        }
    }
    if actions.focus_next || actions.focus_prev {
        focus = cycle_focus(targets, actions.focus_next, focus);
    }
    focus
}

/// Cycling the focus forward and then backward returns to the focused target, and so does
/// cycling backward and then forward.
pub proof fn lemma_cycle_focus_round_trip(targets: Seq<u64>, current: u64)
    requires
        targets.no_duplicates(),
        targets.contains(current),
    ensures
        cycled_focus(targets, false, cycled_focus(targets, true, Some(current))) == Some(current),
        cycled_focus(targets, true, cycled_focus(targets, false, Some(current))) == Some(current),
{
    let n = targets.len() as int;
    let j = position_of(targets, current);
    assert(0 <= j < n && targets[j] == current);
    // Forward then backward.
    let f = if j == 0 {
        n - 1
    } else {
        j - 1
    };
    assert(targets.contains(targets[f]));
    assert(position_of(targets, targets[f]) == f);
    // Backward then forward.
    let b = if j + 1 == n {
        0
    } else {
        j + 1
    };
    assert(targets.contains(targets[b]));
    assert(position_of(targets, targets[b]) == b);
}

/// The view modes follow one another in the order Free, Locked, Chase, Orbital, Auto, and
/// Auto wraps back to Free.
pub proof fn lemma_view_mode_order(m: CameraViewMode)
    ensures
        m == CameraViewMode::Free ==> m.following() == CameraViewMode::Locked,
        m == CameraViewMode::Locked ==> m.following() == CameraViewMode::Chase,
        m == CameraViewMode::Chase ==> m.following() == CameraViewMode::Orbital,
        m == CameraViewMode::Orbital ==> m.following() == CameraViewMode::Auto,
        m == CameraViewMode::Auto ==> m.following() == CameraViewMode::Free,
{
}

/// What each view mode does with the camera's rotation, whatever the trajectory: Locked always
/// rotates with the target's attitude; Orbital and Chase are always fixed; Free aligns to the
/// primary exactly when it is known; Auto aligns to the primary exactly when it is known and
/// the trajectory is suborbital. Only Locked ever follows the attitude.
pub proof fn lemma_orientation_per_mode(mode: CameraViewMode, primary_known: bool, suborbital: bool)
    ensures
        orientation_for(CameraViewMode::Locked, primary_known, suborbital)
            == CameraOrientation::FollowAttitude,
        orientation_for(CameraViewMode::Orbital, primary_known, suborbital)
            == CameraOrientation::Fixed,
        orientation_for(CameraViewMode::Chase, primary_known, suborbital)
            == CameraOrientation::Fixed,
        (orientation_for(CameraViewMode::Free, primary_known, suborbital)
            == CameraOrientation::AlignedToPrimary) <==> primary_known,
        orientation_for(CameraViewMode::Free, primary_known, suborbital)
            != CameraOrientation::FollowAttitude,
        (orientation_for(CameraViewMode::Auto, primary_known, suborbital)
            == CameraOrientation::AlignedToPrimary) <==> (primary_known && suborbital),
        orientation_for(CameraViewMode::Auto, primary_known, suborbital)
            != CameraOrientation::FollowAttitude,
        (orientation_for(mode, primary_known, suborbital) == CameraOrientation::FollowAttitude)
            <==> mode == CameraViewMode::Locked,
{
}

/// Cycling forward from the target at position `j` of `targets` (ascending, no repeats) goes to
/// the one at `j - 1`, wrapping from the first to the last; cycling backward goes to `j + 1`,
/// wrapping from the last to the first. With no focus, forward starts at the last target and
/// backward at the first; a focus that is not a target, or an empty list, stays as it is.
pub proof fn lemma_cycle_focus_steps(targets: Seq<u64>, j: int, other: u64)
    requires
        targets.no_duplicates(),
        0 <= j < targets.len(),
        !targets.contains(other),
    ensures
        cycled_focus(targets, true, Some(targets[j])) == Some(
            if j > 0 {
                targets[j - 1]
            } else {
                targets[targets.len() - 1]
            },
        ),
        cycled_focus(targets, false, Some(targets[j])) == Some(
            if j + 1 < targets.len() {
                targets[j + 1]
            } else {
                targets[0]
            },
        ),
        cycled_focus(targets, true, None) == Some(targets[targets.len() - 1]),
        cycled_focus(targets, false, None) == Some(targets[0]),
        cycled_focus(targets, true, Some(other)) == Some(other),
        cycled_focus(targets, false, Some(other)) == Some(other),
        cycled_focus(Seq::<u64>::empty(), true, Some(other)) == Some(other),
        cycled_focus(Seq::<u64>::empty(), false, None) == None::<u64>,
{
    assert(targets.contains(targets[j]));
    let p = position_of(targets, targets[j]);
    assert(0 <= p < targets.len() && targets[p] == targets[j]);
    assert(p == j);
}

/// The focus actions of a frame, in terms of the inputs. With no action the focus stays. A
/// lone "clear" drops it. "Focus the controlled vessel" with no cycling makes the first
/// controlled vessel (in the given order) the focus whatever was focused before, and with no
/// controlled vessel it leaves the focus as clearing left it. Cycling starts from the focus
/// those two actions leave.
pub proof fn lemma_focus_actions(
    target: Option<u64>,
    actions: FocusActions,
    vessels: Seq<(u64, bool)>,
    targets: Seq<u64>,
    i: int,
)
    ensures
        !actions.focus_none && !actions.focus_controlled_vessel && !actions.focus_next
            && !actions.focus_prev ==> focus_after(target, actions, vessels, targets) == target,
        actions.focus_none && !actions.focus_controlled_vessel && !actions.focus_next
            && !actions.focus_prev ==> focus_after(target, actions, vessels, targets) == None::<
            u64,
        >,
        ({
            &&& actions.focus_controlled_vessel
            &&& !actions.focus_next
            &&& !actions.focus_prev
            &&& 0 <= i < vessels.len()
            &&& vessels[i].1
            &&& forall|k: int| 0 <= k < i ==> !(#[trigger] vessels[k]).1
        }) ==> focus_after(target, actions, vessels, targets) == Some(vessels[i].0),
        ({
            &&& actions.focus_controlled_vessel
            &&& !actions.focus_next
            &&& !actions.focus_prev
            &&& forall|k: int| 0 <= k < vessels.len() ==> !(#[trigger] vessels[k]).1
        }) ==> focus_after(target, actions, vessels, targets) == if actions.focus_none {
            None
        } else {
            target
        },
        ({
            &&& actions.focus_controlled_vessel
            &&& (actions.focus_next || actions.focus_prev)
            &&& 0 <= i < vessels.len()
            &&& vessels[i].1
            &&& forall|k: int| 0 <= k < i ==> !(#[trigger] vessels[k]).1
        }) ==> focus_after(target, actions, vessels, targets) == cycled_focus(
            targets,
            actions.focus_next,
            Some(vessels[i].0),
        ),
{
    if 0 <= i < vessels.len() && vessels[i].1 && forall|k: int| 0 <= k < i ==> !(#[trigger] vessels[k]).1 {
        lemma_first_controlled_at(vessels, i);
    }
    if forall|k: int| 0 <= k < vessels.len() ==> !(#[trigger] vessels[k]).1 {
        lemma_first_controlled_none(vessels);
    }
}

/// The first controlled vessel is the one at `i` when it is controlled and none before is.
proof fn lemma_first_controlled_at(vessels: Seq<(u64, bool)>, i: int)
    requires
        0 <= i < vessels.len(),
        vessels[i].1,
        forall|k: int| 0 <= k < i ==> !(#[trigger] vessels[k]).1,
    ensures
        first_controlled(vessels) == Some(vessels[i].0),
    decreases i,
{
    if i > 0 {
        let rest = vessels.drop_first();
        assert forall|k: int| 0 <= k < i - 1 implies !(#[trigger] rest[k]).1 by {
            assert(rest[k] == vessels[k + 1]);
        }
        lemma_first_controlled_at(rest, i - 1);
    }
}

/// With no controlled vessel there is no first one.
proof fn lemma_first_controlled_none(vessels: Seq<(u64, bool)>)
    requires
        forall|k: int| 0 <= k < vessels.len() ==> !(#[trigger] vessels[k]).1,
    ensures
        first_controlled(vessels) == None::<u64>,
    decreases vessels.len(),
{
    if vessels.len() > 0 {
        let rest = vessels.drop_first();
        assert forall|k: int| 0 <= k < rest.len() implies !(#[trigger] rest[k]).1 by {
            assert(rest[k] == vessels[k + 1]);
        }
        lemma_first_controlled_none(rest);
    }
}

} // verus!
