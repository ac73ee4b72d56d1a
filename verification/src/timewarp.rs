//! Time warp: the discrete speed-up factors of the simulation clock, the currently selected
//! factor, and the ceiling imposed on it by the state of the vessels.
use vstd::prelude::*;

verus! {

/// Number of selectable warp factors.
pub const TIME_WARP_COUNT: usize = 13;

/// The selectable warp factors, in increasing order.
pub const TIME_WARPS: [u32; 13] = [
    1,
    2,
    4,
    10,
    50,
    100,
    1_000,
    10_000,
    100_000,
    1_000_000,
    10_000_000,
    100_000_000,
    1_000_000_000,
];

/// The largest warp factor.
pub const TIME_WARP_MAX: u32 = 1_000_000_000;

/// The warp limit while a vessel's engine is burning.
pub const BURN_WARP_LIMIT: u32 = 50;

/// The warp limits per atmosphere band, from the band that reaches infinitely high down to the
/// band closest to the ground.
pub const ATMOSPHERE_WARP_LIMITS: [u32; 5] = [1_000_000_000, 10_000, 1_000, 100, 50];

/// The selectable warp factors as a sequence.
pub open spec fn warp_factors() -> Seq<u32> {
    seq![
        1u32,
        2,
        4,
        10,
        50,
        100,
        1_000,
        10_000,
        100_000,
        1_000_000,
        10_000_000,
        100_000_000,
        1_000_000_000,
    ]
}

/// The warp limits per atmosphere band as a sequence.
pub open spec fn atmosphere_warp_limits() -> Seq<u32> {
    seq![1_000_000_000u32, 10_000, 1_000, 100, 50]
}

/// The table of warp factors is what `warp_factors` says and is sorted.
pub proof fn lemma_warp_table()
    ensures
        TIME_WARPS@ == warp_factors(),
        ATMOSPHERE_WARP_LIMITS@ == atmosphere_warp_limits(),
        warp_factors().len() == TIME_WARP_COUNT,
        forall|i: int, j: int|
            0 <= i < j < TIME_WARP_COUNT ==> #[trigger] warp_factors()[i] < #[trigger] warp_factors()[j],
{
    assert(TIME_WARPS@ =~= warp_factors());
    assert(ATMOSPHERE_WARP_LIMITS@ =~= atmosphere_warp_limits());
}

/// The number of warp factors strictly below `limit`, among the first `n`.
pub open spec fn warps_below_among(limit: u32, n: nat) -> nat
    decreases n,
{
    if n == 0 {
        0
    } else {
        warps_below_among(limit, (n - 1) as nat) + if warp_factors()[n - 1] < limit {
            1nat
        } else {
            0nat
        }
    }
}

/// The number of warp factors strictly below `limit`.
pub open spec fn warps_below(limit: u32) -> nat {
    warps_below_among(limit, TIME_WARP_COUNT as nat)
}

/// The highest selectable index under the ceiling `limit`: the number of warp factors below
/// `limit`, or `TIME_WARP_COUNT` when none is.
pub open spec fn allowed_index_for(limit: u32) -> nat {
    if warps_below(limit) == 0 {
        TIME_WARP_COUNT as nat
    } else {
        warps_below(limit)
    }
}

/// Message of the error returned when the warp is already at its lowest factor.
pub open spec fn below_minimum_message() -> Seq<char> {
    "Cannot decrease Time Warp below 1x"@
}

/// The error returned when a warp index cannot be selected; it carries the reason.
#[derive(Debug)]
pub struct OutOfRange(pub String);

/// The abstract state of a [`TimeWarp`].
pub struct TimeWarpView {
    pub value: u32,
    pub index: nat,
    pub max_allowed_index: nat,
    pub reason: Seq<char>,
}

/// The outcome of a warp change: the new index, or the reason for the refusal.
pub open spec fn outcome(r: Result<usize, OutOfRange>) -> Result<nat, Seq<char>> {
    match r {
        Ok(i) => Ok(i as nat),
        Err(e) => Err(e.0@),
    }
}

impl TimeWarpView {
    /// The index is a selectable one within the ceiling, and the value is its factor.
    pub open spec fn wf(self) -> bool {
        &&& self.index < TIME_WARP_COUNT
        &&& self.max_allowed_index <= TIME_WARP_COUNT
        &&& self.index <= self.max_allowed_index
        &&& self.value == warp_factors()[self.index as int]
    }

    /// The state after selecting `index`, and the outcome of the selection.
    pub open spec fn after_set_warp_index(self, index: nat) -> (TimeWarpView, Result<
        nat,
        Seq<char>,
    >) {
        if index > self.max_allowed_index {
            (self, Err(self.reason))
        } else {
            (TimeWarpView { value: warp_factors()[index as int], index, ..self }, Ok(index))
        }
    }

    /// The state after stepping the warp up once, and the outcome.
    pub open spec fn after_increase(self) -> (TimeWarpView, Result<nat, Seq<char>>) {
        self.after_set_warp_index(self.index + 1)
    }

    /// The state after stepping the warp down once, and the outcome.
    pub open spec fn after_decrease(self) -> (TimeWarpView, Result<nat, Seq<char>>) {
        if self.index == 0 {
            (self, Err(below_minimum_message()))
        } else {
            self.after_set_warp_index((self.index - 1) as nat)
        }
    }

    /// The state after imposing the ceiling `limit` for the given reason.
    pub open spec fn after_set_max_allowed_warp(self, limit: u32, reason: Seq<char>) -> TimeWarpView {
        let max_allowed_index = allowed_index_for(limit);
        let index = if self.index > max_allowed_index {
            max_allowed_index
        } else {
            self.index
        };
        TimeWarpView {
            value: warp_factors()[index as int],
            index,
            max_allowed_index,
            reason,
        }
    }

    /// Whether selecting `index` from this state stays within the table: either the index is
    /// in the table or it is refused for being above the ceiling.
    pub open spec fn can_select(self, index: int) -> bool {
        index < TIME_WARP_COUNT || index > self.max_allowed_index
    }
}

/// The current warp factor of the simulation clock and the ceiling that applies to it.
#[derive(Debug)]
pub struct TimeWarp {
    /// The selected warp factor.
    pub value: u32,
    /// The index of the selected factor in [`TIME_WARPS`].
    pub index: usize,
    /// The highest index that may currently be selected.
    pub max_allowed_index: usize,
    /// Why the ceiling is where it is.
    pub max_allowed_reason: String,
}

impl View for TimeWarp {
    type V = TimeWarpView;

    open spec fn view(&self) -> TimeWarpView {
        TimeWarpView {
            value: self.value,
            index: self.index as nat,
            max_allowed_index: self.max_allowed_index as nat,
            reason: self.max_allowed_reason@,
        }
    }
}

impl TimeWarp {
    /// Selects the warp factor at `index`, unless it is above the ceiling, in which case the
    /// state is unchanged and the error carries the reason for the ceiling.
    pub fn set_warp_index(&mut self, index: usize) -> (r: Result<usize, OutOfRange>)
        requires
            old(self)@.can_select(index as int),
        ensures
            (final(self)@, outcome(r)) == old(self)@.after_set_warp_index(index as nat),
            old(self)@.wf() ==> final(self)@.wf(),
    {
        if index > self.max_allowed_index {
            return Err(OutOfRange(self.max_allowed_reason.clone()));
        }
        proof {
            lemma_warp_table();
        }
        self.index = index;
        self.value = TIME_WARPS[self.index];
        Ok(self.index)
    }

    /// Steps the warp factor up once.
    pub fn increase_warp(&mut self) -> (r: Result<usize, OutOfRange>)
        requires
            old(self).index < usize::MAX,
            old(self)@.can_select(old(self).index + 1),
        ensures
            (final(self)@, outcome(r)) == old(self)@.after_increase(),
            old(self)@.wf() ==> final(self)@.wf(),
    {
        self.set_warp_index(self.index + 1)
    }

    /// Steps the warp factor down once; at the lowest factor the state is unchanged and an
    /// error is returned.
    pub fn decrease_warp(&mut self) -> (r: Result<usize, OutOfRange>)
        requires
            old(self).index == 0 || old(self)@.can_select(old(self).index - 1),
        ensures
            (final(self)@, outcome(r)) == old(self)@.after_decrease(),
            old(self)@.wf() ==> final(self)@.wf(),
    {
        if self.index == 0 {
            return Err(OutOfRange(String::from_str("Cannot decrease Time Warp below 1x")));
        }
        self.set_warp_index(self.index - 1)
    }

    /// Imposes the ceiling `max_allowed_warp` for the given reason: the highest selectable
    /// index becomes the number of factors below the ceiling (or the table length when none
    /// is), and the selected index is lowered to it when above it.
    pub fn set_max_allowed_warp(&mut self, max_allowed_warp: u32, reason: String)
        requires
            old(self).index < TIME_WARP_COUNT || allowed_index_for(max_allowed_warp)
                < TIME_WARP_COUNT,
        ensures
            final(self)@ == old(self)@.after_set_max_allowed_warp(max_allowed_warp, reason@),
            old(self)@.wf() ==> final(self)@.wf(),
    {
        proof {
            lemma_warp_table();
        }
        // Position, counted from the top of the table, of the first factor below the ceiling.
        let mut position: Option<usize> = None;
        let mut j: usize = 0;
        while j < TIME_WARP_COUNT
            invariant_except_break
                position is None,
            invariant
                j <= TIME_WARP_COUNT,
                TIME_WARPS@ == warp_factors(),
                forall|t: int| 13 - j <= t < 13 ==> #[trigger] warp_factors()[t] >= max_allowed_warp,
            ensures
                match position {
                    None => forall|t: int| 0 <= t < 13 ==> warp_factors()[t] >= max_allowed_warp,
                    Some(p) => {
                        &&& p < 13
                        &&& warp_factors()[12 - p] < max_allowed_warp
                        &&& forall|t: int| 12 - p < t < 13 ==> #[trigger] warp_factors()[t] >= max_allowed_warp
                    },
                },
            decreases TIME_WARP_COUNT - j,
        {
            if TIME_WARPS[TIME_WARP_COUNT - 1 - j] < max_allowed_warp {
                position = Some(j);
                break;
            }
            j += 1;
        }
        let from_top: usize = match position {
            Some(p) => p,
            None => 0,
        };
        proof {
            match position {
                None => {
                    lemma_warps_below_none(max_allowed_warp, 13);
                },
                Some(p) => {
                    lemma_warps_below_split(max_allowed_warp, (12 - p) as nat, 13);
                },
            }
        }
        self.max_allowed_index = TIME_WARP_COUNT - from_top;
        self.max_allowed_reason = reason;
        if self.index > self.max_allowed_index {
            self.index = self.max_allowed_index;
        }
        self.value = TIME_WARPS[self.index];
    }
}

impl Default for TimeWarp {
    fn default() -> (r: Self)
        ensures
            r@ == (TimeWarpView { value: 1, index: 0, max_allowed_index: 0, reason: Seq::empty() }),
            r@.wf(),
    {
        TimeWarp { value: 1, index: 0, max_allowed_index: 0, max_allowed_reason: String::new() }
    }
}

/// The most restrictive of the warp limits in `candidates`, folded from the left starting at
/// `(TIME_WARP_MAX, "")`; on a tie the later candidate wins.
pub open spec fn restrictive_fold(candidates: Seq<(u32, Seq<char>)>) -> (u32, Seq<char>)
    decreases candidates.len(),
{
    if candidates.len() == 0 {
        (TIME_WARP_MAX, Seq::empty())
    } else {
        let acc = restrictive_fold(candidates.drop_last());
        let last = candidates.last();
        if acc.0 < last.0 {
            acc
        } else {
            last
        }
    }
}

/// The candidates with their reasons taken by view.
pub open spec fn limits_view(candidates: Seq<(u32, String)>) -> Seq<(u32, Seq<char>)> {
    candidates.map_values(|c: (u32, String)| (c.0, c.1@))
}

/// The fold never exceeds the starting limit nor any candidate, and it is either the starting
/// pair or one of the candidates.
pub proof fn lemma_restrictive_fold(candidates: Seq<(u32, Seq<char>)>)
    ensures
        restrictive_fold(candidates).0 <= TIME_WARP_MAX,
        forall|i: int|
            0 <= i < candidates.len() ==> restrictive_fold(candidates).0 <= #[trigger] candidates[i].0,
        restrictive_fold(candidates) == (TIME_WARP_MAX, Seq::<char>::empty()) || exists|i: int|
            0 <= i < candidates.len() && restrictive_fold(candidates) == #[trigger] candidates[i],
    decreases candidates.len(),
{
    if candidates.len() > 0 {
        let init = candidates.drop_last();
        lemma_restrictive_fold(init);
        assert forall|i: int|
            0 <= i < candidates.len() implies restrictive_fold(candidates).0
            <= #[trigger] candidates[i].0 by {
            if i < candidates.len() - 1 {
                assert(candidates[i] == init[i]);
            }
        }
        if restrictive_fold(candidates) != (TIME_WARP_MAX, Seq::<char>::empty()) {
            if restrictive_fold(candidates) == candidates.last() {
                assert(restrictive_fold(candidates) == candidates[candidates.len() - 1]);
            } else {
                let i = choose|i: int|
                    0 <= i < init.len() && restrictive_fold(init) == #[trigger] init[i];
                assert(restrictive_fold(candidates) == candidates[i]);
            }
        }
    }
}

/// The most restrictive warp limit among the candidates and its reason, starting from
/// `(TIME_WARP_MAX, "")`; on a tie the later candidate wins.
pub fn most_restrictive_limit(candidates: &Vec<(u32, String)>) -> (r: (u32, String))
    ensures
        (r.0, r.1@) == restrictive_fold(limits_view(candidates@)),
        r.0 <= TIME_WARP_MAX,
        forall|i: int| 0 <= i < candidates.len() ==> r.0 <= #[trigger] candidates@[i].0,
        (r.0 == TIME_WARP_MAX && r.1@ == Seq::<char>::empty()) || exists|i: int|
            0 <= i < candidates.len() && r.0 == candidates@[i].0 && r.1@
                == #[trigger] candidates@[i].1@,
{
    let ghost view = limits_view(candidates@);
    let mut limit: u32 = TIME_WARP_MAX;
    let mut reason = String::new();
    let mut i: usize = 0;
    while i < candidates.len()
        invariant
            i <= candidates.len(),
            view == limits_view(candidates@),
            (limit, reason@) == restrictive_fold(view.take(i as int)),
        decreases candidates.len() - i,
    {
        proof {
            assert(view.take(i + 1).drop_last() =~= view.take(i as int));
        }
        if !(limit < candidates[i].0) {
            limit = candidates[i].0;
            reason = candidates[i].1.clone();
        }
        i += 1;
    }
    proof {
        assert(view.take(candidates.len() as int) =~= view);
        lemma_restrictive_fold(view);
        assert forall|i: int| 0 <= i < candidates.len() implies limit <= #[trigger] candidates@[i].0 by {
            assert(view[i].0 == candidates@[i].0);
        }
        if !(limit == TIME_WARP_MAX && reason@ == Seq::<char>::empty()) {
            let k = choose|k: int| 0 <= k < view.len() && restrictive_fold(view) == #[trigger] view[k];
            assert(limit == candidates@[k].0 && reason@ == candidates@[k].1@);
        }
    }
    (limit, reason)
}

/// The atmosphere band a vessel is in, given for each band boundary (from the highest, which
/// lies infinitely high, down) whether the vessel is below it: the last boundary of the leading
/// run of boundaries the vessel is below, or `None` when it is not below the first.
pub fn atmosphere_band(below_boundary: &Vec<bool>) -> (r: Option<usize>)
    ensures
        match r {
            None => below_boundary.len() == 0 || !below_boundary@[0],
            Some(b) => {
                &&& b < below_boundary.len()
                &&& forall|i: int| 0 <= i <= b ==> #[trigger] below_boundary@[i]
                &&& (b + 1 == below_boundary.len() || !below_boundary@[b + 1])
            },
        },
{
    let mut band: Option<usize> = None;
    let mut i: usize = 0;
    while i < below_boundary.len()
        invariant_except_break
            i <= below_boundary.len(),
            forall|k: int| 0 <= k < i ==> #[trigger] below_boundary@[k],
            i == 0 ==> band is None,
            i > 0 ==> band == Some((i - 1) as usize),
        ensures
            match band {
                None => below_boundary.len() == 0 || !below_boundary@[0],
                Some(b) => {
                    &&& b < below_boundary.len()
                    &&& forall|k: int| 0 <= k <= b ==> #[trigger] below_boundary@[k]
                    &&& (b + 1 == below_boundary.len() || !below_boundary@[b + 1])
                },
            },
        decreases below_boundary.len() - i,
    {
        if !below_boundary[i] {
            break;
        }
        band = Some(i);
        i += 1;
    }
    band
}

/// What limits the time warp on account of one vessel.
#[derive(Clone, Copy, Debug, PartialEq, Eq, Structural)]
pub enum WarpConstraint {
    /// The vessel's engine is burning.
    EngineBurn,
    /// The vessel is in the given atmosphere band of its primary (see [`atmosphere_band`]).
    AtmosphereBand(usize),
    /// Nothing about the vessel limits the warp.
    Unconstrained,
}

/// The warp limit that a constraint imposes.
pub open spec fn constraint_limit(constraint: WarpConstraint) -> u32 {
    match constraint {
        WarpConstraint::EngineBurn => BURN_WARP_LIMIT,
        WarpConstraint::AtmosphereBand(band) => atmosphere_warp_limits()[band as int],
        WarpConstraint::Unconstrained => TIME_WARP_MAX,
    }
}

/// The warp limit that a constraint imposes: [`BURN_WARP_LIMIT`] during a burn, the band's
/// entry of [`ATMOSPHERE_WARP_LIMITS`] inside an atmosphere, [`TIME_WARP_MAX`] otherwise.
pub fn warp_limit(constraint: WarpConstraint) -> (r: u32)
    requires
        constraint matches WarpConstraint::AtmosphereBand(band) ==> band < 5,
    ensures
        r == constraint_limit(constraint),
{
    proof {
        lemma_warp_table();
    }
    match constraint {
        WarpConstraint::EngineBurn => BURN_WARP_LIMIT,
        WarpConstraint::AtmosphereBand(band) => ATMOSPHERE_WARP_LIMITS[band],
        WarpConstraint::Unconstrained => TIME_WARP_MAX,
    }
}

/// Every limit a constraint imposes is a listed warp factor, so that imposing it as a ceiling
/// never lets the warp exceed it.
pub proof fn lemma_constraint_limits_are_listed(constraint: WarpConstraint)
    requires
        constraint matches WarpConstraint::AtmosphereBand(band) ==> band < 5,
    ensures
        exists|i: int| 1 <= i < TIME_WARP_COUNT && warp_factors()[i] == constraint_limit(constraint),
{
    match constraint {
        WarpConstraint::EngineBurn => assert(warp_factors()[4] == constraint_limit(constraint)),
        WarpConstraint::Unconstrained => assert(warp_factors()[12] == constraint_limit(constraint)),
        WarpConstraint::AtmosphereBand(band) => {
            if band == 0 {
                assert(warp_factors()[12] == constraint_limit(constraint));
            } else if band == 1 {
                assert(warp_factors()[7] == constraint_limit(constraint));
            } else if band == 2 {
                assert(warp_factors()[6] == constraint_limit(constraint));
            } else if band == 3 {
                assert(warp_factors()[5] == constraint_limit(constraint));
            } else {
                assert(warp_factors()[4] == constraint_limit(constraint));
            }
        },
    }
}

/// The limits the constraints impose, in terms of the tables: a burn limits the warp to
/// [`BURN_WARP_LIMIT`] (50x), no constraint leaves [`TIME_WARP_MAX`], and atmosphere band `b`
/// imposes entry `b` of [`ATMOSPHERE_WARP_LIMITS`]; deeper bands are strictly more
/// restrictive, and the outermost band imposes no more than no constraint at all.
pub proof fn lemma_constraint_limits(b: usize, c: usize)
    requires
        b < 5,
        c < 5,
    ensures
        constraint_limit(WarpConstraint::EngineBurn) == 50,
        constraint_limit(WarpConstraint::Unconstrained) == TIME_WARP_MAX,
        constraint_limit(WarpConstraint::AtmosphereBand(b)) == ATMOSPHERE_WARP_LIMITS@[b as int],
        b < c ==> constraint_limit(WarpConstraint::AtmosphereBand(b)) > constraint_limit(
            WarpConstraint::AtmosphereBand(c),
        ),
        constraint_limit(WarpConstraint::AtmosphereBand(0)) == TIME_WARP_MAX,
        constraint_limit(WarpConstraint::AtmosphereBand(4)) == BURN_WARP_LIMIT,
{
    lemma_warp_table();
}

/// The fold of a non-empty list of candidates, none above [`TIME_WARP_MAX`], is the last of
/// the candidates with the smallest limit: it is one of them, no candidate is lower, and every
/// later candidate is higher. (A lone candidate above the maximum leaves the starting pair.)
pub proof fn lemma_restrictive_fold_last_minimum(candidates: Seq<(u32, Seq<char>)>)
    requires
        candidates.len() > 0,
        forall|j: int| 0 <= j < candidates.len() ==> #[trigger] candidates[j].0 <= TIME_WARP_MAX,
    ensures
        exists|i: int|
            0 <= i < candidates.len() && restrictive_fold(candidates) == #[trigger] candidates[i]
                && (forall|j: int|
                0 <= j < candidates.len() ==> candidates[i].0 <= #[trigger] candidates[j].0) && (
            forall|j: int| i < j < candidates.len() ==> candidates[i].0 < #[trigger] candidates[j].0),
    decreases candidates.len(),
{
    let n = candidates.len() as int;
    let init = candidates.drop_last();
    let last = candidates.last();
    if n == 1 {
        assert(init.len() == 0);
        assert(restrictive_fold(candidates) == candidates[0]);
    } else {
        assert forall|j: int| 0 <= j < init.len() implies #[trigger] init[j].0 <= TIME_WARP_MAX by {
            assert(init[j] == candidates[j]);
        }
        lemma_restrictive_fold_last_minimum(init);
        let i = choose|i: int|
            0 <= i < init.len() && restrictive_fold(init) == #[trigger] init[i] && (forall|j: int|
                0 <= j < init.len() ==> init[i].0 <= #[trigger] init[j].0) && (forall|j: int|
                i < j < init.len() ==> init[i].0 < #[trigger] init[j].0);
        if restrictive_fold(init).0 < last.0 {
            assert(restrictive_fold(candidates) == candidates[i]);
            assert forall|j: int| 0 <= j < n implies candidates[i].0 <= #[trigger] candidates[j].0 by {
                if j < n - 1 {
                    assert(candidates[j] == init[j]);
                }
            }
            assert forall|j: int| i < j < n implies candidates[i].0 < #[trigger] candidates[j].0 by {
                if j < n - 1 {
                    assert(candidates[j] == init[j]);
                }
            }
        } else {
            assert(restrictive_fold(candidates) == candidates[n - 1]);
            assert forall|j: int| 0 <= j < n implies candidates[n - 1].0 <= #[trigger] candidates[j].0 by {
                if j < n - 1 {
                    assert(candidates[j] == init[j]);
                    assert(init[i].0 <= init[j].0);
                }
            }
        }
    }
}

/// Stepping up and then down again leaves the state as it was, whenever the step up was
/// allowed.
pub proof fn lemma_increase_then_decrease(s: TimeWarpView)
    requires
        s.wf(),
        s.after_increase().1 is Ok,
    ensures
        s.after_increase().0.after_decrease() == (s, Ok::<nat, Seq<char>>(s.index)),
{
    lemma_warp_table();
}

/// Stepping down and then up again leaves the state as it was, whenever the step down was
/// allowed.
pub proof fn lemma_decrease_then_increase(s: TimeWarpView)
    requires
        s.wf(),
        s.after_decrease().1 is Ok,
    ensures
        s.after_decrease().0.after_increase() == (s, Ok::<nat, Seq<char>>(s.index)),
{
    lemma_warp_table();
}

/// A step up is allowed exactly when the selected index is below the ceiling, and a step down
/// exactly when it is above the lowest factor; a refused step leaves the state unchanged, and
/// an allowed one keeps the ceiling and its reason.
pub proof fn lemma_step_outcomes(s: TimeWarpView)
    requires
        s.wf(),
    ensures
        s.after_increase().1 is Ok <==> s.index < s.max_allowed_index,
        s.after_decrease().1 is Ok <==> s.index > 0,
        s.after_increase().1 is Err ==> s.after_increase().0 == s,
        s.after_decrease().1 is Err ==> s.after_decrease().0 == s,
        s.after_increase().0.max_allowed_index == s.max_allowed_index,
        s.after_increase().0.reason == s.reason,
        s.after_decrease().0.max_allowed_index == s.max_allowed_index,
        s.after_decrease().0.reason == s.reason,
{
}

/// A ceiling equal to a listed factor other than the lowest makes exactly that factor the
/// highest selectable one. (A ceiling of 1x instead allows the whole table.)
pub proof fn lemma_ceiling_at_listed_factor(i: int)
    requires
        1 <= i < TIME_WARP_COUNT,
    ensures
        allowed_index_for(warp_factors()[i]) == i,
{
    lemma_warp_table();
    let limit = warp_factors()[i];
    assert forall|t: int| (i - 1) < t < 13 implies #[trigger] warp_factors()[t] >= limit by {
        if t > i {
            assert(warp_factors()[i] < warp_factors()[t]);
        }
    }
    lemma_warps_below_split(limit, (i - 1) as nat, 13);
}

/// Under a ceiling set from a listed factor other than the lowest, the selected factor never
/// exceeds that ceiling, in every well-formed state, and stepping keeps the ceiling.
pub proof fn lemma_warp_within_ceiling(s: TimeWarpView, i: int)
    requires
        s.wf(),
        1 <= i < TIME_WARP_COUNT,
        s.max_allowed_index == allowed_index_for(warp_factors()[i]),
    ensures
        s.value <= warp_factors()[i],
        s.after_increase().0.value <= warp_factors()[i],
        s.after_decrease().0.value <= warp_factors()[i],
{
    lemma_warp_table();
    lemma_ceiling_at_listed_factor(i);
}

/// Imposing a ceiling never raises the selected index, keeps it where it is when it fits
/// under the new ceiling, and leaves a well-formed state.
pub proof fn lemma_set_max_allowed_warp(s: TimeWarpView, limit: u32, reason: Seq<char>)
    requires
        s.wf(),
    ensures
        s.after_set_max_allowed_warp(limit, reason).wf(),
        s.after_set_max_allowed_warp(limit, reason).index <= s.index,
        s.index <= allowed_index_for(limit) ==> s.after_set_max_allowed_warp(limit, reason).index
            == s.index,
        s.after_set_max_allowed_warp(limit, reason).max_allowed_index == allowed_index_for(limit),
{
    lemma_allowed_index_bounds(limit);
}

/// The highest selectable index is at least 1 and at most the table length.
pub proof fn lemma_allowed_index_bounds(limit: u32)
    ensures
        1 <= allowed_index_for(limit) <= TIME_WARP_COUNT,
{
    lemma_warps_below_at_most(limit, 13);
}

proof fn lemma_warps_below_at_most(limit: u32, n: nat)
    ensures
        warps_below_among(limit, n) <= n,
    decreases n,
{
    if n > 0 {
        lemma_warps_below_at_most(limit, (n - 1) as nat);
    }
}

/// With no factor below the ceiling, none is counted.
proof fn lemma_warps_below_none(limit: u32, n: nat)
    requires
        n <= 13,
        forall|t: int| 0 <= t < 13 ==> warp_factors()[t] >= limit,
    ensures
        warps_below_among(limit, n) == 0,
    decreases n,
{
    if n > 0 {
        lemma_warps_below_none(limit, (n - 1) as nat);
    }
}

/// When the factor at `p` is the highest one below the ceiling, `p + 1` factors are below it.
proof fn lemma_warps_below_split(limit: u32, p: nat, n: nat)
    requires
        p < 13,
        n <= 13,
        warp_factors()[p as int] < limit,
        forall|t: int| p < t < 13 ==> warp_factors()[t] >= limit,
    ensures
        warps_below_among(limit, n) == if n <= p + 1 {
            n
        } else {
            p + 1
        },
    decreases n,
{
    lemma_warp_table();
    if n > 0 {
        lemma_warps_below_split(limit, p, (n - 1) as nat);
        if n - 1 <= p {
            assert(warp_factors()[n - 1] <= warp_factors()[p as int]);
        }
    }
}

} // verus!
