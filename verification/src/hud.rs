//! Decisions behind the HUD widgets: which vessel the HUD shows, how the time warp boxes and
//! the SAS selector are lit, the subject's name path, the altitude unit boxes and the pitch
//! ladder of the attitude indicator.
use vstd::prelude::*;
use vstd::string::StringExecFns;

use crate::timewarp::{lemma_warp_table, warp_factors, TIME_WARPS, TIME_WARP_COUNT};
use crate::vessel::Direction;

verus! {

/// The position of `subject` in `vessels` (meaningful when it occurs there once).
pub open spec fn index_in(vessels: Seq<u64>, subject: u64) -> int {
    choose|j: int| 0 <= j < vessels.len() && vessels[j] == subject
}

/// The index reached from `index` by moving `modifier` places through `len` entries,
/// wrapping around at both ends.
pub open spec fn cycled_index(index: int, modifier: int, len: int) -> int {
    (index + modifier) % len
}

/// The vessel the HUD shows after moving `modifier` places from `subject` through `vessels`
/// (sorted ascending), wrapping around at both ends.
pub open spec fn cycled_subject(vessels: Seq<u64>, subject: u64, modifier: int) -> u64 {
    vessels[cycled_index(index_in(vessels, subject), modifier, vessels.len() as int)]
}

/// Moves the HUD subject `modifier` places through `vessels` (the vessel entities in ascending
/// order), wrapping around: `1` selects the next vessel and `-1` the previous one.
pub fn cycle_subject(vessels: &Vec<u64>, subject: u64, modifier: isize) -> (r: u64)
    requires
        vessels@.contains(subject),
        vessels@.no_duplicates(),
    ensures
        r == cycled_subject(vessels@, subject, modifier as int),
{
    let n = vessels.len();
    let mut index: usize = 0;
    while index < n
        invariant
            n == vessels.len(),
            vessels@.contains(subject),
            index <= n,
            forall|t: int| 0 <= t < index ==> #[trigger] vessels@[t] != subject,
        ensures
            index <= n,
            index < n ==> vessels@[index as int] == subject,
            forall|t: int| 0 <= t < index ==> #[trigger] vessels@[t] != subject,
        decreases n - index,
    {
        if vessels[index] == subject {
            break;
        }
        index += 1;
    }
    proof {
        if index == n {
            let w = choose|w: int| 0 <= w < vessels.len() && vessels@[w] == subject;
            assert(vessels@[w] != subject);
            assert(false);
        }
        let p = index_in(vessels@, subject);
        assert(0 <= index < vessels@.len() && vessels@[index as int] == subject);
        assert(0 <= p < vessels@.len() && vessels@[p] == subject);
        assert(p == index as int);
    }
    let shifted: i128 = index as i128 + modifier as i128;
    let m: i128 = shifted.checked_rem_euclid(n as i128).unwrap();
    vessels[m as usize]
}

/// Moving to the next vessel and then back to the previous one returns to the subject, and so
/// does moving back and then forward.
pub proof fn lemma_cycle_subject_round_trip(vessels: Seq<u64>, subject: u64)
    requires
        vessels.contains(subject),
        vessels.no_duplicates(),
    ensures
        cycled_subject(vessels, cycled_subject(vessels, subject, 1), -1) == subject,
        cycled_subject(vessels, cycled_subject(vessels, subject, -1), 1) == subject,
{
    let n = vessels.len() as int;
    let j = index_in(vessels, subject);
    assert(0 <= j < n && vessels[j] == subject);
    let f = cycled_index(j, 1, n);
    let b = cycled_index(j, -1, n);
    assert(f == if j + 1 < n {
        j + 1
    } else {
        0
    }) by {
        if j + 1 < n {
            vstd::arithmetic::div_mod::lemma_small_mod((j + 1) as nat, n as nat);
        } else {
            vstd::arithmetic::div_mod::lemma_mod_self_0(n);
        }
    }
    assert(b == if j > 0 {
        j - 1
    } else {
        n - 1
    }) by {
        if j > 0 {
            vstd::arithmetic::div_mod::lemma_small_mod((j - 1) as nat, n as nat);
        } else {
            vstd::arithmetic::div_mod::lemma_mod_add_multiples_vanish(-1, n);
            vstd::arithmetic::div_mod::lemma_small_mod((n - 1) as nat, n as nat);
        }
    }
    assert(vessels.contains(vessels[f]));
    assert(index_in(vessels, vessels[f]) == f);
    assert(vessels.contains(vessels[b]));
    assert(index_in(vessels, vessels[b]) == b);
    assert(cycled_index(f, -1, n) == j) by {
        if f > 0 {
            vstd::arithmetic::div_mod::lemma_small_mod((f - 1) as nat, n as nat);
        } else {
            vstd::arithmetic::div_mod::lemma_mod_add_multiples_vanish(-1, n);
            vstd::arithmetic::div_mod::lemma_small_mod((n - 1) as nat, n as nat);
        }
    }
    assert(cycled_index(b, 1, n) == j) by {
        if b + 1 < n {
            vstd::arithmetic::div_mod::lemma_small_mod((b + 1) as nat, n as nat);
        } else {
            vstd::arithmetic::div_mod::lemma_mod_self_0(n);
        }
    }
}

/// How a time warp box is lit.
#[derive(Clone, Copy, Debug, PartialEq, Eq, Structural)]
pub enum WarpBoxState {
    /// At or below the selected warp.
    Active,
    /// Above the selected warp but selectable.
    Allowed,
    /// Above the ceiling.
    Disallowed,
}

/// How the `i`-th time warp box is lit, given the selected warp index and the ceiling.
pub fn warp_box_state(i: usize, warp_index: usize, max_allowed_index: usize) -> (r: WarpBoxState)
    ensures
        r == if i <= warp_index {
            WarpBoxState::Active
        } else if i <= max_allowed_index {
            WarpBoxState::Allowed
        } else {
            WarpBoxState::Disallowed
        },
{
    if i <= warp_index {
        WarpBoxState::Active
    } else if i <= max_allowed_index {
        WarpBoxState::Allowed
    } else {
        WarpBoxState::Disallowed
    }
}

/// The index of the warp factor `value` in [`TIME_WARPS`], if it is one.
pub fn warp_index_of(value: u32) -> (r: Option<usize>)
    ensures
        match r {
            Some(i) => i < TIME_WARP_COUNT && warp_factors()[i as int] == value,
            None => !warp_factors().contains(value),
        },
{
    proof {
        lemma_warp_table();
    }
    let mut i: usize = 0;
    while i < TIME_WARP_COUNT
        invariant
            i <= TIME_WARP_COUNT,
            TIME_WARPS@ == warp_factors(),
            forall|t: int| 0 <= t < i ==> #[trigger] warp_factors()[t] != value,
        decreases TIME_WARP_COUNT - i,
    {
        if TIME_WARPS[i] == value {
            return Some(i);
        }
        i += 1;
    }
    None
}

/// How an entry of the SAS selector is lit.
#[derive(Clone, Copy, Debug, PartialEq, Eq, Structural)]
pub enum SasWidgetState {
    /// SAS is engaged and the entry is not the held direction.
    Normal,
    /// SAS is engaged and the entry is the held direction (or "Stabilize" with no lock).
    Selected,
    /// SAS is off.
    Disabled,
}

/// The lighting of the five entries of the SAS selector.
#[derive(Clone, Copy, Debug, PartialEq, Eq, Structural)]
pub struct SasWidgets {
    pub prograde: SasWidgetState,
    pub retrograde: SasWidgetState,
    pub radial: SasWidgetState,
    pub anti_radial: SasWidgetState,
    pub stabilize: SasWidgetState,
}

/// How the entry standing for `lock` is lit.
pub open spec fn sas_entry_state(sas_enabled: bool, direction_lock: Option<Direction>, entry: Option<Direction>) -> SasWidgetState {
    if !sas_enabled {
        SasWidgetState::Disabled
    } else if direction_lock == entry {
        SasWidgetState::Selected
    } else {
        SasWidgetState::Normal
    }
}

/// Lights the SAS selector: every entry disabled when SAS is off; otherwise the entry of the
/// held direction ("Stabilize" when none is held) selected and the others normal.
pub fn sas_widget_states(sas_enabled: bool, direction_lock: Option<Direction>) -> (r: SasWidgets)
    ensures
        r.prograde == sas_entry_state(sas_enabled, direction_lock, Some(Direction::Prograde)),
        r.retrograde == sas_entry_state(sas_enabled, direction_lock, Some(Direction::Retrograde)),
        r.radial == sas_entry_state(sas_enabled, direction_lock, Some(Direction::Radial)),
        r.anti_radial == sas_entry_state(sas_enabled, direction_lock, Some(Direction::AntiRadial)),
        r.stabilize == sas_entry_state(sas_enabled, direction_lock, None),
{
    if !sas_enabled {
        return SasWidgets {
            prograde: SasWidgetState::Disabled,
            retrograde: SasWidgetState::Disabled,
            radial: SasWidgetState::Disabled,
            anti_radial: SasWidgetState::Disabled,
            stabilize: SasWidgetState::Disabled,
        };
    }
    let mut widgets = SasWidgets {
        prograde: SasWidgetState::Normal,
        retrograde: SasWidgetState::Normal,
        radial: SasWidgetState::Normal,
        anti_radial: SasWidgetState::Normal,
        stabilize: SasWidgetState::Normal,
    };
    match direction_lock {
        Some(Direction::Prograde) => widgets.prograde = SasWidgetState::Selected,
        Some(Direction::Retrograde) => widgets.retrograde = SasWidgetState::Selected,
        Some(Direction::Radial) => widgets.radial = SasWidgetState::Selected,
        Some(Direction::AntiRadial) => widgets.anti_radial = SasWidgetState::Selected,
        None => widgets.stabilize = SasWidgetState::Selected,
    }
    widgets
}

/// With SAS engaged exactly one entry of the selector is selected: the one standing for the
/// held direction, or "Stabilize" when none is held; with SAS off none is.
pub proof fn lemma_one_sas_entry_selected(direction_lock: Option<Direction>)
    ensures
        forall|entry: Option<Direction>|
            #[trigger] sas_entry_state(true, direction_lock, entry) == SasWidgetState::Selected
                <==> entry == direction_lock,
        forall|entry: Option<Direction>|
            #[trigger] sas_entry_state(false, direction_lock, entry) == SasWidgetState::Disabled,
{
}

/// The characters shown in `boxes` unit boxes: the unit's characters, then spaces.
pub fn unit_box_chars(units: &Vec<char>, boxes: usize) -> (r: Vec<char>)
    ensures
        r.len() == boxes,
        forall|i: int|
            0 <= i < boxes ==> #[trigger] r@[i] == if i < units.len() {
                units@[i]
            } else {
                ' '
            },
{
    let mut r: Vec<char> = Vec::new();
    let mut i: usize = 0;
    while i < boxes
        invariant
            i <= boxes,
            r.len() == i,
            forall|t: int|
                0 <= t < i ==> #[trigger] r@[t] == if t < units.len() {
                    units@[t]
                } else {
                    ' '
                },
        decreases boxes - i,
    {
        if i < units.len() {
            r.push(units[i]);
        } else {
            r.push(' ');
        }
        i += 1;
    }
    r
}

/// The width class of a line of the pitch ladder.
#[derive(Clone, Copy, Debug, PartialEq, Eq, Structural)]
pub enum GraduationWidth {
    /// Every 36th step (90 degrees).
    Wide,
    /// Every 4th step (10 degrees).
    Medium,
    /// The remaining even steps (5 degrees).
    Narrow,
}

/// A line of the pitch ladder: its width, and whether it carries an angle label.
#[derive(Clone, Copy, Debug, PartialEq, Eq, Structural)]
pub struct Graduation {
    pub width: GraduationWidth,
    pub labelled: bool,
}

/// The line of the pitch ladder at step `i` (2.5 degrees per step): none on odd steps; wide
/// every 36 steps, medium every 4, narrow otherwise; labelled every 4 steps.
pub fn pitch_graduation(i: i32) -> (r: Option<Graduation>)
    ensures
        match r {
            None => i % 2 != 0,
            Some(g) => {
                &&& i % 2 == 0
                &&& g.width == if i % 36 == 0 {
                    GraduationWidth::Wide
                } else if i % 4 == 0 {
                    GraduationWidth::Medium
                } else {
                    GraduationWidth::Narrow
                }
                &&& g.labelled == (i % 4 == 0)
            },
        },
{
    let m36: i32 = i.checked_rem_euclid(36).unwrap();
    let m4: i32 = i.checked_rem_euclid(4).unwrap();
    let m2: i32 = i.checked_rem_euclid(2).unwrap();
    if m2 != 0 {
        return None;
    }
    let width = if m36 == 0 {
        GraduationWidth::Wide
    } else if m4 == 0 {
        GraduationWidth::Medium
    } else {
        GraduationWidth::Narrow
    };
    Some(Graduation { width, labelled: m4 == 0 })
}

/// The parts joined with `separator` between consecutive parts.
pub open spec fn joined(parts: Seq<Seq<char>>, separator: Seq<char>) -> Seq<char>
    decreases parts.len(),
{
    if parts.len() == 0 {
        Seq::empty()
    } else if parts.len() == 1 {
        parts[0]
    } else {
        joined(parts.drop_last(), separator) + separator + parts.last()
    }
}

/// The label of the HUD subject: the names from the outermost primary down to the subject,
/// separated by " / ", given the names from the subject up (`None` when there is no subject,
/// which reads "none").
pub open spec fn subject_label_text(chain: Option<Seq<Seq<char>>>) -> Seq<char> {
    match chain {
        None => "none"@,
        Some(names) => joined(names.reverse(), " / "@),
    }
}

/// The names of `chain` taken by view.
pub open spec fn names_view(chain: Seq<String>) -> Seq<Seq<char>> {
    chain.map_values(|s: String| s@)
}

/// Builds the HUD subject label from the names of the subject and its primaries, listed from
/// the subject up; `None` when there is no subject.
pub fn subject_label(chain: Option<&Vec<String>>) -> (r: String)
    ensures
        r@ == subject_label_text(
            match chain {
                None => None,
                Some(c) => Some(names_view(c@)),
            },
        ),
{
    match chain {
        None => String::from_str("none"),
        Some(names) => {
            let ghost parts = names_view(names@).reverse();
            let n = names.len();
            let mut label = String::new();
            let mut k: usize = 0;
            while k < n
                invariant
                    k <= n,
                    n == names.len(),
                    parts == names_view(names@).reverse(),
                    label@ == joined(parts.take(k as int), " / "@),
                decreases n - k,
            {
                proof {
                    assert(parts.take(k + 1).drop_last() =~= parts.take(k as int));
                    assert(parts[k as int] == names@[n - 1 - k]@);
                }
                if k > 0 {
                    label.append(" / ");
                }
                label.append(names[n - 1 - k].as_str());
                proof {
                    if k == 0 {
                        assert(joined(parts.take(1), " / "@) == parts.take(1)[0]);
                        assert(label@ =~= parts[0]);
                    }
                }
                k += 1;
            }
            proof {
                assert(parts.take(n as int) =~= parts);
            }
            label
        },
    }
}

/// Moving one place from the vessel at position `j` of `vessels` (no repeats) goes to the one
/// at `j + 1`, wrapping from the last to the first; moving back goes to `j - 1`, wrapping from
/// the first to the last; moving by the number of vessels stays put.
pub proof fn lemma_cycle_subject_steps(vessels: Seq<u64>, j: int)
    requires
        vessels.no_duplicates(),
        0 <= j < vessels.len(),
    ensures
        cycled_subject(vessels, vessels[j], 1) == if j + 1 < vessels.len() {
            vessels[j + 1]
        } else {
            vessels[0]
        },
        cycled_subject(vessels, vessels[j], -1) == if j > 0 {
            vessels[j - 1]
        } else {
            vessels[vessels.len() - 1]
        },
        cycled_subject(vessels, vessels[j], vessels.len() as int) == vessels[j],
        cycled_subject(vessels, vessels[j], 0) == vessels[j],
{
    let n = vessels.len() as int;
    assert(vessels.contains(vessels[j]));
    let p = index_in(vessels, vessels[j]);
    assert(0 <= p < n && vessels[p] == vessels[j]);
    assert(p == j);
    if j + 1 < n {
        vstd::arithmetic::div_mod::lemma_small_mod((j + 1) as nat, n as nat);
    } else {
        vstd::arithmetic::div_mod::lemma_mod_self_0(n);
    }
    if j > 0 {
        vstd::arithmetic::div_mod::lemma_small_mod((j - 1) as nat, n as nat);
    } else {
        vstd::arithmetic::div_mod::lemma_mod_add_multiples_vanish(-1, n);
        vstd::arithmetic::div_mod::lemma_small_mod((n - 1) as nat, n as nat);
    }
    vstd::arithmetic::div_mod::lemma_mod_add_multiples_vanish(j, n);
    vstd::arithmetic::div_mod::lemma_small_mod(j as nat, n as nat);
}

/// The lighting of the SAS selector entries, in terms of the inputs: with SAS engaged the entry
/// of the held direction ("Stabilize" when none is held) is selected and every other entry is
/// normal, so no entry is disabled; with SAS off every entry is disabled.
pub proof fn lemma_sas_entries(direction_lock: Option<Direction>, entry: Option<Direction>)
    ensures
        entry == direction_lock ==> sas_entry_state(true, direction_lock, entry)
            == SasWidgetState::Selected,
        entry != direction_lock ==> sas_entry_state(true, direction_lock, entry)
            == SasWidgetState::Normal,
        sas_entry_state(true, direction_lock, entry) != SasWidgetState::Disabled,
        sas_entry_state(false, direction_lock, entry) == SasWidgetState::Disabled,
{
}

/// The label of a chain of names listed from the subject up: no subject reads "none", a
/// single name is that name, no names give an empty label, and a longer chain reads as the
/// label of its primary's chain (the chain without the subject) followed by " / " and the
/// subject's name. So the names appear from the outermost primary down to the subject.
pub proof fn lemma_subject_label_structure(names: Seq<Seq<char>>)
    ensures
        subject_label_text(None) == "none"@,
        names.len() == 0 ==> subject_label_text(Some(names)) == Seq::<char>::empty(),
        names.len() == 1 ==> subject_label_text(Some(names)) == names[0],
        names.len() >= 2 ==> subject_label_text(Some(names)) == subject_label_text(
            Some(names.drop_first()),
        ) + " / "@ + names[0],
{
    if names.len() == 1 {
        assert(names.reverse().len() == 1);
        assert(names.reverse()[0] == names[0]);
    }
    if names.len() >= 2 {
        let r = names.reverse();
        assert(r.drop_last() =~= names.drop_first().reverse());
        assert(r.last() == names[0]);
    }
}

} // verus!
