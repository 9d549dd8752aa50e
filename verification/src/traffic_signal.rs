//! What a phase of a traffic signal shows: which crosswalks and turns are
//! drawn and how, the lights beside each incoming lane, and the diagram
//! that lists all phases of a signal.
//!
//! The functions here decide what is drawn. Where on the screen it goes,
//! and in which shape, is for the program around them.

use vstd::prelude::*;
use vstd::string::StringExecFns;
use crate::text::{decimal, digits};

verus! {

/// Identifies an intersection of the map.
#[derive(Clone, Copy, Debug, PartialEq, Eq, PartialOrd, Ord, Hash, Structural)]
pub struct IntersectionID(pub usize);

/// Identifies a lane of the map.
#[derive(Clone, Copy, Debug, PartialEq, Eq, PartialOrd, Ord, Hash, Structural)]
pub struct LaneID(pub usize);

/// A turn leads from one lane to another, through an intersection.
#[derive(Clone, Copy, Debug, PartialEq, Eq, PartialOrd, Ord, Hash, Structural)]
pub struct TurnID {
    pub parent: IntersectionID,
    pub src: LaneID,
    pub dst: LaneID,
}

/// The kinds of turn.
#[derive(Clone, Copy, Debug, PartialEq, Eq, Structural)]
pub enum TurnType {
    Crosswalk,
    SharedSidewalkCorner,
    Straight,
    LaneChangeLeft,
    LaneChangeRight,
    Right,
    Left,
}

/// What a signal or a sign says of a turn.
#[derive(Clone, Copy, Debug, PartialEq, Eq, Structural)]
pub enum TurnPriority {
    /// The turn is protected: nothing crosses it.
    Priority,
    /// The turn may be made, giving way.
    Yield,
    /// The turn may not be made now.
    Banned,
    /// The turn is made after a full stop. Signals do not say this.
    Stop,
}

/// A turn, as far as a signal's drawing is concerned.
#[derive(Clone, Copy, Debug, PartialEq, Eq, Structural)]
pub struct Turn {
    pub id: TurnID,
    pub turn_type: TurnType,
}

/// Whether a turn of this type leads from sidewalk to sidewalk.
pub open spec fn on_foot(turn_type: TurnType) -> bool {
    turn_type == TurnType::Crosswalk || turn_type == TurnType::SharedSidewalkCorner
}

/// Whether a turn of this type changes lanes.
pub open spec fn lane_change(turn_type: TurnType) -> bool {
    turn_type == TurnType::LaneChangeLeft || turn_type == TurnType::LaneChangeRight
}

impl Turn {
    /// Whether the turn leads from sidewalk to sidewalk.
    pub fn between_sidewalks(&self) -> (r: bool)
        ensures
            r == on_foot(self.turn_type),
    {
        match self.turn_type {
            TurnType::Crosswalk => true,
            TurnType::SharedSidewalkCorner => true,
            _ => false,
        }
    }

    /// Whether the turn changes lanes.
    pub fn is_lane_change(&self) -> (r: bool)
        ensures
            r == lane_change(self.turn_type),
    {
        match self.turn_type {
            TurnType::LaneChangeLeft => true,
            TurnType::LaneChangeRight => true,
            _ => false,
        }
    }
}

/// The kinds of lane.
#[derive(Clone, Copy, Debug, PartialEq, Eq, Structural)]
pub enum LaneType {
    Driving,
    Parking,
    Sidewalk,
    Biking,
    Bus,
}

/// A lane, as far as a signal's drawing is concerned.
#[derive(Clone, Copy, Debug, PartialEq, Eq, Structural)]
pub struct Lane {
    pub id: LaneID,
    pub lane_type: LaneType,
}

/// Whether traffic on a lane of this type is shown lights.
pub open spec fn signalled(lane_type: LaneType) -> bool {
    lane_type != LaneType::Parking && lane_type != LaneType::Sidewalk
}

/// An intersection, as far as a signal's drawing is concerned.
pub struct Intersection {
    pub id: IntersectionID,
    /// The lanes that lead into the intersection.
    pub incoming_lanes: Vec<Lane>,
    /// All turns through the intersection.
    pub turns: Vec<Turn>,
    /// The turns that are crosswalks with markings to draw.
    pub crosswalks: Vec<TurnID>,
}

/// One phase of a signal: the turns that it protects, and those that it
/// lets through giving way. Every other turn is banned.
pub struct Phase {
    pub parent: IntersectionID,
    pub priority_turns: Vec<TurnID>,
    pub yield_turns: Vec<TurnID>,
}

/// What a phase with these turns says of turn `t`.
pub open spec fn priority_of(priority_turns: Seq<TurnID>, yield_turns: Seq<TurnID>, t: TurnID)
    -> TurnPriority {
    if priority_turns.contains(t) {
        TurnPriority::Priority
    } else if yield_turns.contains(t) {
        TurnPriority::Yield
    } else {
        TurnPriority::Banned
    }
}

/// Whether `t` is among `ids`.
pub fn holds(ids: &Vec<TurnID>, t: TurnID) -> (r: bool)
    ensures
        r == ids@.contains(t),
{
    let mut i: usize = 0;
    while i < ids.len()
        invariant
            i <= ids.len(),
            forall|k: int| 0 <= k < i ==> ids@[k] != t,
        decreases ids.len() - i,
    {
        if ids[i] == t {
            return true;
        }
        i += 1;
    }
    false
}

impl Phase {
    /// What the phase says of turn `t`.
    pub open spec fn priority(&self, t: TurnID) -> TurnPriority {
        priority_of(self.priority_turns@, self.yield_turns@, t)
    }

    /// What the phase says of turn `t`.
    pub fn get_priority(&self, t: TurnID) -> (r: TurnPriority)
        ensures
            r == self.priority(t),
            r != TurnPriority::Stop,
    {
        if holds(&self.priority_turns, t) {
            TurnPriority::Priority
        } else if holds(&self.yield_turns, t) {
            TurnPriority::Yield
        } else {
            TurnPriority::Banned
        }
    }
}

/// Where `t` stands among `turns`, if it does.
pub open spec fn turn_index(turns: Seq<Turn>, t: TurnID, from: int) -> Option<int>
    decreases turns.len() - from,
{
    if from < 0 || from >= turns.len() {
        None
    } else if turns[from].id == t {
        Some(from)
    } else {
        turn_index(turns, t, from + 1)
    }
}

impl Intersection {
    /// Whether the intersection has a turn `t`.
    pub open spec fn has_turn(&self, t: TurnID) -> bool {
        turn_index(self.turns@, t, 0) is Some
    }

    /// The first turn that goes by the ID `t`.
    pub open spec fn turn(&self, t: TurnID) -> Turn {
        self.turns@[turn_index(self.turns@, t, 0)->0]
    }

    /// Whether the intersection has a turn `t`.
    pub fn has_turn_id(&self, t: TurnID) -> (r: bool)
        ensures
            r == self.has_turn(t),
    {
        let mut i: usize = 0;
        while i < self.turns.len()
            invariant
                i <= self.turns.len(),
                turn_index(self.turns@, t, 0) == turn_index(self.turns@, t, i as int),
            decreases self.turns.len() - i,
        {
            if self.turns[i].id == t {
                return true;
            }
            i += 1;
        }
        false
    }

    /// Whether every turn of `ids` is one of the intersection's.
    pub fn has_turns(&self, ids: &Vec<TurnID>) -> (r: bool)
        ensures
            r == forall|k: int| 0 <= k < ids@.len() ==> self.has_turn(#[trigger] ids@[k]),
    {
        let mut k: usize = 0;
        while k < ids.len()
            invariant
                k <= ids.len(),
                forall|m: int| 0 <= m < k ==> self.has_turn(#[trigger] ids@[m]),
            decreases ids.len() - k,
        {
            if !self.has_turn_id(ids[k]) {
                return false;
            }
            k += 1;
        }
        true
    }

    /// The turn `t`.
    pub fn get_t(&self, t: TurnID) -> (r: Turn)
        requires
            self.has_turn(t),
        ensures
            r == self.turn(t),
            r.id == t,
    {
        let mut i: usize = 0;
        loop
            invariant
                i < self.turns.len(),
                turn_index(self.turns@, t, 0) == turn_index(self.turns@, t, i as int),
                turn_index(self.turns@, t, 0) is Some,
            decreases self.turns.len() - i,
        {
            if self.turns[i].id == t {
                return self.turns[i];
            }
            i += 1;
        }
    }
}

/// One thing that the drawing of a phase holds.
#[derive(Clone, Copy, Debug, PartialEq, Eq, Structural)]
pub enum PhaseItem {
    /// The markings of this crosswalk.
    Crosswalk(TurnID),
    /// This turn, filled, in the colour of protected turns.
    FullTurn(TurnID),
    /// This turn, in outline, in the colour of turns that give way.
    OutlineTurn(TurnID),
    /// The box with the three lights, the middle one showing how much of
    /// the phase is left.
    TimerBox,
}

/// Of the first `n` crosswalks, those that the phase protects.
pub open spec fn shown_crosswalks(phase: Phase, crosswalks: Seq<TurnID>, n: nat) -> Seq<PhaseItem>
    decreases n,
{
    if n == 0 {
        Seq::empty()
    } else {
        let rest = shown_crosswalks(phase, crosswalks, (n - 1) as nat);
        if n - 1 < crosswalks.len() && phase.priority(crosswalks[n - 1]) == TurnPriority::Priority {
            rest.push(PhaseItem::Crosswalk(crosswalks[n - 1]))
        } else {
            rest
        }
    }
}

/// Of the first `n` protected turns, those that are not made on foot.
pub open spec fn shown_priority(i: Intersection, turns: Seq<TurnID>, n: nat) -> Seq<PhaseItem>
    decreases n,
{
    if n == 0 {
        Seq::empty()
    } else {
        let rest = shown_priority(i, turns, (n - 1) as nat);
        if n - 1 < turns.len() && !on_foot(i.turn(turns[n - 1]).turn_type) {
            rest.push(PhaseItem::FullTurn(turns[n - 1]))
        } else {
            rest
        }
    }
}

/// Of the first `n` turns that give way, those that are neither made on
/// foot nor changes of lane.
pub open spec fn shown_yield(i: Intersection, turns: Seq<TurnID>, n: nat) -> Seq<PhaseItem>
    decreases n,
{
    if n == 0 {
        Seq::empty()
    } else {
        let rest = shown_yield(i, turns, (n - 1) as nat);
        if n - 1 < turns.len() && !on_foot(i.turn(turns[n - 1]).turn_type) && !lane_change(
            i.turn(turns[n - 1]).turn_type,
        ) {
            rest.push(PhaseItem::OutlineTurn(turns[n - 1]))
        } else {
            rest
        }
    }
}

/// What the drawing of a phase holds, in the order in which it is drawn:
/// the crosswalks that the phase protects; the protected turns; the turns
/// that give way, but for changes of lane, which would clutter the drawing;
/// and the box with the lights, where the time left is shown. Turns made on
/// foot are not drawn as turns.
pub open spec fn phase_drawing(phase: Phase, i: Intersection, timed: bool) -> Seq<PhaseItem> {
    shown_crosswalks(phase, i.crosswalks@, i.crosswalks@.len()) + shown_priority(
        i,
        phase.priority_turns@,
        phase.priority_turns@.len(),
    ) + shown_yield(i, phase.yield_turns@, phase.yield_turns@.len()) + if timed {
        seq![PhaseItem::TimerBox]
    } else {
        Seq::empty()
    }
}

/// Decides what the drawing of `phase` holds. The box with the lights is
/// drawn only when `timed`, that is when the time left is known.
pub fn draw_signal_phase(phase: &Phase, i: &Intersection, timed: bool) -> (r: Vec<PhaseItem>)
    requires
        forall|k: int|
            0 <= k < phase.priority_turns@.len() ==> i.has_turn(#[trigger] phase.priority_turns@[k]),
        forall|k: int|
            0 <= k < phase.yield_turns@.len() ==> i.has_turn(#[trigger] phase.yield_turns@[k]),
    ensures
        r@ == phase_drawing(*phase, *i, timed),
{
    let mut out: Vec<PhaseItem> = Vec::new();
    let mut a: usize = 0;
    while a < i.crosswalks.len()
        invariant
            a <= i.crosswalks.len(),
            out@ == shown_crosswalks(*phase, i.crosswalks@, a as nat),
        decreases i.crosswalks.len() - a,
    {
        let id = i.crosswalks[a];
        if phase.get_priority(id) == TurnPriority::Priority {
            out.push(PhaseItem::Crosswalk(id));
        }
        a += 1;
    }
    let ghost first = out@;
    let mut b: usize = 0;
    while b < phase.priority_turns.len()
        invariant
            b <= phase.priority_turns.len(),
            forall|k: int|
                0 <= k < phase.priority_turns@.len() ==> i.has_turn(
                    #[trigger] phase.priority_turns@[k],
                ),
            out@ == first + shown_priority(*i, phase.priority_turns@, b as nat),
        decreases phase.priority_turns.len() - b,
    {
        let id = phase.priority_turns[b];
        let turn = i.get_t(id);
        let ghost before = shown_priority(*i, phase.priority_turns@, b as nat);
        if !turn.between_sidewalks() {
            out.push(PhaseItem::FullTurn(id));
            assert(out@ =~= first + before.push(PhaseItem::FullTurn(id)));
        }
        b += 1;
    }
    let ghost second = out@;
    let mut c: usize = 0;
    while c < phase.yield_turns.len()
        invariant
            c <= phase.yield_turns.len(),
            forall|k: int|
                0 <= k < phase.yield_turns@.len() ==> i.has_turn(#[trigger] phase.yield_turns@[k]),
            out@ == second + shown_yield(*i, phase.yield_turns@, c as nat),
        decreases phase.yield_turns.len() - c,
    {
        let id = phase.yield_turns[c];
        let turn = i.get_t(id);
        let ghost before = shown_yield(*i, phase.yield_turns@, c as nat);
        if !turn.between_sidewalks() && !turn.is_lane_change() {
            out.push(PhaseItem::OutlineTurn(id));
            assert(out@ =~= second + before.push(PhaseItem::OutlineTurn(id)));
        }
        c += 1;
    }
    if timed {
        out.push(PhaseItem::TimerBox);
    }
    assert(out@ =~= phase_drawing(*phase, *i, timed));
    out
}

/// The colours of the lights and arrows beside a lane.
#[derive(Clone, Copy, Debug, PartialEq, Eq, Structural)]
pub enum IconColor {
    Green,
    Yellow,
    Red,
    Black,
}

/// Where beside a lane an icon goes: right at its end, or one further on.
#[derive(Clone, Copy, Debug, PartialEq, Eq, Structural)]
pub enum IconSlot {
    First,
    Second,
}

/// A light, or an arrow across a light that points the way of a turn.
#[derive(Clone, Copy, Debug, PartialEq, Eq, Structural)]
pub enum Icon {
    Light(IconSlot, IconColor),
    Arrow(IconSlot, IconColor, TurnID),
}

/// Of the first `n` turns, the IDs of those that leave `lane`, are no
/// changes of lane, and of which the phase says `what`.
pub open spec fn turns_with(phase: Phase, turns: Seq<Turn>, lane: LaneID, what: TurnPriority, n: nat)
    -> Seq<TurnID>
    decreases n,
{
    if n == 0 {
        Seq::empty()
    } else {
        let rest = turns_with(phase, turns, lane, what, (n - 1) as nat);
        if n - 1 < turns.len() && turns[n - 1].id.src == lane && !lane_change(turns[n - 1].turn_type)
            && phase.priority(turns[n - 1].id) == what {
            rest.push(turns[n - 1].id)
        } else {
            rest
        }
    }
}

/// One arrow for each of the turns.
pub open spec fn arrows(slot: IconSlot, color: IconColor, turns: Seq<TurnID>) -> Seq<Icon> {
    Seq::new(turns.len(), |k: int| Icon::Arrow(slot, color, turns[k]))
}

/// Whether lights can be drawn for a lane with these turns: it has some
/// turn, and not only turns that give way.
pub open spec fn drawable(green: Seq<TurnID>, yellow: Seq<TurnID>, red: Seq<TurnID>) -> bool {
    green.len() > 0 || red.len() > 0
}

/// The lights beside a lane whose protected turns are `green`, whose turns
/// that give way are `yellow`, and whose banned turns are `red`.
///
/// Turns of one kind only: one light, green or red. Two kinds: one light,
/// red if nothing is protected and green otherwise, with yellow arrows for
/// the turns that give way or, where there are none, black arrows for the
/// protected turns. All three: a green light with yellow arrows, and
/// further on a red light with black arrows for the banned turns.
pub open spec fn lane_icons(green: Seq<TurnID>, yellow: Seq<TurnID>, red: Seq<TurnID>) -> Seq<Icon> {
    let first = IconSlot::First;
    if green.len() > 0 && yellow.len() > 0 && red.len() > 0 {
        seq![Icon::Light(first, IconColor::Green)] + arrows(first, IconColor::Yellow, yellow)
            + seq![Icon::Light(IconSlot::Second, IconColor::Red)] + arrows(
            IconSlot::Second,
            IconColor::Black,
            red,
        )
    } else if green.len() == 0 && yellow.len() > 0 {
        seq![Icon::Light(first, IconColor::Red)] + arrows(first, IconColor::Yellow, yellow)
    } else if green.len() == 0 {
        seq![Icon::Light(first, IconColor::Red)]
    } else if yellow.len() > 0 {
        seq![Icon::Light(first, IconColor::Green)] + arrows(first, IconColor::Yellow, yellow)
    } else if red.len() > 0 {
        seq![Icon::Light(first, IconColor::Green)] + arrows(first, IconColor::Black, green)
    } else {
        seq![Icon::Light(first, IconColor::Green)]
    }
}

/// The lights of a lane begin with a light right at its end, green if some
/// turn is protected and red if none is. There is one arrow at most for
/// every turn of the lane, and a second light only where turns of all three
/// kinds exist.
pub proof fn lemma_lane_icons(green: Seq<TurnID>, yellow: Seq<TurnID>, red: Seq<TurnID>)
    ensures
        lane_icons(green, yellow, red).len() >= 1,
        lane_icons(green, yellow, red)[0] == Icon::Light(
            IconSlot::First,
            if green.len() > 0 {
                IconColor::Green
            } else {
                IconColor::Red
            },
        ),
        lane_icons(green, yellow, red).len() <= 2 + green.len() + yellow.len() + red.len(),
        lane_icons(green, yellow, red).contains(Icon::Light(IconSlot::Second, IconColor::Red)) <==> (
        green.len() > 0 && yellow.len() > 0 && red.len() > 0),
{
    let icons = lane_icons(green, yellow, red);
    let second = Icon::Light(IconSlot::Second, IconColor::Red);
    if green.len() > 0 && yellow.len() > 0 && red.len() > 0 {
        assert(icons[1 + yellow.len() as int] == second);
    } else {
        if icons.contains(second) {
            let k = choose|k: int| 0 <= k < icons.len() && icons[k] == second;
            assert(icons[k] == second);
        }
    }
}

/// Appends one arrow for each of the turns.
fn push_arrows(out: &mut Vec<Icon>, slot: IconSlot, color: IconColor, turns: &Vec<TurnID>)
    ensures
        final(out)@ == old(out)@ + arrows(slot, color, turns@),
{
    let ghost before = out@;
    let mut k: usize = 0;
    while k < turns.len()
        invariant
            k <= turns.len(),
            out@ == before + arrows(slot, color, turns@.take(k as int)),
        decreases turns.len() - k,
    {
        out.push(Icon::Arrow(slot, color, turns[k]));
        k += 1;
        assert(out@ =~= before + arrows(slot, color, turns@.take(k as int)));
    }
    assert(turns@.take(k as int) =~= turns@);
}

/// The lights beside a lane: see [`lane_icons`].
pub fn icons_for(green: &Vec<TurnID>, yellow: &Vec<TurnID>, red: &Vec<TurnID>) -> (r: Vec<Icon>)
    requires
        drawable(green@, yellow@, red@),
    ensures
        r@ == lane_icons(green@, yellow@, red@),
{
    let mut count: usize = 0;
    if green.len() > 0 {
        count += 1;
    }
    if yellow.len() > 0 {
        count += 1;
    }
    if red.len() > 0 {
        count += 1;
    }
    let mut out: Vec<Icon> = Vec::new();
    if count == 1 {
        let color = if green.len() > 0 {
            IconColor::Green
        } else {
            IconColor::Red
        };
        out.push(Icon::Light(IconSlot::First, color));
    } else if count == 2 {
        if green.len() == 0 {
            out.push(Icon::Light(IconSlot::First, IconColor::Red));
            push_arrows(&mut out, IconSlot::First, IconColor::Yellow, yellow);
        } else if yellow.len() == 0 {
            out.push(Icon::Light(IconSlot::First, IconColor::Green));
            push_arrows(&mut out, IconSlot::First, IconColor::Black, green);
        } else {
            out.push(Icon::Light(IconSlot::First, IconColor::Green));
            push_arrows(&mut out, IconSlot::First, IconColor::Yellow, yellow);
        }
    } else {
        out.push(Icon::Light(IconSlot::First, IconColor::Green));
        push_arrows(&mut out, IconSlot::First, IconColor::Yellow, yellow);
        out.push(Icon::Light(IconSlot::Second, IconColor::Red));
        push_arrows(&mut out, IconSlot::Second, IconColor::Black, red);
    }
    assert(out@ =~= lane_icons(green@, yellow@, red@));
    out
}

impl Intersection {
    /// Lights can be drawn for every incoming lane that is shown lights.
    pub open spec fn all_drawable(&self, phase: Phase) -> bool {
        forall|k: int|
            0 <= k < self.incoming_lanes@.len() && signalled(
                (#[trigger] self.incoming_lanes@[k]).lane_type,
            ) ==> drawable(
                self.lane_turns(phase, self.incoming_lanes@[k].id, TurnPriority::Priority),
                self.lane_turns(phase, self.incoming_lanes@[k].id, TurnPriority::Yield),
                self.lane_turns(phase, self.incoming_lanes@[k].id, TurnPriority::Banned),
            )
    }

    /// The turns that leave `lane`, are no changes of lane, and of which the
    /// phase says `what`.
    pub open spec fn lane_turns(&self, phase: Phase, lane: LaneID, what: TurnPriority) -> Seq<
        TurnID,
    > {
        turns_with(phase, self.turns@, lane, what, self.turns@.len())
    }

    /// The lights of the first `n` incoming lanes, lane by lane.
    pub open spec fn icons_upto(&self, phase: Phase, n: nat) -> Seq<(LaneID, Seq<Icon>)>
        decreases n,
    {
        if n == 0 {
            Seq::empty()
        } else {
            let rest = self.icons_upto(phase, (n - 1) as nat);
            let lane = self.incoming_lanes@[n - 1];
            if n - 1 < self.incoming_lanes@.len() && signalled(lane.lane_type) {
                rest.push(
                    (
                        lane.id,
                        lane_icons(
                            self.lane_turns(phase, lane.id, TurnPriority::Priority),
                            self.lane_turns(phase, lane.id, TurnPriority::Yield),
                            self.lane_turns(phase, lane.id, TurnPriority::Banned),
                        ),
                    ),
                )
            } else {
                rest
            }
        }
    }
}

/// The view of the lights of each lane.
pub open spec fn icon_views(v: Seq<(LaneID, Vec<Icon>)>) -> Seq<(LaneID, Seq<Icon>)> {
    Seq::new(v.len(), |k: int| (v[k].0, v[k].1@))
}

impl Intersection {
    /// The turns that leave `lane`, but for changes of lane, sorted by what
    /// the phase says of them: protected, giving way, banned.
    pub fn sort_turns(&self, phase: &Phase, lane: LaneID) -> (r: (
        Vec<TurnID>,
        Vec<TurnID>,
        Vec<TurnID>,
    ))
        ensures
            r.0@ == self.lane_turns(*phase, lane, TurnPriority::Priority),
            r.1@ == self.lane_turns(*phase, lane, TurnPriority::Yield),
            r.2@ == self.lane_turns(*phase, lane, TurnPriority::Banned),
    {
        let mut green: Vec<TurnID> = Vec::new();
        let mut yellow: Vec<TurnID> = Vec::new();
        let mut red: Vec<TurnID> = Vec::new();
        let mut t: usize = 0;
        while t < self.turns.len()
            invariant
                t <= self.turns.len(),
                green@ == turns_with(*phase, self.turns@, lane, TurnPriority::Priority, t as nat),
                yellow@ == turns_with(*phase, self.turns@, lane, TurnPriority::Yield, t as nat),
                red@ == turns_with(*phase, self.turns@, lane, TurnPriority::Banned, t as nat),
            decreases self.turns.len() - t,
        {
            let turn = self.turns[t];
            if turn.id.src == lane && !turn.is_lane_change() {
                match phase.get_priority(turn.id) {
                    TurnPriority::Priority => {
                        green.push(turn.id);
                    },
                    TurnPriority::Yield => {
                        yellow.push(turn.id);
                    },
                    TurnPriority::Banned => {
                        red.push(turn.id);
                    },
                    TurnPriority::Stop => {
                        // A phase never says this.
                        assert(false);
                    },
                }
            }
            t += 1;
        }
        (green, yellow, red)
    }

    /// Whether lights can be drawn for every incoming lane that is shown
    /// lights.
    pub fn can_draw_lights(&self, phase: &Phase) -> (r: bool)
        ensures
            r == self.all_drawable(*phase),
    {
        let mut l: usize = 0;
        while l < self.incoming_lanes.len()
            invariant
                l <= self.incoming_lanes.len(),
                forall|k: int|
                    0 <= k < l && signalled((#[trigger] self.incoming_lanes@[k]).lane_type)
                        ==> drawable(
                        self.lane_turns(*phase, self.incoming_lanes@[k].id, TurnPriority::Priority),
                        self.lane_turns(*phase, self.incoming_lanes@[k].id, TurnPriority::Yield),
                        self.lane_turns(*phase, self.incoming_lanes@[k].id, TurnPriority::Banned),
                    ),
            decreases self.incoming_lanes.len() - l,
        {
            let lane = self.incoming_lanes[l];
            if lane.is_signalled() {
                let (green, yellow, red) = self.sort_turns(phase, lane.id);
                if green.len() == 0 && red.len() == 0 {
                    assert(signalled(self.incoming_lanes@[l as int].lane_type));
                    return false;
                }
            }
            l += 1;
        }
        true
    }
}

impl Lane {
    /// Whether traffic on the lane is shown lights: parking lanes and
    /// sidewalks are not.
    pub fn is_signalled(&self) -> (r: bool)
        ensures
            r == signalled(self.lane_type),
    {
        match self.lane_type {
            LaneType::Parking => false,
            LaneType::Sidewalk => false,
            _ => true,
        }
    }
}

/// Decides the lights to draw beside each incoming lane of the
/// intersection during `phase`. Parking lanes and sidewalks get none. The
/// turns of a lane are sorted into protected, giving way and banned;
/// changes of lane are left out.
pub fn draw_signal_phase_with_icons(phase: &Phase, i: &Intersection) -> (r: Vec<
    (LaneID, Vec<Icon>),
>)
    requires
        i.all_drawable(*phase),
    ensures
        icon_views(r@) == i.icons_upto(*phase, i.incoming_lanes@.len()),
{
    let mut out: Vec<(LaneID, Vec<Icon>)> = Vec::new();
    let mut l: usize = 0;
    while l < i.incoming_lanes.len()
        invariant
            l <= i.incoming_lanes.len(),
            i.all_drawable(*phase),
            icon_views(out@) == i.icons_upto(*phase, l as nat),
        decreases i.incoming_lanes.len() - l,
    {
        let lane = i.incoming_lanes[l];
        if lane.is_signalled() {
            let (green, yellow, red) = i.sort_turns(phase, lane.id);
            assert(signalled(i.incoming_lanes@[l as int].lane_type));
            let icons = icons_for(&green, &yellow, &red);
            let ghost before = icon_views(out@);
            out.push((lane.id, icons));
            assert(icon_views(out@) =~= before.push((lane.id, icons@)));
        }
        l += 1;
    }
    out
}

/// The label of the phase at position `idx`: phases are counted from 1,
/// and `duration` says how long the phase lasts.
pub open spec fn label_text(idx: usize, duration: Seq<char>) -> Seq<char> {
    "Phase "@ + digits((idx + 1) as nat) + ": "@ + duration
}

/// Writes the label of the phase at position `idx`.
pub fn phase_label(idx: usize, duration: &str) -> (s: String)
    requires
        idx < usize::MAX,
    ensures
        s@ == label_text(idx, duration@),
{
    let mut s = "Phase ".to_owned();
    let number = decimal(idx + 1);
    s.append(number.as_str());
    s.append(": ");
    s.append(duration);
    s
}

/// What the user asks of the diagram.
#[derive(Clone, Copy, Debug, PartialEq, Eq, Structural)]
pub enum DiagramInput {
    /// Select the previous phase.
    Previous,
    /// Select the next phase.
    Next,
}

/// The diagram of a signal: its phases in a list, one of them selected.
pub struct TrafficSignalDiagram {
    pub i: IntersectionID,
    num_phases: usize,
    current: usize,
}

/// What a diagram is.
pub struct DiagramView {
    pub i: IntersectionID,
    pub num_phases: usize,
    pub current: usize,
}

impl DiagramView {
    /// Whether there is a phase before the selected one.
    pub open spec fn has_previous(self) -> bool {
        self.current != 0
    }

    /// Whether there is a phase after the selected one.
    pub open spec fn has_next(self) -> bool {
        self.current != self.num_phases - 1
    }

    /// The phase that is selected after `input`.
    pub open spec fn selected_after(self, input: DiagramInput) -> usize {
        if input == DiagramInput::Previous && self.has_previous() {
            (self.current - 1) as usize
        } else if input == DiagramInput::Next && self.has_next() {
            (self.current + 1) as usize
        } else {
            self.current
        }
    }
}

impl View for TrafficSignalDiagram {
    type V = DiagramView;

    closed spec fn view(&self) -> DiagramView {
        DiagramView { i: self.i, num_phases: self.num_phases, current: self.current }
    }
}

impl TrafficSignalDiagram {
    /// The selected phase is one of the phases.
    pub open spec fn wf(&self) -> bool {
        self@.current < self@.num_phases
    }

    /// The diagram of the signal at `i`, which has `num_phases` phases, with
    /// phase `current_phase` selected.
    pub fn new(i: IntersectionID, current_phase: usize, num_phases: usize) -> (d:
        TrafficSignalDiagram)
        requires
            current_phase < num_phases,
        ensures
            d.wf(),
            d@ == (DiagramView { i, num_phases, current: current_phase }),
    {
        TrafficSignalDiagram { i, num_phases, current: current_phase }
    }

    /// Whether the user can be offered the previous phase.
    pub fn can_select_previous(&self) -> (r: bool)
        ensures
            r == self@.has_previous(),
    {
        self.current != 0
    }

    /// Whether the user can be offered the next phase.
    pub fn can_select_next(&self) -> (r: bool)
        requires
            self.wf(),
        ensures
            r == self@.has_next(),
    {
        self.current != self.num_phases - 1
    }

    /// Moves the selection as the user asks, where there is a phase to move
    /// to.
    pub fn event(&mut self, input: DiagramInput)
        requires
            old(self).wf(),
        ensures
            final(self).wf(),
            final(self)@ == (DiagramView {
                current: old(self)@.selected_after(input),
                ..old(self)@
            }),
    {
        match input {
            DiagramInput::Previous => {
                if self.current != 0 {
                    self.current -= 1;
                }
            },
            DiagramInput::Next => {
                if self.current != self.num_phases - 1 {
                    self.current += 1;
                }
            },
        }
    }

    /// The intersection whose signal this is.
    pub fn intersection(&self) -> (r: IntersectionID)
        ensures
            r == self@.i,
    {
        self.i
    }

    /// The selected phase.
    pub fn current_phase(&self) -> (r: usize)
        ensures
            r == self@.current,
    {
        self.current
    }

    /// How many phases the signal has.
    pub fn num_phases(&self) -> (r: usize)
        ensures
            r == self@.num_phases,
    {
        self.num_phases
    }
}

} // verus!
