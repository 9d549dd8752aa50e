use street_ui::traffic_signal::{
    draw_signal_phase, draw_signal_phase_with_icons, holds, icons_for, phase_label, DiagramInput,
    Icon, IconColor, IconSlot, Intersection, IntersectionID, Lane, LaneID, LaneType, Phase,
    PhaseItem, TrafficSignalDiagram, Turn, TurnID, TurnPriority, TurnType,
};

const HERE: IntersectionID = IntersectionID(4);

fn id(src: usize, dst: usize) -> TurnID {
    TurnID { parent: HERE, src: LaneID(src), dst: LaneID(dst) }
}

fn turn(src: usize, dst: usize, turn_type: TurnType) -> Turn {
    Turn { id: id(src, dst), turn_type }
}

fn lane(n: usize, lane_type: LaneType) -> Lane {
    Lane { id: LaneID(n), lane_type }
}

// Lane 1 goes straight, left and right, and can change to lane 2; lane 2
// goes straight; lane 3 is a sidewalk with a crosswalk.
fn intersection() -> Intersection {
    Intersection {
        id: HERE,
        incoming_lanes: vec![
            lane(1, LaneType::Driving),
            lane(2, LaneType::Bus),
            lane(3, LaneType::Sidewalk),
            lane(9, LaneType::Parking),
        ],
        turns: vec![
            turn(1, 10, TurnType::Straight),
            turn(1, 11, TurnType::Left),
            turn(1, 12, TurnType::Right),
            turn(1, 2, TurnType::LaneChangeRight),
            turn(2, 10, TurnType::Straight),
            turn(3, 13, TurnType::Crosswalk),
            turn(3, 14, TurnType::SharedSidewalkCorner),
        ],
        crosswalks: vec![id(3, 13), id(8, 8)],
    }
}

fn phase(priority: Vec<TurnID>, yields: Vec<TurnID>) -> Phase {
    Phase { parent: HERE, priority_turns: priority, yield_turns: yields }
}

fn light(slot: IconSlot, color: IconColor) -> Icon {
    Icon::Light(slot, color)
}

#[test]
fn turn_kinds() {
    assert!(turn(3, 13, TurnType::Crosswalk).between_sidewalks());
    assert!(turn(3, 14, TurnType::SharedSidewalkCorner).between_sidewalks());
    assert!(!turn(1, 10, TurnType::Straight).between_sidewalks());
    assert!(turn(1, 2, TurnType::LaneChangeLeft).is_lane_change());
    assert!(turn(1, 2, TurnType::LaneChangeRight).is_lane_change());
    assert!(!turn(1, 2, TurnType::Left).is_lane_change());
}

#[test]
fn priority_of_a_turn() {
    let p = phase(vec![id(1, 10), id(1, 11)], vec![id(1, 11), id(1, 12)]);
    assert_eq!(p.get_priority(id(1, 10)), TurnPriority::Priority);
    // Protected wins over giving way.
    assert_eq!(p.get_priority(id(1, 11)), TurnPriority::Priority);
    assert_eq!(p.get_priority(id(1, 12)), TurnPriority::Yield);
    assert_eq!(p.get_priority(id(2, 10)), TurnPriority::Banned);
    assert!(holds(&p.yield_turns, id(1, 12)));
    assert!(!holds(&p.yield_turns, id(1, 10)));
}

#[test]
fn turns_are_looked_up_by_id() {
    let i = intersection();
    assert_eq!(i.get_t(id(1, 11)), turn(1, 11, TurnType::Left));
    assert_eq!(i.get_t(id(3, 14)), turn(3, 14, TurnType::SharedSidewalkCorner));
}

#[test]
fn phase_drawing_in_order() {
    let i = intersection();
    let p = phase(
        vec![id(1, 10), id(3, 13), id(2, 10)],
        vec![id(1, 2), id(1, 12), id(3, 14)],
    );
    assert_eq!(
        draw_signal_phase(&p, &i, false),
        vec![
            PhaseItem::Crosswalk(id(3, 13)),
            PhaseItem::FullTurn(id(1, 10)),
            PhaseItem::FullTurn(id(2, 10)),
            PhaseItem::OutlineTurn(id(1, 12)),
        ]
    );
}

#[test]
fn phase_drawing_with_the_time_left() {
    let i = intersection();
    let p = phase(vec![id(1, 10)], vec![]);
    assert_eq!(
        draw_signal_phase(&p, &i, true),
        vec![PhaseItem::FullTurn(id(1, 10)), PhaseItem::TimerBox]
    );
    let nothing = phase(vec![], vec![]);
    assert_eq!(draw_signal_phase(&nothing, &i, false), vec![]);
    assert_eq!(draw_signal_phase(&nothing, &i, true), vec![PhaseItem::TimerBox]);
}

#[test]
fn a_crosswalk_that_gives_way_is_not_marked() {
    let i = intersection();
    let p = phase(vec![], vec![id(3, 13)]);
    assert_eq!(draw_signal_phase(&p, &i, false), vec![]);
}

#[test]
fn one_kind_of_turn_gives_one_light() {
    let t = vec![id(1, 10)];
    let none: Vec<TurnID> = vec![];
    assert_eq!(icons_for(&t, &none, &none), vec![light(IconSlot::First, IconColor::Green)]);
    assert_eq!(icons_for(&none, &none, &t), vec![light(IconSlot::First, IconColor::Red)]);
}

#[test]
fn two_kinds_of_turn_give_one_light_with_arrows() {
    let a = vec![id(1, 10)];
    let b = vec![id(1, 11), id(1, 12)];
    let none: Vec<TurnID> = vec![];
    // Giving way and banned.
    assert_eq!(
        icons_for(&none, &b, &a),
        vec![
            light(IconSlot::First, IconColor::Red),
            Icon::Arrow(IconSlot::First, IconColor::Yellow, id(1, 11)),
            Icon::Arrow(IconSlot::First, IconColor::Yellow, id(1, 12)),
        ]
    );
    // Protected and banned.
    assert_eq!(
        icons_for(&b, &none, &a),
        vec![
            light(IconSlot::First, IconColor::Green),
            Icon::Arrow(IconSlot::First, IconColor::Black, id(1, 11)),
            Icon::Arrow(IconSlot::First, IconColor::Black, id(1, 12)),
        ]
    );
    // Protected and giving way.
    assert_eq!(
        icons_for(&a, &b, &none),
        vec![
            light(IconSlot::First, IconColor::Green),
            Icon::Arrow(IconSlot::First, IconColor::Yellow, id(1, 11)),
            Icon::Arrow(IconSlot::First, IconColor::Yellow, id(1, 12)),
        ]
    );
}

#[test]
fn three_kinds_of_turn_give_two_lights() {
    let g = vec![id(1, 10)];
    let y = vec![id(1, 11)];
    let r = vec![id(1, 12)];
    assert_eq!(
        icons_for(&g, &y, &r),
        vec![
            light(IconSlot::First, IconColor::Green),
            Icon::Arrow(IconSlot::First, IconColor::Yellow, id(1, 11)),
            light(IconSlot::Second, IconColor::Red),
            Icon::Arrow(IconSlot::Second, IconColor::Black, id(1, 12)),
        ]
    );
}

#[test]
fn lights_lane_by_lane() {
    let i = intersection();
    let p = phase(vec![id(1, 10)], vec![id(1, 11), id(1, 2)]);
    assert_eq!(
        draw_signal_phase_with_icons(&p, &i),
        vec![
            (
                LaneID(1),
                vec![
                    light(IconSlot::First, IconColor::Green),
                    Icon::Arrow(IconSlot::First, IconColor::Yellow, id(1, 11)),
                    light(IconSlot::Second, IconColor::Red),
                    Icon::Arrow(IconSlot::Second, IconColor::Black, id(1, 12)),
                ]
            ),
            (LaneID(2), vec![light(IconSlot::First, IconColor::Red)]),
        ]
    );
}

#[test]
fn labels_count_phases_from_one() {
    assert_eq!(phase_label(0, "30s"), "Phase 1: 30s");
    assert_eq!(phase_label(9, "1m 5s"), "Phase 10: 1m 5s");
    assert_eq!(phase_label(2, ""), "Phase 3: ");
}

#[test]
fn diagram_starts_at_the_phase_given() {
    let d = TrafficSignalDiagram::new(HERE, 1, 3);
    assert_eq!(d.i, HERE);
    assert_eq!(d.intersection(), HERE);
    assert_eq!(d.current_phase(), 1);
    assert_eq!(d.num_phases(), 3);
    assert!(d.can_select_previous());
    assert!(d.can_select_next());
}

#[test]
fn diagram_moves_within_the_phases() {
    let mut d = TrafficSignalDiagram::new(HERE, 0, 3);
    assert!(!d.can_select_previous());
    d.event(DiagramInput::Previous);
    assert_eq!(d.current_phase(), 0);
    d.event(DiagramInput::Next);
    assert_eq!(d.current_phase(), 1);
    d.event(DiagramInput::Next);
    assert_eq!(d.current_phase(), 2);
    assert!(!d.can_select_next());
    d.event(DiagramInput::Next);
    assert_eq!(d.current_phase(), 2);
    d.event(DiagramInput::Previous);
    assert_eq!(d.current_phase(), 1);
}

#[test]
fn diagram_of_one_phase_stays_put() {
    let mut d = TrafficSignalDiagram::new(HERE, 0, 1);
    assert!(!d.can_select_previous());
    assert!(!d.can_select_next());
    d.event(DiagramInput::Next);
    d.event(DiagramInput::Previous);
    assert_eq!(d.current_phase(), 0);
}

#[test]
fn turns_of_a_lane_sorted_by_priority() {
    let i = intersection();
    let p = phase(vec![id(1, 10)], vec![id(1, 11), id(1, 2)]);
    assert_eq!(
        i.sort_turns(&p, LaneID(1)),
        (vec![id(1, 10)], vec![id(1, 11)], vec![id(1, 12)])
    );
    assert_eq!(i.sort_turns(&p, LaneID(7)), (vec![], vec![], vec![]));
}

#[test]
fn lights_cannot_be_drawn_for_turns_that_all_give_way() {
    let i = intersection();
    assert!(i.can_draw_lights(&phase(vec![id(1, 10)], vec![id(1, 11)])));
    assert!(i.can_draw_lights(&phase(vec![], vec![])));
    // Lane 2 has one turn, which gives way.
    assert!(!i.can_draw_lights(&phase(vec![id(1, 10)], vec![id(2, 10)])));
    // Lane 1 has turns that all give way.
    assert!(!i.can_draw_lights(&phase(vec![id(2, 10)], vec![id(1, 10), id(1, 11), id(1, 12)])));
}

#[test]
fn lights_cannot_be_drawn_for_a_lane_without_turns() {
    let mut i = intersection();
    i.incoming_lanes.push(lane(5, LaneType::Biking));
    assert!(!i.can_draw_lights(&phase(vec![], vec![])));
}

#[test]
fn lanes_that_are_shown_lights() {
    assert!(lane(1, LaneType::Driving).is_signalled());
    assert!(lane(1, LaneType::Biking).is_signalled());
    assert!(lane(1, LaneType::Bus).is_signalled());
    assert!(!lane(1, LaneType::Parking).is_signalled());
    assert!(!lane(1, LaneType::Sidewalk).is_signalled());
}

#[test]
fn turns_of_the_intersection_are_known() {
    let i = intersection();
    assert!(i.has_turn_id(id(1, 12)));
    assert!(!i.has_turn_id(id(12, 1)));
    assert!(i.has_turns(&vec![id(1, 10), id(3, 13)]));
    assert!(!i.has_turns(&vec![id(1, 10), id(8, 8)]));
    assert!(i.has_turns(&vec![]));
}

#[test]
fn lights_begin_with_a_light_at_the_lane() {
    let sets: Vec<Vec<TurnID>> = vec![vec![], vec![id(1, 10)], vec![id(1, 11), id(1, 12)]];
    for g in &sets {
        for y in &sets {
            for r in &sets {
                if g.is_empty() && r.is_empty() {
                    continue;
                }
                let icons = icons_for(g, y, r);
                let color = if g.is_empty() { IconColor::Red } else { IconColor::Green };
                assert_eq!(icons[0], Icon::Light(IconSlot::First, color));
                assert!(icons.len() <= 2 + g.len() + y.len() + r.len());
                let second = icons.contains(&Icon::Light(IconSlot::Second, IconColor::Red));
                assert_eq!(second, !g.is_empty() && !y.is_empty() && !r.is_empty());
            }
        }
    }
}
