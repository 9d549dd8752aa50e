use street_ui::draw_polygon::{
    hovered, list_polygons, DrawPolygonState, MenuResult, Paint, PolygonAction, PolygonEvent,
    PolygonKey, Shape, MIN_POINTS,
};

type Pt = (i32, i32);
type State = DrawPolygonState<Pt>;

// A point lies under the cursor when it is less than two away on both axes.
fn near(cursor: Pt) -> impl Fn(&Pt) -> bool {
    move |p: &Pt| (p.0 - cursor.0).abs() < 2 && (p.1 - cursor.1).abs() < 2
}

fn press(state: &mut State, key: PolygonKey, cursor: Pt) -> (bool, PolygonAction<Pt>) {
    state.event(PolygonEvent::Key(key), cursor, &near(cursor))
}

fn triangle() -> State {
    let mut s = State::new();
    press(&mut s, PolygonKey::Start, (0, 0));
    press(&mut s, PolygonKey::AddPoint, (0, 0));
    press(&mut s, PolygonKey::AddPoint, (10, 0));
    press(&mut s, PolygonKey::AddPoint, (0, 10));
    s
}

fn names(list: Vec<&str>) -> Vec<String> {
    list.into_iter().map(|s| s.to_string()).collect()
}

#[test]
fn the_tool_starts_unused() {
    let s = State::new();
    assert_eq!(s, DrawPolygonState::Empty);
    assert_eq!(s.draw(), vec![]);
    assert_eq!(MIN_POINTS, 3);
}

#[test]
fn only_the_start_key_wakes_the_tool() {
    let mut s = State::new();
    assert_eq!(press(&mut s, PolygonKey::AddPoint, (1, 1)), (false, PolygonAction::Nothing));
    assert_eq!(s, DrawPolygonState::Empty);
    assert_eq!(s.event(PolygonEvent::Other, (1, 1), &near((1, 1))), (false, PolygonAction::Nothing));
    assert_eq!(s.event(PolygonEvent::Listed(names(vec!["a"])), (1, 1), &near((1, 1))).0, false);
    assert_eq!(s, DrawPolygonState::Empty);
    assert_eq!(press(&mut s, PolygonKey::Start, (1, 1)), (true, PolygonAction::Nothing));
    assert_eq!(s, DrawPolygonState::DrawingPoints(vec![], None));
}

#[test]
fn points_are_added_at_the_cursor() {
    let s = triangle();
    // The cursor is still on the point added last.
    assert_eq!(s, DrawPolygonState::DrawingPoints(vec![(0, 0), (10, 0), (0, 10)], Some(2)));
}

#[test]
fn the_first_point_under_the_cursor_is_hovered() {
    let mut s = triangle();
    s.event(PolygonEvent::Other, (11, 1), &near((11, 1)));
    assert_eq!(s, DrawPolygonState::DrawingPoints(vec![(0, 0), (10, 0), (0, 10)], Some(1)));
    s.event(PolygonEvent::Other, (50, 50), &near((50, 50)));
    assert_eq!(s, DrawPolygonState::DrawingPoints(vec![(0, 0), (10, 0), (0, 10)], None));
    // A new point on top of the first: the first is found before it.
    press(&mut s, PolygonKey::AddPoint, (1, 1));
    assert_eq!(
        s,
        DrawPolygonState::DrawingPoints(vec![(0, 0), (10, 0), (0, 10), (1, 1)], Some(0))
    );
}

#[test]
fn hovered_finds_the_first_point() {
    let points = vec![(5, 5), (0, 0), (1, 1)];
    assert_eq!(hovered(&points, &near((0, 0))), Some(1));
    assert_eq!(hovered(&points, &near((2, 2))), Some(2));
    assert_eq!(hovered(&points, &near((9, 9))), None);
    assert_eq!(hovered(&Vec::<Pt>::new(), &near((0, 0))), None);
}

#[test]
fn discard_ends_the_tool() {
    let mut s = triangle();
    assert_eq!(press(&mut s, PolygonKey::Discard, (0, 0)), (false, PolygonAction::Nothing));
    assert_eq!(s, DrawPolygonState::Empty);
}

#[test]
fn confirm_needs_three_points() {
    let mut s = State::new();
    press(&mut s, PolygonKey::Start, (0, 0));
    press(&mut s, PolygonKey::AddPoint, (0, 0));
    press(&mut s, PolygonKey::AddPoint, (10, 0));
    assert_eq!(press(&mut s, PolygonKey::Confirm, (50, 50)), (true, PolygonAction::Nothing));
    assert_eq!(s, DrawPolygonState::DrawingPoints(vec![(0, 0), (10, 0)], None));
    press(&mut s, PolygonKey::AddPoint, (0, 10));
    assert_eq!(press(&mut s, PolygonKey::Confirm, (50, 50)), (true, PolygonAction::Nothing));
    assert_eq!(s, DrawPolygonState::NamingPolygon(vec![(0, 0), (10, 0), (0, 10)]));
}

#[test]
fn grab_takes_up_the_hovered_point() {
    let mut s = triangle();
    // Nothing under the cursor: nothing to grab.
    press(&mut s, PolygonKey::Grab, (50, 50));
    assert_eq!(s, DrawPolygonState::DrawingPoints(vec![(0, 0), (10, 0), (0, 10)], None));
    press(&mut s, PolygonKey::Grab, (10, 1));
    assert_eq!(s, DrawPolygonState::MovingPoint(vec![(0, 0), (10, 0), (0, 10)], 1));
}

#[test]
fn a_grabbed_point_follows_the_cursor_until_let_go() {
    let mut s = triangle();
    press(&mut s, PolygonKey::Grab, (10, 1));
    assert_eq!(s.event(PolygonEvent::Other, (20, 5), &near((20, 5))), (true, PolygonAction::Nothing));
    assert_eq!(s, DrawPolygonState::MovingPoint(vec![(0, 0), (20, 5), (0, 10)], 1));
    // Keys do nothing while a point is moved.
    press(&mut s, PolygonKey::Discard, (21, 5));
    assert_eq!(s, DrawPolygonState::MovingPoint(vec![(0, 0), (21, 5), (0, 10)], 1));
    assert_eq!(s.event(PolygonEvent::Released, (30, 7), &near((30, 7))), (true, PolygonAction::Nothing));
    assert_eq!(s, DrawPolygonState::DrawingPoints(vec![(0, 0), (30, 7), (0, 10)], Some(1)));
}

#[test]
fn naming_saves_the_polygon() {
    let mut s = triangle();
    press(&mut s, PolygonKey::Confirm, (0, 0));
    assert_eq!(s.event(PolygonEvent::Other, (0, 0), &near((0, 0))), (true, PolygonAction::Nothing));
    assert_eq!(press(&mut s, PolygonKey::Discard, (0, 0)), (true, PolygonAction::Nothing));
    assert_eq!(s, DrawPolygonState::NamingPolygon(vec![(0, 0), (10, 0), (0, 10)]));
    let r = s.event(PolygonEvent::Named("park".to_string()), (0, 0), &near((0, 0)));
    assert_eq!(
        r,
        (
            false,
            PolygonAction::Save {
                name: "park".to_string(),
                points: vec![(0, 0), (10, 0), (0, 10)]
            }
        )
    );
    assert_eq!(s, DrawPolygonState::Empty);
}

#[test]
fn listing_opens_a_menu_in_order() {
    let mut s = triangle();
    let found = names(vec!["park", "Zoo", "lake", "airport"]);
    let r = s.event(PolygonEvent::Listed(found), (50, 50), &near((50, 50)));
    assert_eq!(r, (true, PolygonAction::Nothing));
    assert_eq!(s, DrawPolygonState::ListingPolygons(names(vec!["Zoo", "airport", "lake", "park"])));
}

#[test]
fn listing_nothing_is_reported() {
    let mut s = triangle();
    let r = s.event(PolygonEvent::Listed(vec![]), (50, 50), &near((50, 50)));
    assert_eq!(r, (true, PolygonAction::NoneSaved));
    assert_eq!(s, DrawPolygonState::DrawingPoints(vec![(0, 0), (10, 0), (0, 10)], None));
}

#[test]
fn the_menu_is_left_by_cancelling() {
    let mut s = State::ListingPolygons(names(vec!["a", "b"]));
    let r = s.event(PolygonEvent::Menu(MenuResult::StillActive), (0, 0), &near((0, 0)));
    assert_eq!(r, (true, PolygonAction::Nothing));
    assert_eq!(s, DrawPolygonState::ListingPolygons(names(vec!["a", "b"])));
    let r = s.event(PolygonEvent::Menu(MenuResult::Done("b".to_string())), (0, 0), &near((0, 0)));
    assert_eq!(r, (true, PolygonAction::Load("b".to_string())));
    assert_eq!(s, DrawPolygonState::ListingPolygons(names(vec!["a", "b"])));
    let r = s.event(PolygonEvent::Menu(MenuResult::Canceled), (0, 0), &near((0, 0)));
    assert_eq!(r, (false, PolygonAction::Nothing));
    assert_eq!(s, DrawPolygonState::Empty);
}

#[test]
fn names_are_put_in_order() {
    assert_eq!(
        list_polygons(names(vec!["b", "a", "ab", "", "B", "a"])),
        names(vec!["", "B", "a", "a", "ab", "b"])
    );
    assert_eq!(list_polygons(vec![]), Vec::<String>::new());
    // By code point: the accented letter comes after every plain one.
    assert_eq!(list_polygons(names(vec!["\u{e9}t\u{e9}", "zoo"])), names(vec!["zoo", "\u{e9}t\u{e9}"]));
}

#[test]
fn drawing_of_one_and_two_points() {
    let one: State = DrawPolygonState::DrawingPoints(vec![(1, 1)], None);
    assert_eq!(
        one.draw(),
        vec![Shape::Circle(Paint::Red, (1, 1)), Shape::Circle(Paint::Green, (1, 1))]
    );
    let two: State = DrawPolygonState::DrawingPoints(vec![(1, 1), (5, 5)], Some(0));
    assert_eq!(
        two.draw(),
        vec![
            Shape::Line(Paint::Red, (1, 1), (5, 5)),
            Shape::Circle(Paint::Red, (1, 1)),
            Shape::Circle(Paint::Red, (5, 5)),
            Shape::Circle(Paint::Green, (5, 5)),
            Shape::Circle(Paint::Cyan, (1, 1)),
        ]
    );
    let none: State = DrawPolygonState::DrawingPoints(vec![], None);
    assert_eq!(none.draw(), vec![]);
}

#[test]
fn drawing_of_a_polygon() {
    let s = triangle();
    assert_eq!(
        s.draw(),
        vec![
            Shape::Polygon(Paint::Blue),
            Shape::Circle(Paint::Red, (0, 0)),
            Shape::Circle(Paint::Red, (10, 0)),
            Shape::Circle(Paint::Red, (0, 10)),
            Shape::Circle(Paint::Green, (0, 10)),
            Shape::Circle(Paint::Cyan, (0, 10)),
        ]
    );
    let moving: State = DrawPolygonState::MovingPoint(vec![(0, 0), (10, 0), (0, 10)], 1);
    assert_eq!(moving.draw().last(), Some(&Shape::Circle(Paint::Cyan, (10, 0))));
}

#[test]
fn drawing_while_naming_and_listing() {
    let naming: State = DrawPolygonState::NamingPolygon(vec![(0, 0), (10, 0), (0, 10)]);
    assert_eq!(naming.draw(), vec![Shape::Polygon(Paint::Blue)]);
    let listing: State = DrawPolygonState::ListingPolygons(names(vec!["a"]));
    assert_eq!(listing.draw(), vec![Shape::MenuTooltip]);
}

#[test]
fn states_made_by_hand_can_be_checked() {
    assert!(triangle().is_well_formed());
    assert!(State::new().is_well_formed());
    let good: State = DrawPolygonState::MovingPoint(vec![(0, 0)], 0);
    assert!(good.is_well_formed());
    let bad: State = DrawPolygonState::MovingPoint(vec![(0, 0)], 1);
    assert!(!bad.is_well_formed());
    let bad: State = DrawPolygonState::DrawingPoints(vec![], Some(0));
    assert!(!bad.is_well_formed());
}

#[test]
fn the_tool_stays_well_formed() {
    let mut s = triangle();
    let keys = vec![
        PolygonKey::Grab,
        PolygonKey::AddPoint,
        PolygonKey::Start,
        PolygonKey::Confirm,
        PolygonKey::Discard,
        PolygonKey::Start,
        PolygonKey::AddPoint,
        PolygonKey::Grab,
    ];
    for (n, key) in keys.into_iter().enumerate() {
        let cursor = (n as i32 % 3, 0);
        let (active, _) = press(&mut s, key, cursor);
        assert!(s.is_well_formed());
        assert_eq!(active, s != DrawPolygonState::Empty);
        s.event(PolygonEvent::Released, cursor, &near(cursor));
        assert!(s.is_well_formed());
    }
}
