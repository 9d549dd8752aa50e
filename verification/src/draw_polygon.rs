//! The freehand polygon tool: points are placed one by one, moved about,
//! and the finished polygon is given a name and saved.
//!
//! The tool is a state machine. The program around it reads the keyboard
//! and the mouse, tells the tool what happened, and carries out what the
//! tool asks for in return. Points are whatever the program measures
//! positions in; the tool only stores them.

use vstd::prelude::*;

verus! {

/// The polygon needs this many points before it can be confirmed.
pub const MIN_POINTS: usize = 3;

/// The keys that the tool reacts to.
#[derive(Clone, Copy, Debug, PartialEq, Eq, Structural)]
pub enum PolygonKey {
    /// Start drawing a polygon.
    Start,
    /// Throw away the polygon being drawn.
    Discard,
    /// Add a new point at the cursor.
    AddPoint,
    /// Confirm the polygon's shape.
    Confirm,
    /// Hold to move the point under the cursor.
    Grab,
}

/// What a menu says after an event.
#[derive(Debug, PartialEq)]
pub enum MenuResult {
    Canceled,
    StillActive,
    Done(String),
}

/// What happened, as the program around the tool read it.
#[derive(Debug, PartialEq)]
pub enum PolygonEvent {
    /// One of the tool's keys was pressed.
    Key(PolygonKey),
    /// The key that lists the saved polygons was pressed; these are their
    /// names.
    Listed(Vec<String>),
    /// The key that holds a point was let go.
    Released,
    /// The text box took the event and is done: this is the line typed.
    Named(String),
    /// The menu took the event and says this.
    Menu(MenuResult),
    /// Anything else.
    Other,
}

/// What the program around the tool is to do after an event.
#[derive(Debug, PartialEq)]
pub enum PolygonAction<P> {
    /// Nothing.
    Nothing,
    /// Tell the user that there are no saved polygons.
    NoneSaved,
    /// Save the polygon under this name.
    Save { name: String, points: Vec<P> },
    /// Load the polygon of this name.
    Load(String),
}

/// The state of the tool.
#[derive(Debug, PartialEq)]
pub enum DrawPolygonState<P> {
    Empty,
    /// The points so far, and the one that the cursor hovers over.
    DrawingPoints(Vec<P>, Option<usize>),
    /// The points, and the one that follows the cursor.
    MovingPoint(Vec<P>, usize),
    /// The confirmed points, while the user types a name.
    NamingPolygon(Vec<P>),
    /// The names of the saved polygons, shown as a menu.
    ListingPolygons(Vec<String>),
}

/// The colours that the tool draws in.
#[derive(Clone, Copy, Debug, PartialEq, Eq, Structural)]
pub enum Paint {
    Red,
    Green,
    Blue,
    Cyan,
}

/// One thing to draw.
#[derive(Debug, PartialEq)]
pub enum Shape<P> {
    /// A line between two points.
    Line(Paint, P, P),
    /// The polygon through all the points of the tool.
    Polygon(Paint),
    /// A small circle round a point.
    Circle(Paint, P),
    /// The menu's lines, beside the mouse.
    MenuTooltip,
}

/// What is drawn for the points while they are placed or moved, `marked`
/// being the point hovered over or moved: the line between two points or
/// the polygon through three and more; a red circle on every point; a green
/// one on the last; a cyan one on the marked.
pub open spec fn drawing<P>(points: Seq<P>, marked: Option<usize>) -> Seq<Shape<P>> {
    let outline = if points.len() == 2 {
        seq![Shape::Line(Paint::Red, points[0], points[1])]
    } else if points.len() >= 3 {
        seq![Shape::Polygon(Paint::Blue)]
    } else {
        Seq::empty()
    };
    let circles = Seq::new(points.len(), |i: int| Shape::Circle(Paint::Red, points[i]));
    let last = if points.len() > 0 {
        seq![Shape::Circle(Paint::Green, points.last())]
    } else {
        Seq::empty()
    };
    let mark = match marked {
        Some(i) => seq![Shape::Circle(Paint::Cyan, points[i as int])],
        None => Seq::empty(),
    };
    outline + circles + last + mark
}

/// `a` comes before `b`, or is `b`, in the order of strings: character by
/// character, by code point, a prefix before what it is a prefix of.
pub open spec fn text_le(a: Seq<char>, b: Seq<char>) -> bool
    decreases a.len(),
{
    if a.len() == 0 {
        true
    } else if b.len() == 0 {
        false
    } else if a[0] != b[0] {
        (a[0] as u32) < (b[0] as u32)
    } else {
        text_le(a.skip(1), b.skip(1))
    }
}

/// The names ascend in the order of strings.
pub open spec fn names_ascend(names: Seq<Seq<char>>) -> bool {
    forall|i: int, j: int| 0 <= i < j < names.len() ==> text_le(names[i], names[j])
}

/// Sorts the names with `sort` of std's slices, which orders strings by
/// `Ord` of `String`. Believed of it, as std documents: the names after the
/// call are those before it, each as often as before, in ascending order;
/// and strings are ordered character by character, by code point.
#[verifier::external_body]
fn sort_names(names: &mut Vec<String>)
    ensures
        final(names).deep_view().to_multiset() == old(names).deep_view().to_multiset(),
        names_ascend(final(names).deep_view()),
{
    names.sort();
}

/// The names of the saved polygons, as they were found, put in order.
pub fn list_polygons(found: Vec<String>) -> (r: Vec<String>)
    ensures
        r.deep_view().to_multiset() == found.deep_view().to_multiset(),
        names_ascend(r.deep_view()),
        r@.len() == found@.len(),
{
    let mut names = found;
    sort_names(&mut names);
    proof {
        found.deep_view().to_multiset_ensures();
        names.deep_view().to_multiset_ensures();
    }
    names
}

/// `at` is what looking for the first point that `near` accepts gives:
/// `near` refused every point before it and accepted the one there, or
/// refused them all.
pub open spec fn first_near<P, N: Fn(&P) -> bool>(near: N, points: Seq<P>, at: Option<usize>) -> bool {
    match at {
        Some(i) => {
            &&& i < points.len()
            &&& call_ensures(near, (&points[i as int],), true)
            &&& forall|k: int| 0 <= k < i ==> call_ensures(near, (&#[trigger] points[k],), false)
        },
        None => forall|k: int|
            0 <= k < points.len() ==> call_ensures(near, (&#[trigger] points[k],), false),
    }
}

/// The position of the first point that `near` accepts.
pub fn hovered<P, N: Fn(&P) -> bool>(points: &Vec<P>, near: &N) -> (r: Option<usize>)
    requires
        forall|p: &P| call_requires(*near, (p,)),
    ensures
        first_near(*near, points@, r),
{
    let mut i: usize = 0;
    while i < points.len()
        invariant
            i <= points.len(),
            forall|p: &P| call_requires(*near, (p,)),
            forall|k: int| 0 <= k < i ==> call_ensures(*near, (&#[trigger] points@[k],), false),
        decreases points.len() - i,
    {
        if near(&points[i]) {
            return Some(i);
        }
        i += 1;
    }
    None
}


impl<P> DrawPolygonState<P> {
    /// A point that is hovered over or moved is one of the points.
    pub open spec fn wf(&self) -> bool {
        match self {
            DrawPolygonState::DrawingPoints(points, Some(at)) => *at < points@.len(),
            DrawPolygonState::MovingPoint(points, at) => *at < points@.len(),
            _ => true,
        }
    }

    /// Whether the tool is in use.
    pub open spec fn active(&self) -> bool {
        !(self is Empty)
    }

    /// Whether a point that is hovered over or moved is one of the points.
    pub fn is_well_formed(&self) -> (r: bool)
        ensures
            r == self.wf(),
    {
        match self {
            DrawPolygonState::DrawingPoints(points, Some(at)) => *at < points.len(),
            DrawPolygonState::MovingPoint(points, at) => *at < points.len(),
            _ => true,
        }
    }

    /// The tool, not in use.
    pub fn new() -> (s: DrawPolygonState<P>)
        ensures
            s is Empty,
            s.wf(),
    {
        DrawPolygonState::Empty
    }
}

/// What an event does while points are being placed. `points` are the
/// points before it.
///
/// A list of saved polygons that is not empty opens the menu, with the
/// names put in order. `Discard`
/// ends the tool. `Confirm` goes on to the name, once there are three
/// points. Anything else leaves the tool placing points: `AddPoint` adds
/// the cursor's position as the last point, an empty list of saved
/// polygons is reported, the point that the cursor hovers over is looked
/// for, and with `Grab` that point is taken up.
pub open spec fn drawing_step<P, N: Fn(&P) -> bool>(
    points: Seq<P>,
    event: PolygonEvent,
    cursor: P,
    near: N,
    post: DrawPolygonState<P>,
    action: PolygonAction<P>,
) -> bool {
    if event matches PolygonEvent::Listed(list) && list@.len() > 0 {
        &&& post is ListingPolygons
        &&& post->ListingPolygons_0.deep_view().to_multiset()
            == event->Listed_0.deep_view().to_multiset()
        &&& names_ascend(post->ListingPolygons_0.deep_view())
        &&& action is Nothing
    } else if event == PolygonEvent::Key(PolygonKey::Discard) {
        post is Empty && action is Nothing
    } else if event == PolygonEvent::Key(PolygonKey::Confirm) && points.len() >= MIN_POINTS {
        post is NamingPolygon && post->NamingPolygon_0@ == points && action is Nothing
    } else {
        let now = if event == PolygonEvent::Key(PolygonKey::AddPoint) {
            points.push(cursor)
        } else {
            points
        };
        &&& if event is Listed {
            action is NoneSaved
        } else {
            action is Nothing
        }
        &&& match post {
            DrawPolygonState::DrawingPoints(p, at) => p@ == now && first_near(near, now, at) && !(
            at is Some && event == PolygonEvent::Key(PolygonKey::Grab)),
            DrawPolygonState::MovingPoint(p, at) => p@ == now && first_near(near, now, Some(at))
                && event == PolygonEvent::Key(PolygonKey::Grab),
            _ => false,
        }
    }
}

/// What an event does to the tool in state `pre`: `post` is the state after
/// it, and `action` is what the program is asked to do.
pub open spec fn step<P, N: Fn(&P) -> bool>(
    pre: DrawPolygonState<P>,
    event: PolygonEvent,
    cursor: P,
    near: N,
    post: DrawPolygonState<P>,
    action: PolygonAction<P>,
) -> bool {
    match pre {
        DrawPolygonState::Empty => {
            &&& action is Nothing
            &&& if event == PolygonEvent::Key(PolygonKey::Start) {
                post is DrawingPoints && post->DrawingPoints_0@.len() == 0
                    && post->DrawingPoints_1 is None
            } else {
                post is Empty
            }
        },
        DrawPolygonState::DrawingPoints(points, _) => drawing_step(
            points@,
            event,
            cursor,
            near,
            post,
            action,
        ),
        DrawPolygonState::MovingPoint(points, at) => {
            // The point follows the cursor until the key is let go.
            let now = points@.update(at as int, cursor);
            &&& action is Nothing
            &&& if event is Released {
                post is DrawingPoints && post->DrawingPoints_0@ == now && post->DrawingPoints_1
                    == Some(at)
            } else {
                post is MovingPoint && post->MovingPoint_0@ == now && post->MovingPoint_1 == at
            }
        },
        DrawPolygonState::NamingPolygon(points) => match event {
            PolygonEvent::Named(line) => {
                &&& post is Empty
                &&& action is Save
                &&& action->Save_name == line
                &&& action->Save_points == points
            },
            _ => post == pre && action is Nothing,
        },
        DrawPolygonState::ListingPolygons(list) => match event {
            PolygonEvent::Menu(MenuResult::Canceled) => post is Empty && action is Nothing,
            PolygonEvent::Menu(MenuResult::Done(choice)) => post == pre && action
                == PolygonAction::<P>::Load(choice),
            _ => post == pre && action is Nothing,
        },
    }
}

/// Whatever happens, a point that is hovered over or moved stays one of the
/// points; and the tool goes out of use only from where its steps say so:
/// never while a point is moved.
pub proof fn lemma_step_keeps_points<P, N: Fn(&P) -> bool>(
    pre: DrawPolygonState<P>,
    event: PolygonEvent,
    cursor: P,
    near: N,
    post: DrawPolygonState<P>,
    action: PolygonAction<P>,
)
    requires
        pre.wf(),
        step(pre, event, cursor, near, post, action),
    ensures
        post.wf(),
        pre is MovingPoint ==> post.active(),
        pre is Empty ==> !(post is MovingPoint) && action is Nothing,
        action is Save ==> pre is NamingPolygon && post is Empty,
        action is Load ==> pre is ListingPolygons && post is ListingPolygons,
{
}

impl<P: Copy> DrawPolygonState<P> {
    /// Takes one event. `cursor` is where the cursor is, and `near` says
    /// whether a point lies under it. Answers whether the tool is still in
    /// use, and what the program is to do.
    pub fn event<N: Fn(&P) -> bool>(&mut self, event: PolygonEvent, cursor: P, near: &N) -> (r: (
        bool,
        PolygonAction<P>,
    ))
        requires
            old(self).wf(),
            forall|p: &P| call_requires(*near, (p,)),
        ensures
            final(self).wf(),
            step(*old(self), event, cursor, *near, *final(self), r.1),
            r.0 == final(self).active(),
    {
        let mut state = DrawPolygonState::Empty;
        core::mem::swap(self, &mut state);
        let mut action = PolygonAction::Nothing;
        match state {
            DrawPolygonState::Empty => {
                match event {
                    PolygonEvent::Key(PolygonKey::Start) => {
                        *self = DrawPolygonState::DrawingPoints(Vec::new(), None);
                    },
                    _ => {},
                }
            },
            DrawPolygonState::DrawingPoints(points, _) => {
                let mut points = points;
                let mut grab = false;
                match event {
                    PolygonEvent::Listed(list) => {
                        if list.len() > 0 {
                            *self = DrawPolygonState::ListingPolygons(list_polygons(list));
                            return (true, action);
                        }
                        action = PolygonAction::NoneSaved;
                    },
                    PolygonEvent::Key(PolygonKey::Discard) => {
                        return (false, action);
                    },
                    PolygonEvent::Key(PolygonKey::AddPoint) => {
                        points.push(cursor);
                    },
                    PolygonEvent::Key(PolygonKey::Confirm) => {
                        if points.len() >= MIN_POINTS {
                            *self = DrawPolygonState::NamingPolygon(points);
                            return (true, action);
                        }
                    },
                    PolygonEvent::Key(PolygonKey::Grab) => {
                        grab = true;
                    },
                    _ => {},
                }
                let at = hovered(&points, near);
                *self = match at {
                    Some(idx) => if grab {
                        DrawPolygonState::MovingPoint(points, idx)
                    } else {
                        DrawPolygonState::DrawingPoints(points, at)
                    },
                    None => DrawPolygonState::DrawingPoints(points, at),
                };
            },
            DrawPolygonState::MovingPoint(points, at) => {
                let mut points = points;
                points.set(at, cursor);
                *self = match event {
                    PolygonEvent::Released => DrawPolygonState::DrawingPoints(points, Some(at)),
                    _ => DrawPolygonState::MovingPoint(points, at),
                };
            },
            DrawPolygonState::NamingPolygon(points) => {
                match event {
                    PolygonEvent::Named(line) => {
                        action = PolygonAction::Save { name: line, points };
                    },
                    _ => {
                        *self = DrawPolygonState::NamingPolygon(points);
                    },
                }
            },
            DrawPolygonState::ListingPolygons(list) => {
                match event {
                    PolygonEvent::Menu(MenuResult::Canceled) => {},
                    PolygonEvent::Menu(MenuResult::Done(choice)) => {
                        action = PolygonAction::Load(choice);
                        *self = DrawPolygonState::ListingPolygons(list);
                    },
                    _ => {
                        *self = DrawPolygonState::ListingPolygons(list);
                    },
                }
            },
        }
        let active = match self {
            DrawPolygonState::Empty => false,
            _ => true,
        };
        (active, action)
    }
}


impl<P: Copy> DrawPolygonState<P> {
    /// What the tool shows.
    pub open spec fn shapes(&self) -> Seq<Shape<P>> {
        match self {
            DrawPolygonState::Empty => Seq::empty(),
            DrawPolygonState::DrawingPoints(points, at) => drawing(points@, *at),
            DrawPolygonState::MovingPoint(points, at) => drawing(points@, Some(*at)),
            DrawPolygonState::NamingPolygon(_) => seq![Shape::Polygon(Paint::Blue)],
            DrawPolygonState::ListingPolygons(_) => seq![Shape::MenuTooltip],
        }
    }

    /// What to draw, in the order in which to draw it.
    pub fn draw(&self) -> (r: Vec<Shape<P>>)
        requires
            self.wf(),
        ensures
            r@ == self.shapes(),
    {
        let mut out: Vec<Shape<P>> = Vec::new();
        let (points, marked) = match self {
            DrawPolygonState::Empty => {
                return out;
            },
            DrawPolygonState::DrawingPoints(points, at) => (points, *at),
            DrawPolygonState::MovingPoint(points, at) => (points, Some(*at)),
            DrawPolygonState::NamingPolygon(_) => {
                out.push(Shape::Polygon(Paint::Blue));
                return out;
            },
            DrawPolygonState::ListingPolygons(_) => {
                out.push(Shape::MenuTooltip);
                return out;
            },
        };
        if points.len() == 2 {
            out.push(Shape::Line(Paint::Red, points[0], points[1]));
        }
        if points.len() >= 3 {
            out.push(Shape::Polygon(Paint::Blue));
        }
        let ghost outline = out@;
        let mut i: usize = 0;
        while i < points.len()
            invariant
                i <= points.len(),
                out@ == outline + Seq::new(i as nat, |k: int| Shape::Circle(Paint::Red, points@[k])),
            decreases points.len() - i,
        {
            out.push(Shape::Circle(Paint::Red, points[i]));
            i += 1;
            assert(out@ =~= outline + Seq::new(
                i as nat,
                |k: int| Shape::Circle(Paint::Red, points@[k]),
            ));
        }
        if points.len() > 0 {
            out.push(Shape::Circle(Paint::Green, points[points.len() - 1]));
        }
        match marked {
            Some(idx) => {
                out.push(Shape::Circle(Paint::Cyan, points[idx]));
            },
            None => {},
        }
        assert(out@ =~= drawing(points@, marked));
        out
    }
}

} // verus!
