//! The interaction controller: follows the pointer, paints while a stroke is
//! drawn, and asks for a classification when the stroke ends.

use vstd::prelude::*;
use crate::brush::{lemma_stamp_stays_on_canvas, stamp, stamped};
use crate::encoder::{encode, flattened};
use crate::grid::{blank, in_bounds, is_canvas, CanvasGrid, HEIGHT, WIDTH};
use crate::inference::{decoded, predict, PredictionResult, CLASS_COUNT};

verus! {

/// Side of one cell of the canvas, in display units.
pub const CELL_SIZE: i64 = 21;

/// Whether a stroke is under way.
#[derive(Clone, Copy, Debug, PartialEq, Eq, Structural)]
pub enum DrawState {
    /// No stroke is under way.
    Idle,
    /// The pointer is held down: moves paint.
    Drawing,
}

/// What the display surface reports.
#[derive(Clone, Copy, Debug, PartialEq, Eq, Structural)]
pub enum Event {
    /// The pointer was pressed.
    Press,
    /// The pointer was released.
    Release,
    /// The pointer moved to `(x, y)`, in whole display units.
    Move { x: i64, y: i64 },
    /// The clear action was triggered.
    Clear,
}

/// What the controller asks of its surroundings after an event.
#[derive(Debug)]
pub enum Action {
    /// Nothing.
    Nothing,
    /// Run the classifier on this encoded canvas and hand its scores to
    /// `Controller::classified`.
    Classify(Vec<u8>),
}

/// The controller as contracts see it.
pub struct ControllerState {
    /// The canvas, as `CanvasGrid` is viewed.
    pub cells: Seq<Seq<int>>,
    /// Whether a stroke is under way.
    pub state: DrawState,
    /// The last known pointer position.
    pub cursor: (int, int),
    /// The last prediction, if a stroke was classified yet.
    pub prediction: Option<PredictionResult>,
}

/// The column or row under pointer coordinate `p`: the coordinate divided by
/// `CELL_SIZE`, truncated toward zero.
pub open spec fn cell_coordinate(p: int) -> int {
    if p >= 0 {
        p / (CELL_SIZE as int)
    } else {
        -((-p) / (CELL_SIZE as int))
    }
}

/// The cell under the pointer at `(px, py)`, if it lies on the canvas.
pub open spec fn cell_under(px: int, py: int) -> Option<(i64, i64)> {
    if in_bounds(cell_coordinate(px), cell_coordinate(py)) {
        Some((cell_coordinate(px) as i64, cell_coordinate(py) as i64))
    } else {
        None
    }
}

/// The state that follows `s` on `event`.
///
/// A press starts a stroke and a release ends it. A move records the pointer
/// position and, while a stroke is under way, stamps the brush on the cell
/// under the pointer; a pointer off the canvas paints nothing. The clear action
/// blanks the canvas and touches nothing else: the stroke goes on if one is
/// under way, and the last prediction stays.
pub open spec fn next(s: ControllerState, event: Event) -> ControllerState {
    match event {
        Event::Press => ControllerState { state: DrawState::Drawing, ..s },
        Event::Release => ControllerState { state: DrawState::Idle, ..s },
        Event::Move { x, y } => ControllerState {
            cursor: (x as int, y as int),
            cells: if s.state == DrawState::Drawing {
                stamped(s.cells, cell_coordinate(x as int), cell_coordinate(y as int))
            } else {
                s.cells
            },
            ..s
        },
        Event::Clear => ControllerState { cells: blank(), ..s },
    }
}

/// The encoded canvas to classify after `event` in state `s`: the end of a
/// stroke, and nothing else, asks for a classification.
pub open spec fn requested(s: ControllerState, event: Event) -> Option<Seq<u8>> {
    if event == Event::Release && s.state == DrawState::Drawing {
        Some(flattened(s.cells))
    } else {
        None
    }
}

/// The state that follows `s` when the classifier has answered with `scores`:
/// a well-formed answer replaces the prediction, any other leaves everything
/// as it was.
pub open spec fn answered(s: ControllerState, scores: Seq<u32>) -> ControllerState {
    match decoded(scores) {
        Some(p) => ControllerState { prediction: Some(p), ..s },
        None => s,
    }
}

/// The state after each of `events` was taken in order, starting from `s`.
pub open spec fn run(s: ControllerState, events: Seq<Event>) -> ControllerState
    decreases events.len(),
{
    if events.len() == 0 {
        s
    } else {
        next(run(s, events.drop_last()), events.last())
    }
}

/// The cell under the pointer at `(px, py)`, given in whole display units, or
/// `None` where the pointer is off the canvas.
pub fn cell_of(px: i64, py: i64) -> (cell: Option<(i64, i64)>)
    ensures
        cell == cell_under(px as int, py as int),
        cell matches Some(c) ==> in_bounds(c.0 as int, c.1 as int),
{
    match (axis_cell(px, WIDTH), axis_cell(py, HEIGHT)) {
        (Some(x), Some(y)) => Some((x, y)),
        _ => None,
    }
}

/// The column or row under one pointer coordinate, if it is among the first
/// `count`.
fn axis_cell(p: i64, count: i64) -> (cell: Option<i64>)
    requires
        count > 0,
    ensures
        cell == if 0 <= cell_coordinate(p as int) < count {
            Some(cell_coordinate(p as int) as i64)
        } else {
            None::<i64>
        },
{
    if p < 0 {
        if p > -CELL_SIZE {
            Some(0)
        } else {
            None
        }
    } else {
        let q: i64 = p / CELL_SIZE;
        if q < count {
            Some(q)
        } else {
            None
        }
    }
}

/// Owns the canvas for the whole session and decides what each event does.
pub struct Controller {
    grid: CanvasGrid,
    state: DrawState,
    cursor: (i64, i64),
    prediction: Option<PredictionResult>,
}

impl Controller {
    /// A stored prediction names a digit.
    #[verifier::type_invariant]
    spec fn well_formed(&self) -> bool {
        self.prediction matches Some(p) ==> p.digit_class < CLASS_COUNT
    }

    /// The state of the controller.
    pub closed spec fn view(&self) -> ControllerState {
        ControllerState {
            cells: self.grid@,
            state: self.state,
            cursor: (self.cursor.0 as int, self.cursor.1 as int),
            prediction: self.prediction,
        }
    }

    /// A controller at the start of a session: blank canvas, no stroke, the
    /// pointer at the origin, no prediction.
    pub fn new() -> (controller: Controller)
        ensures
            controller@ == (ControllerState {
                cells: blank(),
                state: DrawState::Idle,
                cursor: (0int, 0int),
                prediction: None,
            }),
    {
        Controller {
            grid: CanvasGrid::new(),
            state: DrawState::Idle,
            cursor: (0, 0),
            prediction: None,
        }
    }

    /// Takes one event: moves to the state that follows, painting or blanking
    /// the canvas as the event asks, and says what is to be done outside. Only
    /// the end of a stroke asks for anything: the canvas as it stands, encoded,
    /// is to be classified.
    pub fn step(&mut self, event: Event) -> (action: Action)
        ensures
            final(self)@ == next(old(self)@, event),
            is_canvas(final(self)@.cells),
            match action {
                Action::Nothing => requested(old(self)@, event) is None,
                Action::Classify(input) => requested(old(self)@, event) == Some(input@),
            },
    {
        proof {
            use_type_invariant(&*self);
            use_type_invariant(&self.grid);
            self.grid.lemma_view_is_canvas();
        }
        match event {
            Event::Press => {
                self.state = DrawState::Drawing;
                Action::Nothing
            },
            Event::Release => {
                let was_drawing = self.state == DrawState::Drawing;
                self.state = DrawState::Idle;
                if was_drawing {
                    Action::Classify(encode(&self.grid))
                } else {
                    Action::Nothing
                }
            },
            Event::Move { x, y } => {
                self.cursor = (x, y);
                if self.state == DrawState::Drawing {
                    match cell_of(x, y) {
                        Some((cx, cy)) => {
                            stamp(&mut self.grid, cx, cy);
                        },
                        None => {},
                    }
                }
                Action::Nothing
            },
            Event::Clear => {
                self.grid.reset();
                Action::Nothing
            },
        }
    }

    /// Takes the classifier's answer to the last request and stores what it
    /// decodes to. An answer that does not hold one score for each digit is
    /// refused: nothing changes and `false` is returned.
    pub fn classified(&mut self, scores: &[u32]) -> (accepted: bool)
        ensures
            final(self)@ == answered(old(self)@, scores@),
            accepted <==> scores@.len() == CLASS_COUNT,
    {
        proof {
            use_type_invariant(&*self);
        }
        match predict(scores) {
            Some(p) => {
                self.prediction = Some(p);
                true
            },
            None => false,
        }
    }

    /// The canvas.
    pub fn grid(&self) -> (grid: &CanvasGrid)
        ensures
            grid@ == self@.cells,
    {
        &self.grid
    }

    /// Whether a stroke is under way.
    pub fn state(&self) -> (state: DrawState)
        ensures
            state == self@.state,
    {
        self.state
    }

    /// Whether a stroke is under way.
    pub fn is_drawing(&self) -> (drawing: bool)
        ensures
            drawing <==> self@.state == DrawState::Drawing,
    {
        self.state == DrawState::Drawing
    }

    /// The last known pointer position.
    pub fn cursor(&self) -> (cursor: (i64, i64))
        ensures
            cursor.0 == self@.cursor.0,
            cursor.1 == self@.cursor.1,
    {
        self.cursor
    }

    /// The last prediction, if a stroke was classified yet. It names a digit.
    pub fn prediction(&self) -> (prediction: Option<PredictionResult>)
        ensures
            prediction == self@.prediction,
            prediction matches Some(p) ==> p.digit_class < CLASS_COUNT,
    {
        proof {
            use_type_invariant(self);
        }
        self.prediction
    }
}

/// No event takes the canvas out of shape or a level out of range.
pub proof fn lemma_next_keeps_canvas(s: ControllerState, event: Event)
    requires
        is_canvas(s.cells),
    ensures
        is_canvas(next(s, event).cells),
{
    if let Event::Move { x, y } = event {
        lemma_stamp_stays_on_canvas(s.cells, cell_coordinate(x as int), cell_coordinate(y as int));
    }
}

/// The clear action blanks the canvas and nothing else: a stroke under way
/// goes on, the pointer stays where it was, the last prediction stays shown,
/// and no classification is asked for.
pub proof fn lemma_clear_only_blanks(s: ControllerState)
    ensures
        next(s, Event::Clear).cells == blank(),
        next(s, Event::Clear).state == s.state,
        next(s, Event::Clear).cursor == s.cursor,
        next(s, Event::Clear).prediction == s.prediction,
        requested(s, Event::Clear) is None,
{
}

/// A classification is asked for at the end of a stroke and at no other
/// point, and what is to be classified is the canvas as the stroke left it.
pub proof fn lemma_release_alone_requests(s: ControllerState, event: Event)
    ensures
        requested(s, event) is Some <==> event == Event::Release && s.state == DrawState::Drawing,
        requested(s, event) is Some ==> requested(s, event) == Some(flattened(s.cells)) && next(
            s,
            event,
        ).state == DrawState::Idle && next(s, event).cells == s.cells,
{
}

/// No pointer event and no clear action touches the prediction: only an answer
/// of the classifier replaces it.
pub proof fn lemma_events_keep_prediction(s: ControllerState, events: Seq<Event>)
    ensures
        run(s, events).prediction == s.prediction,
    decreases events.len(),
{
    if events.len() > 0 {
        lemma_events_keep_prediction(s, events.drop_last());
    }
}

/// A stroke is under way exactly between a press and the release that follows
/// it: after a run of events the controller is drawing if and only if some
/// press in the run has no release after it, or the run started while drawing
/// and holds no release at all.
pub proof fn lemma_drawing_between_press_and_release(s: ControllerState, events: Seq<Event>)
    ensures
        run(s, events).state == DrawState::Drawing <==> {
            ||| exists|i: int|
                0 <= i < events.len() && events[i] == Event::Press && forall|j: int|
                    i < j < events.len() ==> events[j] != Event::Release
            ||| s.state == DrawState::Drawing && forall|j: int|
                0 <= j < events.len() ==> events[j] != Event::Release
        },
    decreases events.len(),
{
    if events.len() > 0 {
        let front = events.drop_last();
        let last = events.last();
        let n = events.len() - 1;
        lemma_drawing_between_press_and_release(s, front);
        assert(forall|j: int| 0 <= j < n ==> front[j] == events[j]);
        let open_front = exists|i: int|
            0 <= i < front.len() && front[i] == Event::Press && forall|j: int|
                i < j < front.len() ==> front[j] != Event::Release;
        let open_all = exists|i: int|
            0 <= i < events.len() && events[i] == Event::Press && forall|j: int|
                i < j < events.len() ==> events[j] != Event::Release;
        let quiet_front = forall|j: int| 0 <= j < front.len() ==> front[j] != Event::Release;
        let quiet_all = forall|j: int| 0 <= j < events.len() ==> events[j] != Event::Release;
        if last == Event::Press {
            assert(events[n] == Event::Press);
            assert(open_all);
        } else if last == Event::Release {
            assert(events[n] == Event::Release);
            assert(!quiet_all);
            if open_all {
                let i = choose|i: int|
                    0 <= i < events.len() && events[i] == Event::Press && forall|j: int|
                        i < j < events.len() ==> events[j] != Event::Release;
                assert(i < n);
                assert(events[n] != Event::Release);
            }
        } else {
            if open_front {
                let i = choose|i: int|
                    0 <= i < front.len() && front[i] == Event::Press && forall|j: int|
                        i < j < front.len() ==> front[j] != Event::Release;
                assert(events[i] == Event::Press);
                assert forall|j: int| i < j < events.len() implies events[j]
                    != Event::Release by {
                    if j < n {
                        assert(front[j] == events[j]);
                    }
                }
                assert(open_all);
            }
            if open_all {
                let i = choose|i: int|
                    0 <= i < events.len() && events[i] == Event::Press && forall|j: int|
                        i < j < events.len() ==> events[j] != Event::Release;
                assert(i < n);
                assert(front[i] == Event::Press);
                assert forall|j: int| i < j < front.len() implies front[j]
                    != Event::Release by {
                    assert(front[j] == events[j]);
                }
                assert(open_front);
            }
            if quiet_front {
                assert forall|j: int| 0 <= j < events.len() implies events[j]
                    != Event::Release by {
                    if j < n {
                        assert(front[j] == events[j]);
                    }
                }
            }
            if quiet_all {
                assert forall|j: int| 0 <= j < front.len() implies front[j]
                    != Event::Release by {
                    assert(front[j] == events[j]);
                }
            }
        }
    }
}

} // verus!
