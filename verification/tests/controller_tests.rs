use sketchpad::button::{Button, ButtonLook};
use sketchpad::controller::{cell_of, Action, Controller, DrawState, Event, CELL_SIZE};
use sketchpad::encoder::encode;
use sketchpad::grid::{CanvasGrid, HEIGHT, WIDTH};
use sketchpad::inference::PredictionResult;

fn inked_cells(grid: &CanvasGrid) -> usize {
    let mut count = 0;
    for x in 0..WIDTH {
        for y in 0..HEIGHT {
            if grid.get(x, y) != 0 {
                count += 1;
            }
        }
    }
    count
}

fn asks_nothing(action: &Action) -> bool {
    matches!(action, Action::Nothing)
}

#[test]
fn cell_size() {
    assert_eq!(CELL_SIZE, 21);
}

#[test]
fn pointer_maps_to_cells() {
    assert_eq!(cell_of(0, 0), Some((0, 0)));
    assert_eq!(cell_of(20, 20), Some((0, 0)));
    assert_eq!(cell_of(21, 0), Some((1, 0)));
    assert_eq!(cell_of(0, 21), Some((0, 1)));
    assert_eq!(cell_of(41, 42), Some((1, 2)));
    assert_eq!(cell_of(300, 299), Some((14, 14)));
    assert_eq!(cell_of(587, 587), Some((27, 27)));
}

#[test]
fn pointer_off_the_canvas_maps_to_nothing() {
    assert_eq!(cell_of(588, 0), None);
    assert_eq!(cell_of(0, 588), None);
    assert_eq!(cell_of(700, 320), None);
    assert_eq!(cell_of(-21, 0), None);
    assert_eq!(cell_of(0, -21), None);
    assert_eq!(cell_of(-1000, -1000), None);
    assert_eq!(cell_of(i64::MAX, 0), None);
    assert_eq!(cell_of(0, i64::MAX), None);
    assert_eq!(cell_of(i64::MIN, 0), None);
    assert_eq!(cell_of(0, i64::MIN), None);
}

#[test]
fn pointer_coordinates_truncate_toward_zero() {
    assert_eq!(cell_of(-1, -1), Some((0, 0)));
    assert_eq!(cell_of(-20, 5), Some((0, 0)));
    assert_eq!(cell_of(30, -20), Some((1, 0)));
}

#[test]
fn controller_starts_idle_and_blank() {
    let controller = Controller::new();
    assert_eq!(controller.state(), DrawState::Idle);
    assert!(!controller.is_drawing());
    assert_eq!(controller.cursor(), (0, 0));
    assert_eq!(controller.prediction(), None);
    assert_eq!(inked_cells(controller.grid()), 0);
}

#[test]
fn press_starts_a_stroke_and_release_ends_it() {
    let mut controller = Controller::new();
    assert!(asks_nothing(&controller.step(Event::Press)));
    assert_eq!(controller.state(), DrawState::Drawing);
    assert!(controller.is_drawing());
    assert!(asks_nothing(&controller.step(Event::Press)));
    assert_eq!(controller.state(), DrawState::Drawing);
    let action = controller.step(Event::Release);
    assert!(matches!(action, Action::Classify(_)));
    assert_eq!(controller.state(), DrawState::Idle);
    assert_eq!(inked_cells(controller.grid()), 0);
}

#[test]
fn moves_paint_only_while_drawing() {
    let mut controller = Controller::new();
    assert!(asks_nothing(&controller.step(Event::Move { x: 300, y: 300 })));
    assert_eq!(controller.cursor(), (300, 300));
    assert_eq!(inked_cells(controller.grid()), 0);
    controller.step(Event::Press);
    assert_eq!(inked_cells(controller.grid()), 0);
    assert!(asks_nothing(&controller.step(Event::Move { x: 300, y: 300 })));
    assert_eq!(controller.grid().get(14, 14), 100);
    assert_eq!(controller.grid().get(13, 14), 25);
    assert_eq!(controller.grid().get(13, 13), 10);
    assert_eq!(controller.grid().get(15, 15), 10);
    assert_eq!(inked_cells(controller.grid()), 9);
    controller.step(Event::Move { x: 301, y: 302 });
    assert_eq!(controller.cursor(), (301, 302));
    assert_eq!(controller.grid().get(14, 14), 100);
    assert_eq!(controller.grid().get(13, 14), 50);
    controller.step(Event::Release);
    controller.step(Event::Move { x: 100, y: 100 });
    assert_eq!(controller.grid().get(4, 4), 0);
    assert_eq!(inked_cells(controller.grid()), 9);
}

#[test]
fn moves_off_the_canvas_paint_nothing() {
    let mut controller = Controller::new();
    controller.step(Event::Press);
    controller.step(Event::Move { x: 700, y: 320 });
    controller.step(Event::Move { x: 588, y: 10 });
    controller.step(Event::Move { x: 10, y: 588 });
    controller.step(Event::Move { x: -21, y: 10 });
    controller.step(Event::Move { x: i64::MIN, y: i64::MAX });
    assert_eq!(controller.cursor(), (i64::MIN, i64::MAX));
    assert_eq!(controller.state(), DrawState::Drawing);
    assert_eq!(inked_cells(controller.grid()), 0);
    controller.step(Event::Move { x: 587, y: 0 });
    assert_eq!(controller.grid().get(27, 0), 100);
    assert_eq!(inked_cells(controller.grid()), 4);
}

#[test]
fn release_asks_for_the_encoded_canvas() {
    let mut controller = Controller::new();
    controller.step(Event::Press);
    controller.step(Event::Move { x: 70, y: 430 });
    controller.step(Event::Move { x: 90, y: 430 });
    let expected = encode(controller.grid());
    match controller.step(Event::Release) {
        Action::Classify(input) => {
            assert_eq!(input.len(), 784);
            assert_eq!(input, expected);
            assert_eq!(input[20 * 28 + 3], 100);
            assert_eq!(input[20 * 28 + 4], 100);
        }
        Action::Nothing => panic!("the end of a stroke asks for a classification"),
    }
    assert_eq!(controller.state(), DrawState::Idle);
    assert_eq!(controller.grid().get(3, 20), 100);
}

#[test]
fn release_without_a_stroke_asks_nothing() {
    let mut controller = Controller::new();
    assert!(asks_nothing(&controller.step(Event::Release)));
    assert_eq!(controller.state(), DrawState::Idle);
    controller.step(Event::Press);
    assert!(matches!(controller.step(Event::Release), Action::Classify(_)));
    assert!(asks_nothing(&controller.step(Event::Release)));
}

#[test]
fn clear_while_drawing_keeps_the_stroke_going() {
    let mut controller = Controller::new();
    controller.step(Event::Press);
    controller.step(Event::Move { x: 300, y: 300 });
    assert_eq!(inked_cells(controller.grid()), 9);
    assert!(asks_nothing(&controller.step(Event::Clear)));
    assert_eq!(inked_cells(controller.grid()), 0);
    assert_eq!(controller.state(), DrawState::Drawing);
    assert_eq!(controller.cursor(), (300, 300));
    controller.step(Event::Move { x: 21, y: 21 });
    assert_eq!(controller.grid().get(1, 1), 100);
    assert_eq!(inked_cells(controller.grid()), 9);
}

#[test]
fn clear_while_idle_stays_idle() {
    let mut controller = Controller::new();
    controller.step(Event::Press);
    controller.step(Event::Move { x: 300, y: 300 });
    controller.step(Event::Release);
    assert!(asks_nothing(&controller.step(Event::Clear)));
    assert_eq!(controller.state(), DrawState::Idle);
    assert_eq!(inked_cells(controller.grid()), 0);
}

#[test]
fn clear_leaves_the_last_prediction() {
    let mut controller = Controller::new();
    controller.step(Event::Press);
    controller.step(Event::Move { x: 300, y: 300 });
    controller.step(Event::Release);
    assert!(controller.classified(&[1, 2, 3, 50, 4, 5, 6, 7, 8, 9]));
    let shown = Some(PredictionResult { digit_class: 3, confidence: 50 });
    assert_eq!(controller.prediction(), shown);
    controller.step(Event::Clear);
    assert_eq!(controller.prediction(), shown);
    controller.step(Event::Press);
    controller.step(Event::Move { x: 30, y: 30 });
    assert_eq!(controller.prediction(), shown);
    controller.step(Event::Release);
    assert_eq!(controller.prediction(), shown);
    assert!(controller.classified(&[1, 2, 3, 5, 4, 5, 6, 70, 70, 9]));
    assert_eq!(controller.prediction(), Some(PredictionResult { digit_class: 7, confidence: 70 }));
}

#[test]
fn classified_refuses_a_malformed_answer() {
    let mut controller = Controller::new();
    assert!(!controller.classified(&[]));
    assert_eq!(controller.prediction(), None);
    assert!(controller.classified(&[0; 10]));
    assert_eq!(controller.prediction(), Some(PredictionResult { digit_class: 0, confidence: 0 }));
    assert!(!controller.classified(&[9; 9]));
    assert!(!controller.classified(&[9; 11]));
    assert_eq!(controller.prediction(), Some(PredictionResult { digit_class: 0, confidence: 0 }));
    assert_eq!(controller.state(), DrawState::Idle);
    assert_eq!(inked_cells(controller.grid()), 0);
}

#[test]
fn clear_button_stands_beside_the_canvas() {
    let button = Button::clear_button();
    assert_eq!(button, Button::new(650, 300, 100, 50));
    assert_eq!(button.x, 650);
    assert_eq!(button.y, 300);
    assert_eq!(button.width, 100);
    assert_eq!(button.height, 50);
    assert_eq!(cell_of(button.x, button.y), None);
}

#[test]
fn button_edges_are_outside() {
    let button = Button::clear_button();
    assert!(button.contains(651, 301));
    assert!(button.contains(749, 349));
    assert!(button.contains(700, 325));
    assert!(!button.contains(650, 325));
    assert!(!button.contains(750, 325));
    assert!(!button.contains(700, 300));
    assert!(!button.contains(700, 350));
    assert!(!button.contains(0, 0));
    assert!(!button.contains(i64::MIN, i64::MIN));
    assert!(!button.contains(i64::MAX, i64::MAX));
}

#[test]
fn button_with_extreme_bounds() {
    let button = Button::new(i64::MAX - 10, i64::MAX - 10, 100, 100);
    assert!(button.contains(i64::MAX, i64::MAX));
    assert!(!button.contains(i64::MAX - 10, i64::MAX));
    let empty = Button::new(5, 5, 0, 10);
    assert!(!empty.contains(5, 8));
    assert!(!empty.contains(6, 8));
    let inverted = Button::new(5, 5, -10, 10);
    assert!(!inverted.contains(0, 8));
}

#[test]
fn button_look_follows_the_pointer() {
    let button = Button::clear_button();
    assert_eq!(button.look(10, 10, false), ButtonLook::Plain);
    assert_eq!(button.look(10, 10, true), ButtonLook::Plain);
    assert_eq!(button.look(700, 325, false), ButtonLook::Hovered);
    assert_eq!(button.look(700, 325, true), ButtonLook::Pressed);
    assert_eq!(button.look(650, 325, true), ButtonLook::Plain);
}

#[test]
fn pressed_clear_button_clears_the_canvas() {
    let button = Button::clear_button();
    let mut controller = Controller::new();
    controller.step(Event::Press);
    controller.step(Event::Move { x: 300, y: 300 });
    controller.step(Event::Move { x: 700, y: 325 });
    assert_eq!(inked_cells(controller.grid()), 9);
    let (x, y) = controller.cursor();
    if button.look(x, y, controller.is_drawing()) == ButtonLook::Pressed {
        controller.step(Event::Clear);
    }
    assert_eq!(inked_cells(controller.grid()), 0);
    assert_eq!(controller.state(), DrawState::Drawing);
}
