//! A push button on the display surface, such as the one that clears the
//! canvas.

use vstd::prelude::*;

verus! {

/// How a button is to be drawn, and whether its action is due.
#[derive(Clone, Copy, Debug, PartialEq, Eq, Structural)]
pub enum ButtonLook {
    /// The pointer is elsewhere.
    Plain,
    /// The pointer is over the button and nothing is pressed.
    Hovered,
    /// The pointer is over the button and pressed: the button's action is due.
    Pressed,
}

/// A rectangle of the display, in whole display units.
#[derive(Clone, Copy, Debug, PartialEq, Eq, Structural)]
pub struct Button {
    /// Left edge.
    pub x: i64,
    /// Top edge.
    pub y: i64,
    /// Extent to the right of the left edge.
    pub width: i64,
    /// Extent below the top edge.
    pub height: i64,
}

/// Whether the point `(px, py)` lies strictly inside `button`: a point on an
/// edge is outside.
pub open spec fn strictly_inside(button: Button, px: int, py: int) -> bool {
    &&& button.x < px < button.x + button.width
    &&& button.y < py < button.y + button.height
}

/// The look of `button` for a pointer at `(px, py)` that is pressed or not.
pub open spec fn look_of(button: Button, px: int, py: int, pressed: bool) -> ButtonLook {
    if !strictly_inside(button, px, py) {
        ButtonLook::Plain
    } else if pressed {
        ButtonLook::Pressed
    } else {
        ButtonLook::Hovered
    }
}

impl Button {
    /// The button with the given left edge, top edge, width and height.
    pub fn new(x: i64, y: i64, width: i64, height: i64) -> (button: Button)
        ensures
            button == (Button { x, y, width, height }),
    {
        Button { x, y, width, height }
    }

    /// The button that clears the canvas, to the right of the drawing area.
    pub fn clear_button() -> (button: Button)
        ensures
            button == (Button { x: 650, y: 300, width: 100, height: 50 }),
    {
        Button { x: 650, y: 300, width: 100, height: 50 }
    }

    /// Whether the point `(px, py)` lies strictly inside the button.
    pub fn contains(&self, px: i64, py: i64) -> (inside: bool)
        ensures
            inside == strictly_inside(*self, px as int, py as int),
    {
        let right: i128 = self.x as i128 + self.width as i128;
        let bottom: i128 = self.y as i128 + self.height as i128;
        self.x < px && (px as i128) < right && self.y < py && (py as i128) < bottom
    }

    /// The look of the button for a pointer at `(px, py)`; `pressed` says
    /// whether the pointer is held down. The action of the button is due
    /// exactly when the look is `Pressed`.
    pub fn look(&self, px: i64, py: i64, pressed: bool) -> (look: ButtonLook)
        ensures
            look == look_of(*self, px as int, py as int, pressed),
            look == ButtonLook::Pressed <==> pressed && strictly_inside(
                *self,
                px as int,
                py as int,
            ),
    {
        if !self.contains(px, py) {
            ButtonLook::Plain
        } else if pressed {
            ButtonLook::Pressed
        } else {
            ButtonLook::Hovered
        }
    }
}

} // verus!
