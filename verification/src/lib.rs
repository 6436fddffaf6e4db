//! The drawing core of a digit-recognition sketchpad.
//!
//! A stroke is painted on a small canvas of ink levels, the canvas is laid out
//! as the input of a digit classifier, and the classifier's answer is decoded
//! into a digit. Everything here works on integers: an ink level is a number of
//! hundredths, a pointer position a number of whole display units, and a class
//! score any unsigned key that orders the classes as their probabilities do.

pub mod brush;
pub mod button;
pub mod controller;
pub mod encoder;
pub mod grid;
pub mod inference;
