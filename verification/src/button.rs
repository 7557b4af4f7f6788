//! What the scripts need to know of a button on the screen. Where the
//! button is and how large belongs to the renderer.

use vstd::prelude::*;

verus! {

/// A button: the event that a click on it triggers, and how the pointer
/// stands to it.
#[derive(Debug, PartialEq, Clone)]
pub struct Button2D {
    pub event: String,
    pub event_args: Vec<String>,
    pub is_hovered: bool,
    pub is_clicked: bool,
    pub is_clickable: bool,
    pub is_image: bool,
}

impl Button2D {
    /// A button that the pointer is not on, ready to be clicked.
    pub fn new(event: String, event_args: Vec<String>, is_image: bool) -> (r: Self)
        ensures
            r == (Button2D {
                event,
                event_args,
                is_hovered: false,
                is_clicked: false,
                is_clickable: true,
                is_image,
            }),
    {
        Self {
            event,
            event_args,
            is_hovered: false,
            is_clicked: false,
            is_clickable: true,
            is_image,
        }
    }

    /// Takes note of the pointer: the button is hovered when the pointer is
    /// inside it; it is clicked when it was ready for a click, the left
    /// mouse button is down and the pointer is inside it; it is ready for the
    /// next click when the left mouse button is up and it is not clicked.
    pub fn update(&mut self, pointer_inside: bool, left_down: bool, left_up: bool)
        ensures
            *final(self) == (Button2D {
                is_hovered: pointer_inside,
                is_clicked: old(self).is_clickable && left_down && pointer_inside,
                is_clickable: left_up && !(old(self).is_clickable && left_down && pointer_inside),
                ..*old(self)
            }),
    {
        self.is_hovered = pointer_inside;
        self.is_clicked = self.is_clickable && left_down && self.is_hovered;
        self.is_clickable = left_up && !self.is_clicked;
    }
}

} // verus!
