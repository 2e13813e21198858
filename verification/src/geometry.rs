//! Selection geometry in physical pixels.
//!
//! The selection is drawn in CSS pixels and cut from a capture in physical
//! pixels. Each CSS edge is rounded to the nearest physical pixel on its own,
//! and the width and height are DERIVED as the difference between the rounded
//! edges, so that no edge is ever more than half a pixel from where it was
//! drawn. The rounding of a floating-point coordinate happens where the
//! coordinates arrive; this module takes the four rounded edges from there.
use vstd::prelude::*;
use vstd::string::*;
use crate::text::{decimal, push_decimal};

verus! {

/// A rectangle in the capture's own coordinates: physical pixels, origin at the
/// top-left of the frame. It cannot be empty.
#[derive(Debug, Clone, Copy, PartialEq, Eq)]
pub struct PhysicalRect {
    x: u32,
    y: u32,
    width: u32,
    height: u32,
}

/// The four numbers of a rectangle.
pub struct RectView {
    pub x: u32,
    pub y: u32,
    pub width: u32,
    pub height: u32,
}

impl View for PhysicalRect {
    type V = RectView;

    closed spec fn view(&self) -> RectView {
        RectView { x: self.x, y: self.y, width: self.width, height: self.height }
    }
}

/// Why a rectangle with no area is refused.
pub open spec fn empty_rect_message(width: u32, height: u32) -> Seq<char> {
    "a selection of "@ + decimal(width as nat) + "x"@ + decimal(height as nat)
        + " physical px has no pixels; at this scale the drag was too short to cover a whole pixel in one of its axes"@
}

impl PhysicalRect {
    #[verifier::type_invariant]
    spec fn has_area(self) -> bool {
        self.width > 0 && self.height > 0
    }

    /// Builds a rectangle, refusing one with no area.
    pub fn new(x: u32, y: u32, width: u32, height: u32) -> (rect: Result<Self, String>)
        ensures
            match rect {
                Ok(r) => width > 0 && height > 0 && r@ == (RectView { x, y, width, height }),
                Err(message) => (width == 0 || height == 0) && message@ == empty_rect_message(width, height),
            },
    {
        if width == 0 || height == 0 {
            let mut message = String::from_str("a selection of ");
            push_decimal(&mut message, width as u64);
            message.append("x");
            push_decimal(&mut message, height as u64);
            message.append(" physical px has no pixels; at this scale the drag was too short to cover a whole pixel in one of its axes");
            return Err(message);
        }
        Ok(PhysicalRect { x, y, width, height })
    }

    pub fn x(&self) -> (x: u32)
        ensures
            x == self@.x,
    {
        self.x
    }

    pub fn y(&self) -> (y: u32)
        ensures
            y == self@.y,
    {
        self.y
    }

    pub fn width(&self) -> (width: u32)
        ensures
            width == self@.width,
            width > 0,
    {
        proof {
            use_type_invariant(self);
        }
        self.width
    }

    pub fn height(&self) -> (height: u32)
        ensures
            height == self@.height,
            height > 0,
    {
        proof {
            use_type_invariant(self);
        }
        self.height
    }
}

/// Why a far edge that rounded before its near edge is refused.
pub open spec fn inverted_message(axis_far: Seq<char>, far: u32, relation: Seq<char>, axis_near: Seq<char>, near: u32) -> Seq<char> {
    "the "@ + axis_far + " edge rounded to "@ + decimal(far as nat) + relation + axis_near + " edge "@ + decimal(near as nat)
}

/// The rectangle between four rounded physical edges: the width and height are
/// derived from the edges, never rounded on their own.
///
/// An inverted pair of edges is refused rather than wrapped, and a rectangle
/// with no area is refused as `PhysicalRect::new` refuses it.
pub fn from_rounded_edges(left: u32, top: u32, right: u32, bottom: u32) -> (rect: Result<PhysicalRect, String>)
    ensures
        match rect {
            Ok(r) => left < right && top < bottom
                && r@ == (RectView { x: left, y: top, width: (right - left) as u32, height: (bottom - top) as u32 }),
            Err(message) => {
                if right < left {
                    message@ == inverted_message("right"@, right, ", before the "@, "left"@, left)
                } else if bottom < top {
                    message@ == inverted_message("bottom"@, bottom, ", above the "@, "top"@, top)
                } else {
                    (left == right || top == bottom)
                        && message@ == empty_rect_message((right - left) as u32, (bottom - top) as u32)
                }
            },
        },
{
    if right < left {
        let mut message = String::from_str("the ");
        message.append("right");
        message.append(" edge rounded to ");
        push_decimal(&mut message, right as u64);
        message.append(", before the ");
        message.append("left");
        message.append(" edge ");
        push_decimal(&mut message, left as u64);
        return Err(message);
    }
    if bottom < top {
        let mut message = String::from_str("the ");
        message.append("bottom");
        message.append(" edge rounded to ");
        push_decimal(&mut message, bottom as u64);
        message.append(", above the ");
        message.append("top");
        message.append(" edge ");
        push_decimal(&mut message, top as u64);
        return Err(message);
    }
    PhysicalRect::new(left, top, right - left, bottom - top)
}

} // verus!
