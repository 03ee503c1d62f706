//! The border of one cell: up to eight attributes, each present or absent.

use vstd::prelude::*;

verus! {

/// What is known about the border of one cell.
///
/// ```text
///                         top
///                          |
///                          V
/// left_top_corner ---> +_______+ <--- right_top_corner
///                      |       |
/// left --------------> |  cell | <--- right
///                      |       |
/// left_bottom_corner > +_______+ <--- right_bottom_corner
///                          ^
///                          |
///                        bottom
/// ```
///
/// Each attribute is either absent (`None`) or holds a value. A `Border` is a
/// plain value: it has no identity and no hidden state, and two borders are
/// equal exactly when their eight attributes are.
#[derive(Debug, PartialEq, Eq, PartialOrd, Ord, Hash)]
pub struct Border<T> {
    /// The line above the cell.
    pub top: Option<T>,
    /// The line below the cell.
    pub bottom: Option<T>,
    /// The line to the left of the cell.
    pub left: Option<T>,
    /// The line to the right of the cell.
    pub right: Option<T>,
    /// Where `top` and `left` meet.
    pub left_top_corner: Option<T>,
    /// Where `top` and `right` meet.
    pub right_top_corner: Option<T>,
    /// Where `bottom` and `left` meet.
    pub left_bottom_corner: Option<T>,
    /// Where `bottom` and `right` meet.
    pub right_bottom_corner: Option<T>,
}

/// The eight attributes of a border, by name.
#[derive(Clone, Copy, Debug, PartialEq, Eq, Hash, Structural)]
pub enum Attribute {
    Top,
    Bottom,
    Left,
    Right,
    LeftTopCorner,
    RightTopCorner,
    LeftBottomCorner,
    RightBottomCorner,
}

impl Attribute {
    /// Whether the attribute is one of the four corners, and not a side.
    pub open spec fn is_corner(self) -> bool {
        self is LeftTopCorner || self is RightTopCorner || self is LeftBottomCorner
            || self is RightBottomCorner
    }
}

impl<T: Copy> Copy for Border<T> {

}

impl<T: Copy> Clone for Border<T> {
    fn clone(&self) -> (r: Self)
        ensures
            r == *self,
    {
        *self
    }
}

impl<T> Default for Border<T> {
    fn default() -> (r: Self)
        ensures
            r == Self::spec_empty(),
    {
        Self::empty()
    }
}

impl<T> Border<T> {
    /// The border with no attribute.
    pub open spec fn spec_empty() -> Self {
        Border {
            top: None,
            bottom: None,
            left: None,
            right: None,
            left_top_corner: None,
            right_top_corner: None,
            left_bottom_corner: None,
            right_bottom_corner: None,
        }
    }

    /// The border with all eight attributes present.
    pub open spec fn spec_full(
        top: T,
        bottom: T,
        left: T,
        right: T,
        top_left: T,
        top_right: T,
        bottom_left: T,
        bottom_right: T,
    ) -> Self {
        Border {
            top: Some(top),
            bottom: Some(bottom),
            left: Some(left),
            right: Some(right),
            left_top_corner: Some(top_left),
            right_top_corner: Some(top_right),
            left_bottom_corner: Some(bottom_left),
            right_bottom_corner: Some(bottom_right),
        }
    }

    /// The attribute with this name.
    pub open spec fn get(self, attribute: Attribute) -> Option<T> {
        match attribute {
            Attribute::Top => self.top,
            Attribute::Bottom => self.bottom,
            Attribute::Left => self.left,
            Attribute::Right => self.right,
            Attribute::LeftTopCorner => self.left_top_corner,
            Attribute::RightTopCorner => self.right_top_corner,
            Attribute::LeftBottomCorner => self.left_bottom_corner,
            Attribute::RightBottomCorner => self.right_bottom_corner,
        }
    }

    /// `self` with the attribute of this name present and holding `value`, and
    /// every other attribute as it was.
    pub open spec fn set(self, attribute: Attribute, value: T) -> Self {
        match attribute {
            Attribute::Top => Border { top: Some(value), ..self },
            Attribute::Bottom => Border { bottom: Some(value), ..self },
            Attribute::Left => Border { left: Some(value), ..self },
            Attribute::Right => Border { right: Some(value), ..self },
            Attribute::LeftTopCorner => Border { left_top_corner: Some(value), ..self },
            Attribute::RightTopCorner => Border { right_top_corner: Some(value), ..self },
            Attribute::LeftBottomCorner => Border { left_bottom_corner: Some(value), ..self },
            Attribute::RightBottomCorner => Border { right_bottom_corner: Some(value), ..self },
        }
    }

    /// Whether no attribute is present.
    pub open spec fn spec_is_empty(&self) -> bool {
        *self == Self::spec_empty()
    }

    /// Whether every corner that is present has both of its sides present.
    ///
    /// A corner is where two lines meet, so a corner without one of its lines
    /// describes nothing that could be drawn.
    pub open spec fn corners_have_sides(&self) -> bool {
        &&& self.left_top_corner is Some ==> self.top is Some && self.left is Some
        &&& self.right_top_corner is Some ==> self.top is Some && self.right is Some
        &&& self.left_bottom_corner is Some ==> self.bottom is Some && self.left is Some
        &&& self.right_bottom_corner is Some ==> self.bottom is Some && self.right is Some
    }

    /// `self` with `over` laid on top of it: each attribute that `over` has
    /// replaces the one of `self`, and each attribute that `over` lacks is
    /// kept as `self` has it.
    pub open spec fn spec_merge(self, over: Self) -> Self {
        Border {
            top: attribute_over(over.top, self.top),
            bottom: attribute_over(over.bottom, self.bottom),
            left: attribute_over(over.left, self.left),
            right: attribute_over(over.right, self.right),
            left_top_corner: attribute_over(over.left_top_corner, self.left_top_corner),
            right_top_corner: attribute_over(over.right_top_corner, self.right_top_corner),
            left_bottom_corner: attribute_over(over.left_bottom_corner, self.left_bottom_corner),
            right_bottom_corner: attribute_over(over.right_bottom_corner, self.right_bottom_corner),
        }
    }

    /// Creates the border with no attribute.
    pub fn empty() -> (r: Self)
        ensures
            r == Self::spec_empty(),
    {
        Border {
            top: None,
            bottom: None,
            left: None,
            right: None,
            left_top_corner: None,
            right_top_corner: None,
            left_bottom_corner: None,
            right_bottom_corner: None,
        }
    }

    /// Creates the border with all eight attributes present.
    pub fn full(
        top: T,
        bottom: T,
        left: T,
        right: T,
        top_left: T,
        top_right: T,
        bottom_left: T,
        bottom_right: T,
    ) -> (r: Self)
        ensures
            r == Self::spec_full(
                top,
                bottom,
                left,
                right,
                top_left,
                top_right,
                bottom_left,
                bottom_right,
            ),
    {
        Border {
            top: Some(top),
            bottom: Some(bottom),
            left: Some(left),
            right: Some(right),
            left_top_corner: Some(top_left),
            right_top_corner: Some(top_right),
            left_bottom_corner: Some(bottom_left),
            right_bottom_corner: Some(bottom_right),
        }
    }

    /// Tells whether no attribute is present.
    #[verifier::when_used_as_spec(spec_is_empty)]
    pub fn is_empty(&self) -> (r: bool)
        ensures
            r == self.spec_is_empty(),
    {
        self.top.is_none() && self.bottom.is_none() && self.left.is_none() && self.right.is_none()
            && self.left_top_corner.is_none() && self.right_top_corner.is_none()
            && self.left_bottom_corner.is_none() && self.right_bottom_corner.is_none()
    }

    /// Lays `over` on top of `self`, attribute by attribute.
    #[verifier::when_used_as_spec(spec_merge)]
    pub fn merge(self, over: Self) -> (r: Self)
        ensures
            r == self.spec_merge(over),
    {
        Border {
            top: pick(over.top, self.top),
            bottom: pick(over.bottom, self.bottom),
            left: pick(over.left, self.left),
            right: pick(over.right, self.right),
            left_top_corner: pick(over.left_top_corner, self.left_top_corner),
            right_top_corner: pick(over.right_top_corner, self.right_top_corner),
            left_bottom_corner: pick(over.left_bottom_corner, self.left_bottom_corner),
            right_bottom_corner: pick(over.right_bottom_corner, self.right_bottom_corner),
        }
    }

    /// Laying a border over another works attribute by attribute: each
    /// attribute afterwards is the one of the border on top where that has it,
    /// and the one from underneath where it has not. So nothing that was present
    /// is ever lost, and nothing is touched but what the border on top names.
    pub proof fn lemma_merge_attribute(self, over: Self, attribute: Attribute)
        ensures
            self.merge(over).get(attribute) == attribute_over(
                over.get(attribute),
                self.get(attribute),
            ),
            self.get(attribute) is Some ==> self.merge(over).get(attribute) is Some,
            over.get(attribute) is None ==> self.merge(over).get(attribute) == self.get(attribute),
    {
    }

    /// Laying the same border on top twice changes nothing the second time,
    /// laying the empty border on top changes nothing at all, and a border
    /// laid over the empty one comes out as it is.
    pub proof fn lemma_merge_laws(self, over: Self)
        ensures
            self.merge(over).merge(over) == self.merge(over),
            self.merge(Self::spec_empty()) == self,
            Self::spec_empty().merge(over) == over,
            self.merge(over).is_empty() <==> self.is_empty() && over.is_empty(),
            self.corners_have_sides() && over.corners_have_sides() ==> self.merge(
                over,
            ).corners_have_sides(),
    {
    }
}

/// One attribute laid over another: the upper one where it is present, else
/// the lower one.
pub open spec fn attribute_over<T>(upper: Option<T>, lower: Option<T>) -> Option<T> {
    if upper is Some {
        upper
    } else {
        lower
    }
}

fn pick<T>(upper: Option<T>, lower: Option<T>) -> (r: Option<T>)
    ensures
        r == attribute_over(upper, lower),
{
    match upper {
        Some(value) => Some(value),
        None => lower,
    }
}

} // verus!
