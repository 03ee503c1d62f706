//! Coloring the border of cells with [`BorderColor`].

use super::on::{On, SideState};
use crate::grid::config::border::{Attribute, Border};
use crate::grid::config::colored_config::{
    laid_in_turn, laid_over, lemma_laid_over_is_laid_in_turn, lemma_laid_over_nothing,
    lemma_laid_over_one_more, BorderColors, ColoredConfig,
};
use crate::grid::config::entity::{grid_cells, Entity, Position};
use crate::grid::records::{may_count, ExactRecords, Records};
use crate::settings::cell_option::CellOption;
use crate::settings::color::Color;
use crate::settings::table_option::TableOption;
use core::marker::PhantomData;
use vstd::prelude::*;
use vstd::std_specs::convert::FromSpecImpl;

verus! {

/// The colors of the border of a cell, under construction.
///
/// ```text
///                         top border
///                             |
///                             V
/// corner top left ------> +_______+  <---- corner top right
///                         |       |
/// left border ----------> |  cell |  <---- right border
///                         |       |
/// corner bottom left ---> +_______+  <---- corner bottom right
///                             ^
///                             |
///                        bottom border
/// ```
///
/// The four type parameters record, for the top, bottom, left and right side
/// in this order, whether the side has been given a color: `()` while it has
/// none, [`On`] once it has one. A corner can be given a color only by a
/// builder whose type shows [`On`] for both sides that meet there, so a border
/// with a colored corner between uncolored sides cannot be written down.
///
/// Every setter takes the builder by value and returns the next one. A builder
/// is not `Copy`, so the one that a setter was called on is gone afterwards.
#[derive(Debug, PartialEq, Eq, PartialOrd, Ord)]
pub struct BorderColor<T: SideState, B: SideState, L: SideState, R: SideState> {
    inner: Border<Color>,
    _top: PhantomData<T>,
    _bottom: PhantomData<B>,
    _left: PhantomData<L>,
    _right: PhantomData<R>,
}

/// One call of a setter: the attribute it names and the color it gives.
pub type Step = (Attribute, Color);

/// Whether a builder that holds `border` has the setter of `attribute`: every
/// side can be set at any time, a corner once both of its sides are present.
pub open spec fn offered(border: Border<Color>, attribute: Attribute) -> bool {
    match attribute {
        Attribute::LeftTopCorner => border.top is Some && border.left is Some,
        Attribute::RightTopCorner => border.top is Some && border.right is Some,
        Attribute::LeftBottomCorner => border.bottom is Some && border.left is Some,
        Attribute::RightBottomCorner => border.bottom is Some && border.right is Some,
        _ => true,
    }
}

/// The border that the empty builder holds after the setters of `steps` have
/// been called on it, the first one first.
pub open spec fn built(steps: Seq<Step>) -> Border<Color>
    decreases steps.len(),
{
    if steps.len() == 0 {
        Border::spec_empty()
    } else {
        built(steps.drop_last()).set(steps.last().0, steps.last().1)
    }
}

/// Whether the setters of `steps` can be called in this order, starting from
/// the empty builder: whether each of them is offered when its turn comes.
pub open spec fn buildable(steps: Seq<Step>) -> bool
    decreases steps.len(),
{
    steps.len() == 0 || (buildable(steps.drop_last()) && offered(
        built(steps.drop_last()),
        steps.last().0,
    ))
}

/// The color that `steps` ask for `attribute`: that of the last step that
/// names it, and none where no step does.
pub open spec fn requested(steps: Seq<Step>, attribute: Attribute) -> Option<Color>
    decreases steps.len(),
{
    if steps.len() == 0 {
        None
    } else if steps.last().0 == attribute {
        Some(steps.last().1)
    } else {
        requested(steps.drop_last(), attribute)
    }
}

/// After any sequence of setter calls the border has exactly the attributes
/// that were asked for, each with the color it was last given, and no others.
pub proof fn lemma_built_as_requested(steps: Seq<Step>, attribute: Attribute)
    ensures
        built(steps).get(attribute) == requested(steps, attribute),
        requested(steps, attribute) is Some <==> exists|i: int|
            0 <= i < steps.len() && (#[trigger] steps[i]).0 == attribute,
    decreases steps.len(),
{
    if steps.len() > 0 {
        let front = steps.drop_last();
        lemma_built_as_requested(front, attribute);
        if steps.last().0 != attribute {
            if requested(front, attribute) is Some {
                let i = choose|i: int| 0 <= i < front.len() && (#[trigger] front[i]).0 == attribute;
                assert(steps[i].0 == attribute);
            }
            if exists|i: int| 0 <= i < steps.len() && (#[trigger] steps[i]).0 == attribute {
                let i = choose|i: int| 0 <= i < steps.len() && (#[trigger] steps[i]).0 == attribute;
                assert(front[i].0 == attribute);
            }
        } else {
            assert(steps[steps.len() - 1].0 == attribute);
        }
    }
}

/// After any calls of setters of sides, followed by the call of the setter of
/// a corner that is offered then, the border has the sides that were asked
/// for, that one corner with the color it was given, and nothing else.
pub proof fn lemma_sides_then_corner(
    sides: Seq<Step>,
    corner: Attribute,
    c: Color,
    attribute: Attribute,
)
    requires
        forall|i: int| 0 <= i < sides.len() ==> !(#[trigger] sides[i]).0.is_corner(),
        corner.is_corner(),
        offered(built(sides), corner),
    ensures
        buildable(sides.push((corner, c))),
        built(sides.push((corner, c))).get(attribute) == if attribute == corner {
            Some(c)
        } else if attribute.is_corner() {
            None
        } else {
            requested(sides, attribute)
        },
{
    lemma_sides_buildable(sides);
    lemma_built_as_requested(sides, attribute);
    assert(sides.push((corner, c)).drop_last() =~= sides);
    if attribute.is_corner() && requested(sides, attribute) is Some {
        let i = choose|i: int| 0 <= i < sides.len() && (#[trigger] sides[i]).0 == attribute;
        assert(!sides[i].0.is_corner());
    }
}

/// Setters of sides can be called in any number and in any order.
proof fn lemma_sides_buildable(sides: Seq<Step>)
    requires
        forall|i: int| 0 <= i < sides.len() ==> !(#[trigger] sides[i]).0.is_corner(),
    ensures
        buildable(sides),
    decreases sides.len(),
{
    if sides.len() > 0 {
        let front = sides.drop_last();
        assert forall|i: int| 0 <= i < front.len() implies !(#[trigger] front[i]).0.is_corner() by {
            assert(front[i] == sides[i]);
        }
        lemma_sides_buildable(front);
        assert(!sides[sides.len() - 1].0.is_corner());
    }
}

/// Whatever setters are called, in whatever order they can be called, no
/// corner of the border ever has a color without both of its sides having one.
pub proof fn lemma_buildable_corners_have_sides(steps: Seq<Step>)
    requires
        buildable(steps),
    ensures
        built(steps).corners_have_sides(),
    decreases steps.len(),
{
    if steps.len() > 0 {
        lemma_buildable_corners_have_sides(steps.drop_last());
    }
}

impl<T: SideState, B: SideState, L: SideState, R: SideState> BorderColor<T, B, L, R> {
    /// The border that the builder holds.
    pub closed spec fn view(&self) -> Border<Color> {
        self.inner
    }

    /// Whether the builder is in order: its type says of each side what its
    /// border says, and no corner has a color without its two sides. Every
    /// builder that exists is.
    #[verifier::type_invariant]
    pub open spec fn wf(&self) -> bool {
        &&& T::is_set() <==> self@.top is Some
        &&& B::is_set() <==> self@.bottom is Some
        &&& L::is_set() <==> self@.left is Some
        &&& R::is_set() <==> self@.right is Some
        &&& self@.corners_have_sides()
    }

    /// Whether builders of this type have the setter of `attribute`: the four
    /// setters of sides are there for every type, the setter of a corner for
    /// the types that show [`On`] for both sides of the corner.
    pub open spec fn has_setter(attribute: Attribute) -> bool {
        match attribute {
            Attribute::LeftTopCorner => T::is_set() && L::is_set(),
            Attribute::RightTopCorner => T::is_set() && R::is_set(),
            Attribute::LeftBottomCorner => B::is_set() && L::is_set(),
            Attribute::RightBottomCorner => B::is_set() && R::is_set(),
            _ => true,
        }
    }

    /// The type of a builder offers the setter of a corner exactly when both
    /// sides of that corner have a color: with either side missing, or both,
    /// the call cannot be written, for each of the four corners.
    pub proof fn lemma_setter_needs_sides(&self, attribute: Attribute)
        requires
            self.wf(),
        ensures
            Self::has_setter(attribute) <==> offered(self@, attribute),
    {
    }

    /// Wraps a border whose sides are those that the type names.
    pub(crate) fn from_border(inner: Border<Color>) -> (r: BorderColor<T, B, L, R>)
        requires
            T::is_set() <==> inner.top is Some,
            B::is_set() <==> inner.bottom is Some,
            L::is_set() <==> inner.left is Some,
            R::is_set() <==> inner.right is Some,
            inner.corners_have_sides(),
        ensures
            r@ == inner,
    {
        BorderColor {
            inner,
            _top: PhantomData,
            _bottom: PhantomData,
            _left: PhantomData,
            _right: PhantomData,
        }
    }

    /// Sets the color of the top side.
    pub fn top(self, c: Color) -> (r: BorderColor<On, B, L, R>)
        ensures
            r@ == self@.set(Attribute::Top, c),
    {
        proof {
            use_type_invariant(&self);
        }
        let mut inner = self.inner;
        inner.top = Some(c);
        BorderColor::from_border(inner)
    }

    /// Sets the color of the bottom side.
    pub fn bottom(self, c: Color) -> (r: BorderColor<T, On, L, R>)
        ensures
            r@ == self@.set(Attribute::Bottom, c),
    {
        proof {
            use_type_invariant(&self);
        }
        let mut inner = self.inner;
        inner.bottom = Some(c);
        BorderColor::from_border(inner)
    }

    /// Sets the color of the left side.
    pub fn left(self, c: Color) -> (r: BorderColor<T, B, On, R>)
        ensures
            r@ == self@.set(Attribute::Left, c),
    {
        proof {
            use_type_invariant(&self);
        }
        let mut inner = self.inner;
        inner.left = Some(c);
        BorderColor::from_border(inner)
    }

    /// Sets the color of the right side.
    pub fn right(self, c: Color) -> (r: BorderColor<T, B, L, On>)
        ensures
            r@ == self@.set(Attribute::Right, c),
    {
        proof {
            use_type_invariant(&self);
        }
        let mut inner = self.inner;
        inner.right = Some(c);
        BorderColor::from_border(inner)
    }

    /// Ends the construction and hands out the border.
    pub fn into_inner(self) -> (border: Border<Color>)
        ensures
            border == self@,
            border.corners_have_sides(),
    {
        proof {
            use_type_invariant(&self);
        }
        self.inner
    }
}

impl BorderColor<(), (), (), ()> {
    /// Creates a builder whose border has no color at all.
    pub fn new() -> (r: Self)
        ensures
            r@ == Border::<Color>::spec_empty(),
    {
        Self::from_border(Border::empty())
    }
}

impl BorderColor<On, On, On, On> {
    /// Creates a builder whose border has all eight colors, so that every
    /// setter, those of the corners included, can be called on it.
    pub fn full(
        top: Color,
        bottom: Color,
        left: Color,
        right: Color,
        top_left: Color,
        top_right: Color,
        bottom_left: Color,
        bottom_right: Color,
    ) -> (r: Self)
        ensures
            r@ == Border::spec_full(
                top,
                bottom,
                left,
                right,
                top_left,
                top_right,
                bottom_left,
                bottom_right,
            ),
    {
        Self::from_border(
            Border::full(
                top,
                bottom,
                left,
                right,
                top_left,
                top_right,
                bottom_left,
                bottom_right,
            ),
        )
    }

    /// Creates a builder whose border has the color `c` on every side and in
    /// every corner: what [`BorderColor::full`] gives for eight times `c`.
    pub fn filled(c: Color) -> (r: Self)
        ensures
            r@ == Border::spec_full(c, c, c, c, c, c, c, c),
    {
        Self::full(c, c, c, c, c, c, c, c)
    }
}

impl<B: SideState, R: SideState> BorderColor<On, B, On, R> {
    /// Sets the color of the corner between the top and the left side.
    pub fn corner_top_left(self, c: Color) -> (r: Self)
        ensures
            offered(self@, Attribute::LeftTopCorner),
            r@ == self@.set(Attribute::LeftTopCorner, c),
    {
        proof {
            use_type_invariant(&self);
        }
        let mut inner = self.inner;
        inner.left_top_corner = Some(c);
        BorderColor::from_border(inner)
    }
}

impl<B: SideState, L: SideState> BorderColor<On, B, L, On> {
    /// Sets the color of the corner between the top and the right side.
    pub fn corner_top_right(self, c: Color) -> (r: Self)
        ensures
            offered(self@, Attribute::RightTopCorner),
            r@ == self@.set(Attribute::RightTopCorner, c),
    {
        proof {
            use_type_invariant(&self);
        }
        let mut inner = self.inner;
        inner.right_top_corner = Some(c);
        BorderColor::from_border(inner)
    }
}

impl<T: SideState, R: SideState> BorderColor<T, On, On, R> {
    /// Sets the color of the corner between the bottom and the left side.
    pub fn corner_bottom_left(self, c: Color) -> (r: Self)
        ensures
            offered(self@, Attribute::LeftBottomCorner),
            r@ == self@.set(Attribute::LeftBottomCorner, c),
    {
        proof {
            use_type_invariant(&self);
        }
        let mut inner = self.inner;
        inner.left_bottom_corner = Some(c);
        BorderColor::from_border(inner)
    }
}

impl<T: SideState, L: SideState> BorderColor<T, On, L, On> {
    /// Sets the color of the corner between the bottom and the right side.
    pub fn corner_bottom_right(self, c: Color) -> (r: Self)
        ensures
            offered(self@, Attribute::RightBottomCorner),
            r@ == self@.set(Attribute::RightBottomCorner, c),
    {
        proof {
            use_type_invariant(&self);
        }
        let mut inner = self.inner;
        inner.right_bottom_corner = Some(c);
        BorderColor::from_border(inner)
    }
}

impl<T: SideState, B: SideState, L: SideState, R: SideState> Clone for BorderColor<T, B, L, R> {
    fn clone(&self) -> (r: Self)
        ensures
            r@ == self@,
    {
        proof {
            use_type_invariant(self);
        }
        BorderColor::from_border(self.inner)
    }
}

impl Default for BorderColor<(), (), (), ()> {
    fn default() -> (r: Self)
        ensures
            r@ == Border::<Color>::spec_empty(),
    {
        Self::new()
    }
}

impl<T, B, L, R> From<BorderColor<T, B, L, R>> for Border<Color> where
    T: SideState,
    B: SideState,
    L: SideState,
    R: SideState,
 {
    fn from(value: BorderColor<T, B, L, R>) -> (border: Self)
        ensures
            border.corners_have_sides(),
    {
        value.into_inner()
    }
}

impl<T, B, L, R> FromSpecImpl<BorderColor<T, B, L, R>> for Border<Color> where
    T: SideState,
    B: SideState,
    L: SideState,
    R: SideState,
 {
    open spec fn obeys_from_spec() -> bool {
        true
    }

    open spec fn from_spec(value: BorderColor<T, B, L, R>) -> Self {
        value@
    }
}

/// The cells of the rows before `row`, and those of the row `row` before the
/// column `col`, in a grid with `count_columns` columns.
spec fn cells_before(row: usize, col: usize, count_columns: usize) -> Set<Position> {
    Set::new(
        |pos: Position| pos.1 < count_columns && (pos.0 < row || (pos.0 == row && pos.1 < col)),
    )
}

impl<T: SideState, B: SideState, L: SideState, R: SideState> BorderColor<T, B, L, R> {
    /// Lays the border over every cell that `entity` selects in a grid with
    /// `count_rows` rows and `count_columns` columns. The attributes that the
    /// border has replace those of the cell; everything else in `cfg` stays as
    /// it is.
    pub fn apply(
        self,
        entity: Entity,
        count_rows: usize,
        count_columns: usize,
        cfg: &mut ColoredConfig,
    )
        ensures
            final(cfg)@ == laid_over(old(cfg)@, entity.cells(count_rows, count_columns), self@),
    {
        let border_color = self.into_inner();

        let positions = entity.iter(count_rows, count_columns);
        let ghost before = cfg@;
        let mut i: usize = 0;
        while i < positions.len()
            invariant
                i <= positions@.len(),
                cfg@ == laid_in_turn(before, positions@.take(i as int), border_color),
            decreases positions@.len() - i,
        {
            cfg.set_border_color(positions[i], border_color);
            proof {
                assert(positions@.take(i + 1).drop_last() =~= positions@.take(i as int));
            }
            i += 1;
        }
        proof {
            assert(positions@.take(i as int) =~= positions@);
            lemma_laid_over_is_laid_in_turn(before, positions@, border_color);
            assert(positions@.to_set() =~= entity.cells(count_rows, count_columns));
        }
    }

    /// Lays the border over every cell of a grid with `count_rows` rows and
    /// `count_columns` columns, row by row. The attributes that the border has
    /// replace those of the cell; everything else in `cfg` stays as it is.
    pub fn apply_to_all(self, count_rows: usize, count_columns: usize, cfg: &mut ColoredConfig)
        ensures
            final(cfg)@ == laid_over(old(cfg)@, grid_cells(count_rows, count_columns), self@),
    {
        let border_color = self.into_inner();

        let ghost before = cfg@;
        proof {
            lemma_laid_over_nothing(before, cells_before(0, 0, count_columns), border_color);
        }
        let mut row: usize = 0;
        while row < count_rows
            invariant
                row <= count_rows,
                cfg@ == laid_over(before, cells_before(row, 0, count_columns), border_color),
            decreases count_rows - row,
        {
            let mut col: usize = 0;
            while col < count_columns
                invariant
                    row < count_rows,
                    col <= count_columns,
                    cfg@ == laid_over(before, cells_before(row, col, count_columns), border_color),
                decreases count_columns - col,
            {
                cfg.set_border_color((row, col), border_color);
                proof {
                    lemma_laid_over_one_more(
                        before,
                        cells_before(row, col, count_columns),
                        (row, col),
                        border_color,
                    );
                    assert(cells_before(row, col, count_columns).insert((row, col))
                        =~= cells_before(row, (col + 1) as usize, count_columns));
                }
                col += 1;
            }
            proof {
                assert(cells_before(row, col, count_columns) =~= cells_before(
                    (row + 1) as usize,
                    0,
                    count_columns,
                ));
            }
            row += 1;
        }
        proof {
            assert(cells_before(row, 0, count_columns) =~= grid_cells(count_rows, count_columns));
        }
    }
}

impl<Data, T, B, L, R> CellOption<Data, ColoredConfig> for BorderColor<T, B, L, R> where
    Data: Records + ExactRecords,
    T: SideState,
    B: SideState,
    L: SideState,
    R: SideState,
 {
    /// Lays the border over every cell that `entity` selects in the grid of
    /// `records`, whose numbers of rows and columns it asks for once.
    fn change(self, records: &mut Data, cfg: &mut ColoredConfig, entity: Entity)
        ensures
            exists|count_rows: usize, count_columns: usize|
                #[trigger] may_count(&*old(records), count_rows, count_columns) && final(cfg)@
                    == laid_over(old(cfg)@, entity.cells(count_rows, count_columns), self@),
            *final(records) == *old(records),
    {
        let count_rows = records.count_rows();
        let count_columns = records.count_columns();
        assert(may_count(&*old(records), count_rows, count_columns));

        self.apply(entity, count_rows, count_columns, cfg)
    }
}

impl<Data, D, T, B, L, R> TableOption<Data, D, ColoredConfig> for BorderColor<T, B, L, R> where
    Data: Records + ExactRecords,
    T: SideState,
    B: SideState,
    L: SideState,
    R: SideState,
 {
    /// Lays the border over every cell of the grid of `records`, whose numbers
    /// of rows and columns it asks for once.
    fn change(self, records: &mut Data, cfg: &mut ColoredConfig, dimension: &mut D)
        ensures
            exists|count_rows: usize, count_columns: usize|
                #[trigger] may_count(&*old(records), count_rows, count_columns) && final(cfg)@
                    == laid_over(old(cfg)@, grid_cells(count_rows, count_columns), self@),
            *final(records) == *old(records),
            *final(dimension) == *old(dimension),
    {
        let count_rows = records.count_rows();
        let count_columns = records.count_columns();
        assert(may_count(&*old(records), count_rows, count_columns));

        self.apply_to_all(count_rows, count_columns, cfg)
    }
}

/// Selecting the whole grid and changing the table as a whole come to the
/// same, and both to laying the border over the cells `(row, col)` with
/// `row < count_rows` and `col < count_cols` one by one, in whatever order
/// `positions` lists them.
pub proof fn lemma_global_is_every_cell(
    colors: BorderColors,
    border: Border<Color>,
    count_rows: usize,
    count_cols: usize,
    positions: Seq<Position>,
)
    requires
        forall|pos: Position|
            positions.contains(pos) <==> pos.0 < count_rows && pos.1 < count_cols,
    ensures
        laid_over(colors, Entity::Global.cells(count_rows, count_cols), border) == laid_over(
            colors,
            grid_cells(count_rows, count_cols),
            border,
        ),
        laid_over(colors, Entity::Global.cells(count_rows, count_cols), border) == laid_in_turn(
            colors,
            positions,
            border,
        ),
{
    Entity::lemma_global_cells(count_rows, count_cols);
    lemma_laid_over_is_laid_in_turn(colors, positions, border);
    assert(positions.to_set() =~= grid_cells(count_rows, count_cols));
}

/// Where a selection holds no cell of the grid, laying a border over it
/// leaves every color as it was.
pub proof fn lemma_nothing_selected(
    colors: BorderColors,
    border: Border<Color>,
    entity: Entity,
    count_rows: usize,
    count_cols: usize,
)
    requires
        forall|pos: Position| !entity.covers(pos, count_rows, count_cols),
    ensures
        laid_over(colors, entity.cells(count_rows, count_cols), border) == colors,
{
    lemma_laid_over_nothing(colors, entity.cells(count_rows, count_cols), border);
}

} // verus!
