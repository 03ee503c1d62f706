//! The colors of the borders of a grid, cell by cell.

use super::border::{attribute_over, Attribute, Border};
use super::entity::Position;
use crate::settings::color::Color;
use vstd::prelude::*;

verus! {

/// The border colors of a grid as a map: a cell is a key exactly when at least
/// one attribute of its border has a color.
pub type BorderColors = Map<Position, Border<Color>>;

/// What `colors` holds for `pos`: the stored border, or the empty border where
/// nothing is stored.
pub open spec fn border_at(colors: BorderColors, pos: Position) -> Border<Color> {
    if colors.contains_key(pos) {
        colors[pos]
    } else {
        Border::spec_empty()
    }
}

/// `colors` after `border` has been laid over the cell `pos`.
///
/// Only the attributes that `border` has are written; every other attribute of
/// the cell, and every other cell, stays as it is. A border without attributes
/// therefore changes nothing, and does not even make `pos` a key.
pub open spec fn laid_at(colors: BorderColors, pos: Position, border: Border<Color>)
    -> BorderColors {
    if border.is_empty() {
        colors
    } else {
        colors.insert(pos, border_at(colors, pos).merge(border))
    }
}

/// `colors` after `border` has been laid over each cell of `cells`.
pub open spec fn laid_over(colors: BorderColors, cells: Set<Position>, border: Border<Color>)
    -> BorderColors {
    if border.is_empty() {
        colors
    } else {
        Map::new(
            |pos: Position| colors.contains_key(pos) || cells.contains(pos),
            |pos: Position|
                if cells.contains(pos) {
                    border_at(colors, pos).merge(border)
                } else {
                    colors[pos]
                },
        )
    }
}

/// `colors` after `border` has been laid over the cells of `positions`, one
/// after the other, from the first to the last.
pub open spec fn laid_in_turn(
    colors: BorderColors,
    positions: Seq<Position>,
    border: Border<Color>,
) -> BorderColors
    decreases positions.len(),
{
    if positions.len() == 0 {
        colors
    } else {
        laid_at(laid_in_turn(colors, positions.drop_last(), border), positions.last(), border)
    }
}

/// Laying a border over cells is an update attribute by attribute: in a cell
/// that is among them, each attribute that the border has takes its color and
/// each attribute that it lacks stays as it was; a cell that is not among them
/// stays as it was altogether.
pub proof fn lemma_laid_over_attribute(
    colors: BorderColors,
    cells: Set<Position>,
    border: Border<Color>,
    pos: Position,
    attribute: Attribute,
)
    ensures
        border_at(laid_over(colors, cells, border), pos).get(attribute) == if cells.contains(pos) {
            attribute_over(border.get(attribute), border_at(colors, pos).get(attribute))
        } else {
            border_at(colors, pos).get(attribute)
        },
        border_at(colors, pos).get(attribute) is Some ==> border_at(
            laid_over(colors, cells, border),
            pos,
        ).get(attribute) is Some,
{
    border_at(colors, pos).lemma_merge_attribute(border, attribute);
    border_at(colors, pos).lemma_merge_laws(border);
}

/// Whether in every border that `colors` holds each corner that has a color
/// lies between two sides that have one.
pub open spec fn corners_have_sides_everywhere(colors: BorderColors) -> bool {
    forall|pos: Position| colors.contains_key(pos) ==> (#[trigger] colors[pos]).corners_have_sides()
}

/// No colored corner without its two colored sides comes about by laying a
/// border whose corners have their sides over borders whose corners have theirs.
pub proof fn lemma_laid_over_keeps_corners(
    colors: BorderColors,
    cells: Set<Position>,
    border: Border<Color>,
)
    requires
        corners_have_sides_everywhere(colors),
        border.corners_have_sides(),
    ensures
        corners_have_sides_everywhere(laid_over(colors, cells, border)),
{
    let after = laid_over(colors, cells, border);
    assert forall|pos: Position| after.contains_key(pos) implies (
    #[trigger] after[pos]).corners_have_sides() by {
        if colors.contains_key(pos) {
            assert(colors[pos].corners_have_sides());
        }
        border_at(colors, pos).lemma_merge_laws(border);
    }
}

/// Laying a border over no cell changes nothing.
pub proof fn lemma_laid_over_nothing(
    colors: BorderColors,
    cells: Set<Position>,
    border: Border<Color>,
)
    requires
        forall|pos: Position| !cells.contains(pos),
    ensures
        laid_over(colors, cells, border) == colors,
{
    assert(laid_over(colors, cells, border) =~= colors);
}

/// Laying a border over one cell more is laying it over that cell after the
/// others; in particular over a single cell it is `laid_at`.
pub proof fn lemma_laid_over_one_more(
    colors: BorderColors,
    cells: Set<Position>,
    pos: Position,
    border: Border<Color>,
)
    ensures
        laid_over(colors, cells.insert(pos), border) == laid_at(
            laid_over(colors, cells, border),
            pos,
            border,
        ),
        laid_over(colors, Set::empty().insert(pos), border) == laid_at(colors, pos, border),
{
    let under = border_at(colors, pos);
    under.lemma_merge_laws(border);
    assert(laid_over(colors, cells.insert(pos), border) =~= laid_at(
        laid_over(colors, cells, border),
        pos,
        border,
    ));
    assert(laid_over(colors, Set::empty().insert(pos), border) =~= laid_at(colors, pos, border));
}

/// Laying a border over a set of cells is the same as laying it over them one
/// by one, in whatever order they are listed and however often one of them is
/// listed.
pub proof fn lemma_laid_over_is_laid_in_turn(
    colors: BorderColors,
    positions: Seq<Position>,
    border: Border<Color>,
)
    ensures
        laid_in_turn(colors, positions, border) == laid_over(colors, positions.to_set(), border),
    decreases positions.len(),
{
    if positions.len() == 0 {
        lemma_laid_over_nothing(colors, positions.to_set(), border);
    } else {
        let front = positions.drop_last();
        lemma_laid_over_is_laid_in_turn(colors, front, border);
        lemma_laid_over_one_more(colors, front.to_set(), positions.last(), border);
        assert(positions.to_set() =~= front.to_set().insert(positions.last())) by {
            assert forall|pos: Position| positions.contains(pos) implies front.contains(pos) || pos
                == positions.last() by {
                let i = choose|i: int| 0 <= i < positions.len() && positions[i] == pos;
                if i < front.len() {
                    assert(front[i] == pos);
                }
            }
            assert forall|pos: Position| front.contains(pos) implies positions.contains(pos) by {
                let i = choose|i: int| 0 <= i < front.len() && front[i] == pos;
                assert(positions[i] == pos);
            }
            assert(positions.contains(positions[positions.len() - 1]));
        }
    }
}

/// One stored border with the cell it belongs to.
type Entry = (Position, Border<Color>);

/// Whether some entry belongs to `pos`.
spec fn stored(entries: Seq<Entry>, pos: Position) -> bool {
    exists|i: int| 0 <= i < entries.len() && (#[trigger] entries[i]).0 == pos
}

/// The index of an entry that belongs to `pos`, where there is one.
spec fn index_of(entries: Seq<Entry>, pos: Position) -> int {
    choose|i: int| 0 <= i < entries.len() && (#[trigger] entries[i]).0 == pos
}

/// Whether no two entries belong to the same cell.
spec fn one_entry_per_cell(entries: Seq<Entry>) -> bool {
    forall|i: int, j: int|
        0 <= i < j < entries.len() ==> (#[trigger] entries[i]).0 != (#[trigger] entries[j]).0
}

/// Whether every entry has at least one attribute.
spec fn no_blank_entry(entries: Seq<Entry>) -> bool {
    forall|i: int| 0 <= i < entries.len() ==> !(#[trigger] entries[i]).1.is_empty()
}

/// The entries as a map from cell to border.
spec fn as_map(entries: Seq<Entry>) -> BorderColors {
    Map::new(
        |pos: Position| stored(entries, pos),
        |pos: Position| entries[index_of(entries, pos)].1,
    )
}

/// Where no cell has two entries, the map holds each entry as it stands.
proof fn lemma_entry_in_map(entries: Seq<Entry>, i: int)
    requires
        one_entry_per_cell(entries),
        0 <= i < entries.len(),
    ensures
        as_map(entries).contains_key(entries[i].0),
        as_map(entries)[entries[i].0] == entries[i].1,
{
    let pos = entries[i].0;
    assert(stored(entries, pos));
    let k = index_of(entries, pos);
    assert(entries[k].0 == pos);
    assert(k == i);
}

/// Adding an entry for a cell that has none adds it to the map, and changes
/// nothing else.
proof fn lemma_entry_added(entries: Seq<Entry>, entry: Entry)
    requires
        one_entry_per_cell(entries),
        !stored(entries, entry.0),
    ensures
        one_entry_per_cell(entries.push(entry)),
        as_map(entries.push(entry)) == as_map(entries).insert(entry.0, entry.1),
{
    let after = entries.push(entry);
    assert forall|i: int, j: int| 0 <= i < j < after.len() implies (#[trigger] after[i]).0 != (
    #[trigger] after[j]).0 by {
        assert(after[i] == entries[i]);
        if j < entries.len() {
            assert(after[j] == entries[j]);
        }
    }
    assert(after[entries.len() as int] == entry);
    assert forall|pos: Position| stored(after, pos) <==> stored(entries, pos) || pos
        == entry.0 by {
        if stored(after, pos) {
            let i = index_of(after, pos);
            if i < entries.len() {
                assert(entries[i].0 == pos);
            }
        }
        if stored(entries, pos) {
            let i = index_of(entries, pos);
            assert(after[i].0 == pos);
        }
    }
    assert forall|pos: Position| stored(after, pos) implies as_map(after)[pos] == as_map(
        entries,
    ).insert(entry.0, entry.1)[pos] by {
        let i = index_of(after, pos);
        lemma_entry_in_map(after, i);
        if i < entries.len() {
            lemma_entry_in_map(entries, i);
        }
    }
    assert(as_map(after) =~= as_map(entries).insert(entry.0, entry.1));
}

/// Giving an entry another border replaces the border of its cell in the map,
/// and changes nothing else.
proof fn lemma_entry_replaced(entries: Seq<Entry>, i: int, border: Border<Color>)
    requires
        one_entry_per_cell(entries),
        0 <= i < entries.len(),
    ensures
        one_entry_per_cell(entries.update(i, (entries[i].0, border))),
        as_map(entries.update(i, (entries[i].0, border))) == as_map(entries).insert(
            entries[i].0,
            border,
        ),
{
    let after = entries.update(i, (entries[i].0, border));
    assert forall|a: int, b: int| 0 <= a < b < after.len() implies (#[trigger] after[a]).0 != (
    #[trigger] after[b]).0 by {
        assert(after[a].0 == entries[a].0);
        assert(after[b].0 == entries[b].0);
    }
    assert forall|pos: Position| stored(after, pos) <==> stored(entries, pos) by {
        if stored(after, pos) {
            let a = index_of(after, pos);
            assert(entries[a].0 == pos);
        }
        if stored(entries, pos) {
            let a = index_of(entries, pos);
            assert(after[a].0 == pos);
        }
    }
    assert(stored(entries, entries[i].0));
    assert forall|pos: Position| stored(after, pos) implies as_map(after)[pos] == as_map(
        entries,
    ).insert(entries[i].0, border)[pos] by {
        let a = index_of(after, pos);
        lemma_entry_in_map(after, a);
        lemma_entry_in_map(entries, a);
    }
    assert(as_map(after) =~= as_map(entries).insert(entries[i].0, border));
}

/// The keys of the map are as many as the entries, where no cell has two.
proof fn lemma_map_len(entries: Seq<Entry>)
    requires
        one_entry_per_cell(entries),
    ensures
        as_map(entries).dom().finite(),
        as_map(entries).dom().len() == entries.len(),
    decreases entries.len(),
{
    if entries.len() == 0 {
        assert(as_map(entries).dom() =~= Set::empty());
    } else {
        let front = entries.drop_last();
        let last = entries.last();
        lemma_map_len(front);
        assert(!stored(front, last.0)) by {
            if stored(front, last.0) {
                let i = index_of(front, last.0);
                assert(entries[i].0 == entries[entries.len() - 1].0);
            }
        }
        lemma_entry_added(front, last);
        assert(front.push(last) =~= entries);
    }
}

/// The colors of the borders of a grid.
///
/// For each cell the configuration keeps at most one border, which gathers
/// every attribute that was ever set for the cell. Its view is the map from
/// the cells that have a colored attribute to their borders.
#[derive(Debug)]
pub struct ColoredConfig {
    border_colors: Vec<Entry>,
}

impl ColoredConfig {
    /// The stored colors as a map.
    pub closed spec fn view(&self) -> BorderColors {
        as_map(self.border_colors@)
    }

    /// Whether the configuration is in order: it keeps one border per cell, and
    /// none without an attribute. Every configuration that exists is.
    #[verifier::type_invariant]
    pub closed spec fn wf(&self) -> bool {
        &&& one_entry_per_cell(self.border_colors@)
        &&& no_blank_entry(self.border_colors@)
    }

    /// In a configuration that is in order finitely many cells have colors, and
    /// each of them has at least one colored attribute.
    pub proof fn lemma_wf_view(&self)
        requires
            self.wf(),
        ensures
            self@.dom().finite(),
            forall|pos: Position| self@.contains_key(pos) ==> !(#[trigger] self@[pos]).is_empty(),
    {
        lemma_map_len(self.border_colors@);
        assert forall|pos: Position| self@.contains_key(pos) implies !(
        #[trigger] self@[pos]).is_empty() by {
            let i = index_of(self.border_colors@, pos);
            assert(self.border_colors@[i].0 == pos);
        }
    }

    /// Creates a configuration in which no border has a color.
    pub fn new() -> (r: Self)
        ensures
            r@ == BorderColors::empty(),
    {
        let r = ColoredConfig { border_colors: Vec::new() };
        assert(r@ =~= BorderColors::empty());
        r
    }

    /// Lays `border` over the cell `pos`: the attributes that `border` has
    /// replace those of the cell, all others stay.
    pub fn set_border_color(&mut self, pos: Position, border: Border<Color>)
        ensures
            final(self)@ == laid_at(old(self)@, pos, border),
    {
        proof {
            use_type_invariant(&*self);
        }
        if border.is_empty() {
            return ;
        }
        let mut entries: Vec<Entry> = Vec::new();
        core::mem::swap(&mut entries, &mut self.border_colors);
        match find(&entries, pos) {
            Some(i) => {
                let merged = entries[i].1.merge(border);
                proof {
                    lemma_entry_in_map(entries@, i as int);
                    lemma_entry_replaced(entries@, i as int, merged);
                    entries@[i as int].1.lemma_merge_laws(border);
                }
                entries.set(i, (pos, merged));
            },
            None => {
                proof {
                    lemma_entry_added(entries@, (pos, border));
                    Border::<Color>::spec_empty().lemma_merge_laws(border);
                }
                entries.push((pos, border));
            },
        }
        self.border_colors = entries;
    }

    /// Returns the border stored for the cell `pos`, if any of its attributes
    /// has a color.
    pub fn get_border_color(&self, pos: Position) -> (r: Option<Border<Color>>)
        ensures
            r is Some <==> self@.contains_key(pos),
            r is Some ==> r->0 == self@[pos] && !r->0.is_empty(),
    {
        proof {
            use_type_invariant(self);
        }
        match find(&self.border_colors, pos) {
            Some(i) => {
                proof {
                    lemma_entry_in_map(self.border_colors@, i as int);
                }
                Some(self.border_colors[i].1)
            },
            None => None,
        }
    }

    /// Returns the number of cells for which some attribute has a color.
    pub fn count_border_colors(&self) -> (r: usize)
        ensures
            self@.dom().finite(),
            r == self@.dom().len(),
    {
        proof {
            use_type_invariant(self);
            lemma_map_len(self.border_colors@);
        }
        self.border_colors.len()
    }
}

/// Looks for the entry that belongs to `pos`.
fn find(entries: &Vec<Entry>, pos: Position) -> (r: Option<usize>)
    ensures
        r matches Some(i) ==> i < entries@.len() && entries@[i as int].0 == pos,
        r is None ==> !stored(entries@, pos),
{
    let mut i: usize = 0;
    while i < entries.len()
        invariant
            i <= entries@.len(),
            forall|k: int| 0 <= k < i ==> (#[trigger] entries@[k]).0 != pos,
        decreases entries@.len() - i,
    {
        let here = entries[i].0;
        if here.0 == pos.0 && here.1 == pos.1 {
            return Some(i);
        }
        i += 1;
    }
    None
}

impl Default for ColoredConfig {
    fn default() -> (r: Self)
        ensures
            r@ == BorderColors::empty(),
    {
        ColoredConfig::new()
    }
}

} // verus!
