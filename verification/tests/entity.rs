use tabled::grid::config::{Entity, Position};

fn none() -> Vec<Position> {
    Vec::new()
}

#[test]
fn global_lists_every_cell_row_by_row() {
    assert_eq!(
        Entity::Global.iter(2, 3),
        vec![(0, 0), (0, 1), (0, 2), (1, 0), (1, 1), (1, 2)]
    );
}

#[test]
fn global_of_a_single_cell_grid() {
    assert_eq!(Entity::Global.iter(1, 1), vec![(0, 0)]);
}

#[test]
fn row_lists_the_cells_of_that_row() {
    assert_eq!(Entity::Row(1).iter(3, 2), vec![(1, 0), (1, 1)]);
}

#[test]
fn column_lists_the_cells_of_that_column() {
    assert_eq!(Entity::Column(1).iter(3, 2), vec![(0, 1), (1, 1), (2, 1)]);
}

#[test]
fn cell_lists_itself() {
    assert_eq!(Entity::Cell(2, 1).iter(3, 2), vec![(2, 1)]);
}

#[test]
fn last_row_and_last_column_are_inside() {
    assert_eq!(Entity::Row(2).iter(3, 2), vec![(2, 0), (2, 1)]);
    assert_eq!(Entity::Column(1).iter(2, 2), vec![(0, 1), (1, 1)]);
    assert_eq!(Entity::Cell(2, 1).iter(3, 2), vec![(2, 1)]);
}

#[test]
fn row_beyond_the_grid_lists_nothing() {
    assert_eq!(Entity::Row(3).iter(3, 2), none());
    assert_eq!(Entity::Row(usize::MAX).iter(3, 2), none());
}

#[test]
fn column_beyond_the_grid_lists_nothing() {
    assert_eq!(Entity::Column(2).iter(3, 2), none());
    assert_eq!(Entity::Column(usize::MAX).iter(3, 2), none());
}

#[test]
fn cell_beyond_the_grid_lists_nothing() {
    assert_eq!(Entity::Cell(3, 0).iter(3, 2), none());
    assert_eq!(Entity::Cell(0, 2).iter(3, 2), none());
    assert_eq!(Entity::Cell(3, 2).iter(3, 2), none());
}

#[test]
fn grid_without_rows_lists_nothing() {
    assert_eq!(Entity::Global.iter(0, 4), none());
    assert_eq!(Entity::Row(0).iter(0, 4), none());
    assert_eq!(Entity::Column(0).iter(0, 4), none());
    assert_eq!(Entity::Cell(0, 0).iter(0, 4), none());
}

#[test]
fn grid_without_columns_lists_nothing() {
    assert_eq!(Entity::Global.iter(4, 0), none());
    assert_eq!(Entity::Row(0).iter(4, 0), none());
    assert_eq!(Entity::Column(0).iter(4, 0), none());
    assert_eq!(Entity::Cell(0, 0).iter(4, 0), none());
}

#[test]
fn listing_twice_gives_the_same_list() {
    assert_eq!(Entity::Global.iter(3, 3), Entity::Global.iter(3, 3));
    assert_eq!(Entity::Column(2).iter(3, 3), Entity::Column(2).iter(3, 3));
}
