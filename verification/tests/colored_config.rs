use tabled::grid::config::{Border, ColoredConfig};
use tabled::settings::Color;

fn only_top(c: Color) -> Border<Color> {
    let mut border = Border::empty();
    border.top = Some(c);
    border
}

fn only_bottom(c: Color) -> Border<Color> {
    let mut border = Border::empty();
    border.bottom = Some(c);
    border
}

#[test]
fn new_config_has_no_colors() {
    let cfg = ColoredConfig::new();

    assert_eq!(cfg.count_border_colors(), 0);
    assert_eq!(cfg.get_border_color((0, 0)), None);
}

#[test]
fn default_config_has_no_colors() {
    let cfg = ColoredConfig::default();

    assert_eq!(cfg.count_border_colors(), 0);
    assert_eq!(cfg.get_border_color((3, 7)), None);
}

#[test]
fn set_border_color_stores_the_border() {
    let mut cfg = ColoredConfig::new();

    cfg.set_border_color((1, 2), only_top(Color::Red));

    assert_eq!(cfg.get_border_color((1, 2)), Some(only_top(Color::Red)));
    assert_eq!(cfg.get_border_color((2, 1)), None);
    assert_eq!(cfg.count_border_colors(), 1);
}

#[test]
fn set_border_color_keeps_the_attributes_it_does_not_name() {
    let mut cfg = ColoredConfig::new();
    cfg.set_border_color((0, 0), only_bottom(Color::Blue));

    cfg.set_border_color((0, 0), only_top(Color::Red));

    let mut expected = Border::empty();
    expected.top = Some(Color::Red);
    expected.bottom = Some(Color::Blue);
    assert_eq!(cfg.get_border_color((0, 0)), Some(expected));
    assert_eq!(cfg.count_border_colors(), 1);
}

#[test]
fn set_border_color_replaces_the_attributes_it_names() {
    let mut cfg = ColoredConfig::new();
    cfg.set_border_color((0, 0), only_top(Color::Blue));

    cfg.set_border_color((0, 0), only_top(Color::Red));

    assert_eq!(cfg.get_border_color((0, 0)), Some(only_top(Color::Red)));
}

#[test]
fn set_border_color_leaves_other_cells_alone() {
    let mut cfg = ColoredConfig::new();
    cfg.set_border_color((0, 0), only_top(Color::Blue));
    cfg.set_border_color((0, 1), only_bottom(Color::Green));

    cfg.set_border_color((0, 0), only_bottom(Color::Red));

    assert_eq!(cfg.get_border_color((0, 1)), Some(only_bottom(Color::Green)));
    assert_eq!(cfg.count_border_colors(), 2);
}

#[test]
fn row_and_column_are_not_mixed_up() {
    let mut cfg = ColoredConfig::new();

    cfg.set_border_color((1, 2), only_top(Color::Red));
    cfg.set_border_color((2, 1), only_top(Color::Blue));

    assert_eq!(cfg.get_border_color((1, 2)), Some(only_top(Color::Red)));
    assert_eq!(cfg.get_border_color((2, 1)), Some(only_top(Color::Blue)));
    assert_eq!(cfg.get_border_color((1, 1)), None);
    assert_eq!(cfg.get_border_color((2, 2)), None);
}

#[test]
fn an_empty_border_changes_nothing() {
    let mut cfg = ColoredConfig::new();
    cfg.set_border_color((0, 0), only_top(Color::Blue));

    cfg.set_border_color((0, 0), Border::empty());
    cfg.set_border_color((5, 5), Border::empty());

    assert_eq!(cfg.get_border_color((0, 0)), Some(only_top(Color::Blue)));
    assert_eq!(cfg.get_border_color((5, 5)), None);
    assert_eq!(cfg.count_border_colors(), 1);
}

#[test]
fn cells_far_apart_are_kept() {
    let mut cfg = ColoredConfig::new();

    cfg.set_border_color((usize::MAX, 0), only_top(Color::Cyan));
    cfg.set_border_color((0, usize::MAX), only_bottom(Color::White));

    assert_eq!(cfg.get_border_color((usize::MAX, 0)), Some(only_top(Color::Cyan)));
    assert_eq!(cfg.get_border_color((0, usize::MAX)), Some(only_bottom(Color::White)));
    assert_eq!(cfg.count_border_colors(), 2);
}
