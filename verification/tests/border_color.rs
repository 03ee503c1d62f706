use tabled::grid::config::Border;
use tabled::settings::style::BorderColor;
use tabled::settings::Color;

fn empty() -> Border<Color> {
    Border::empty()
}

#[test]
fn new_builder_has_no_color() {
    assert_eq!(BorderColor::new().into_inner(), empty());
}

#[test]
fn default_builder_is_the_new_one() {
    assert_eq!(BorderColor::default(), BorderColor::new());
}

#[test]
fn top_sets_the_top_side_only() {
    let border = BorderColor::new().top(Color::Red).into_inner();

    let mut expected = empty();
    expected.top = Some(Color::Red);
    assert_eq!(border, expected);
}

#[test]
fn bottom_sets_the_bottom_side_only() {
    let border = BorderColor::new().bottom(Color::Blue).into_inner();

    let mut expected = empty();
    expected.bottom = Some(Color::Blue);
    assert_eq!(border, expected);
}

#[test]
fn left_sets_the_left_side_only() {
    let border = BorderColor::new().left(Color::Green).into_inner();

    let mut expected = empty();
    expected.left = Some(Color::Green);
    assert_eq!(border, expected);
}

#[test]
fn right_sets_the_right_side_only() {
    let border = BorderColor::new().right(Color::Yellow).into_inner();

    let mut expected = empty();
    expected.right = Some(Color::Yellow);
    assert_eq!(border, expected);
}

#[test]
fn top_left_corner_after_top_and_left() {
    let border = BorderColor::new()
        .top(Color::Red)
        .left(Color::Green)
        .corner_top_left(Color::Magenta)
        .into_inner();

    assert_eq!(border.top, Some(Color::Red));
    assert_eq!(border.left, Some(Color::Green));
    assert_eq!(border.left_top_corner, Some(Color::Magenta));
    assert_eq!(border.bottom, None);
    assert_eq!(border.right, None);
    assert_eq!(border.right_top_corner, None);
    assert_eq!(border.left_bottom_corner, None);
    assert_eq!(border.right_bottom_corner, None);
}

#[test]
fn top_right_corner_after_right_and_top() {
    let border = BorderColor::new()
        .right(Color::Yellow)
        .top(Color::Red)
        .corner_top_right(Color::Cyan)
        .into_inner();

    let mut expected = empty();
    expected.top = Some(Color::Red);
    expected.right = Some(Color::Yellow);
    expected.right_top_corner = Some(Color::Cyan);
    assert_eq!(border, expected);
}

#[test]
fn bottom_left_corner_after_bottom_and_left() {
    let border = BorderColor::new()
        .bottom(Color::Blue)
        .left(Color::Green)
        .corner_bottom_left(Color::White)
        .into_inner();

    let mut expected = empty();
    expected.bottom = Some(Color::Blue);
    expected.left = Some(Color::Green);
    expected.left_bottom_corner = Some(Color::White);
    assert_eq!(border, expected);
}

#[test]
fn bottom_right_corner_after_bottom_and_right() {
    let border = BorderColor::new()
        .bottom(Color::Blue)
        .right(Color::Yellow)
        .corner_bottom_right(Color::Black)
        .into_inner();

    let mut expected = empty();
    expected.bottom = Some(Color::Blue);
    expected.right = Some(Color::Yellow);
    expected.right_bottom_corner = Some(Color::Black);
    assert_eq!(border, expected);
}

#[test]
fn every_setter_in_one_chain() {
    let border = BorderColor::new()
        .top(Color::Red)
        .bottom(Color::Blue)
        .left(Color::Green)
        .right(Color::Yellow)
        .corner_top_left(Color::Magenta)
        .corner_top_right(Color::Cyan)
        .corner_bottom_left(Color::White)
        .corner_bottom_right(Color::Black)
        .into_inner();

    assert_eq!(
        border,
        Border::full(
            Color::Red,
            Color::Blue,
            Color::Green,
            Color::Yellow,
            Color::Magenta,
            Color::Cyan,
            Color::White,
            Color::Black,
        )
    );
}

#[test]
fn the_last_color_given_to_an_attribute_stays() {
    let border = BorderColor::new()
        .top(Color::Red)
        .left(Color::Green)
        .corner_top_left(Color::Magenta)
        .top(Color::Blue)
        .corner_top_left(Color::Cyan)
        .into_inner();

    let mut expected = empty();
    expected.top = Some(Color::Blue);
    expected.left = Some(Color::Green);
    expected.left_top_corner = Some(Color::Cyan);
    assert_eq!(border, expected);
}

#[test]
fn a_side_set_after_a_corner_leaves_the_corner() {
    let border = BorderColor::new()
        .top(Color::Red)
        .right(Color::Yellow)
        .corner_top_right(Color::Cyan)
        .bottom(Color::Blue)
        .into_inner();

    let mut expected = empty();
    expected.top = Some(Color::Red);
    expected.right = Some(Color::Yellow);
    expected.right_top_corner = Some(Color::Cyan);
    expected.bottom = Some(Color::Blue);
    assert_eq!(border, expected);
}

#[test]
fn full_sets_all_eight_attributes() {
    let border = BorderColor::full(
        Color::Red,
        Color::Blue,
        Color::Green,
        Color::Yellow,
        Color::Red,
        Color::Yellow,
        Color::Green,
        Color::Blue,
    )
    .into_inner();

    assert_eq!(border.top, Some(Color::Red));
    assert_eq!(border.bottom, Some(Color::Blue));
    assert_eq!(border.left, Some(Color::Green));
    assert_eq!(border.right, Some(Color::Yellow));
    assert_eq!(border.left_top_corner, Some(Color::Red));
    assert_eq!(border.right_top_corner, Some(Color::Yellow));
    assert_eq!(border.left_bottom_corner, Some(Color::Green));
    assert_eq!(border.right_bottom_corner, Some(Color::Blue));
}

#[test]
fn full_offers_every_corner_setter() {
    let border = BorderColor::filled(Color::Red)
        .corner_top_left(Color::Blue)
        .corner_top_right(Color::Green)
        .corner_bottom_left(Color::Yellow)
        .corner_bottom_right(Color::Magenta)
        .into_inner();

    assert_eq!(
        border,
        Border::full(
            Color::Red,
            Color::Red,
            Color::Red,
            Color::Red,
            Color::Blue,
            Color::Green,
            Color::Yellow,
            Color::Magenta,
        )
    );
}

#[test]
fn filled_is_full_with_one_color() {
    let colors = [
        Color::Black,
        Color::Red,
        Color::Green,
        Color::Yellow,
        Color::Blue,
        Color::Magenta,
        Color::Cyan,
        Color::White,
    ];
    for c in colors {
        assert_eq!(BorderColor::filled(c), BorderColor::full(c, c, c, c, c, c, c, c));
    }
}

#[test]
fn filled_differs_from_a_full_border_with_another_corner() {
    let c = Color::Red;

    assert_ne!(BorderColor::filled(c), BorderColor::full(c, c, c, c, c, c, c, Color::Blue));
}

#[test]
fn clone_of_a_builder_holds_the_same_border() {
    let builder = BorderColor::new().left(Color::Green).bottom(Color::Blue);

    let copy = builder.clone();

    assert_eq!(copy, builder);
    assert_eq!(copy.corner_bottom_left(Color::Red).into_inner().left, Some(Color::Green));
}

#[test]
fn a_builder_converts_into_its_border() {
    let builder = BorderColor::new().top(Color::Red).right(Color::Cyan);

    let border: Border<Color> = Border::from(builder);

    let mut expected = empty();
    expected.top = Some(Color::Red);
    expected.right = Some(Color::Cyan);
    assert_eq!(border, expected);
}
