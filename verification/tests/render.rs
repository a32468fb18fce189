use game_of_life::context::Context;
use game_of_life::render::{
    canvas_size, cell_fills, cell_under, fill_style, grid_lines, offset, Line, CELL_SIZE,
    DEAD_COLOR, DEFAULT_COLOR, GRID_COLOR,
};
use game_of_life::universe::Universe;
use wasm_bindgen::{JsCast, JsValue};
use web_sys::CanvasRenderingContext2d;

fn context(width: u32, height: u32, color: bool) -> Context {
    let surface = JsValue::NULL.unchecked_into::<CanvasRenderingContext2d>();
    let mut universe = Universe::new(Some((width, height)));
    universe.clear();
    Context::new(surface, universe, color)
}

fn is_hex_color(text: &str) -> bool {
    text.len() == 7
        && text.starts_with('#')
        && text[1..].chars().all(|c| matches!(c, '0'..='9' | 'a'..='f'))
}

#[test]
fn colors_and_cell_size() {
    assert_eq!(CELL_SIZE, 10);
    assert_eq!(GRID_COLOR, "#CCCCCC");
    assert_eq!(DEAD_COLOR, "#FFFFFF");
    assert_eq!(DEFAULT_COLOR, "#000000");
}

#[test]
fn offset_is_eleven_pixels_per_cell_and_one() {
    assert_eq!(offset(0), 1);
    assert_eq!(offset(1), 12);
    assert_eq!(offset(64), 705);
    assert_eq!(offset(u32::MAX), 47_244_640_246);
}

#[test]
fn canvas_size_of_the_default_universe() {
    assert_eq!(canvas_size(64), 705);
    assert_eq!(canvas_size(0), 1);
    assert_eq!(canvas_size(1), 12);
}

#[test]
fn canvas_size_stops_at_the_largest_number() {
    assert_eq!(canvas_size(390_451_572), 4_294_967_293);
    assert_eq!(canvas_size(390_451_573), u32::MAX);
    assert_eq!(canvas_size(u32::MAX), u32::MAX);
}

#[test]
fn cell_under_a_pixel() {
    assert_eq!(cell_under(0), 0);
    assert_eq!(cell_under(10), 0);
    assert_eq!(cell_under(11), 1);
    assert_eq!(cell_under(23), 2);
    assert_eq!(cell_under(704), 64);
    assert_eq!(cell_under(i32::MAX), 195_225_786);
}

#[test]
fn cell_under_a_pixel_before_the_canvas() {
    assert_eq!(cell_under(-1), 0);
    assert_eq!(cell_under(-11), 0);
    assert_eq!(cell_under(i32::MIN), 0);
}

#[test]
fn fill_style_of_each_state() {
    assert_eq!(fill_style(false, false, "#123abc"), "#FFFFFF");
    assert_eq!(fill_style(false, true, "#123abc"), "#FFFFFF");
    assert_eq!(fill_style(true, false, "#123abc"), "#000000");
    assert_eq!(fill_style(true, true, "#123abc"), "#123abc");
}

#[test]
fn grid_lines_of_a_small_universe() {
    let universe = Universe::new(Some((2, 1)));
    let lines = grid_lines(&universe);
    let expected = vec![
        Line { x0: 1, y0: 0, x1: 1, y1: 12 },
        Line { x0: 12, y0: 0, x1: 12, y1: 12 },
        Line { x0: 23, y0: 0, x1: 23, y1: 12 },
        Line { x0: 0, y0: 1, x1: 23, y1: 1 },
        Line { x0: 0, y0: 12, x1: 23, y1: 12 },
    ];
    assert_eq!(lines, expected);
}

#[test]
fn grid_lines_of_the_default_universe() {
    let universe = Universe::new(None);
    let lines = grid_lines(&universe);
    assert_eq!(lines.len(), 130);
    assert_eq!(lines[0], Line { x0: 1, y0: 0, x1: 1, y1: 705 });
    assert_eq!(lines[64], Line { x0: 705, y0: 0, x1: 705, y1: 705 });
    assert_eq!(lines[65], Line { x0: 0, y0: 1, x1: 705, y1: 1 });
    assert_eq!(lines[129], Line { x0: 0, y0: 705, x1: 705, y1: 705 });
}

#[test]
fn cell_fills_in_black_and_white() {
    let mut context = context(3, 2, false);
    context.universe_mut().set_alive(&[(0, 1), (1, 2)]);
    let fills = cell_fills(&context);
    let seen: Vec<(u64, u64, &str)> =
        fills.iter().map(|fill| (fill.x, fill.y, fill.style.as_str())).collect();
    let expected = vec![
        (1, 1, "#FFFFFF"),
        (12, 1, "#000000"),
        (23, 1, "#FFFFFF"),
        (1, 12, "#FFFFFF"),
        (12, 12, "#FFFFFF"),
        (23, 12, "#000000"),
    ];
    assert_eq!(seen, expected);
}

#[test]
fn cell_fills_in_random_colors() {
    let mut context = context(3, 2, true);
    context.universe_mut().set_alive(&[(0, 1), (1, 2)]);
    let fills = cell_fills(&context);
    assert_eq!(fills.len(), 6);
    for (i, fill) in fills.iter().enumerate() {
        assert_eq!(fill.x, 11 * (i as u64 % 3) + 1);
        assert_eq!(fill.y, 11 * (i as u64 / 3) + 1);
        if i == 1 || i == 5 {
            assert!(is_hex_color(&fill.style), "{}", fill.style);
        } else {
            assert_eq!(fill.style, "#FFFFFF");
        }
    }
}

#[test]
fn random_colors_differ_between_cells() {
    let mut context = context(16, 16, true);
    for row in 0..16 {
        for col in 0..16 {
            context.universe_mut().toggle(row, col);
        }
    }
    let fills = cell_fills(&context);
    assert_eq!(fills.len(), 256);
    assert!(fills.iter().all(|fill| is_hex_color(&fill.style)));
    let first = &fills[0].style;
    assert!(fills.iter().any(|fill| &fill.style != first));
}
