use tracer::canvas::Canvas;
use tracer::color::Color;
use tracer::scalar::Scalar;

fn um(v: i128) -> Scalar {
    Scalar::from_micros(v)
}

fn black() -> Color {
    Color::new(um(0), um(0), um(0))
}

#[test]
fn test_canvas_init() {
    let canvas = Canvas::new(10, 20);
    let (w, h) = canvas.shape();
    assert_eq!(w, 10);
    assert_eq!(h, 20);
    for y in 0..20 {
        for x in 0..10 {
            assert_eq!(canvas.get_pix((x, y)), black());
        }
    }
}

#[test]
fn test_canvas_set_get_pix() {
    let mut canvas = Canvas::new(10, 20);
    let expected = Color::new(um(1_000_000), um(0), um(0));
    canvas.set_pix((2, 3), expected);
    let c = canvas.get_pix((2, 3));
    assert_eq!(c, expected);
    assert_eq!(canvas.get_pix((0, 0)), black());
}

#[test]
fn test_canvas_write_ppm_header() {
    let canvas = Canvas::new(10, 20);
    let expected = "P3\n10 20\n255";
    let bytes = canvas.to_ppm();
    let string_result = String::from_utf8(bytes).expect("Should to UTF 8");
    let collection: Vec<&str> = string_result.split("\n").collect();
    assert_eq!(collection[0..3].join("\n"), expected);
}

#[test]
fn test_canvas_write_ppm_1() {
    let mut canvas = Canvas::new(5, 3);
    let expected = "255 0 0 0 0 0 0 0 0 0 0 0 0 0 0\n0 0 0 0 0 0 0 128 0 0 0 0 0 0 0\n0 0 0 0 0 0 0 0 0 0 0 0 0 0 255";
    canvas.set_pix((0, 0), Color { r: um(1_500_000), g: um(0), b: um(0) });
    canvas.set_pix((2, 1), Color { r: um(0), g: um(500_000), b: um(0) });
    canvas.set_pix((4, 2), Color { r: um(-500_000), g: um(0), b: um(1_000_000) });
    let bytes = canvas.to_ppm();
    let string_result = String::from_utf8(bytes).expect("Should to UTF 8");
    let collection: Vec<&str> = string_result.split("\n").collect();
    assert_eq!(collection[3..6].join("\n"), expected);
}

#[test]
fn test_canvas_write_ppm_2() {
    let mut canvas = Canvas::new(10, 2);
    let expected = "255 204 153 255 204 153 255 204 153 255 204 153 255 204 153 255 204\n153 255 204 153 255 204 153 255 204 153 255 204 153\n255 204 153 255 204 153 255 204 153 255 204 153 255 204 153 255 204\n153 255 204 153 255 204 153 255 204 153 255 204 153";
    for row in 0..2 {
        for col in 0..10 {
            canvas.set_pix(
                (col, row),
                Color { r: um(1_000_000), g: um(800_000), b: um(600_000) },
            );
        }
    }
    let bytes = canvas.to_ppm();
    let string_result = String::from_utf8(bytes).expect("Should to UTF 8");
    let collection: Vec<&str> = string_result.split("\n").collect();
    assert_eq!(collection[3..7].join("\n"), expected);
}

#[test]
fn test_canvas_write_ppm_last_char() {
    let canvas = Canvas::new(5, 3);
    let bytes = canvas.to_ppm();
    let string_result = String::from_utf8(bytes).expect("Should to UTF 8");
    assert_eq!(string_result.chars().last(), Some('\n'));
}
