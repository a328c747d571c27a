use raytrace::canvas::{c_equals, canvas, Canvas};
use raytrace::color::{color, Color};

// A channel given as a fraction of full intensity, in the canvas's steps of 1/256.
fn steps(value: f64) -> i32 {
    (value * 256.0).floor() as i32
}

fn shade(r: f64, g: f64, b: f64) -> Color {
    color(steps(r), steps(g), steps(b))
}

fn read_lines(text: &str) -> Vec<String> {
    let mut result = Vec::new();
    for line in text.lines() {
        result.push(line.to_string())
    }
    result
}

#[test]
fn canvas_has_width_and_height() {
    let c = Canvas { width: 10, height: 20, pixels: vec![vec![shade(0.0, 0.0, 0.0)]] };
    assert!((c.width == 10) && (c.height == 20));
}

#[test]
fn canvas_1_1_has_1_pixel() {
    let c = Canvas { width: 1, height: 1, pixels: vec![vec![shade(0.0, 0.0, 0.0)]] };
    assert!((c.pixels.len() == 1) && (c.pixels[0].len() == 1));
}

#[test]
fn canvas_default_color_eq_0_0_0() {
    let c = Canvas { width: 1, height: 1, pixels: vec![vec![shade(0.0, 0.0, 0.0)]] };
    assert!(c.pixels[0][0].equals(shade(0.0, 0.0, 0.0)));
}

#[test]
fn canvas_created_with_canvas() {
    let c = canvas(1, 1);
    assert!(c.equals(Canvas { width: 1, height: 1, pixels: vec![vec![shade(0.0, 0.0, 0.0)]] }));
}

#[test]
fn canvas_created_with_canvas_has_pixel_array() {
    let c = canvas(10, 20);
    assert!(c.pixels.len() == 20 && c.pixels[0].len() == 10);
}

#[test]
fn writing_pixels_to_canvas() {
    let mut c = canvas(10, 20);
    let red = shade(1.0, 0.0, 0.0);
    c.write_pixel(2, 3, red);
    assert!(c.pixel_at(2, 3).equals(red));
}

#[test]
fn constructing_ppm_header() {
    let c = canvas(5, 3);
    let text = c.to_ppm();

    let result = ["P3", "5 3", "255"];
    let lines = read_lines(&text);

    for i in 0..3 {
        assert_eq!(result[i], lines[i]);
    }
}

#[test]
fn pixel_value_to_255_scale() {
    let a = 1.0;
    assert!(Canvas::pix_255(steps(a)) == 255);

    let b = 0.5;
    assert!(Canvas::pix_255(steps(b)) == 128);

    let c = 0.0;
    assert!(Canvas::pix_255(steps(c)) == 0);

    let d = 1.5;
    assert!(Canvas::pix_255(steps(d)) == 255);

    let e = -0.5;
    assert!(Canvas::pix_255(steps(e)) == 0);
}

#[test]
fn ppm_for_one_pixel() {
    let c = canvas(1, 1);
    let lines = read_lines(&c.to_ppm());
    assert_eq!("0 0 0 ", lines[3]);
}

#[test]
fn ppm_for_color() {
    let mut c = canvas(1, 1);
    let red = shade(1.0, 0.0, 0.0);
    c.write_pixel(0, 0, red);
    let lines = read_lines(&c.to_ppm());
    assert_eq!("255 0 0 ", lines[3]);
}

#[test]
fn pixel_to_string() {
    let black = shade(0.0, 0.0, 0.0);
    assert_eq!("0 0 0", Canvas::pixel_to_string(black));
    let red = shade(1.0, 0.0, 0.0);
    assert_eq!("255 0 0", Canvas::pixel_to_string(red));
    let green = shade(0.0, 1.0, 0.0);
    assert_eq!("0 255 0", Canvas::pixel_to_string(green));
    let blue = shade(0.0, 0.0, 1.0);
    assert_eq!("0 0 255", Canvas::pixel_to_string(blue));
    let grey = shade(0.5, 0.5, 0.5);
    assert_eq!("128 128 128", Canvas::pixel_to_string(grey));
}

#[test]
fn ppm_one_row_of_array() {
    let c = canvas(10, 10);
    let lines = read_lines(&c.to_ppm());
    assert_eq!("0 0 0 0 0 0 0 0 0 0 0 0 0 0 0 0 0 0 0 0 0 0 0 0 0 0 0 0 0 0 ", lines[3]);
}

#[test]
fn ppm_long_row() {
    let c = canvas(25, 10);
    let lines = read_lines(&c.to_ppm());
    assert_eq!("0 0 0 0 0 0 0 0 0 0 0 0 0 0 0 0 0 0 0 0 0 0 0 0 0 0 0 0 0 0 ", lines[3]);
}

#[test]
fn ppm_all_pixel_rows() {
    let c = canvas(5, 5);
    let lines = read_lines(&c.to_ppm());
    assert_eq!(lines.len(), 8);
    for n in 3..lines.len() {
        assert_eq!("0 0 0 0 0 0 0 0 0 0 0 0 0 0 0 ", lines[n]);
    }
}

#[test]
fn ppm_coloring_pixels() {
    let mut c = canvas(5, 3);
    let c1 = shade(1.5, 0.0, 0.0);
    let c2 = shade(0.0, 0.5, 0.0);
    let c3 = shade(-0.5, 0.0, 1.0);
    c.write_pixel(0, 0, c1);
    c.write_pixel(2, 1, c2);
    c.write_pixel(4, 2, c3);
    let lines = read_lines(&c.to_ppm());
    let expected = [
        "255 0 0 0 0 0 0 0 0 0 0 0 0 0 0 ",
        "0 0 0 0 0 0 0 128 0 0 0 0 0 0 0 ",
        "0 0 0 0 0 0 0 0 0 0 0 0 0 0 255 ",
    ];
    assert_eq!(lines.len(), 6);
    for n in 3..lines.len() {
        assert_eq!(expected[n - 3], lines[n]);
    }
}

#[test]
fn ppm_split_lines() {
    let w = 9;
    let h = 2;
    let mut c = canvas(w, h);
    let c1 = shade(1.0, 0.8, 0.6);
    for i in 0..w {
        for j in 0..h {
            c.write_pixel(i, j, c1);
        }
    }
    let lines = read_lines(&c.to_ppm());
    let expected = [
        "255 204 153 255 204 153 255 204 153 255 204 153 255 204 153 ",
        "255 204 153 255 204 153 255 204 153 255 204 153 ",
        "255 204 153 255 204 153 255 204 153 255 204 153 255 204 153 ",
        "255 204 153 255 204 153 255 204 153 255 204 153 ",
    ];
    assert_eq!(lines.len(), 7);
    for n in 3..lines.len() {
        assert_eq!(expected[n - 3], lines[n]);
    }
}

#[test]
fn ppm_terminated_by_newline() {
    let c = canvas(2, 2);
    let text = c.to_ppm();
    let bytes = text.as_bytes();
    let last_byte = bytes[bytes.len() - 1];
    assert_eq!('\n', last_byte as char);
}

#[test]
fn ppm_whole_text_of_a_small_canvas() {
    let mut c = canvas(2, 2);
    c.write_pixel(1, 0, color(300, 17, -4));
    c.write_pixel(0, 1, color(255, 256, 9));
    assert_eq!(c.to_ppm(), "P3\n2 2\n255\n0 0 0 255 17 0 \n255 255 9 0 0 0 \n");
}

#[test]
fn ppm_header_writes_large_sizes_in_decimal() {
    let c = Canvas { width: 1024, height: 70, pixels: vec![] };
    assert_eq!(c.to_ppm(), "P3\n1024 70\n255\n");
}

#[test]
fn ppm_empty_row_is_empty_text() {
    assert_eq!(Canvas::pixel_row_to_string(&vec![]), "");
}

#[test]
fn ppm_lines_stay_within_70_characters() {
    let mut row = Vec::new();
    for i in 0..40 {
        row.push(color(255 - i, 100 + i, i));
    }
    let text = Canvas::pixel_row_to_string(&row);
    for line in text.lines() {
        assert!(line.len() <= 70);
    }
    assert!(text.lines().count() > 1);
}

#[test]
fn ppm_rows_read_back_as_written_channels() {
    let mut row = Vec::new();
    for i in 0..30 {
        row.push(color(i * 20 - 50, 255 + i, 128 - i));
    }
    let text = Canvas::pixel_row_to_string(&row);
    let mut read = Vec::new();
    for word in text.split_whitespace() {
        read.push(word.parse::<i32>().unwrap());
    }
    let mut written = Vec::new();
    for p in &row {
        written.push(Canvas::pix_255(p.r));
        written.push(Canvas::pix_255(p.g));
        written.push(Canvas::pix_255(p.b));
    }
    assert_eq!(read, written);
}

#[test]
fn canvases_of_different_contents_differ() {
    let a = canvas(3, 2);
    let mut b = canvas(3, 2);
    assert!(c_equals(&a.pixels, &b.pixels));
    b.write_pixel(2, 1, color(1, 0, 0));
    assert!(!c_equals(&a.pixels, &b.pixels));
    assert!(!a.equals(b));
    assert!(!canvas(3, 2).equals(canvas(2, 3)));
    assert!(!c_equals(&vec![vec![color(0, 0, 0)]], &vec![vec![color(0, 0, 0), color(0, 0, 0)]]));
}

#[test]
fn write_pixel_leaves_the_rest() {
    let mut c = canvas(3, 3);
    c.write_pixel(1, 2, color(5, 6, 7));
    for y in 0..3 {
        for x in 0..3 {
            let want = if x == 1 && y == 2 { color(5, 6, 7) } else { color(0, 0, 0) };
            assert_eq!(c.pixel_at(x, y), want);
        }
    }
    assert_eq!((c.width, c.height), (3, 3));
}
