use raymath::canvas::Canvas;

#[test]
fn canvas() {
    let c = Canvas::new(10, 20, (0.0, 0.0, 0.0));
    assert_eq!(c.width(), 10);
    assert_eq!(c.height(), 20);
}

#[test]
fn writing_pixel() {
    let mut c = Canvas::new(10, 20, (0.0, 0.0, 0.0));
    let r = (1.0, 0.0, 0.0);
    c.set_pixel(2, 3, r);
    assert_eq!(c.get_pixel(2, 3), &r);
}

#[test]
fn to_canvas() {
    let c = Canvas::new(5, 3, (0u8, 0u8, 0u8));
    let output = c.to_ppm();
    let lines: Vec<&str> = output.split('\n').collect();
    assert_eq!(lines[0], "P3");
    assert_eq!(lines[1], "5 3");
    assert_eq!(lines[2], "255");
}

#[test]
fn to_big_canvas() {
    let mut c = Canvas::new(5, 3, (0u8, 0u8, 0u8));
    c.set_pixel(0, 0, (255, 0, 0));
    c.set_pixel(2, 1, (0, 128, 0));
    c.set_pixel(4, 2, (0, 0, 255));
    let output = c.to_ppm();
    let lines: Vec<&str> = output.split('\n').collect();
    assert_eq!(lines[0], "P3");
    assert_eq!(lines[1], "5 3");
    assert_eq!(lines[2], "255");
    assert_eq!(lines[3], "255 0 0 0 0 0 0 0 0 0 0 0 0 0 0");
    assert_eq!(lines[4], "0 0 0 0 0 0 0 128 0 0 0 0 0 0 0");
    assert_eq!(lines[5], "0 0 0 0 0 0 0 0 0 0 0 0 0 0 255");
}

#[test]
fn ends_with_newline() {
    let c = Canvas::new(5, 3, (0u8, 0u8, 0u8));
    let output: String = c.to_ppm();
    assert_eq!(output.chars().last(), Some('\n'));
}

#[test]
fn whole_pixmap_text() {
    let mut c = Canvas::new(2, 2, (1u8, 20u8, 100u8));
    c.set_pixel(1, 1, (9, 10, 199));
    assert_eq!(
        c.to_ppm(),
        "P3\n2 2\n255\n1 20 100 1 20 100\n1 20 100 9 10 199\n"
    );
}

#[test]
fn empty_canvas_has_header_only() {
    let c = Canvas::new(0, 0, (0u8, 0u8, 0u8));
    assert_eq!(c.to_ppm(), "P3\n0 0\n255\n");
    let c = Canvas::new(0, 2, (0u8, 0u8, 0u8));
    assert_eq!(c.to_ppm(), "P3\n0 2\n255\n\n\n");
}

#[test]
fn large_dimensions_in_decimal() {
    let c = Canvas::new(1, 1000, (0u8, 0u8, 0u8));
    let output = c.to_ppm();
    let lines: Vec<&str> = output.split('\n').collect();
    assert_eq!(lines[1], "1 1000");
    assert_eq!(lines.len(), 1000 + 4);
}

#[test]
fn map_converts_every_pixel() {
    let mut c = Canvas::new(3, 1, 0.0f64);
    c.set_pixel(1, 0, 0.5);
    c.set_pixel(2, 0, 1.0);
    let bytes = c.map(|v: f64| {
        let b = (255.0 * v).round() as u8;
        (b, b, b)
    });
    assert_eq!(bytes.to_ppm(), "P3\n3 1\n255\n0 0 0 128 128 128 255 255 255\n");
}
