use tracer::decimal::push_decimal;
use tracer::ppm::{add_pixel_to_ppm, initialize_ppm};

#[test]
fn header_of_default_image() {
    assert_eq!(initialize_ppm(300, 200), "P3\n300 200\n255\n");
}

#[test]
fn header_of_small_and_zero_sizes() {
    assert_eq!(initialize_ppm(3, 2), "P3\n3 2\n255\n");
    assert_eq!(initialize_ppm(0, 0), "P3\n0 0\n255\n");
    assert_eq!(initialize_ppm(10, 1), "P3\n10 1\n255\n");
}

#[test]
fn header_of_largest_size() {
    assert_eq!(
        initialize_ppm(u32::MAX, u32::MAX),
        "P3\n4294967295 4294967295\n255\n"
    );
}

#[test]
fn decimal_text_of_numbers() {
    let cases: [(u32, &str); 6] = [
        (0, "0"),
        (7, "7"),
        (10, "10"),
        (255, "255"),
        (1000000, "1000000"),
        (4294967295, "4294967295"),
    ];
    for (n, text) in cases {
        let mut s = String::from("x=");
        push_decimal(&mut s, n);
        assert_eq!(s, format!("x={}", text));
    }
}

#[test]
fn pixel_line_is_appended() {
    let mut img = initialize_ppm(1, 1);
    add_pixel_to_ppm(&mut img, 255, 0, 17);
    assert_eq!(img, "P3\n1 1\n255\n255 0 17\n");
}

#[test]
fn pixel_lines_keep_their_order() {
    let mut img = String::new();
    add_pixel_to_ppm(&mut img, 1, 2, 3);
    add_pixel_to_ppm(&mut img, 0, 0, 0);
    add_pixel_to_ppm(&mut img, 255, 255, 255);
    assert_eq!(img, "1 2 3\n0 0 0\n255 255 255\n");
}

#[test]
fn whole_image_has_header_and_one_line_per_pixel() {
    let (width, height) = (4u32, 3u32);
    let mut img = initialize_ppm(width, height);
    for k in 0..(width * height) {
        let v = (k * 23) as u8;
        add_pixel_to_ppm(&mut img, v, 255 - v, k as u8);
    }
    let lines: Vec<&str> = img.lines().collect();
    assert_eq!(lines.len(), 3 + (width * height) as usize);
    assert_eq!(lines[0], "P3");
    assert_eq!(lines[1], "4 3");
    assert_eq!(lines[2], "255");
    for line in &lines[3..] {
        let fields: Vec<&str> = line.split(' ').collect();
        assert_eq!(fields.len(), 3);
        for f in fields {
            let n: u32 = f.parse().unwrap();
            assert!(n <= 255);
        }
    }
    assert!(img.ends_with('\n'));
    assert_eq!(lines[3], "0 255 0");
    assert_eq!(lines[4], "23 232 1");
}
