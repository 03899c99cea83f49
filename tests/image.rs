use glam::{dvec3, DVec3};
use raytracer::Image;

#[test]
fn new_image_is_black() {
    let img = Image::new(3, 2);
    assert_eq!(img.width(), 3);
    assert_eq!(img.height(), 2);
    for y in 0..2 {
        for x in 0..3 {
            assert_eq!(img.get_pixel(x, y), DVec3::ZERO);
        }
    }
}

#[test]
fn set_pixel_changes_one_pixel() {
    let mut img = Image::new(4, 3);
    let c = dvec3(0.25, 0.5, 1.0);
    img.set_pixel(2, 1, c);
    assert_eq!(img.get_pixel(2, 1), c);
    assert_eq!(img.get_pixel(1, 2), DVec3::ZERO);
    assert_eq!(img.get_pixel(1, 1), DVec3::ZERO);
    assert_eq!(img.get_pixel(3, 1), DVec3::ZERO);
}

#[test]
fn pixels_are_row_major() {
    let mut img = Image::new(2, 2);
    img.set_pixel(0, 0, dvec3(1.0, 0.0, 0.0));
    img.set_pixel(1, 0, dvec3(0.0, 1.0, 0.0));
    img.set_pixel(0, 1, dvec3(0.0, 0.0, 1.0));
    img.set_pixel(1, 1, dvec3(1.0, 1.0, 1.0));
    assert_eq!(img.get_pixel(1, 0), dvec3(0.0, 1.0, 0.0));
    assert_eq!(img.get_pixel(0, 1), dvec3(0.0, 0.0, 1.0));
    assert_eq!(img.get_pixel(1, 1), dvec3(1.0, 1.0, 1.0));
}

#[test]
fn empty_image_has_no_pixels() {
    let img = Image::new(0, 5);
    assert_eq!(img.width(), 0);
    assert_eq!(img.height(), 5);
}

#[test]
fn from_fn_fills_each_pixel_from_its_coordinates() {
    let img = Image::from_fn(3, 2, |x, y| dvec3(x as f64, y as f64, (x * 10 + y) as f64));
    assert_eq!(img.width(), 3);
    assert_eq!(img.height(), 2);
    for y in 0..2 {
        for x in 0..3 {
            assert_eq!(img.get_pixel(x, y), dvec3(x as f64, y as f64, (x * 10 + y) as f64));
        }
    }
}

#[test]
fn from_fn_visits_rows_top_down() {
    let order = std::cell::RefCell::new(Vec::new());
    let _ = Image::from_fn(2, 2, |x, y| {
        order.borrow_mut().push((x, y));
        DVec3::ZERO
    });
    assert_eq!(order.into_inner(), vec![(0, 0), (1, 0), (0, 1), (1, 1)]);
}
