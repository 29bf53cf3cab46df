use bitmapflow::frame::{flow_mat_to_frame, Bgr, Frame, Rgba};
use bitmapflow::datatypes::BVector2;
use bitmapflow::motion::{MotionField, Rgb};
use bitmapflow::utility::array_to_pair;

fn px(r: u8, g: u8, b: u8, a: u8) -> Rgba {
    Rgba { r, g, b, a }
}

#[test]
fn new_needs_one_pixel_per_coordinate() {
    assert!(Frame::new(2, 2, vec![px(0, 0, 0, 0); 4]).is_some());
    assert!(Frame::new(2, 2, vec![px(0, 0, 0, 0); 3]).is_none());
    assert!(Frame::new(2, 2, vec![px(0, 0, 0, 0); 5]).is_none());
    assert!(Frame::new(0, 7, vec![]).is_some());
    assert!(Frame::new(0, 7, vec![px(1, 2, 3, 4)]).is_none());
}

#[test]
fn get_pixel_is_row_major() {
    let f = Frame::new(3, 2, (0..6).map(|i| px(i, 0, 0, 255)).collect()).unwrap();
    assert_eq!(f.width(), 3);
    assert_eq!(f.height(), 2);
    assert_eq!(f.get_pixel(0, 0), Some(px(0, 0, 0, 255)));
    assert_eq!(f.get_pixel(2, 0), Some(px(2, 0, 0, 255)));
    assert_eq!(f.get_pixel(0, 1), Some(px(3, 0, 0, 255)));
    assert_eq!(f.get_pixel(2, 1), Some(px(5, 0, 0, 255)));
    assert_eq!(f.get_pixel(3, 0), None);
    assert_eq!(f.get_pixel(0, 2), None);
}

#[test]
fn clone_is_a_deep_copy() {
    let f = Frame::new(1, 2, vec![px(1, 2, 3, 4), px(5, 6, 7, 8)]).unwrap();
    let g = f.clone();
    assert_eq!(f, g);
    assert_eq!(g.pixels(), &vec![px(1, 2, 3, 4), px(5, 6, 7, 8)]);
}

#[test]
fn from_raw_reads_four_bytes_per_pixel() {
    let f = Frame::from_raw(2, 1, vec![1, 2, 3, 4, 5, 6, 7, 8]).unwrap();
    assert_eq!(f.pixels(), &vec![px(1, 2, 3, 4), px(5, 6, 7, 8)]);
    assert_eq!((f.width(), f.height()), (2, 1));
}

#[test]
fn from_raw_drops_what_lies_beyond_the_frame() {
    let f = Frame::from_raw(1, 1, vec![1, 2, 3, 4, 5, 6, 7]).unwrap();
    assert_eq!(f.pixels(), &vec![px(1, 2, 3, 4)]);
}

#[test]
fn from_raw_refuses_a_short_buffer() {
    assert!(Frame::from_raw(2, 1, vec![1, 2, 3, 4, 5, 6, 7]).is_none());
    assert!(Frame::from_raw(u32::MAX, u32::MAX, vec![0; 16]).is_none());
    assert!(Frame::from_raw(0, 0, vec![]).is_some());
}

#[test]
fn from_raw_agrees_with_the_image_crate() {
    let data: Vec<u8> = (0..24).collect();
    let ours = Frame::from_raw(3, 2, data.clone()).unwrap();
    let theirs = image::RgbaImage::from_raw(3, 2, data).unwrap();
    for y in 0..2 {
        for x in 0..3 {
            let p = theirs.get_pixel(x, y).0;
            assert_eq!(ours.get_pixel(x, y), Some(px(p[0], p[1], p[2], p[3])));
        }
    }
    assert!(image::RgbaImage::from_raw(2, 1, vec![0u8; 7]).is_none());
}

#[test]
fn to_raw_is_the_inverse_of_from_raw() {
    let data: Vec<u8> = (10..34).collect();
    let f = Frame::from_raw(2, 3, data.clone()).unwrap();
    assert_eq!(f.to_raw(), data);
    assert_eq!(Frame::from_raw(2, 3, f.to_raw()), Some(f));
}

#[test]
fn to_bgr_swaps_channels_and_blackens_faint_pixels() {
    let f = Frame::new(
        4,
        1,
        vec![px(1, 2, 3, 255), px(1, 2, 3, 30), px(1, 2, 3, 29), px(9, 8, 7, 0)],
    )
    .unwrap();
    assert_eq!(
        f.to_bgr(),
        vec![
            Bgr { b: 3, g: 2, r: 1 },
            Bgr { b: 3, g: 2, r: 1 },
            Bgr { b: 0, g: 0, r: 0 },
            Bgr { b: 0, g: 0, r: 0 },
        ]
    );
}

#[test]
fn picture_is_opaque_where_motion_is_finite_and_transparent_elsewhere() {
    let nan = f32::NAN.to_bits();
    let inf = f32::INFINITY.to_bits();
    let one = 1.0f32.to_bits();
    let field = MotionField::new(
        2,
        2,
        vec![
            BVector2 { x: one, y: one },
            BVector2 { x: nan, y: one },
            BVector2 { x: one, y: inf },
            BVector2 { x: 0, y: 0 },
        ],
    )
    .unwrap();
    let colours = vec![
        Rgb { r: 10, g: 20, b: 30 },
        Rgb { r: 11, g: 21, b: 31 },
        Rgb { r: 12, g: 22, b: 32 },
        Rgb { r: 13, g: 23, b: 33 },
    ];
    let picture = flow_mat_to_frame(&field, &colours).unwrap();
    assert_eq!((picture.width(), picture.height()), (2, 2));
    assert_eq!(
        picture.pixels(),
        &vec![px(10, 20, 30, 255), px(0, 0, 0, 0), px(0, 0, 0, 0), px(13, 23, 33, 255)]
    );
}

#[test]
fn picture_needs_one_colour_per_vector() {
    let field = MotionField::new(1, 2, vec![BVector2 { x: 0, y: 0 }; 2]).unwrap();
    assert!(flow_mat_to_frame(&field, &vec![Rgb { r: 0, g: 0, b: 0 }]).is_none());
    assert!(flow_mat_to_frame(&field, &vec![Rgb { r: 0, g: 0, b: 0 }; 3]).is_none());
    assert!(flow_mat_to_frame(&field, &vec![Rgb { r: 0, g: 0, b: 0 }; 2]).is_some());
}

#[test]
fn motion_field_needs_one_vector_per_pixel() {
    assert!(MotionField::new(2, 2, vec![BVector2 { x: 0, y: 0 }; 3]).is_none());
    let field = MotionField::new(2, 3, vec![BVector2 { x: 1, y: 2 }; 6]).unwrap();
    assert_eq!((field.width(), field.height()), (2, 3));
    assert_eq!(field.vectors().len(), 6);
}

#[test]
fn array_to_pair_takes_both_elements() {
    let v = [3u8, 9u8];
    assert_eq!(array_to_pair(&v), (&3u8, &9u8));
}
