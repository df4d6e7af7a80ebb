use raytracer::color::Color;
use raytracer::texture::{CubeFace, GameTextures, Texture, Textures};

fn numbered_texture(width: u32, height: u32, sprite_size: usize) -> Texture {
    let mut colors = Vec::new();
    for i in 0..(width * height) {
        colors.push(Color::new(i as u8, 0, 0));
    }
    Texture::from_pixels(width, height, sprite_size, colors)
}

#[test]
fn test_get_pixel_color_indexes_row_major() {
    let t = numbered_texture(3, 2, 1);
    assert_eq!(t.get_pixel_color(0, 0), Color::new(0, 0, 0));
    assert_eq!(t.get_pixel_color(2, 0), Color::new(2, 0, 0));
    assert_eq!(t.get_pixel_color(1, 1), Color::new(4, 0, 0));
}

#[test]
fn test_face_none_is_magenta() {
    let t = numbered_texture(3, 4, 1);
    assert_eq!(
        t.get_color_of_face(&CubeFace::NONE, 0, 0),
        Color::new(255, 0, 255)
    );
}

#[test]
fn test_face_quadrant_origins() {
    // With a sprite cell of one pixel, each face reads exactly one cell of
    // the three-by-four cross layout.
    let t = numbered_texture(3, 4, 1);
    let pixel = |x: u32, y: u32| Color::new((y * 3 + x) as u8, 0, 0);
    assert_eq!(t.get_color_of_face(&CubeFace::FORWARDS, 0, 0), pixel(1, 0));
    assert_eq!(t.get_color_of_face(&CubeFace::LEFT, 0, 0), pixel(0, 1));
    assert_eq!(t.get_color_of_face(&CubeFace::TOP, 0, 0), pixel(1, 1));
    assert_eq!(t.get_color_of_face(&CubeFace::RIGHT, 0, 0), pixel(2, 1));
    assert_eq!(t.get_color_of_face(&CubeFace::BACKWARDS, 0, 0), pixel(1, 2));
    assert_eq!(t.get_color_of_face(&CubeFace::BOTTOM, 0, 0), pixel(1, 3));
}

#[test]
fn test_face_lookup_clamps_to_quadrant() {
    let t = numbered_texture(6, 8, 2);
    // The forward face's quadrant starts at (2, 0) and spans two pixels.
    let origin = t.get_color_of_face(&CubeFace::FORWARDS, -5, -5);
    assert_eq!(origin, Color::new(2, 0, 0));
    let corner = t.get_color_of_face(&CubeFace::FORWARDS, 99, 99);
    assert_eq!(corner, Color::new((1 * 6 + 3) as u8, 0, 0));
    let inside = t.get_color_of_face(&CubeFace::FORWARDS, 1, 0);
    assert_eq!(inside, Color::new(3, 0, 0));
}

#[test]
fn test_texture_from_decoded_image() {
    let img = image::DynamicImage::ImageRgb8(image::RgbImage::from_fn(2, 3, |x, y| {
        image::Rgb([x as u8 + 10, y as u8 + 20, 7])
    }));
    let t = Texture::new(&img, 1);
    assert_eq!(t.width, 2);
    assert_eq!(t.height, 3);
    assert_eq!(t.get_pixel_color(0, 0), Color::new(10, 20, 7));
    assert_eq!(t.get_pixel_color(1, 2), Color::new(11, 22, 7));
}

#[test]
fn test_get_texture_is_total() {
    let textures = GameTextures::new(
        numbered_texture(1, 1, 1),
        numbered_texture(2, 1, 1),
        numbered_texture(3, 1, 1),
        numbered_texture(4, 1, 1),
        numbered_texture(5, 1, 1),
        numbered_texture(6, 1, 1),
        numbered_texture(7, 1, 1),
        numbered_texture(8, 1, 1),
    );
    assert_eq!(textures.get_texture(&Textures::DIRT).width, 1);
    assert_eq!(textures.get_texture(&Textures::STONE).width, 2);
    assert_eq!(textures.get_texture(&Textures::MOSS).width, 3);
    assert_eq!(textures.get_texture(&Textures::WATER).width, 4);
    assert_eq!(textures.get_texture(&Textures::OBSIDIAN).width, 5);
    assert_eq!(textures.get_texture(&Textures::PORTAL).width, 6);
    assert_eq!(textures.get_texture(&Textures::NETHERRACK).width, 7);
    assert_eq!(textures.get_texture(&Textures::MAGMA).width, 8);
}
