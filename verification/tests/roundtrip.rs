use std::io::Cursor;

use image::DynamicImage;
use image::ImageFormat;
use image::RgbaImage;

use tilegrid::tiles::tile_grid;
use tilegrid::tiles::TileRequest;

#[test]
fn crop_roundtrip_keeps_tile_dimensions() {
    // For every generated tile, cropping the source at its rectangle,
    // encoding the crop as PNG and decoding it again yields an image of
    // exactly the requested tile size.
    let source = RgbaImage::from_fn(100, 80, |x, y| image::Rgba([x as u8, y as u8, 0, 255]));
    let mut img = DynamicImage::ImageRgba8(source);
    let req = TileRequest { rows: 2, cols: 3, tile_width: 30, tile_height: 40 };
    let tiles = tile_grid(100, 80, &req).unwrap();
    assert_eq!(tiles.len(), 6);
    for t in &tiles {
        let crop = image::imageops::crop(&mut img, t.x, t.y, t.width, t.height).to_image();
        let mut encoded = Cursor::new(Vec::new());
        crop.write_to(&mut encoded, ImageFormat::Png).unwrap();
        let decoded = image::load_from_memory(encoded.get_ref()).unwrap();
        assert_eq!(decoded.width(), t.width);
        assert_eq!(decoded.height(), t.height);
    }
}

#[test]
fn corrupt_bytes_do_not_decode() {
    // The per-file failure that a batch isolates: bytes that are not an
    // image fail to decode.
    let garbage = vec![0u8, 1, 2, 3, 4, 5, 6, 7];
    assert!(image::load_from_memory(&garbage).is_err());
}
