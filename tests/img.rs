use spectrophoner::img_dispatcher::{
    naive_layer_extractor, RgbImage24Bit, StaticImgDispatcher, NAIVE_LAYER_ID,
};
use spectrophoner::img_interpreter::band_luminance;
use spectrophoner::img_matrix::LumaMatrix;

fn image_from_pixels(width: u32, height: u32, pixels: &[[u8; 3]]) -> RgbImage24Bit {
    let data: Vec<u8> = pixels.iter().flat_map(|p| p.iter().copied()).collect();
    RgbImage24Bit::from_raw(width, height, data).unwrap()
}

fn gray_image(width: u32, height: u32, values: &[u8]) -> RgbImage24Bit {
    let pixels: Vec<[u8; 3]> = values.iter().map(|v| [*v, *v, *v]).collect();
    image_from_pixels(width, height, &pixels)
}

fn amplitude(matrix: &LumaMatrix, y_start: usize, y_end: usize) -> f32 {
    let (sum, count) = band_luminance(matrix, y_start, y_end);
    (sum as f32 / count as f32) / (u8::MAX as f32)
}

#[test]
fn test_naive_layer_extractor() {
    let width = 3;
    let height = 2;
    // rows top to bottom: [0, 1, 2] and [3, 4, 5]
    let img = gray_image(width, height, &[0, 1, 2, 3, 4, 5]);
    let extracted_layer = naive_layer_extractor(&img);

    let expected_layer_array = [[0, 3], [1, 4], [2, 5]];
    for (x, column) in expected_layer_array.iter().enumerate() {
        for (y, value) in column.iter().enumerate() {
            assert_eq!(extracted_layer.get(x, y), Some(*value));
        }
    }

    assert_eq!(extracted_layer.dim().0, width as usize);
    assert_eq!(extracted_layer.dim().1, height as usize);

    assert_eq!(extracted_layer.get(0, 0).unwrap(), 0u8);
    assert_eq!(extracted_layer.get(1, 0).unwrap(), 1u8);
    assert_eq!(extracted_layer.get(2, 0).unwrap(), 2u8);
    assert_eq!(extracted_layer.get(0, 1).unwrap(), 3u8);
    assert_eq!(extracted_layer.get(1, 1).unwrap(), 4u8);
    assert_eq!(extracted_layer.get(2, 1).unwrap(), 5u8);
}

#[test]
fn orientation_check() {
    let black = [0, 0, 0];
    let white = [255, 255, 255];
    // white at column 1 of row 0 and at column 2 of row 2
    let img = image_from_pixels(
        3,
        3,
        &[black, white, black, black, black, black, black, black, white],
    );
    let extracted_layer = naive_layer_extractor(&img);

    let expected_layer_array = [[0, 0, 0], [255, 0, 0], [0, 0, 255]];
    for (x, column) in expected_layer_array.iter().enumerate() {
        for (y, value) in column.iter().enumerate() {
            assert_eq!(extracted_layer.get(x, y), Some(*value));
        }
    }
}

#[test]
fn orientation_check_with_colours() {
    let black = [0, 0, 0];
    let red = [255, 0, 0];
    let blue = [0, 0, 255];
    let img = image_from_pixels(3, 3, &[black, red, black, black, black, black, black, black, blue]);
    let m = naive_layer_extractor(&img);
    // (2126 * 255) / 10000 and (722 * 255) / 10000
    assert_eq!(m.get(1, 0), Some(54));
    assert_eq!(m.get(2, 2), Some(18));
    for (x, y) in [(0, 0), (2, 0), (0, 1), (1, 1), (2, 1), (0, 2), (1, 2)] {
        assert_eq!(m.get(x, y), Some(0));
    }
    assert_eq!(m.get(3, 0), None);
    assert_eq!(m.get(0, 3), None);
}

#[test]
fn grayscale_weights_green_most() {
    let img = image_from_pixels(2, 1, &[[0, 255, 0], [10, 20, 30]]);
    let m = naive_layer_extractor(&img);
    // (7152 * 255) / 10000 and (2126 * 10 + 7152 * 20 + 722 * 30) / 10000
    assert_eq!(m.get(0, 0), Some(182));
    assert_eq!(m.get(1, 0), Some(18));
}

#[test]
fn from_raw_rejects_wrong_length() {
    assert!(RgbImage24Bit::from_raw(2, 2, vec![0; 11]).is_none());
    assert!(RgbImage24Bit::from_raw(2, 2, vec![0; 12]).is_some());
    assert!(RgbImage24Bit::from_raw(0, 5, vec![]).is_some());
}

#[test]
fn sub_image_keeps_the_chosen_columns() {
    let img = gray_image(4, 2, &[1, 2, 3, 4, 5, 6, 7, 8]);
    let sub = img.sub_image(1, 2);
    assert_eq!(sub.width(), 2);
    assert_eq!(sub.height(), 2);
    assert_eq!(*sub.as_raw(), vec![2, 2, 2, 3, 3, 3, 6, 6, 6, 7, 7, 7]);
}

#[test]
fn amplitude_from_img_data_all_zeros() {
    let m = naive_layer_extractor(&gray_image(2, 2, &[0, 0, 0, 0]));
    assert!((amplitude(&m, 0, 2) - 0.).abs() < 1.0e-4);
}

#[test]
fn amplitude_from_img_data_all_max() {
    let m = naive_layer_extractor(&gray_image(2, 2, &[255, 255, 255, 255]));
    assert!((amplitude(&m, 0, 2) - 1.).abs() < 1.0e-4);
}

#[test]
fn amplitude_from_img_data_avg_point_5() {
    let m = naive_layer_extractor(&gray_image(2, 2, &[0, 127, 128, 255]));
    assert!((amplitude(&m, 0, 2) - 0.5).abs() < 1.0e-4);
}

#[test]
fn band_luminance_counts_only_the_band_rows() {
    // rows top to bottom: [1, 2, 3], [10, 20, 30], [100, 100, 100]
    let m = naive_layer_extractor(&gray_image(3, 3, &[1, 2, 3, 10, 20, 30, 100, 100, 100]));
    assert_eq!(band_luminance(&m, 0, 2), (66, 6));
    assert_eq!(band_luminance(&m, 1, 3), (360, 6));
    assert_eq!(band_luminance(&m, 2, 2), (0, 0));
}

#[test]
fn narrow_image_is_one_slice() {
    let dispatcher = StaticImgDispatcher::new(gray_image(3, 1, &[1, 2, 3]), 10);
    assert_eq!(dispatcher.slice_bounds(), vec![(0, 3)]);
}

#[test]
fn wide_image_is_cut_into_chunks() {
    let dispatcher = StaticImgDispatcher::new(gray_image(25, 1, &[0; 25]), 10);
    assert_eq!(dispatcher.slice_bounds(), vec![(0, 10), (10, 10), (20, 5)]);
    let exact = StaticImgDispatcher::new(gray_image(20, 1, &[0; 20]), 10);
    assert_eq!(exact.slice_bounds(), vec![(0, 10), (10, 10)]);
}

#[test]
fn empty_image_is_one_empty_slice() {
    let dispatcher = StaticImgDispatcher::new(gray_image(0, 0, &[]), 10);
    assert_eq!(dispatcher.slice_bounds(), vec![(0, 0)]);
}

#[test]
fn dispatch_slice_extracts_the_slice_columns() {
    let dispatcher = StaticImgDispatcher::new(gray_image(4, 2, &[1, 2, 3, 4, 5, 6, 7, 8]), 2);
    let packet = dispatcher.dispatch_slice(2, 2);
    assert_eq!(packet.len(), 1);
    let layer = &packet[&NAIVE_LAYER_ID];
    assert_eq!(layer.dim(), (2, 2));
    assert_eq!(layer.get(0, 0), Some(3));
    assert_eq!(layer.get(1, 0), Some(4));
    assert_eq!(layer.get(0, 1), Some(7));
    assert_eq!(layer.get(1, 1), Some(8));
}

#[test]
fn layers_metadata_covers_full_height() {
    let dispatcher = StaticImgDispatcher::new(gray_image(2, 3, &[0; 6]), 1);
    let layers = dispatcher.layers_metadata();
    assert_eq!(layers.len(), 1);
    assert_eq!(layers[0].img_layer_id, NAIVE_LAYER_ID);
    assert_eq!(layers[0].y_start, 0);
    assert_eq!(layers[0].y_end, 3);
    assert_eq!(layers[0].total_img_height, 3);
}

#[test]
fn image_without_rows_gives_empty_columns() {
    let img = gray_image(3, 0, &[]);
    let m = naive_layer_extractor(&img);
    assert_eq!(m.dim(), (3, 0));
    assert_eq!(m.get(0, 0), None);
    assert_eq!(band_luminance(&m, 0, 0), (0, 0));
}

#[test]
fn every_column_is_dispatched_once() {
    let dispatcher = StaticImgDispatcher::new(gray_image(23, 1, &[0; 23]), 5);
    let slices = dispatcher.slice_bounds();
    for col in 0..23u32 {
        let holders = slices.iter().filter(|(x, w)| *x <= col && col < x + w).count();
        assert_eq!(holders, 1);
    }
}
