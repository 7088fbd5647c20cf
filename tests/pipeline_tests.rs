use bg_remover::bitmap::Bitmap;
use bg_remover::codec::{decode_image, encode_png, resize};
use bg_remover::error::AppError;
use bg_remover::pipeline::{
    check_batch, composite, inference_outcome, join_outcomes, prepare, read_outcome, render,
    upload_outcome,
};
use bg_remover::tensor::{input_shape, scaled_size, scaling_factor, ScalingFactor, TensorShape};

fn gradient(width: u32, height: u32) -> Bitmap {
    let mut data = Vec::new();
    for y in 0..height {
        for x in 0..width {
            data.extend_from_slice(&[(x * 20) as u8, (y * 30) as u8, 77, (x + y * width) as u8 * 9]);
        }
    }
    Bitmap { width, height, data }
}

#[test]
fn scaling_factor_caps_at_one() {
    let f = scaling_factor(100, 50, 320, 320);
    assert_eq!(f, ScalingFactor { num: 1, den: 1 });
    assert_eq!(scaled_size(100, f), 100);
    let g = scaling_factor(320, 320, 320, 320);
    assert_eq!(g.num, g.den);
}

#[test]
fn scaling_factor_takes_smaller_ratio() {
    let f = scaling_factor(640, 480, 320, 320);
    assert_eq!(f, ScalingFactor { num: 320, den: 640 });
    assert_eq!((scaled_size(640, f), scaled_size(480, f)), (320, 240));
    let g = scaling_factor(400, 1000, 320, 320);
    assert_eq!(g, ScalingFactor { num: 320, den: 1000 });
    assert!(g.num <= g.den);
}

#[test]
fn scaled_size_rounds_half_up() {
    let f = ScalingFactor { num: 1, den: 4 };
    assert_eq!(scaled_size(10, f), 3); // 2.5
    assert_eq!(scaled_size(9, f), 2); // 2.25
    assert_eq!(scaled_size(11, f), 3); // 2.75
}

#[test]
fn input_shape_checks_dimensions() {
    assert_eq!(input_shape(&vec![1, 3, 320, 320]), Some(TensorShape { channels: 3, height: 320, width: 320 }));
    assert_eq!(input_shape(&vec![1, 3, -1, 320]), None);
    assert_eq!(input_shape(&vec![2, 3, 320, 320]), None);
    assert_eq!(input_shape(&vec![1, 3, 320]), None);
}

#[test]
fn png_round_trip_keeps_pixels() {
    let b = gradient(5, 3);
    let png = encode_png(&b).unwrap();
    assert_eq!(&png[1..4], b"PNG");
    let back = decode_image(&png).unwrap();
    assert_eq!((back.width, back.height), (5, 3));
    assert_eq!(back.data, b.data);
}

#[test]
fn undecodable_bytes_are_invalid() {
    assert_eq!(decode_image(b"not an image").err(), Some(AppError::InvalidFileFormat));
}

#[test]
fn resize_gives_requested_size() {
    let b = gradient(6, 4);
    let r = resize(&b, 3, 2);
    assert_eq!((r.width, r.height, r.data.len()), (3, 2, 24));
    assert_ne!(r.data, b.data);
}

#[test]
fn identity_mask_keeps_model_shape() {
    let png = encode_png(&gradient(10, 8)).unwrap();
    let shape = TensorShape { channels: 3, height: 4, width: 4 };
    let p = prepare(&png, shape).unwrap();
    assert_eq!((p.resized.width, p.resized.height), (4, 4));
    assert_eq!(p.tensor.len(), 3 * 4 * 4);
    assert_eq!(p.factor, ScalingFactor { num: 4, den: 10 });
    let full = composite(p, &vec![255u8; 16]).unwrap();
    // round(10 * 0.4) x round(8 * 0.4)
    assert_eq!((full.width, full.height), (4, 3));
    assert!(full.data.chunks(4).all(|px| px[3] == 255));
}

#[test]
fn render_crops_to_mask() {
    let png = encode_png(&gradient(4, 4)).unwrap();
    let shape = TensorShape { channels: 3, height: 4, width: 4 };
    let p = prepare(&png, shape).unwrap();
    let mut mask = vec![0u8; 16];
    mask[5] = 255;
    mask[6] = 255;
    let out = render(p, &mask, true).unwrap();
    let back = decode_image(&out.data).unwrap();
    assert_eq!((back.width, back.height), (2, 1));
}

#[test]
fn render_refuses_wrong_mask_size() {
    let png = encode_png(&gradient(4, 4)).unwrap();
    let shape = TensorShape { channels: 3, height: 4, width: 4 };
    let p = prepare(&png, shape).unwrap();
    let r = render(p, &vec![255u8; 15], false);
    assert!(matches!(r, Err(AppError::ImageProcessing(_))));
}

#[test]
fn empty_batch_is_client_error() {
    let e = check_batch(0).unwrap_err();
    assert_eq!(e, AppError::InvalidFileFormat);
    assert_eq!(e.status_code(), 400);
    assert!(check_batch(3).is_ok());
}

#[test]
fn second_file_failing_fails_batch() {
    let outcomes = vec![
        Ok("https://a/1.png".to_string()),
        inference_outcome(Err("model exploded".to_string())).map(|_| String::new()),
        Ok("https://a/3.png".to_string()),
    ];
    let r = join_outcomes(outcomes);
    let e = r.unwrap_err();
    assert_eq!(e, AppError::ImageProcessing("model exploded".to_string()));
    assert_eq!(e.status_code(), 500);
}

#[test]
fn first_failure_wins() {
    let outcomes = vec![
        Ok("u1".to_string()),
        Err(AppError::InternalError("disk".to_string())),
        Err(AppError::InvalidFileFormat),
    ];
    assert_eq!(join_outcomes(outcomes), Err(AppError::InternalError("disk".to_string())));
}

#[test]
fn all_success_keeps_order() {
    let outcomes = vec![Ok("u1".to_string()), Ok("u2".to_string()), Ok("u3".to_string())];
    assert_eq!(
        join_outcomes(outcomes),
        Ok(vec!["u1".to_string(), "u2".to_string(), "u3".to_string()])
    );
}

#[test]
fn read_outcomes_are_classified() {
    assert_eq!(read_outcome(Ok(vec![])), Err(AppError::InvalidFileFormat));
    assert_eq!(read_outcome(Err("gone".to_string())), Err(AppError::InternalError("gone".to_string())));
    assert_eq!(read_outcome(Ok(vec![1, 2])), Ok(vec![1, 2]));
}

#[test]
fn upload_failure_is_upload_error() {
    assert_eq!(upload_outcome(Err("denied".to_string())), Err(AppError::StorageUpload("denied".to_string())));
    assert_eq!(upload_outcome(Ok("u".to_string())), Ok("u".to_string()));
}

#[test]
fn error_messages() {
    assert_eq!(AppError::InvalidFileFormat.message(), "Invalid file format");
    assert_eq!(AppError::ImageProcessing("x".to_string()).message(), "Failed to process image: x");
    assert_eq!(AppError::StorageUpload("y".to_string()).message(), "Failed to upload to storage: y");
    assert_eq!(AppError::InternalError("z".to_string()).message(), "Internal server error: z");
    assert!(AppError::InvalidFileFormat.is_client_error());
    assert!(!AppError::InternalError(String::new()).is_client_error());
}

#[test]
fn non_empty_bitmap_always_encodes() {
    assert!(encode_png(&gradient(1, 1)).is_ok());
    assert!(matches!(encode_png(&Bitmap { width: 0, height: 3, data: vec![] }), Err(AppError::ImageProcessing(_))));
}

#[test]
fn small_upload_keeps_its_size() {
    let png = encode_png(&gradient(3, 2)).unwrap();
    let shape = TensorShape { channels: 3, height: 4, width: 4 };
    let p = prepare(&png, shape).unwrap();
    let full = composite(p, &vec![255u8; 16]).unwrap();
    assert_eq!((full.width, full.height), (3, 2));
}
