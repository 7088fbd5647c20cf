use bg_remover::config::{secure_flag, ModelConfig, ModelSize};
use bg_remover::storage::{
    bucket_listed, content_type, fresh_object_key, new_object_id, object_key, s3_url, MinioTarget, UploaderFactory,
    UploaderType,
};
use bg_remover::transform_api::{data_url, CloudinaryUploader};

#[test]
fn backend_names() {
    assert_eq!(UploaderType::from_name("s3"), Some(UploaderType::S3));
    assert_eq!(UploaderType::from_name("minio"), Some(UploaderType::Minio));
    assert_eq!(UploaderType::from_name("cloudinary"), Some(UploaderType::Cloudinary));
    assert_eq!(UploaderType::from_name("S3"), None);
    assert_eq!(UploaderType::from_query(None), Some(UploaderType::Cloudinary));
    assert_eq!(UploaderType::from_query(Some("gcs")), None);
    assert_eq!(UploaderType::Minio.name(), "minio");
    assert_eq!(UploaderFactory::kinds(), vec![UploaderType::Cloudinary, UploaderType::S3, UploaderType::Minio]);
}

#[test]
fn keys_and_urls() {
    assert_eq!(object_key("uploads", "abc", "png"), "uploads/abc.png");
    assert_eq!(s3_url("bucket", "uploads/abc.png"), "https://bucket.s3.amazonaws.com/uploads/abc.png");
    assert_eq!(content_type("png"), "image/png");
}

#[test]
fn minio_urls_have_one_slash() {
    let a = MinioTarget::new("http://localhost:9000", "imgs");
    let b = MinioTarget::new("http://localhost:9000/", "imgs");
    assert_eq!(a.build_url("uploads/k.png"), "http://localhost:9000/imgs/uploads/k.png");
    assert_eq!(b.build_url("uploads/k.png"), "http://localhost:9000/imgs/uploads/k.png");
}

#[test]
fn fresh_keys_are_unique() {
    let a = fresh_object_key("uploads", "png");
    let b = fresh_object_key("uploads", "png");
    assert_ne!(a, b);
    assert_eq!(a.len(), "uploads/".len() + 36 + ".png".len());
    assert!(a.starts_with("uploads/") && a.ends_with(".png"));
    assert_eq!(new_object_id().len(), 36);
}

#[test]
fn data_urls_carry_base64() {
    assert_eq!(data_url("png", b"abc"), "data:image/png;base64,YWJj");
    assert_eq!(data_url("png", b"ab"), "data:image/png;base64,YWI=");
}

#[test]
fn transform_api_requests() {
    let _uploader = CloudinaryUploader::new("cloud", "key", "SECRET-REDACTED");
    let req = CloudinaryUploader::request(b"abc", "png", "uploads");
    assert_eq!(req.data_url, "data:image/png;base64,YWJj");
    assert_eq!(req.public_id.len(), 36);
    assert_eq!(req.folder, "uploads");
    assert!(CloudinaryUploader::deleted("ok"));
    assert!(!CloudinaryUploader::deleted("not found"));
}

#[test]
fn model_paths() {
    assert_eq!(ModelSize::Small.get_model_path(), "models/small.onnx");
    assert_eq!(ModelSize::Medium.get_model_path(), "models/medium.onnx");
    assert_eq!(ModelSize::Large.get_model_path(), "models/large.onnx");
    assert_eq!(ModelConfig::for_size(ModelSize::Large).path, "models/large.onnx");
}

#[test]
fn model_size_ignores_case() {
    assert_eq!(ModelSize::from_str("MeDiUm"), Ok(ModelSize::Medium));
    assert_eq!(ModelSize::from_str("small"), Ok(ModelSize::Small));
    assert!(ModelSize::from_str("huge").is_err());
    assert_eq!(ModelSize::from_lowercase("LARGE"), None);
}

#[test]
fn secure_flag_defaults_on() {
    assert!(secure_flag(None));
    assert!(secure_flag(Some("true")));
    assert!(secure_flag(Some("yes")));
    assert!(!secure_flag(Some("false")));
}

#[test]
fn bucket_listing() {
    let names = vec!["photos".to_string(), "imgs".to_string()];
    assert!(bucket_listed(&names, "imgs"));
    assert!(!bucket_listed(&names, "img"));
    assert!(!bucket_listed(&vec![], "imgs"));
}

#[test]
fn object_ids_are_v4_text() {
    let id = new_object_id();
    for (i, c) in id.chars().enumerate() {
        match i {
            8 | 13 | 18 | 23 => assert_eq!(c, '-'),
            14 => assert_eq!(c, '4'),
            _ => assert!(c.is_ascii_digit() || ('a'..='f').contains(&c)),
        }
    }
}

#[test]
fn data_url_length_counts_padding() {
    for n in 0..8usize {
        let bytes = vec![7u8; n];
        let url = data_url("png", &bytes);
        assert_eq!(url.len(), 19 + 3 + 4 * ((n + 2) / 3));
    }
}
