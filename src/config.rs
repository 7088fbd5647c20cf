//! Process configuration, built once at startup and passed down explicitly.
use vstd::prelude::*;
use crate::storage::same_text;

verus! {

/// Address the HTTP server binds to.
pub struct ServerConfig {
    pub host: String,
    pub port: u16,
}

/// Credentials of the transform-API backend.
pub struct CloudinaryConfig {
    pub cloud_name: String,
    pub api_key: String,
    pub api_secret: String,
    pub upload_preset: String,
}

/// Credentials and bucket of the generic cloud object store.
pub struct S3Config {
    pub access_key: String,
    pub secret_key: String,
    pub bucket: String,
    pub region: String,
}

/// Endpoint, credentials and bucket of the self-hosted object store.
pub struct MinioConfig {
    pub access_key: String,
    pub secret_key: String,
    pub bucket: String,
    pub endpoint: String,
    pub secure: bool,
    pub region: String,
}

/// Which of the bundled models to load.
#[derive(Debug, Clone, Copy, PartialEq, Eq, Structural)]
pub enum ModelSize {
    Small,
    Medium,
    Large,
}

/// The lower-case form of `s`, as `str::to_lowercase` gives it.
pub uninterp spec fn lower_of(s: Seq<char>) -> Seq<char>;

/// Relies on `str::to_lowercase`: the result depends on the characters alone.
#[verifier::external_body]
fn lowercase(s: &str) -> (r: String)
    ensures
        r@ == lower_of(s@),
{
    s.to_lowercase()
}

impl ModelSize {
    pub open spec fn name_spec(&self) -> Seq<char> {
        match self {
            ModelSize::Small => "small"@,
            ModelSize::Medium => "medium"@,
            ModelSize::Large => "large"@,
        }
    }

    pub open spec fn model_path_spec(&self) -> Seq<char> {
        "models/"@ + self.name_spec() + ".onnx"@
    }

    pub fn name(&self) -> (r: &'static str)
        ensures
            r@ == self.name_spec(),
    {
        match self {
            ModelSize::Small => "small",
            ModelSize::Medium => "medium",
            ModelSize::Large => "large",
        }
    }

    /// Where the model file of this size lives: `models/{size}.onnx`.
    pub fn get_model_path(&self) -> (r: String)
        ensures
            r@ == self.model_path_spec(),
    {
        String::from_str("models/").concat(self.name()).concat(".onnx")
    }

    /// The size whose name is exactly `name`.
    pub fn from_lowercase(name: &str) -> (r: Option<ModelSize>)
        ensures
            r matches Some(m) ==> m.name_spec() == name@,
            r is None ==> forall|m: ModelSize| m.name_spec() != name@,
    {
        if same_text(name, "small") {
            Some(ModelSize::Small)
        } else if same_text(name, "medium") {
            Some(ModelSize::Medium)
        } else if same_text(name, "large") {
            Some(ModelSize::Large)
        } else {
            assert forall|m: ModelSize| m.name_spec() != name@ by {
                match m {
                    ModelSize::Small => {},
                    ModelSize::Medium => {},
                    ModelSize::Large => {},
                }
            }
            None
        }
    }

    /// The size named by `s` in any letter case.
    pub fn from_str(s: &str) -> (r: Result<ModelSize, String>)
        ensures
            r matches Ok(m) ==> m.name_spec() == lower_of(s@),
            r is Err ==> forall|m: ModelSize| m.name_spec() != lower_of(s@),
    {
        let lower = lowercase(s);
        match ModelSize::from_lowercase(lower.as_str()) {
            Some(m) => Ok(m),
            None => Err(
                String::from_str("Invalid model size. Valid values are: small, medium, large"),
            ),
        }
    }
}

/// The model to load.
pub struct ModelConfig {
    pub size: ModelSize,
    pub path: String,
}

impl ModelConfig {
    /// The bundled model of the given size.
    pub fn for_size(size: ModelSize) -> (r: ModelConfig)
        ensures
            r.size == size,
            r.path@ == size.model_path_spec(),
    {
        ModelConfig { size, path: size.get_model_path() }
    }
}

/// Everything the service reads at startup.
pub struct AppConfig {
    pub server: ServerConfig,
    pub cloudinary: CloudinaryConfig,
    pub minio: MinioConfig,
    pub model: ModelConfig,
    pub s3: S3Config,
}

/// Reads a TLS flag: `"false"` turns it off; anything else, or no value,
/// leaves it on.
pub fn secure_flag(value: Option<&str>) -> (r: bool)
    ensures
        r <==> !(value matches Some(v) && v@ == "false"@),
{
    match value {
        Some(v) => !same_text(v, "false"),
        None => true,
    }
}

} // verus!
