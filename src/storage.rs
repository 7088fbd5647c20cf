//! The storage backends' shared rules: which backend a request names, the
//! object key of an upload, and the public URL each backend hands back.
use vstd::prelude::*;

verus! {

/// Whether two strings hold the same characters.
pub fn same_text(a: &str, b: &str) -> (r: bool)
    ensures
        r <==> a@ == b@,
{
    let n = a.unicode_len();
    if n != b.unicode_len() {
        return false;
    }
    let mut i: usize = 0;
    while i < n
        invariant
            n == a@.len(),
            n == b@.len(),
            i <= n,
            forall|k: int| 0 <= k < i ==> a@[k] == b@[k],
        decreases n - i,
    {
        if a.get_char(i) != b.get_char(i) {
            return false;
        }
        i = i + 1;
    }
    assert(a@ =~= b@);
    true
}

/// The storage backend that services a request.
#[derive(Debug, Clone, Copy, PartialEq, Eq, Hash, Structural)]
pub enum UploaderType {
    Cloudinary,
    S3,
    Minio,
}

impl UploaderType {
    /// The name by which a request selects the backend.
    pub open spec fn name_spec(&self) -> Seq<char> {
        match self {
            UploaderType::Cloudinary => "cloudinary"@,
            UploaderType::S3 => "s3"@,
            UploaderType::Minio => "minio"@,
        }
    }

    pub fn name(&self) -> (r: &'static str)
        ensures
            r@ == self.name_spec(),
    {
        match self {
            UploaderType::Cloudinary => "cloudinary",
            UploaderType::S3 => "s3",
            UploaderType::Minio => "minio",
        }
    }

    /// The backend that `name` selects; an unknown name selects none.
    pub fn from_name(name: &str) -> (r: Option<UploaderType>)
        ensures
            r matches Some(t) ==> t.name_spec() == name@,
            r is None ==> forall|t: UploaderType| t.name_spec() != name@,
    {
        if same_text(name, "cloudinary") {
            Some(UploaderType::Cloudinary)
        } else if same_text(name, "s3") {
            Some(UploaderType::S3)
        } else if same_text(name, "minio") {
            Some(UploaderType::Minio)
        } else {
            assert forall|t: UploaderType| t.name_spec() != name@ by {
                match t {
                    UploaderType::Cloudinary => {},
                    UploaderType::S3 => {},
                    UploaderType::Minio => {},
                }
            }
            None
        }
    }

    /// The backend of a request that names none.
    pub fn default() -> (r: UploaderType)
        ensures
            r == UploaderType::Cloudinary,
    {
        UploaderType::Cloudinary
    }

    /// The backend a request selects: its `upload` parameter when present, the
    /// default otherwise; an unknown name is refused.
    pub fn from_query(param: Option<&str>) -> (r: Option<UploaderType>)
        ensures
            param is None ==> r == Some(UploaderType::Cloudinary),
            param matches Some(s) ==> (r matches Some(t) ==> t.name_spec() == s@) && (r is None
                <==> forall|t: UploaderType| t.name_spec() != s@),
    {
        match param {
            None => Some(UploaderType::default()),
            Some(s) => UploaderType::from_name(s),
        }
    }
}

/// Sets up the storage backends.
pub struct UploaderFactory;

impl UploaderFactory {
    /// The backends built at startup, one of each kind.
    pub fn kinds() -> (r: Vec<UploaderType>)
        ensures
            r@ == seq![UploaderType::Cloudinary, UploaderType::S3, UploaderType::Minio],
    {
        let mut v: Vec<UploaderType> = Vec::new();
        v.push(UploaderType::Cloudinary);
        v.push(UploaderType::S3);
        v.push(UploaderType::Minio);
        v
    }
}

pub open spec fn object_key_spec(folder: Seq<char>, id: Seq<char>, format: Seq<char>) -> Seq<
    char,
> {
    folder + "/"@ + id + "."@ + format
}

/// The key of an object stored as `{folder}/{id}.{format}`.
pub fn object_key(folder: &str, id: &str, format: &str) -> (r: String)
    ensures
        r@ == object_key_spec(folder@, id@, format@),
{
    String::from_str(folder).concat("/").concat(id).concat(".").concat(format)
}

pub open spec fn is_lower_hex(c: char) -> bool {
    ('0' <= c && c <= '9') || ('a' <= c && c <= 'f')
}

/// Character `i` of a version-4 UUID in hyphenated lower-case form: hyphens
/// at 8, 13, 18 and 23, the version digit `4` at 14, hex digits elsewhere.
pub open spec fn uuid_char_ok(i: int, c: char) -> bool {
    if i == 8 || i == 13 || i == 18 || i == 23 {
        c == '-'
    } else if i == 14 {
        c == '4'
    } else {
        is_lower_hex(c)
    }
}

pub open spec fn is_uuid_text(s: Seq<char>) -> bool {
    s.len() == 36 && forall|i: int| 0 <= i < 36 ==> #[trigger] uuid_char_ok(i, s[i])
}

/// Relies on `uuid::Uuid::new_v4` and its `Display` form, the hyphenated
/// lower-case text of a version-4 UUID. The value is random.
#[verifier::external_body]
fn random_id() -> (r: String)
    ensures
        is_uuid_text(r@),
{
    uuid::Uuid::new_v4().to_string()
}

/// A fresh 128-bit random identifier in its 36-character text form.
pub fn new_object_id() -> (r: String)
    ensures
        is_uuid_text(r@),
{
    random_id()
}

/// A fresh key under `folder`: the caller picks the folder and the format,
/// never the identifier.
pub fn fresh_object_key(folder: &str, format: &str) -> (r: String)
    ensures
        exists|id: Seq<char>| is_uuid_text(id) && r@ == object_key_spec(folder@, id, format@),
{
    let id = new_object_id();
    object_key(folder, id.as_str(), format)
}

/// The MIME type of an image format: `image/{format}`.
pub fn content_type(format: &str) -> (r: String)
    ensures
        r@ == "image/"@ + format@,
{
    String::from_str("image/").concat(format)
}

pub open spec fn s3_url_spec(bucket: Seq<char>, key: Seq<char>) -> Seq<char> {
    "https://"@ + bucket + ".s3.amazonaws.com/"@ + key
}

/// The public URL of `key` in an S3 bucket.
pub fn s3_url(bucket: &str, key: &str) -> (r: String)
    ensures
        r@ == s3_url_spec(bucket@, key@),
{
    String::from_str("https://").concat(bucket).concat(".s3.amazonaws.com/").concat(key)
}

pub open spec fn ends_with_slash(s: Seq<char>) -> bool {
    s.len() > 0 && s.last() == '/'
}

/// `endpoint` with exactly one `/` added when it does not end with one.
pub open spec fn endpoint_base(endpoint: Seq<char>) -> Seq<char> {
    if ends_with_slash(endpoint) {
        endpoint
    } else {
        endpoint + "/"@
    }
}

/// Whether `bucket` is among the listed bucket names.
pub fn bucket_listed(names: &Vec<String>, bucket: &str) -> (r: bool)
    ensures
        r <==> exists|i: int| 0 <= i < names@.len() && #[trigger] names@[i]@ == bucket@,
{
    let mut i: usize = 0;
    while i < names.len()
        invariant
            i <= names@.len(),
            forall|j: int| 0 <= j < i ==> #[trigger] names@[j]@ != bucket@,
        decreases names@.len() - i,
    {
        if same_text(names[i].as_str(), bucket) {
            return true;
        }
        i = i + 1;
    }
    false
}

/// Where a self-hosted object store keeps its objects.
pub struct MinioTarget {
    /// The endpoint, ending in `/`.
    pub endpoint: String,
    pub bucket: String,
}

impl MinioTarget {
    pub fn new(endpoint: &str, bucket: &str) -> (r: MinioTarget)
        ensures
            r.endpoint@ == endpoint_base(endpoint@),
            r.bucket@ == bucket@,
    {
        let n = endpoint.unicode_len();
        let base = if n > 0 && endpoint.get_char(n - 1) == '/' {
            String::from_str(endpoint)
        } else {
            String::from_str(endpoint).concat("/")
        };
        MinioTarget { endpoint: base, bucket: String::from_str(bucket) }
    }

    /// `{endpoint}/{bucket}/{key}`, with one `/` after the endpoint.
    pub fn build_url(&self, key: &str) -> (r: String)
        ensures
            r@ == self.endpoint@ + self.bucket@ + "/"@ + key@,
    {
        self.endpoint.clone().concat(self.bucket.as_str()).concat("/").concat(key)
    }
}

} // verus!
