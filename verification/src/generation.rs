//! What the application sends to the image-generation service and how it reads
//! the answers: endpoints, request values, response checks, and the image and
//! log records made from a result.
use base64::Engine;
use vstd::prelude::*;

use crate::state::{ImageRecord, LogEntry};
use crate::strings::{concat2, concat3, contains, contains_text};

verus! {

/// A generated image as the service reports it.
#[derive(Debug)]
pub struct FalImageResult {
    pub url: String,
    pub content_type: String,
}

impl Clone for FalImageResult {
    fn clone(&self) -> (r: Self)
        ensures
            r == *self,
    {
        FalImageResult { url: self.url.clone(), content_type: self.content_type.clone() }
    }
}

/// One entry of the service's `images` list.
#[derive(Debug)]
pub struct FalImage {
    pub url: String,
    pub content_type: Option<String>,
}

/// Body of a text-to-vector request.
#[derive(Debug)]
pub struct TextToVectorRequest {
    pub prompt: String,
    pub image_size: String,
    pub style: Option<String>,
}

/// Body of an image-editing (evolve) request.
#[derive(Debug)]
pub struct KontextRequest {
    pub prompt: String,
    pub image_url: String,
    pub output_format: String,
    pub aspect_ratio: String,
}

/// The text-to-vector model, which generates logos.
pub fn text_to_vector_model() -> (r: &'static str)
    ensures
        r@ == "fal-ai/recraft/v4/pro/text-to-vector"@,
{
    "fal-ai/recraft/v4/pro/text-to-vector"
}

/// The image-editing model, which evolves logos.
pub fn kontext_model() -> (r: &'static str)
    ensures
        r@ == "fal-ai/flux-pro/kontext"@,
{
    "fal-ai/flux-pro/kontext"
}

/// URL of a model's endpoint.
pub fn endpoint_url(model: &str) -> (r: String)
    ensures
        r@ == "https://fal.run"@ + "/"@ + model@,
{
    concat3("https://fal.run", "/", model)
}

/// Value of the `Authorization` header for an API key.
pub fn authorization_value(api_key: &str) -> (r: String)
    ensures
        r@ == "Key "@ + api_key@,
{
    let mut r = String::from_str("Key ");
    r.append(api_key);
    r
}

/// The request for generating a logo; the style defaults to flat vector art.
pub fn text_to_vector_request(prompt: &str, style: Option<&str>) -> (r: TextToVectorRequest)
    ensures
        r.prompt@ == prompt@,
        r.image_size@ == "square_hd"@,
        r.style matches Some(s) && s@ == match style {
            Some(t) => t@,
            None => "vector_illustration/flat_2"@,
        },
{
    let chosen = match style {
        Some(t) => t,
        None => "vector_illustration/flat_2",
    };
    TextToVectorRequest {
        prompt: prompt.to_owned(),
        image_size: String::from_str("square_hd"),
        style: Some(chosen.to_owned()),
    }
}

/// The request for evolving an image (given as a data URI) by a prompt.
pub fn kontext_request(prompt: &str, image_data_uri: &str) -> (r: KontextRequest)
    ensures
        r.prompt@ == prompt@,
        r.image_url@ == image_data_uri@,
        r.output_format@ == "png"@,
        r.aspect_ratio@ == "1:1"@,
{
    KontextRequest {
        prompt: prompt.to_owned(),
        image_url: image_data_uri.to_owned(),
        output_format: String::from_str("png"),
        aspect_ratio: String::from_str("1:1"),
    }
}

/// A reply is accepted only with a success status; otherwise the error names
/// the status and the body.
pub fn check_status(is_success: bool, status: &str, body: &str) -> (r: Result<(), String>)
    ensures
        is_success <==> r is Ok,
        r matches Err(e) ==> e@ == "FAL API error ("@ + status@ + "): "@ + body@,
{
    if is_success {
        Ok(())
    } else {
        let mut e = concat3("FAL API error (", status, "): ");
        e.append(body);
        Err(e)
    }
}

/// The first image of a reply, its content type defaulting to `default_content_type`.
pub fn first_image(images: Vec<FalImage>, default_content_type: &str) -> (r: Result<FalImageResult, String>)
    ensures
        images@.len() == 0 ==> (r matches Err(e) && e@ == "No images in response"@),
        images@.len() > 0 ==> (r matches Ok(res) && res.url == images@[0].url && res.content_type@
            == match images@[0].content_type {
            Some(t) => t@,
            None => default_content_type@,
        }),
{
    if images.len() == 0 {
        return Err(String::from_str("No images in response"));
    }
    let first = &images[0];
    let content_type = match &first.content_type {
        Some(t) => t.clone(),
        None => default_content_type.to_owned(),
    };
    Ok(FalImageResult { url: first.url.clone(), content_type })
}

/// Content type assumed for a generated logo when the service names none.
pub fn generated_default_content_type() -> (r: &'static str)
    ensures
        r@ == "image/svg+xml"@,
{
    "image/svg+xml"
}

/// Content type assumed for an evolved logo when the service names none.
pub fn evolved_default_content_type() -> (r: &'static str)
    ensures
        r@ == "image/png"@,
{
    "image/png"
}

/// The log entry for one generation call: success with the image's URL and
/// type, or the error text.
pub fn generation_log(
    id: String,
    timestamp: String,
    endpoint: &str,
    prompt: &str,
    result: &Result<FalImageResult, String>,
    duration_ms: u64,
) -> (r: LogEntry)
    ensures
        r.id == id,
        r.timestamp == timestamp,
        r.endpoint@ == endpoint@,
        r.prompt@ == prompt@,
        r.duration_ms == duration_ms,
        r.status@ == match result {
            Ok(_) => "success"@,
            Err(_) => "error"@,
        },
        r.detail@ == match result {
            Ok(res) => "url="@ + res.url@ + ", content_type="@ + res.content_type@,
            Err(e) => e@,
        },
{
    let (status, detail) = match result {
        Ok(res) => {
            let mut d = concat3("url=", res.url.as_str(), ", content_type=");
            d.append(res.content_type.as_str());
            (String::from_str("success"), d)
        },
        Err(e) => (String::from_str("error"), e.clone()),
    };
    LogEntry {
        id,
        timestamp,
        endpoint: endpoint.to_owned(),
        prompt: prompt.to_owned(),
        status,
        detail,
        duration_ms,
    }
}

/// File name and file type of a generated image: SVG when the content type
/// mentions svg, PNG otherwise.
pub fn generated_file_name(content_type: &str, image_id: &str) -> (r: (String, String))
    ensures
        contains_text(content_type@, "svg"@) ==> r.0@ == image_id@ + ".svg"@ && r.1@ == "svg"@,
        !contains_text(content_type@, "svg"@) ==> r.0@ == image_id@ + ".png"@ && r.1@ == "png"@,
{
    if contains(content_type, "svg") {
        (concat2(image_id, ".svg"), String::from_str("svg"))
    } else {
        (concat2(image_id, ".png"), String::from_str("png"))
    }
}

/// File name of an evolved image (always PNG).
pub fn evolved_file_name(image_id: &str) -> (r: String)
    ensures
        r@ == image_id@ + ".png"@,
{
    concat2(image_id, ".png")
}

/// The record of a newly generated image.
pub fn generated_image_record(
    id: String,
    session_id: String,
    prompt: String,
    filename: String,
    file_type: String,
    created_at: String,
) -> (r: ImageRecord)
    ensures
        r == (ImageRecord {
            id,
            session_id,
            prompt,
            model: r.model,
            parent_image_id: None,
            filename,
            file_type,
            created_at,
        }),
        r.model@ == "recraft-v4-text-to-vector"@,
{
    ImageRecord {
        id,
        session_id,
        prompt,
        model: String::from_str("recraft-v4-text-to-vector"),
        parent_image_id: None,
        filename,
        file_type,
        created_at,
    }
}

/// The record of an image evolved from `parent_id`.
pub fn evolved_image_record(
    id: String,
    session_id: String,
    prompt: String,
    parent_id: String,
    filename: String,
    created_at: String,
) -> (r: ImageRecord)
    ensures
        r == (ImageRecord {
            id,
            session_id,
            prompt,
            model: r.model,
            parent_image_id: Some(parent_id),
            filename,
            file_type: r.file_type,
            created_at,
        }),
        r.model@ == "flux-kontext-pro"@,
        r.file_type@ == "png"@,
{
    ImageRecord {
        id,
        session_id,
        prompt,
        model: String::from_str("flux-kontext-pro"),
        parent_image_id: Some(parent_id),
        filename,
        file_type: String::from_str("png"),
        created_at,
    }
}

/// MIME type of a stored image from its file type.
pub fn image_mime(file_type: &str) -> (r: &'static str)
    ensures
        file_type@ == "svg"@ ==> r@ == "image/svg+xml"@,
        file_type@ != "svg"@ ==> r@ == "image/png"@,
{
    if crate::strings::str_equal(file_type, "svg") {
        "image/svg+xml"
    } else {
        "image/png"
    }
}

/// The digit for a value below 64 in the standard Base64 alphabet
/// (RFC 4648, table 1): `A`-`Z`, `a`-`z`, `0`-`9`, `+`, `/`.
pub open spec fn base64_digit(v: int) -> char {
    if v < 26 {
        (65 + v) as char
    } else if v < 52 {
        (97 + v - 26) as char
    } else if v < 62 {
        (48 + v - 52) as char
    } else if v == 62 {
        '+'
    } else {
        '/'
    }
}

/// The padded, standard-alphabet Base64 text of `data` (RFC 4648, section 4):
/// every three bytes become four digits; a final group of one or two bytes is
/// filled with zero bits and padded with `=` to four characters.
pub open spec fn base64_standard(data: Seq<u8>) -> Seq<char>
    decreases data.len(),
{
    if data.len() == 0 {
        Seq::empty()
    } else {
        let b0 = data[0] as int;
        let b1 = if data.len() > 1 {
            data[1] as int
        } else {
            0
        };
        let b2 = if data.len() > 2 {
            data[2] as int
        } else {
            0
        };
        let group = seq![
            base64_digit(b0 / 4),
            base64_digit((b0 % 4) * 16 + b1 / 16),
            if data.len() > 1 {
                base64_digit((b1 % 16) * 4 + b2 / 64)
            } else {
                '='
            },
            if data.len() > 2 {
                base64_digit(b2 % 64)
            } else {
                '='
            },
        ];
        if data.len() <= 3 {
            group
        } else {
            group + base64_standard(data.skip(3))
        }
    }
}


/// `base64::engine::general_purpose::STANDARD.encode(data)`.
#[verifier::external_body]
fn encode_base64(data: &[u8]) -> (r: String)
    ensures
        r@ == base64_standard(data@),
{
    base64::engine::general_purpose::STANDARD.encode(data)
}

/// A data URI from a file type and already Base64-encoded content.
pub fn data_uri_from_base64(file_type: &str, encoded: &str) -> (r: String)
    ensures
        r@ == "data:"@ + image_mime_of(file_type@) + ";base64,"@ + encoded@,
{
    let mime = image_mime(file_type);
    let mut r = concat3("data:", mime, ";base64,");
    r.append(encoded);
    r
}

pub open spec fn image_mime_of(file_type: Seq<char>) -> Seq<char> {
    if file_type == "svg"@ {
        "image/svg+xml"@
    } else {
        "image/png"@
    }
}

/// A data URI carrying an image file's bytes.
pub fn image_data_uri(file_type: &str, image_bytes: &[u8]) -> (r: String)
    ensures
        r@ == "data:"@ + image_mime_of(file_type@) + ";base64,"@ + base64_standard(image_bytes@),
{
    let encoded = encode_base64(image_bytes);
    data_uri_from_base64(file_type, encoded.as_str())
}

} // verus!
