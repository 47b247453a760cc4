//! The background-removal client's pure core: building the upload
//! request, classifying the service's answer, and naming and encoding
//! the saved output.
//!
//! The network transfer itself happens outside the library; it hands
//! in the HTTP status and the response bytes.

use vstd::prelude::*;
use vstd::string::StringExecFns;

use crate::b64::b64_encode;
use crate::b64::b64_encoding;
use crate::datauri::make_data_uri;
use crate::datauri::spec_data_uri;
use crate::decimal::decimal_of;
use crate::decimal::u64_to_decimal;
use crate::errors::MattingError;
use crate::images::ImageResult;
use crate::paths::extension_of;
use crate::paths::save_path_for;
use crate::paths::spec_extension_of;
use crate::paths::spec_save_path;

verus! {

/// Everything the upload needs: the service's endpoint, the
/// credential header, and the one binary and one text part of the
/// multipart body.
pub struct RemovalRequest {
    /// The service's documented endpoint.
    pub endpoint: String,
    /// The name of the request header that carries the credential.
    pub api_key_header: String,
    /// The credential itself, passed through verbatim.
    pub api_key: String,
    /// The field name of the binary part.
    pub image_field_name: String,
    /// The file name the binary part is labelled with: `file.<ext>`.
    pub upload_file_name: String,
    /// The field name of the text part.
    pub size_field_name: String,
    /// The value of the text part.
    pub size_field_value: String,
    /// The source file's extension.
    pub extension: String,
    /// The source file's bytes.
    pub contents: Vec<u8>,
}

/// Builds the upload request for a source file: its extension labels
/// the uploaded part, and its bytes form the binary field.  A path
/// without an extension is rejected.
pub fn build_removal_request(file_path: &str, api_key: String, contents: Vec<u8>) -> (r: Result<
    RemovalRequest,
    MattingError,
>)
    ensures
        spec_extension_of(file_path@) is None ==> (r matches Err(e) && e is InvalidPath),
        spec_extension_of(file_path@) matches Some(ext) ==> (r matches Ok(req) && req.endpoint@
            == "https://api.remove.bg/v1.0/removebg"@ && req.api_key_header@ == "X-Api-Key"@
            && req.api_key@ == api_key@ && req.image_field_name@ == "image_file"@
            && req.upload_file_name@ == "file."@ + ext && req.size_field_name@ == "size"@
            && req.size_field_value@ == "auto"@ && req.extension@ == ext && req.contents@
            == contents@),
{
    let ext_opt = extension_of(file_path);
    match ext_opt {
        None => Err(MattingError::InvalidPath),
        Some(ext) => {
            let mut upload_file_name = "file.".to_owned();
            upload_file_name.append(ext.as_str());
            Ok(
                RemovalRequest {
                    endpoint: "https://api.remove.bg/v1.0/removebg".to_owned(),
                    api_key_header: "X-Api-Key".to_owned(),
                    api_key,
                    image_field_name: "image_file".to_owned(),
                    upload_file_name,
                    size_field_name: "size".to_owned(),
                    size_field_value: "auto".to_owned(),
                    extension: ext,
                    contents,
                },
            )
        },
    }
}

/// The HTTP statuses on which the service's answer is an image.
pub open spec fn spec_http_success(status: u16) -> bool {
    200 <= status <= 299
}

/// The descriptive text for a failing HTTP status.
pub open spec fn spec_status_message(status: nat) -> Seq<char> {
    "HTTP status "@ + decimal_of(status)
}

/// Renders the descriptive text for a failing HTTP status.
fn status_message(status: u16) -> (r: String)
    ensures
        r@ == spec_status_message(status as nat),
{
    let mut r = "HTTP status ".to_owned();
    let t = u64_to_decimal(status as u64);
    r.append(t.as_str());
    r
}

/// A successfully saved output: where the caller is to write the
/// response bytes, and the record that re-encodes them for display.
pub struct SavedImage {
    /// `<save dir>/<millis>.<ext>`: the output file's path.
    pub save_path: String,
    /// The display record for the output file.
    pub result: ImageResult,
}

/// Classifies the service's answer and, on success, names the output
/// file after the call's timestamp and encodes the response bytes for
/// display.  A 403 status is an authorization failure; any other
/// non-success status is a network-level failure; neither produces an
/// output path.
pub fn removal_response_outcome(
    extension: &str,
    save_dir: &str,
    millis: u64,
    status: u16,
    body: &Vec<u8>,
) -> (r: Result<SavedImage, MattingError>)
    requires
        4 * ((body@.len() + 2) / 3) <= usize::MAX,
    ensures
        status == 403 ==> (r matches Err(e) && e matches MattingError::Forbidden(c) && c == 403),
        status != 403 && !spec_http_success(status) ==> (r matches Err(e) && e matches
            MattingError::NetworkError(m) && m@ == spec_status_message(status as nat)),
        spec_http_success(status) ==> (r matches Ok(s) && s.save_path@ == spec_save_path(
            save_dir@,
            millis as nat,
            extension@,
        ) && s.result.image_path@ == s.save_path@ && s.result.image_data_uri@ == spec_data_uri(
            extension@,
            b64_encoding(body@),
        ) && s.result.wf()),
{
    if status == 403 {
        return Err(MattingError::Forbidden(status));
    }
    if status < 200 || status > 299 {
        return Err(MattingError::NetworkError(status_message(status)));
    }
    let save_path = save_path_for(save_dir, millis, extension);
    let payload = b64_encode(body);
    let uri = make_data_uri(extension, payload.as_str());
    proof {
        reveal_strlit("data:image/");
        reveal_strlit(";base64,");
    }
    let result = ImageResult { image_data_uri: uri, image_path: save_path.clone() };
    Ok(SavedImage { save_path, result })
}

} // verus!
