//! The result record of the image operations, and the image encoder.

use vstd::prelude::*;
use vstd::string::StringExecFns;

use crate::b64::b64_encode;
use crate::b64::b64_encoding;
use crate::datauri::make_data_uri;
use crate::datauri::spec_data_uri;
use crate::errors::MattingError;
use crate::paths::extension_of;
use crate::paths::lemma_extension_shape;
use crate::paths::spec_extension_of;

verus! {

/// What an image operation hands back: a data URI for display and the
/// path of the file it renders.  Both fields are empty when the user
/// cancelled a selection, and both are populated otherwise; a partial
/// record never occurs.
#[derive(Clone, Debug)]
pub struct ImageResult {
    pub image_data_uri: String,
    pub image_path: String,
}

impl ImageResult {
    /// Both fields populated, or both empty.
    pub open spec fn wf(self) -> bool {
        (self.image_data_uri@.len() == 0) <==> (self.image_path@.len() == 0)
    }

    /// The sentinel for "no file selected".
    pub open spec fn is_empty_result(self) -> bool {
        self.image_data_uri@.len() == 0 && self.image_path@.len() == 0
    }
}

/// The record for a cancelled selection: both fields empty.
pub fn cancelled_result() -> (r: ImageResult)
    ensures
        r.is_empty_result(),
        r.wf(),
{
    ImageResult { image_data_uri: String::new(), image_path: String::new() }
}

/// Encodes a file's contents for display: the result pairs the path
/// with `data:image/<ext>;base64,<encoded contents>`, where `<ext>` is
/// the path's extension taken verbatim.  A path without an extension
/// is rejected.  The size bound keeps the base64 text addressable.
pub fn encode_image(path: &str, contents: &Vec<u8>) -> (r: Result<ImageResult, MattingError>)
    requires
        4 * ((contents@.len() + 2) / 3) <= usize::MAX,
    ensures
        spec_extension_of(path@) is None ==> (r matches Err(e) && e is InvalidPath),
        spec_extension_of(path@) matches Some(ext) ==> (r matches Ok(img) && img.image_path@
            == path@ && img.image_data_uri@ == spec_data_uri(ext, b64_encoding(contents@))
            && img.wf()),
{
    let ext_opt = extension_of(path);
    match ext_opt {
        None => Err(MattingError::InvalidPath),
        Some(ext) => {
            let payload = b64_encode(contents);
            let uri = make_data_uri(ext.as_str(), payload.as_str());
            proof {
                lemma_extension_shape(path@);
                reveal_strlit("data:image/");
                reveal_strlit(";base64,");
            }
            Ok(ImageResult { image_data_uri: uri, image_path: path.to_owned() })
        },
    }
}

/// What the image picker returns once the dialog has closed and any
/// selected file has been read: cancellation is a success with the
/// empty record, and a selection is encoded as `encode_image` does.
pub fn open_image_outcome(selection: Option<(String, Vec<u8>)>) -> (r: Result<
    ImageResult,
    MattingError,
>)
    requires
        selection matches Some(sel) ==> 4 * ((sel.1@.len() + 2) / 3) <= usize::MAX,
    ensures
        selection is None ==> (r matches Ok(img) && img.is_empty_result()),
        selection matches Some(sel) ==> {
            &&& spec_extension_of(sel.0@) is None ==> (r matches Err(e) && e is InvalidPath)
            &&& spec_extension_of(sel.0@) matches Some(ext) ==> (r matches Ok(img)
                && img.image_path@ == sel.0@ && img.image_data_uri@ == spec_data_uri(
                ext,
                b64_encoding(sel.1@),
            ) && img.wf())
        },
{
    match selection {
        None => Ok(cancelled_result()),
        Some((path, contents)) => encode_image(path.as_str(), &contents),
    }
}

} // verus!
