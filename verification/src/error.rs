//! The error of the image side of the library.

use vstd::prelude::*;
use vstd::string::*;

verus! {

/// Why an image could not be decoded.
#[derive(Debug)]
pub enum ImageError {
    /// The input could not be decoded; the text says why.
    Decode(String),
    /// Something other than the input failed; no decoder is tried after it.
    Other(String),
}

/// The result of a step that decodes or checks an image.
pub type ImageResult<T> = Result<T, ImageError>;

/// `r` is the decode error with the given text.
pub open spec fn is_decode_error<T>(r: ImageResult<T>, text: Seq<char>) -> bool {
    r matches Err(ImageError::Decode(message)) && message@ == text
}

/// `r` is the success or the decode error that `expected` names.
pub open spec fn settles_as<T>(r: ImageResult<T>, expected: Result<T, Seq<char>>) -> bool {
    match expected {
        Ok(value) => r == Ok::<T, ImageError>(value),
        Err(text) => is_decode_error(r, text),
    }
}

/// `r` is the success, seen as a mathematical value, or the decode error that
/// `expected` names.
pub open spec fn settles_as_view<T: View>(
    r: ImageResult<T>,
    expected: Result<T::V, Seq<char>>,
) -> bool {
    match expected {
        Ok(value) => r matches Ok(given) && given@ == value,
        Err(text) => is_decode_error(r, text),
    }
}

impl ImageError {
    /// The text of an error.
    pub open spec fn text(self) -> Seq<char> {
        match self {
            ImageError::Decode(message) => message@,
            ImageError::Other(message) => message@,
        }
    }

    /// The text of this error.
    pub fn message(&self) -> (r: String)
        ensures
            r@ == self.text(),
    {
        match self {
            ImageError::Decode(message) => message.clone(),
            ImageError::Other(message) => message.clone(),
        }
    }
}

/// The decode error `<head><name of the image><tail>`.
pub(crate) fn image_error<T>(head: &str, source_name: &str, tail: &str) -> (r: ImageResult<T>)
    ensures
        is_decode_error(r, head@ + source_name@ + tail@),
{
    let mut message = head.to_owned();
    message.append(source_name);
    message.append(tail);
    Err(ImageError::Decode(message))
}

/// The decode error `<head><name of the image><middle><why>`.
pub(crate) fn image_error_because<T>(head: &str, source_name: &str, middle: &str, why: &str) -> (r:
    ImageResult<T>)
    ensures
        is_decode_error(r, head@ + source_name@ + middle@ + why@),
{
    let mut message = head.to_owned();
    message.append(source_name);
    message.append(middle);
    message.append(why);
    Err(ImageError::Decode(message))
}

} // verus!
