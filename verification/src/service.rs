//! Decision logic of the image-hosting HTTP service: route a request, and
//! build the reply for the one image endpoint from the outcome of choosing
//! and reading a file. Listening, request parsing and file I/O live outside
//! the library; they hand in the method, the path and the read outcome as
//! plain values and get a plain reply back.

use vstd::prelude::*;

verus! {

/// The request method, as far as the service distinguishes it.
#[derive(Clone, Copy, Debug, PartialEq, Eq, Structural)]
pub enum HttpMethod {
    /// A GET request.
    Get,
    /// Any other method.
    Other,
}

/// What happened when the caller tried to obtain a random image file.
pub enum ImageOutcome {
    /// The image directory holds no files.
    NoImages,
    /// A file was chosen but could not be read.
    ReadError,
    /// A file was chosen and read: its path and its raw bytes.
    Image(String, Vec<u8>),
}

/// A reply body: either a fixed diagnostic text or raw image bytes.
pub enum ReplyBody {
    /// A short plain-text message.
    Text(String),
    /// Raw file contents.
    Bytes(Vec<u8>),
}

/// One HTTP reply: status code, optional content type, body.
pub struct HttpReply {
    pub status: u16,
    pub content_type: Option<String>,
    pub body: ReplyBody,
}

/// The content type that the MIME guesser assigns to a file path. The guess
/// depends on the path alone, so the name stands for that one value.
pub uninterp spec fn mime_of(path: Seq<char>) -> Seq<char>;

/// Relies on `mime_guess::from_path` and `MimeGuess::first_or_octet_stream`:
/// the guessed type is computed from the path's extension alone, with
/// `application/octet-stream` as the fallback, so it is a function of the
/// path.
#[verifier::external_body]
fn guess_mime(path: &str) -> (r: String)
    ensures
        r@ == mime_of(path@),
{
    mime_guess::from_path(path).first_or_octet_stream().to_string()
}

/// The service behind the image endpoint. It owns no state; every request is
/// answered from the directory contents at that moment.
#[derive(Default)]
pub struct ServerService;

impl ServerService {
    /// Routes one request. Returns the finished reply for everything except
    /// `GET /img` — 405 for a non-GET method, 404 for any other path — and
    /// `None` exactly when the caller must obtain a random image and finish
    /// with `image_reply`.
    pub fn route(&self, method: HttpMethod, path: &String) -> (r: Option<HttpReply>)
        ensures
            r is None <==> method is Get && path@ == "/img"@,
            method is Other ==> {
                &&& r matches Some(rep)
                &&& rep.status == 405
                &&& rep.content_type is None
                &&& rep.body matches ReplyBody::Text(t)
                &&& t@ == "Method Not Allowed"@
            },
            method is Get && path@ != "/img"@ ==> {
                &&& r matches Some(rep)
                &&& rep.status == 404
                &&& rep.content_type is None
                &&& rep.body matches ReplyBody::Text(t)
                &&& t@ == "Not Found"@
            },
    {
        match method {
            HttpMethod::Get => {
                let img_path = "/img".to_owned();
                if path.eq(&img_path) {
                    None
                } else {
                    Some(
                        HttpReply {
                            status: 404,
                            content_type: None,
                            body: ReplyBody::Text("Not Found".to_owned()),
                        },
                    )
                }
            },
            HttpMethod::Other => Some(
                HttpReply {
                    status: 405,
                    content_type: None,
                    body: ReplyBody::Text("Method Not Allowed".to_owned()),
                },
            ),
        }
    }

    /// Builds the `GET /img` reply from the outcome of choosing and reading
    /// a file: 404 with a fixed message when the directory is empty, 500
    /// when the chosen file could not be read, and otherwise 200 with the
    /// file's bytes and its guessed content type.
    pub fn image_reply(&self, outcome: ImageOutcome) -> (r: HttpReply)
        ensures
            outcome is NoImages ==> {
                &&& r.status == 404
                &&& r.content_type is None
                &&& r.body matches ReplyBody::Text(t)
                &&& t@ == "No images found"@
            },
            outcome is ReadError ==> {
                &&& r.status == 500
                &&& r.content_type is None
                &&& r.body matches ReplyBody::Text(t)
                &&& t@ == "Failed to read image"@
            },
            outcome matches ImageOutcome::Image(path, bytes) ==> {
                &&& r.status == 200
                &&& r.content_type matches Some(m)
                &&& m@ == mime_of(path@)
                &&& r.body matches ReplyBody::Bytes(d)
                &&& d@ == bytes@
            },
    {
        match outcome {
            ImageOutcome::NoImages => HttpReply {
                status: 404,
                content_type: None,
                body: ReplyBody::Text("No images found".to_owned()),
            },
            ImageOutcome::ReadError => HttpReply {
                status: 500,
                content_type: None,
                body: ReplyBody::Text("Failed to read image".to_owned()),
            },
            ImageOutcome::Image(path, bytes) => {
                let mime = guess_mime(path.as_str());
                HttpReply { status: 200, content_type: Some(mime), body: ReplyBody::Bytes(bytes) }
            },
        }
    }
}

} // verus!
