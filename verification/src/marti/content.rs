//! Uploads and downloads of content over HTTP.

use crate::content_store::ContentStoreError;
use crate::marti::reply::{Reply, ReplyView};
use crate::text::cat;
use vstd::prelude::*;

verus! {

/// The hash under which an upload is kept.
#[derive(Debug)]
pub struct Uploaded {
    pub hash: String,
}

impl DeepView for Uploaded {
    type V = Seq<char>;

    open spec fn deep_view(&self) -> Seq<char> {
        self.hash@
    }
}

/// The answer to an upload.
pub open spec fn upload_view(stored: Result<String, ContentStoreError>) -> ReplyView<Seq<char>> {
    match stored {
        Ok(hash) => ReplyView::Body { status: 200, body: hash@ },
        Err(ContentStoreError::HashMismatch { claimed, actual }) => ReplyView::Error {
            status: 400,
            message: "claimed hash "@ + claimed@ + (
            " does not match uploaded content's actual hash "@ + actual@ + ""@),
        },
        Err(error) => ReplyView::Error { status: 500, message: error.message_spec() },
    }
}

/// The answer to an upload, given what storing it gave.
pub fn upload(stored: Result<String, ContentStoreError>) -> (res: Reply<Uploaded>)
    ensures
        res.deep_view() == upload_view(stored),
{
    match stored {
        Ok(hash) => Reply::Body { status: 200, body: Uploaded { hash } },
        Err(ContentStoreError::HashMismatch { claimed, actual }) => Reply::Error {
            status: 400,
            message: cat(
                "claimed hash ",
                &claimed,
                &cat(" does not match uploaded content's actual hash ", &actual, ""),
            ),
        },
        Err(error) => Reply::Error { status: 500, message: error.message() },
    }
}

/// Content with its media type.
#[derive(Debug)]
pub struct Download {
    pub content_type: String,
    pub bytes: Vec<u8>,
}

impl DeepView for Download {
    type V = (Seq<char>, Seq<u8>);

    open spec fn deep_view(&self) -> (Seq<char>, Seq<u8>) {
        (self.content_type@, self.bytes@)
    }
}

/// The answer to a request for the content with this hash.
pub open spec fn download_view(
    hash: Seq<char>,
    found: Result<Option<Vec<u8>>, ContentStoreError>,
) -> ReplyView<(Seq<char>, Seq<u8>)> {
    match found {
        Ok(Some(bytes)) => ReplyView::Body {
            status: 200,
            body: ("application/octet-stream"@, bytes@),
        },
        Ok(None) => ReplyView::Error {
            status: 404,
            message: "no content stored under hash '"@ + hash + "'"@,
        },
        Err(ContentStoreError::InvalidHash(h)) => ReplyView::Error {
            status: 400,
            message: "'"@ + h@ + "' is not a valid content hash"@,
        },
        Err(error) => ReplyView::Error { status: 500, message: error.message_spec() },
    }
}

/// The answer to a request for content, given what looking for it gave.
pub fn download(hash: &str, found: Result<Option<Vec<u8>>, ContentStoreError>) -> (res: Reply<
    Download,
>)
    ensures
        res.deep_view() == download_view(hash@, found),
{
    match found {
        Ok(Some(bytes)) => Reply::Body {
            status: 200,
            body: Download { content_type: "application/octet-stream".to_owned(), bytes },
        },
        Ok(None) => Reply::Error {
            status: 404,
            message: cat("no content stored under hash '", hash, "'"),
        },
        Err(ContentStoreError::InvalidHash(h)) => Reply::Error {
            status: 400,
            message: cat("'", &h, "' is not a valid content hash"),
        },
        Err(error) => Reply::Error { status: 500, message: error.message() },
    }
}

/// Content that is there is sent as it is; content that is not, a text that is
/// no hash, and a failure of the server are told apart by their status.
pub proof fn law_downloads_are_sent_as_stored(
    hash: Seq<char>,
    found: Result<Option<Vec<u8>>, ContentStoreError>,
)
    ensures
        found matches Ok(Some(bytes)) ==> (download_view(hash, found) matches ReplyView::Body {
            status,
            body,
        } && status == 200 && body.1 == bytes@),
        found matches Ok(None) ==> (download_view(hash, found) matches ReplyView::Error {
            status,
            ..
        } && status == 404),
        found matches Err(error) ==> (download_view(hash, found) matches ReplyView::Error {
            status,
            ..
        } && (status == 400 || status == 500) && (status == 400 <==> error is InvalidHash)),
{
}

/// An upload is answered with the hash that it is kept under; one whose content
/// is not what was claimed, and a failure of the server, are told apart by their
/// status.
pub proof fn law_uploads_are_answered_with_their_hash(stored: Result<String, ContentStoreError>)
    ensures
        stored matches Ok(hash) ==> (upload_view(stored) matches ReplyView::Body { status, body }
            && status == 200 && body == hash@),
        stored matches Err(error) ==> (upload_view(stored) matches ReplyView::Error { status, .. }
            && (status == 400 || status == 500) && (status == 400 <==> error is HashMismatch)),
{
}

} // verus!
