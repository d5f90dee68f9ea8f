//! What clients ask to learn about the server.

use crate::marti::enrollment::{TextReply, TextView};
use vstd::prelude::*;

verus! {

/// The upload limit that is reported, in bytes.
pub const UPLOAD_SIZE_LIMIT_BYTES: u64 = 104857600;

/// The version that is reported.
pub open spec fn version_text() -> Seq<char> {
    "MicroTAK 0.2.0"@
}

/// The version as text.
pub fn version() -> (res: TextReply)
    ensures
        res.deep_view() == (TextView {
            status: 200,
            content_type: "text/plain"@,
            body: version_text(),
        }),
{
    TextReply {
        status: 200,
        content_type: "text/plain".to_owned(),
        body: "MicroTAK 0.2.0".to_owned(),
    }
}

/// The version of the server and of its surface.
#[derive(Debug)]
pub struct VersionConfig {
    pub version: String,
    pub api: String,
}

/// The version of the server and of its surface.
pub fn version_config() -> (res: VersionConfig)
    ensures
        res.version@ == version_text(),
        res.api@ == "3"@,
{
    VersionConfig { version: "MicroTAK 0.2.0".to_owned(), api: "3".to_owned() }
}

/// The limits on uploads.
#[derive(Debug, Clone, Copy, PartialEq, Eq, Structural)]
pub struct FilesConfig {
    pub upload_size_limit: u64,
}

/// The limits on uploads.
pub fn files_config() -> (res: FilesConfig)
    ensures
        res == (FilesConfig { upload_size_limit: UPLOAD_SIZE_LIMIT_BYTES }),
{
    FilesConfig { upload_size_limit: UPLOAD_SIZE_LIMIT_BYTES }
}

/// The groups, of which there are none.
#[derive(Debug)]
pub struct GroupList {
    pub version: String,
    pub kind: String,
    pub data: Vec<String>,
}

/// The groups, of which there are none.
pub fn list_groups() -> (res: GroupList)
    ensures
        res.version@ == "3"@,
        res.kind@ == "com.bbn.marti.remote.groups.Group"@,
        res.data@.len() == 0,
{
    GroupList {
        version: "3".to_owned(),
        kind: "com.bbn.marti.remote.groups.Group".to_owned(),
        data: Vec::new(),
    }
}

/// Uploads may have a hundred mebibytes.
pub proof fn law_upload_limit_is_in_mebibytes()
    ensures
        UPLOAD_SIZE_LIMIT_BYTES == 100 * 1024 * 1024,
{
}

} // verus!
