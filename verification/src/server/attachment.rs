use vstd::prelude::*;
use vstd::string::StringExecFns;

verus! {

/// What a server answers to an upload.
#[derive(Debug, PartialEq, Eq)]
pub struct UploadAttachmentResponse {
    pub acknowledged: bool,
    pub attachments: Vec<String>,
}

/// What a server keeps of an attachment.
#[derive(Debug, PartialEq, Eq)]
pub struct AttachmentSource {
    pub id: String,
    pub created: String,
    pub updated: String,
    pub session: String,
    pub name: String,
    pub icon: String,
    pub url: String,
    pub size: u64,
}

/// What a server answers when an attachment is deleted.
#[derive(Debug, PartialEq, Eq)]
pub struct DeleteAttachmentResponse {
    pub _id: String,
    pub result: String,
}

/// The path under which the files of a chat session are uploaded.
pub fn upload_path(session_id: &str) -> (path: String)
    ensures
        path@ == "chat/"@ + session_id@ + "/_upload"@,
{
    String::from_str("chat/").concat(session_id).concat("/_upload")
}

/// The path of one attachment.
pub fn attachment_path(id: &str) -> (path: String)
    ensures
        path@ == "/attachment/"@ + id@,
{
    String::from_str("/attachment/").concat(id)
}

/// Tells whether a server did delete an attachment: its answer must say
/// `deleted`.
pub fn delete_attachment(response: &DeleteAttachmentResponse) -> (deleted: Result<bool, String>)
    ensures
        deleted is Ok <==> response.result@ == "deleted"@,
        deleted is Ok ==> deleted->Ok_0,
        deleted is Err ==> deleted->Err_0@ == "Delete operation was not successful"@,
{
    if response.result == String::from_str("deleted") {
        Ok(true)
    } else {
        Err(String::from_str("Delete operation was not successful"))
    }
}

} // verus!
