//! Request and response shapes of the HTTP surface. The hosting program
//! mirrors these with its serialized copies; here they are built by verified
//! code with exact contents.

use vstd::prelude::*;

use crate::email::EmailProcessingResult;
use crate::model::{opt_str_view, Document, Project, ProjectStatus};
use crate::text::{dec_seq, u64_to_dec};

verus! {

/// Payload for creating a project.
#[derive(Debug)]
pub struct CreateProjectRequest {
    pub name: String,
}

/// Query for listing projects.
#[derive(Debug)]
pub struct ListProjectsQuery {
    pub status: Option<String>,
}

/// Payload for assigning a document (`None` returns it to the Inbox).
#[derive(Debug)]
pub struct AssignDocumentRequest {
    pub project_id: Option<String>,
}

/// Payload for changing a project's status.
#[derive(Debug)]
pub struct UpdateProjectStatusRequest {
    pub status: ProjectStatus,
}

/// A project as the API reports it.
#[derive(Debug)]
pub struct ProjectResponse {
    pub id: String,
    pub name: String,
    pub status: String,
    pub created_at: i64,
}

impl ProjectResponse {
    /// The response for this project.
    pub fn from_project(p: &Project) -> (r: ProjectResponse)
        ensures
            r.id@ == p.id@,
            r.name@ == p.name@,
            p.status is Active ==> r.status@ == "ACTIVE"@,
            p.status is Archived ==> r.status@ == "ARCHIVED"@,
            r.created_at == p.created_at,
    {
        ProjectResponse {
            id: p.id.clone(),
            name: p.name.clone(),
            status: String::from_str(p.status.as_str()),
            created_at: p.created_at,
        }
    }
}

/// A document as the API reports it, with the URL its file is served under.
#[derive(Debug)]
pub struct DocumentResponse {
    pub id: String,
    pub project_id: Option<String>,
    pub file_path: String,
    pub file_type: String,
    pub original_name: String,
    pub uploaded_at: i64,
    pub file_url: String,
}

impl DocumentResponse {
    /// The response for this document, its file served under
    /// `<base_url>/files/<file_path>`.
    pub fn from_document(doc: &Document, base_url: &str) -> (r: DocumentResponse)
        ensures
            r.id@ == doc.id@,
            opt_str_view(r.project_id) == opt_str_view(doc.project_id),
            r.file_path@ == doc.file_path@,
            r.file_type@ == doc.file_type@,
            r.original_name@ == doc.original_name@,
            r.uploaded_at == doc.uploaded_at,
            r.file_url@ == base_url@ + "/files/"@ + doc.file_path@,
    {
        let mut url = String::from_str(base_url);
        url.append("/files/");
        url.append(doc.file_path.as_str());
        DocumentResponse {
            id: doc.id.clone(),
            project_id: crate::model::dup_opt_string(&doc.project_id),
            file_path: doc.file_path.clone(),
            file_type: doc.file_type.clone(),
            original_name: doc.original_name.clone(),
            uploaded_at: doc.uploaded_at,
            file_url: url,
        }
    }
}

/// The reply to a successful upload.
#[derive(Debug)]
pub struct UploadResponse {
    pub id: String,
    pub file_path: String,
    pub file_type: String,
    pub original_name: String,
    pub file_url: String,
}

impl UploadResponse {
    /// The reply for this freshly stored document, its file served under
    /// `/files/<file_path>`.
    pub fn from_document(doc: &Document) -> (r: UploadResponse)
        ensures
            r.id@ == doc.id@,
            r.file_path@ == doc.file_path@,
            r.file_type@ == doc.file_type@,
            r.original_name@ == doc.original_name@,
            r.file_url@ == "/files/"@ + doc.file_path@,
    {
        let mut url = String::from_str("/files/");
        url.append(doc.file_path.as_str());
        UploadResponse {
            id: doc.id.clone(),
            file_path: doc.file_path.clone(),
            file_type: doc.file_type.clone(),
            original_name: doc.original_name.clone(),
            file_url: url,
        }
    }
}

/// A plain confirmation message.
#[derive(Debug)]
pub struct MessageResponse {
    pub message: String,
}

/// The reply to an inbound-email webhook call.
#[derive(Debug)]
pub struct EmailWebhookResponse {
    pub success: bool,
    pub message: String,
    pub documents_created: usize,
    pub documents_filtered: usize,
}

impl EmailWebhookResponse {
    /// The reply reporting this processing outcome.
    pub fn from_result(result: &EmailProcessingResult) -> (r: EmailWebhookResponse)
        ensures
            r.success == true,
            r.documents_created == result.documents_created,
            r.documents_filtered == result.documents_filtered,
            r.message@ == "Email processed: "@ + dec_seq(result.documents_created as nat)
                + " document(s) created, "@ + dec_seq(result.documents_filtered as nat)
                + " filtered out."@,
    {
        let created = u64_to_dec(result.documents_created as u64);
        let filtered = u64_to_dec(result.documents_filtered as u64);
        let mut message = String::from_str("Email processed: ");
        message.append(created.as_str());
        message.append(" document(s) created, ");
        message.append(filtered.as_str());
        message.append(" filtered out.");
        EmailWebhookResponse {
            success: true,
            message,
            documents_created: result.documents_created,
            documents_filtered: result.documents_filtered,
        }
    }
}

} // verus!
