//! Remote entities as the reconciliation engine sees them.
//!
//! Instants are milliseconds since the Unix epoch (UTC); free-form JSON
//! values are kept as their JSON text.

use vstd::prelude::*;

verus! {

/// Milliseconds since 1970-01-01T00:00:00Z.
pub type Timestamp = i64;

#[derive(Clone, Debug)]
pub struct User {
    pub id: u64,
    pub username: String,
    pub email: String,
    pub name: Option<String>,
    pub state: String,
    pub avatar_url: Option<String>,
    pub web_url: Option<String>,
    pub created_at: String,
    pub bio: Option<String>,
    pub location: Option<String>,
    pub skype: Option<String>,
    pub linkedin: Option<String>,
    pub twitter: Option<String>,
    pub website_url: Option<String>,
    pub organization: Option<String>,
    pub last_sign_in_at: Option<Timestamp>,
    pub confirmed_at: Option<Timestamp>,
    pub theme_id: u64,
    pub last_activity_on: Option<Timestamp>,
    pub color_scheme_id: u64,
    pub projects_limit: u64,
    pub current_sign_in_at: Option<Timestamp>,
    pub can_create_group: bool,
    pub can_create_project: bool,
    pub two_factor_enabled: bool,
    pub external: bool,
}

#[derive(Debug)]
pub struct Author {
    pub id: u64,
    pub username: String,
    pub email: Option<String>,
    pub name: String,
    pub state: String,
    pub created_at: Option<Timestamp>,
}

#[derive(Clone, Debug)]
pub struct Assignee {
    pub id: u64,
    pub username: String,
    pub email: Option<String>,
    pub name: String,
    pub state: String,
    pub created_at: Option<Timestamp>,
}

#[derive(Clone, Debug)]
pub struct Project {
    pub id: u64,
    pub description: Option<String>,
    pub default_branch: String,
    pub visibility: String,
    pub ssh_url_to_repo: String,
    pub http_url_to_repo: String,
    pub web_url: String,
    pub tag_list: Vec<String>,
    pub name: String,
    pub name_with_namespace: String,
    pub path: String,
    pub path_with_namespace: String,
    pub issues_enabled: bool,
    pub open_issues_count: i64,
    pub merge_requests_enabled: bool,
    pub jobs_enabled: bool,
    pub wiki_enabled: bool,
    pub snippets_enabled: bool,
    pub resolve_outdated_diff_discussions: Option<bool>,
    pub container_registry_enabled: bool,
    pub created_at: String,
    pub last_activity_at: String,
    pub creator_id: i64,
    pub import_status: String,
    pub import_error: Option<String>,
    pub archived: bool,
    pub avatar_url: Option<String>,
    pub shared_runners_enabled: bool,
    pub forks_count: i64,
    pub star_count: i64,
    pub runners_token: Option<String>,
    pub public_jobs: bool,
    pub repository_storage: Option<String>,
    pub only_allow_merge_if_pipeline_succeeds: bool,
    pub only_allow_merge_if_all_discussions_are_resolved: bool,
    pub printing_merge_requests_link_enabled: Option<bool>,
    pub request_access_enabled: bool,
    pub approvals_before_merge: Option<i64>,
}

#[derive(Clone, Debug)]
pub struct Milestone {
    pub id: u64,
    pub iid: u64,
    pub project_id: u64,
    pub title: String,
    pub description: String,
    pub state: String,
    pub created_at: Timestamp,
    pub updated_at: Timestamp,
    pub due_date: Option<Timestamp>,
}

#[derive(Clone, Debug)]
pub struct Commit {
    pub author_email: String,
    pub author_name: String,
    pub authored_date: Timestamp,
    pub committed_date: Timestamp,
    pub committer_email: String,
    pub committer_name: String,
    pub id: String,
    pub short_id: String,
    pub title: String,
    pub message: String,
    pub parent_ids: Vec<String>,
}

#[derive(Clone, Debug)]
pub struct Branch {
    pub name: String,
    pub merged: bool,
    pub protected: bool,
    pub developers_can_push: bool,
    pub developers_can_merge: bool,
    pub commit: Commit,
}

#[derive(Clone, Debug)]
pub struct MergeRequestTimeStats {
    pub time_estimate: u64,
    pub total_time_spent: u64,
    pub human_time_estimate: Option<String>,
    pub human_total_time_spent: Option<String>,
}

#[derive(Clone, Debug)]
pub struct MergeRequest {
    pub id: u64,
    pub iid: u64,
    pub target_branch: String,
    pub source_branch: String,
    pub project_id: u64,
    pub title: String,
    pub state: String,
    pub created_at: Option<Timestamp>,
    pub updated_at: Timestamp,
    pub upvotes: u64,
    pub downvotes: u64,
    pub author: Author,
    pub assignee: Option<Assignee>,
    pub source_project_id: u64,
    pub target_project_id: u64,
    pub labels: Vec<String>,
    pub description: String,
    pub work_in_progress: bool,
    pub milestone: Option<Milestone>,
    pub merge_when_pipeline_succeeds: bool,
    pub merge_status: String,
    pub sha: String,
    pub merge_commit_sha: Option<String>,
    pub user_notes_count: u64,
    pub changes_count: Option<String>,
    pub should_remove_source_branch: Option<bool>,
    pub force_remove_source_branch: bool,
    pub web_url: String,
    pub time_stats: MergeRequestTimeStats,
}

/// A comment on a merge request.
#[derive(Debug)]
pub struct Note {
    pub id: u64,
    pub body: String,
    pub attachment: Option<String>,
    pub author: Option<Author>,
    pub created_at: Timestamp,
    pub updated_at: Option<Timestamp>,
    pub system: Option<bool>,
    pub noteable_id: u64,
    pub noteable_type: String,
    pub noteable_iid: u64,
}

#[derive(Clone, Debug)]
pub struct Pipeline {
    pub id: u64,
    pub sha: String,
    /// The git ref the pipeline ran on.
    pub branch: String,
    pub status: String,
}

#[derive(Clone, Debug)]
pub struct JobArtifact {
    pub filename: String,
    pub size: u64,
}

#[derive(Clone, Debug)]
pub struct Job {
    pub commit: Commit,
    pub created_at: Timestamp,
    pub started_at: Option<Timestamp>,
    pub finished_at: Option<Timestamp>,
    pub id: u64,
    pub name: String,
    pub status: String,
    pub tag: bool,
    pub stage: String,
    /// The git ref the job ran on.
    pub branch: String,
    pub artifacts_file: Option<JobArtifact>,
}

/// True when the note was written by the account `user_id`.
pub open spec fn authored_by(n: Note, user_id: u64) -> bool {
    n.author is Some && n.author->Some_0.id == user_id
}

impl Clone for Author {
    fn clone(&self) -> (r: Self)
        ensures
            r == *self,
    {
        Author {
            id: self.id,
            username: self.username.clone(),
            email: self.email.clone(),
            name: self.name.clone(),
            state: self.state.clone(),
            created_at: self.created_at,
        }
    }
}

impl Clone for Note {
    fn clone(&self) -> (r: Self)
        ensures
            r == *self,
    {
        Note {
            id: self.id,
            body: self.body.clone(),
            attachment: self.attachment.clone(),
            author: self.author.clone(),
            created_at: self.created_at,
            updated_at: self.updated_at,
            system: self.system,
            noteable_id: self.noteable_id,
            noteable_type: self.noteable_type.clone(),
            noteable_iid: self.noteable_iid,
        }
    }
}

impl Note {
    /// True when this note was written by the account `user_id`.
    pub fn is_authored_by(&self, user_id: u64) -> (r: bool)
        ensures
            r == authored_by(*self, user_id),
    {
        match &self.author {
            Some(a) => a.id == user_id,
            None => false,
        }
    }
}

} // verus!
