//! The full snapshot of a merge request on which every decision is taken.

use vstd::prelude::*;
use crate::clock::DAY_MS;
use crate::config::RepoConfig;
use crate::text::{contains, contains_text, decimal, push_decimal, push_text};
use crate::types::{authored_by, Branch, Commit, MergeRequest, Note, Pipeline, Project, Timestamp};

verus! {

/// The notes of `notes` written by the account `bot_id`, in the same order.
pub open spec fn bot_notes(notes: Seq<Note>, bot_id: u64) -> Seq<Note> {
    notes.filter(bot_author(bot_id))
}

/// The predicate "written by the account `bot_id`".
pub open spec fn bot_author(bot_id: u64) -> spec_fn(Note) -> bool {
    |n: Note| authored_by(n, bot_id)
}

/// True when note `n` carries `marker` and, if `max_age_days` is given, was
/// created no earlier than that many days before `now`.
pub open spec fn is_marked_note(n: Note, marker: Seq<char>, max_age_days: Option<i64>, now: Timestamp) -> bool {
    &&& contains_text(n.body@, marker)
    &&& match max_age_days {
        None => true,
        Some(d) => n.created_at as int >= now as int - d as int * DAY_MS as int,
    }
}

/// True when some note of `notes` is a marked note in the sense of `is_marked_note`.
pub open spec fn has_marked_note(notes: Seq<Note>, marker: Seq<char>, max_age_days: Option<i64>, now: Timestamp) -> bool {
    exists|i: int| 0 <= i < notes.len() && is_marked_note(#[trigger] notes[i], marker, max_age_days, now)
}

/// The web address of the log of job `job_id` in the project at `web_url`.
pub open spec fn job_url_text(web_url: Seq<char>, job_id: u64) -> Seq<char> {
    web_url + "/-/jobs/"@ + decimal(job_id as nat)
}

/// The notes of `comments` written by the account `bot_id`, newest first as given.
pub fn bot_comments_of(comments: &Vec<Note>, bot_id: u64) -> (r: Vec<Note>)
    ensures
        r@ == bot_notes(comments@, bot_id),
{
    let mut out: Vec<Note> = Vec::new();
    let mut i: usize = 0;
    while i < comments.len()
        invariant
            i <= comments@.len(),
            out@ == bot_notes(comments@.subrange(0, i as int), bot_id),
        decreases comments@.len() - i,
    {
        let ghost prefix = comments@.subrange(0, i + 1);
        assert(prefix.drop_last() =~= comments@.subrange(0, i as int));
        assert(prefix.last() == comments@[i as int]);
        proof {
            reveal(Seq::filter);
        }
        if comments[i].is_authored_by(bot_id) {
            out.push(comments[i].clone());
        }
        i = i + 1;
    }
    assert(comments@.subrange(0, comments@.len() as int) =~= comments@);
    out
}

/// Everything known about one open merge request.
#[derive(Clone, Debug)]
pub struct FullMergeRequest {
    pub project: Project,
    pub request: MergeRequest,
    pub source_branch: Branch,
    pub source_branch_commits: Vec<Commit>,
    pub target_branch_commits: Vec<Commit>,
    /// All notes, newest first.
    pub comments: Vec<Note>,
    /// The notes written by the bot, newest first.
    pub bot_comments: Vec<Note>,
    /// Pipelines of the merge request, newest first.
    pub pipelines: Vec<Pipeline>,
    pub repo_config: RepoConfig,
}

impl FullMergeRequest {
    /// Puts together a snapshot from the fetched parts; the bot's notes are
    /// those of `comments` written by the account `bot_id`.
    pub fn assemble(
        project: Project,
        request: MergeRequest,
        source_branch: Branch,
        source_branch_commits: Vec<Commit>,
        target_branch_commits: Vec<Commit>,
        comments: Vec<Note>,
        pipelines: Vec<Pipeline>,
        repo_config: RepoConfig,
        bot_id: u64,
    ) -> (r: FullMergeRequest)
        ensures
            r.project == project,
            r.request == request,
            r.source_branch == source_branch,
            r.source_branch_commits == source_branch_commits,
            r.target_branch_commits == target_branch_commits,
            r.comments == comments,
            r.bot_comments@ == bot_notes(comments@, bot_id),
            r.pipelines == pipelines,
            r.repo_config == repo_config,
    {
        let bot_comments = bot_comments_of(&comments, bot_id);
        FullMergeRequest {
            project,
            request,
            source_branch,
            source_branch_commits,
            target_branch_commits,
            comments,
            bot_comments,
            pipelines,
            repo_config,
        }
    }

    /// True when a bot note carries `marker` and, if `max_age_days` is
    /// given, is at most that many days older than `now`.
    pub fn has_bot_comment(&self, marker: &str, max_age_days: Option<i64>, now: Timestamp) -> (r: bool)
        ensures
            r == has_marked_note(self.bot_comments@, marker@, max_age_days, now),
    {
        let mut i: usize = 0;
        while i < self.bot_comments.len()
            invariant
                i <= self.bot_comments@.len(),
                forall|k: int| 0 <= k < i ==> !is_marked_note(#[trigger] self.bot_comments@[k], marker@, max_age_days, now),
            decreases self.bot_comments@.len() - i,
        {
            let c = &self.bot_comments[i];
            let recent = match max_age_days {
                None => true,
                Some(d) => {
                    let cutoff: i128 = now as i128 - (d as i128) * (DAY_MS as i128);
                    c.created_at as i128 >= cutoff
                },
            };
            if recent && contains(c.body.as_str(), marker) {
                return true;
            }
            i = i + 1;
        }
        false
    }

    /// The web address of the log of job `job_id`.
    pub fn job_url(&self, job_id: u64) -> (r: String)
        ensures
            r@ == job_url_text(self.project.web_url@, job_id),
    {
        let mut s = self.project.web_url.clone();
        push_text(&mut s, "/-/jobs/");
        push_decimal(&mut s, job_id);
        s
    }
}

} // verus!
