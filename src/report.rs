//! Policy evaluation and status-report rendering.

use vstd::prelude::*;
use crate::clock::DAY_MS;
use crate::pattern::{regex_compiles, regex_matches};
use crate::snapshot::{has_marked_note, is_marked_note, job_url_text, FullMergeRequest};
use crate::text::{contains_text, decimal, occurs_at, push_decimal, push_text, same_text};
use crate::types::{Job, Note, Pipeline, Timestamp};

verus! {

/// Days without a commit after which the author is reminded.
pub const REMINDER_DAYS: i64 = 5;

/// The kinds of notes the bot writes, told apart by a marker in their body.
#[derive(Clone, Copy, Debug, PartialEq, Eq)]
pub enum CommentKind {
    Report,
    Reminder,
    TitleWarning,
    BranchNameWarning,
}

impl CommentKind {
    pub open spec fn marker_text(self) -> Seq<char> {
        match self {
            CommentKind::Report => "[report]"@,
            CommentKind::Reminder => "[reminder]"@,
            CommentKind::TitleWarning => "[title_warning]"@,
            CommentKind::BranchNameWarning => "[branch_name_warning]"@,
        }
    }

    /// The marker carried by notes of this kind.
    pub fn marker(&self) -> (r: &'static str)
        ensures
            r@ == self.marker_text(),
    {
        match self {
            CommentKind::Report => "[report]",
            CommentKind::Reminder => "[reminder]",
            CommentKind::TitleWarning => "[title_warning]",
            CommentKind::BranchNameWarning => "[branch_name_warning]",
        }
    }
}

// Staleness reminder.

/// The source branch has had no commit for `REMINDER_DAYS` days and no
/// reminder was posted in that time.
pub open spec fn reminder_due(mr: FullMergeRequest, now: Timestamp) -> bool {
    &&& (mr.source_branch.commit.committed_date as int) < now as int - REMINDER_DAYS as int * DAY_MS as int
    &&& !has_marked_note(mr.bot_comments@, CommentKind::Reminder.marker_text(), Some(REMINDER_DAYS), now)
}

pub open spec fn reminder_text(username: Seq<char>) -> Seq<char> {
    "@"@ + username + " friendly reminder: this merge request has not been updated for "@
        + decimal(REMINDER_DAYS as nat) + " days!\nLet's get going! ;)\n\n"@ + CommentKind::Reminder.marker_text()
}

/// The reminder to post at `now`, if one is due.
pub fn reminder_comment(mr: &FullMergeRequest, now: Timestamp) -> (r: Option<String>)
    ensures
        r is Some <==> reminder_due(*mr, now),
        r matches Some(b) ==> b@ == reminder_text(mr.request.author.username@),
{
    assert(REMINDER_DAYS as int * DAY_MS as int == 432_000_000);
    let cutoff: i128 = now as i128 - (REMINDER_DAYS as i128) * (DAY_MS as i128);
    if (mr.source_branch.commit.committed_date as i128) < cutoff {
        let kind = CommentKind::Reminder;
        if !mr.has_bot_comment(kind.marker(), Some(REMINDER_DAYS), now) {
            let mut b = String::new();
            push_text(&mut b, "@");
            push_text(&mut b, mr.request.author.username.as_str());
            push_text(&mut b, " friendly reminder: this merge request has not been updated for ");
            push_decimal(&mut b, REMINDER_DAYS as u64);
            push_text(&mut b, " days!\nLet's get going! ;)\n\n");
            push_text(&mut b, kind.marker());
            assert(b@ =~= reminder_text(mr.request.author.username@));
            return Some(b);
        }
    }
    None
}

// Naming rules.

/// The naming rules a project may configure.
#[derive(Clone, Copy, Debug, PartialEq, Eq)]
pub enum NamingRule {
    Title,
    BranchName,
}

pub open spec fn rule_kind(rule: NamingRule) -> CommentKind {
    match rule {
        NamingRule::Title => CommentKind::TitleWarning,
        NamingRule::BranchName => CommentKind::BranchNameWarning,
    }
}

pub open spec fn rule_label(rule: NamingRule) -> Seq<char> {
    match rule {
        NamingRule::Title => "Valid Merge Request Title"@,
        NamingRule::BranchName => "Valid Branch Name"@,
    }
}

pub open spec fn rule_invalid_sentence(rule: NamingRule) -> Seq<char> {
    match rule {
        NamingRule::Title => "The merge request title is invalid. "@,
        NamingRule::BranchName => "The branch name is invalid. "@,
    }
}

pub open spec fn rule_default_prefix(rule: NamingRule) -> Seq<char> {
    match rule {
        NamingRule::Title => "Merge request title should match the pattern: `"@,
        NamingRule::BranchName => "Branch name should match the pattern: `"@,
    }
}

/// The configured source text of the rule's pattern.
pub open spec fn rule_pattern(mr: FullMergeRequest, rule: NamingRule) -> Option<String> {
    match mr.repo_config.merge_requests {
        None => None,
        Some(c) => match rule {
            NamingRule::Title => c.title_pattern,
            NamingRule::BranchName => c.branch_name_pattern,
        },
    }
}

/// The configured custom error text of the rule.
pub open spec fn rule_error(mr: FullMergeRequest, rule: NamingRule) -> Option<String> {
    match mr.repo_config.merge_requests {
        None => None,
        Some(c) => match rule {
            NamingRule::Title => c.title_error,
            NamingRule::BranchName => c.branch_name_error,
        },
    }
}

/// The text the rule checks: the title, or the source branch's name.
pub open spec fn rule_subject(mr: FullMergeRequest, rule: NamingRule) -> Seq<char> {
    match rule {
        NamingRule::Title => mr.request.title@,
        NamingRule::BranchName => mr.source_branch.name@,
    }
}

/// One line of the validation checklist.
pub open spec fn checklist_line(label: Seq<char>, ok: bool) -> Seq<char> {
    "- ["@ + (if ok { "x"@ } else { " "@ }) + "] "@ + label + (if ok { ""@ } else { " :warning:"@ }) + " \n"@
}

/// The explanation given in a warning: the custom text, or one naming the pattern.
pub open spec fn error_text(rule: NamingRule, pattern: Seq<char>, custom: Option<String>) -> Seq<char> {
    match custom {
        Some(e) => e@,
        None => rule_default_prefix(rule) + pattern + "`"@,
    }
}

pub open spec fn warning_text(rule: NamingRule, username: Seq<char>, err: Seq<char>) -> Seq<char> {
    "@"@ + username + "\n\n"@ + rule_invalid_sentence(rule) + "\n"@ + err + "\n\n"@ + rule_kind(rule).marker_text()
}

/// Result of one naming rule: its checklist line and, when the subject is
/// invalid and no warning of this kind was posted yet, a warning to post.
#[derive(Debug)]
pub struct RuleOutcome {
    pub valid: bool,
    pub warning: Option<String>,
    pub line: String,
}

pub open spec fn rule_outcome_spec(
    o: RuleOutcome,
    rule: NamingRule,
    mr: FullMergeRequest,
    pattern: Seq<char>,
    custom: Option<String>,
    valid: bool,
) -> bool {
    &&& o.valid == valid
    &&& o.line@ == checklist_line(rule_label(rule), valid)
    &&& (o.warning is Some <==> (!valid && !has_marked_note(mr.bot_comments@, rule_kind(rule).marker_text(), None, 0)))
    &&& (o.warning matches Some(w) ==> w@ == warning_text(rule, mr.request.author.username@, error_text(rule, pattern, custom)))
}

fn push_checklist_line(s: &mut String, label: &str, ok: bool)
    ensures
        final(s)@ == old(s)@ + checklist_line(label@, ok),
{
    push_text(s, "- [");
    if ok {
        push_text(s, "x");
    } else {
        push_text(s, " ");
    }
    push_text(s, "] ");
    push_text(s, label);
    if ok {
        push_text(s, "");
    } else {
        push_text(s, " :warning:");
    }
    push_text(s, " \n");
    assert(final(s)@ =~= old(s)@ + checklist_line(label@, ok));
}

fn rule_kind_of(rule: NamingRule) -> (r: CommentKind)
    ensures
        r == rule_kind(rule),
{
    match rule {
        NamingRule::Title => CommentKind::TitleWarning,
        NamingRule::BranchName => CommentKind::BranchNameWarning,
    }
}

/// The outcome of `rule` on `mr`, given whether the subject matched the
/// pattern whose source text is `pattern`.
pub fn rule_outcome(
    rule: NamingRule,
    mr: &FullMergeRequest,
    pattern: &str,
    custom_error: &Option<String>,
    valid: bool,
) -> (r: RuleOutcome)
    ensures
        rule_outcome_spec(r, rule, *mr, pattern@, *custom_error, valid),
{
    let mut line = String::new();
    let label = match rule {
        NamingRule::Title => "Valid Merge Request Title",
        NamingRule::BranchName => "Valid Branch Name",
    };
    push_checklist_line(&mut line, label, valid);
    let kind = rule_kind_of(rule);
    let mut warning: Option<String> = None;
    if !valid && !mr.has_bot_comment(kind.marker(), None, 0) {
        let mut err = String::new();
        match custom_error {
            Some(e) => push_text(&mut err, e.as_str()),
            None => {
                match rule {
                    NamingRule::Title => push_text(&mut err, "Merge request title should match the pattern: `"),
                    NamingRule::BranchName => push_text(&mut err, "Branch name should match the pattern: `"),
                }
                push_text(&mut err, pattern);
                push_text(&mut err, "`");
            },
        }
        assert(err@ =~= error_text(rule, pattern@, *custom_error));
        let mut w = String::new();
        push_text(&mut w, "@");
        push_text(&mut w, mr.request.author.username.as_str());
        push_text(&mut w, "\n\n");
        match rule {
            NamingRule::Title => push_text(&mut w, "The merge request title is invalid. "),
            NamingRule::BranchName => push_text(&mut w, "The branch name is invalid. "),
        }
        push_text(&mut w, "\n");
        push_text(&mut w, err.as_str());
        push_text(&mut w, "\n\n");
        push_text(&mut w, kind.marker());
        assert(w@ =~= warning_text(rule, mr.request.author.username@, err@));
        warning = Some(w);
    }
    RuleOutcome { valid, warning, line }
}

/// Whether the subject satisfies the rule: none when the rule is not
/// configured or its pattern does not compile.
pub open spec fn rule_verdict(mr: FullMergeRequest, rule: NamingRule) -> Option<bool> {
    match rule_pattern(mr, rule) {
        Some(p) => if regex_compiles(p@) {
            Some(regex_matches(p@, rule_subject(mr, rule)))
        } else {
            None
        },
        None => None,
    }
}

/// Evaluates `rule` on `mr`: none when the rule is not configured or its
/// pattern does not compile.
pub fn check_rule(rule: NamingRule, mr: &FullMergeRequest) -> (r: Option<RuleOutcome>)
    ensures
        r is Some <==> rule_verdict(*mr, rule) is Some,
        r matches Some(o) ==> rule_outcome_spec(
            o,
            rule,
            *mr,
            rule_pattern(*mr, rule)->Some_0@,
            rule_error(*mr, rule),
            rule_verdict(*mr, rule)->Some_0,
        ),
{
    match &mr.repo_config.merge_requests {
        None => None,
        Some(c) => {
            let (compiled, subject, custom) = match rule {
                NamingRule::Title => (c.title_regex(), mr.request.title.as_str(), &c.title_error),
                NamingRule::BranchName => (c.branch_regex(), mr.source_branch.name.as_str(), &c.branch_name_error),
            };
            match compiled {
                None => None,
                Some(re) => {
                    let valid = re.is_match(subject);
                    Some(rule_outcome(rule, mr, re.as_str(), custom, valid))
                },
            }
        },
    }
}

// Policy evaluation.

/// The checklist line of a rule, empty when the rule is not evaluated.
pub open spec fn rule_line(mr: FullMergeRequest, rule: NamingRule) -> Seq<char> {
    match rule_verdict(mr, rule) {
        Some(v) => checklist_line(rule_label(rule), v),
        None => Seq::empty(),
    }
}

/// The warning a rule asks to post, if any.
pub open spec fn rule_warning(mr: FullMergeRequest, rule: NamingRule) -> Option<Seq<char>> {
    match rule_verdict(mr, rule) {
        Some(v) => if !v && !has_marked_note(mr.bot_comments@, rule_kind(rule).marker_text(), None, 0) {
            Some(warning_text(
                rule,
                mr.request.author.username@,
                error_text(rule, rule_pattern(mr, rule)->Some_0@, rule_error(mr, rule)),
            ))
        } else {
            None
        },
        None => None,
    }
}

pub open spec fn optional(o: Option<Seq<char>>) -> Seq<Seq<char>> {
    match o {
        Some(x) => seq![x],
        None => Seq::empty(),
    }
}

/// The notes to post right away, in order: the reminder, the title
/// warning, the branch-name warning.
pub open spec fn expected_notices(mr: FullMergeRequest, now: Timestamp) -> Seq<Seq<char>> {
    optional(if reminder_due(mr, now) { Some(reminder_text(mr.request.author.username@)) } else { None })
        + optional(rule_warning(mr, NamingRule::Title))
        + optional(rule_warning(mr, NamingRule::BranchName))
}

/// The validation checklist: the rule lines, then whether an assignee is set.
pub open spec fn expected_validation(mr: FullMergeRequest) -> Seq<char> {
    rule_line(mr, NamingRule::Title) + rule_line(mr, NamingRule::BranchName)
        + checklist_line("Assignee selected"@, mr.request.assignee is Some)
}

/// What the policies ask of a merge request before its pipeline is looked at.
#[derive(Debug)]
pub struct PolicyEvaluation {
    /// Notes to post right away, in order.
    pub notices: Vec<String>,
    /// The validation checklist of the status report.
    pub validation: String,
}

fn push_rule(notices: &mut Vec<String>, validation: &mut String, rule: NamingRule, mr: &FullMergeRequest)
    ensures
        final(notices)@.map_values(|n: String| n@) == old(notices)@.map_values(|n: String| n@) + optional(rule_warning(*mr, rule)),
        final(validation)@ == old(validation)@ + rule_line(*mr, rule),
{
    let ghost before = notices@;
    match check_rule(rule, mr) {
        Some(o) => {
            push_text(validation, o.line.as_str());
            match o.warning {
                Some(w) => {
                    notices.push(w);
                },
                None => {},
            }
        },
        None => {
            assert(validation@ =~= old(validation)@ + Seq::<char>::empty());
        },
    }
    assert(notices@.map_values(|n: String| n@) =~= before.map_values(|n: String| n@) + optional(rule_warning(*mr, rule)));
}

/// Evaluates the policies of `mr` at `now`: none when the project disabled
/// the bot; else the notes to post and the validation checklist.
pub fn evaluate_policies(mr: &FullMergeRequest, now: Timestamp) -> (r: Option<PolicyEvaluation>)
    ensures
        r is None <==> mr.repo_config.disabled == Some(true),
        r matches Some(e) ==> e.notices@.map_values(|n: String| n@) == expected_notices(*mr, now),
        r matches Some(e) ==> e.validation@ == expected_validation(*mr),
{
    if mr.repo_config.is_disabled() {
        return None;
    }
    let mut notices: Vec<String> = Vec::new();
    match reminder_comment(mr, now) {
        Some(b) => notices.push(b),
        None => {},
    }
    let mut validation = String::new();
    push_rule(&mut notices, &mut validation, NamingRule::Title, mr);
    push_rule(&mut notices, &mut validation, NamingRule::BranchName, mr);
    push_checklist_line(&mut validation, "Assignee selected", mr.request.assignee.is_some());
    assert(notices@.map_values(|n: String| n@) =~= expected_notices(*mr, now));
    assert(validation@ =~= expected_validation(*mr));
    Some(PolicyEvaluation { notices, validation })
}

// Pipeline summary.

pub open spec fn has_status(j: Job, status: Seq<char>) -> bool {
    j.status@ == status
}

pub open spec fn status_filter(status: Seq<char>) -> spec_fn(Job) -> bool {
    |j: Job| has_status(j, status)
}

/// The jobs of `jobs` with the given status, in order.
pub open spec fn jobs_with_status(jobs: Seq<Job>, status: Seq<char>) -> Seq<Job> {
    jobs.filter(status_filter(status))
}

pub open spec fn job_link(web_url: Seq<char>, j: Job) -> Seq<char> {
    "["@ + j.name@ + "]("@ + job_url_text(web_url, j.id) + ")"@
}

/// Links to the jobs of `js`, separated by commas.
pub open spec fn job_links(web_url: Seq<char>, js: Seq<Job>) -> Seq<char>
    decreases js.len(),
{
    if js.len() == 0 {
        Seq::empty()
    } else if js.len() == 1 {
        job_link(web_url, js[0])
    } else {
        job_links(web_url, js.drop_last()) + ", "@ + job_link(web_url, js.last())
    }
}

pub open spec fn job_block(web_url: Seq<char>, j: Job, trace: Seq<char>) -> Seq<char> {
    "#### Job: ["@ + j.name@ + "]("@ + job_url_text(web_url, j.id)
        + ")\n\n<details><summary>Show Logs</summary><pre><code>"@ + trace
        + "</code></pre></details><br>\n"@
}

/// A collapsible log section for each job of `js`, the i-th with `traces[i]`.
pub open spec fn job_blocks(web_url: Seq<char>, js: Seq<Job>, traces: Seq<String>) -> Seq<char>
    decreases js.len(),
{
    if js.len() == 0 {
        Seq::empty()
    } else {
        job_blocks(web_url, js.drop_last(), traces) + job_block(web_url, js.last(), traces[js.len() - 1]@)
    }
}

/// The build-status section of the report for pipeline `p` with jobs
/// `jobs`; `traces` are the logs of its failed jobs, in order.
pub open spec fn status_section(web_url: Seq<char>, p: Pipeline, jobs: Seq<Job>, traces: Seq<String>) -> Seq<char> {
    "## Build Status\n\n"@ + if p.status@ == "failed"@ {
        "Pipeline failed! :warning:\n\n"@ + job_blocks(web_url, jobs_with_status(jobs, "failed"@), traces)
    } else if p.status@ == "success"@ {
        "Pipeline passed! :rocket:\n\nSuccessful jobs: "@ + job_links(web_url, jobs_with_status(jobs, "success"@)) + "\n"@
    } else if p.status@ == "pending"@ {
        "Pipeline is running... "@
    } else {
        Seq::empty()
    }
}

/// The pipeline the report describes: the newest one.
pub fn latest_pipeline(mr: &FullMergeRequest) -> (r: Option<&Pipeline>)
    ensures
        r is Some <==> mr.pipelines@.len() > 0,
        r matches Some(p) ==> *p == mr.pipelines@[0],
{
    if mr.pipelines.len() > 0 {
        Some(&mr.pipelines[0])
    } else {
        None
    }
}

/// Whether the report needs the jobs of pipeline `p`: only when it failed
/// or succeeded.
pub fn needs_jobs(p: &Pipeline) -> (r: bool)
    ensures
        r == (p.status@ == "failed"@ || p.status@ == "success"@),
{
    same_text(p.status.as_str(), "failed") || same_text(p.status.as_str(), "success")
}

proof fn lemma_status_prefix(jobs: Seq<Job>, status: Seq<char>, i: int)
    requires
        0 <= i < jobs.len(),
    ensures
        jobs_with_status(jobs.subrange(0, i + 1), status) == if has_status(jobs[i], status) {
            jobs_with_status(jobs.subrange(0, i), status).push(jobs[i])
        } else {
            jobs_with_status(jobs.subrange(0, i), status)
        },
        jobs_with_status(jobs.subrange(0, i + 1), status).len() <= jobs_with_status(jobs, status).len(),
{
    let sub = jobs.subrange(0, i + 1);
    assert(sub.drop_last() =~= jobs.subrange(0, i));
    assert(sub.last() == jobs[i]);
    reveal(Seq::filter);
    assert(jobs =~= sub + jobs.subrange(i + 1, jobs.len() as int));
    Seq::filter_distributes_over_add(sub, jobs.subrange(i + 1, jobs.len() as int), status_filter(status));
}

/// The ids of the jobs whose logs the report shows: the failed jobs of a
/// failed pipeline, in order.
pub fn traces_to_fetch(p: &Pipeline, jobs: &Vec<Job>) -> (r: Vec<u64>)
    ensures
        p.status@ == "failed"@ ==> r@ == jobs_with_status(jobs@, "failed"@).map_values(|j: Job| j.id),
        p.status@ != "failed"@ ==> r@.len() == 0,
{
    let mut out: Vec<u64> = Vec::new();
    if !same_text(p.status.as_str(), "failed") {
        return out;
    }
    let mut i: usize = 0;
    while i < jobs.len()
        invariant
            i <= jobs@.len(),
            out@ == jobs_with_status(jobs@.subrange(0, i as int), "failed"@).map_values(|j: Job| j.id),
        decreases jobs@.len() - i,
    {
        proof {
            lemma_status_prefix(jobs@, "failed"@, i as int);
        }
        if same_text(jobs[i].status.as_str(), "failed") {
            out.push(jobs[i].id);
        }
        assert(out@ =~= jobs_with_status(jobs@.subrange(0, i + 1), "failed"@).map_values(|j: Job| j.id));
        i = i + 1;
    }
    assert(jobs@.subrange(0, jobs@.len() as int) =~= jobs@);
    out
}

fn push_job_link(s: &mut String, mr: &FullMergeRequest, j: &Job)
    ensures
        final(s)@ == old(s)@ + job_link(mr.project.web_url@, *j),
{
    push_text(s, "[");
    push_text(s, j.name.as_str());
    push_text(s, "](");
    let url = mr.job_url(j.id);
    push_text(s, url.as_str());
    push_text(s, ")");
    assert(final(s)@ =~= old(s)@ + job_link(mr.project.web_url@, *j));
}

fn push_job_block(s: &mut String, mr: &FullMergeRequest, j: &Job, trace: &String)
    ensures
        final(s)@ == old(s)@ + job_block(mr.project.web_url@, *j, trace@),
{
    push_text(s, "#### Job: [");
    push_text(s, j.name.as_str());
    push_text(s, "](");
    let url = mr.job_url(j.id);
    push_text(s, url.as_str());
    push_text(s, ")\n\n<details><summary>Show Logs</summary><pre><code>");
    push_text(s, trace.as_str());
    push_text(s, "</code></pre></details><br>\n");
    assert(final(s)@ =~= old(s)@ + job_block(mr.project.web_url@, *j, trace@));
}

/// The build-status section for pipeline `p` of `mr`, with the pipeline's
/// jobs and the logs of its failed jobs, in order.
pub fn build_status_section(mr: &FullMergeRequest, p: &Pipeline, jobs: &Vec<Job>, traces: &Vec<String>) -> (r: String)
    requires
        p.status@ == "failed"@ ==> traces@.len() == jobs_with_status(jobs@, "failed"@).len(),
    ensures
        r@ == status_section(mr.project.web_url@, *p, jobs@, traces@),
{
    let ghost web = mr.project.web_url@;
    let mut s = String::new();
    push_text(&mut s, "## Build Status\n\n");
    let ghost head = s@;
    if same_text(p.status.as_str(), "failed") {
        push_text(&mut s, "Pipeline failed! :warning:\n\n");
        let ghost head2 = s@;
        let mut i: usize = 0;
        let mut k: usize = 0;
        while i < jobs.len()
            invariant
                i <= jobs@.len(),
                web == mr.project.web_url@,
                p.status@ == "failed"@,
                traces@.len() == jobs_with_status(jobs@, "failed"@).len(),
                k == jobs_with_status(jobs@.subrange(0, i as int), "failed"@).len(),
                s@ == head2 + job_blocks(web, jobs_with_status(jobs@.subrange(0, i as int), "failed"@), traces@),
            decreases jobs@.len() - i,
        {
            proof {
                lemma_status_prefix(jobs@, "failed"@, i as int);
            }
            let ghost fj = jobs_with_status(jobs@.subrange(0, i + 1), "failed"@);
            if same_text(jobs[i].status.as_str(), "failed") {
                push_job_block(&mut s, mr, &jobs[i], &traces[k]);
                assert(fj.drop_last() =~= jobs_with_status(jobs@.subrange(0, i as int), "failed"@));
                assert(fj.last() == jobs@[i as int]);
                assert(fj.len() == k + 1);
                assert(job_blocks(web, fj, traces@) == job_blocks(web, fj.drop_last(), traces@) + job_block(
                    web,
                    jobs@[i as int],
                    traces@[k as int]@,
                ));
                assert(s@ =~= head2 + job_blocks(web, fj, traces@));
                k = k + 1;
            }
            i = i + 1;
        }
        assert(jobs@.subrange(0, jobs@.len() as int) =~= jobs@);
        assert(s@ =~= status_section(web, *p, jobs@, traces@));
    } else if same_text(p.status.as_str(), "success") {
        push_text(&mut s, "Pipeline passed! :rocket:\n\nSuccessful jobs: ");
        let ghost head2 = s@;
        let mut i: usize = 0;
        let mut k: usize = 0;
        while i < jobs.len()
            invariant
                i <= jobs@.len(),
                web == mr.project.web_url@,
                k == jobs_with_status(jobs@.subrange(0, i as int), "success"@).len(),
                s@ == head2 + job_links(web, jobs_with_status(jobs@.subrange(0, i as int), "success"@)),
            decreases jobs@.len() - i,
        {
            proof {
                lemma_status_prefix(jobs@, "success"@, i as int);
            }
            let ghost sj = jobs_with_status(jobs@.subrange(0, i + 1), "success"@);
            if same_text(jobs[i].status.as_str(), "success") {
                if k > 0 {
                    push_text(&mut s, ", ");
                }
                push_job_link(&mut s, mr, &jobs[i]);
                assert(sj.drop_last() =~= jobs_with_status(jobs@.subrange(0, i as int), "success"@));
                assert(sj.last() == jobs@[i as int]);
                assert(sj.len() == k + 1);
                if k == 0 {
                    assert(sj[0] == jobs@[i as int]);
                    assert(job_links(web, sj) == job_link(web, jobs@[i as int]));
                } else {
                    assert(job_links(web, sj) == job_links(web, sj.drop_last()) + ", "@ + job_link(web, jobs@[i as int]));
                }
                assert(s@ =~= head2 + job_links(web, sj));
                k = k + 1;
            }
            i = i + 1;
        }
        push_text(&mut s, "\n");
        assert(jobs@.subrange(0, jobs@.len() as int) =~= jobs@);
        assert(s@ =~= status_section(web, *p, jobs@, traces@));
    } else if same_text(p.status.as_str(), "pending") {
        push_text(&mut s, "Pipeline is running... ");
        assert(s@ =~= status_section(web, *p, jobs@, traces@));
    } else {
        assert(s@ =~= status_section(web, *p, jobs@, traces@));
    }
    s
}

// The report.

/// The status report: the build-status section if any, then the validation
/// section if the checklist is not empty, then the report marker; empty
/// when both sections are.
pub open spec fn report_text(status: Option<Seq<char>>, validation: Seq<char>) -> Seq<char> {
    let body = match status {
        Some(x) => x,
        None => Seq::<char>::empty(),
    } + if validation.len() > 0 {
        "## Validation\n\n"@ + validation + "\n\n"@
    } else {
        Seq::<char>::empty()
    };
    if body.len() > 0 {
        body + "\n\n[report]\n"@
    } else {
        Seq::empty()
    }
}

/// Renders the status report from its build-status section and validation
/// checklist.
pub fn render_report(status: Option<String>, validation: &String) -> (r: String)
    ensures
        r@ == report_text(
            match status {
                Some(x) => Some(x@),
                None => None,
            },
            validation@,
        ),
        r@.len() > 0 ==> contains_text(r@, CommentKind::Report.marker_text()),
{
    let mut msg = match status {
        Some(x) => x,
        None => String::new(),
    };
    if !validation.as_str().is_empty() {
        push_text(&mut msg, "## Validation\n\n");
        push_text(&mut msg, validation.as_str());
        push_text(&mut msg, "\n\n");
    }
    if msg.as_str().is_empty() {
        return msg;
    }
    let ghost body = msg@;
    push_text(&mut msg, "\n\n[report]\n");
    proof {
        reveal_strlit("\n\n[report]\n");
        reveal_strlit("[report]");
        assert(msg@.subrange(body.len() + 2 as int, body.len() + 10 as int) =~= "[report]"@);
        assert(occurs_at(msg@, "[report]"@, body.len() + 2 as int));
    }
    msg
}

// Notices are posted once.

proof fn lemma_suffix_contained(a: Seq<char>, m: Seq<char>)
    ensures
        contains_text(a + m, m),
{
    assert((a + m).subrange(a.len() as int, (a.len() + m.len()) as int) =~= m);
    assert(occurs_at(a + m, m, a.len() as int));
}

/// `after` holds notes with the bodies `bodies`, created at `now`, followed
/// by the notes of `earlier` in their order.
pub open spec fn posted_on_top(after: Seq<Note>, earlier: Seq<Note>, bodies: Seq<Seq<char>>, now: Timestamp) -> bool {
    &&& after.len() == bodies.len() + earlier.len()
    &&& forall|i: int| 0 <= i < bodies.len() ==> (#[trigger] after[i]).body@ == bodies[i] && after[i].created_at == now
    &&& forall|j: int| 0 <= j < earlier.len() ==> #[trigger] after[bodies.len() + j] == earlier[j]
}

proof fn lemma_marked_kept(
    after: Seq<Note>,
    earlier: Seq<Note>,
    bodies: Seq<Seq<char>>,
    m: Seq<char>,
    age: Option<i64>,
    posted_at: Timestamp,
    now: Timestamp,
)
    requires
        posted_on_top(after, earlier, bodies, posted_at),
        has_marked_note(earlier, m, age, now),
    ensures
        has_marked_note(after, m, age, now),
{
    let j = choose|j: int| 0 <= j < earlier.len() && is_marked_note(#[trigger] earlier[j], m, age, now);
    assert(after[bodies.len() + j] == earlier[j]);
}

proof fn lemma_posted_marked(
    after: Seq<Note>,
    earlier: Seq<Note>,
    bodies: Seq<Seq<char>>,
    k: int,
    prefix: Seq<char>,
    m: Seq<char>,
    age: Option<i64>,
    posted_at: Timestamp,
    now: Timestamp,
)
    requires
        posted_on_top(after, earlier, bodies, posted_at),
        0 <= k < bodies.len(),
        bodies[k] == prefix + m,
        age matches Some(d) ==> posted_at as int >= now as int - d as int * DAY_MS as int,
    ensures
        has_marked_note(after, m, age, now),
{
    lemma_suffix_contained(prefix, m);
    assert(after[k].body@ == prefix + m);
    assert(after[k].created_at == posted_at);
    assert(is_marked_note(after[k], m, age, now));
}

/// Posting the notices asked for at `now` satisfies them: once they stand
/// on top of the bot's notes, evaluating the same merge request again at
/// any time `later` up to `REMINDER_DAYS` days after `now` asks for none.
/// Left out: a reminder that was not due at `now` but has fallen due by
/// `later` (an older reminder aged out, or the last commit grew old) is
/// asked for, as it should be.
pub proof fn lemma_notices_posted_once(mr: FullMergeRequest, mr2: FullMergeRequest, now: Timestamp, later: Timestamp)
    requires
        mr2.request == mr.request,
        mr2.source_branch == mr.source_branch,
        mr2.repo_config == mr.repo_config,
        posted_on_top(mr2.bot_comments@, mr.bot_comments@, expected_notices(mr, now), now),
        now <= later,
        later as int <= now as int + REMINDER_DAYS as int * DAY_MS as int,
        reminder_due(mr, now) || !reminder_due(mr, later),
    ensures
        expected_notices(mr2, later) == Seq::<Seq<char>>::empty(),
{
    let after = mr2.bot_comments@;
    let earlier = mr.bot_comments@;
    let n = expected_notices(mr, now);
    let user = mr.request.author.username@;
    let r = optional(if reminder_due(mr, now) { Some(reminder_text(user)) } else { None });
    let t = optional(rule_warning(mr, NamingRule::Title));
    let b = optional(rule_warning(mr, NamingRule::BranchName));
    assert(n == r + t + b);
    let rm = CommentKind::Reminder.marker_text();
    if reminder_due(mr, now) {
        assert(n[0] == reminder_text(user));
        lemma_posted_marked(after, earlier, n, 0, "@"@ + user + " friendly reminder: this merge request has not been updated for "@
            + decimal(REMINDER_DAYS as nat) + " days!\nLet's get going! ;)\n\n"@, rm, Some(REMINDER_DAYS), now, later);
    } else if (mr.source_branch.commit.committed_date as int) < later as int - REMINDER_DAYS as int * DAY_MS as int {
        lemma_marked_kept(after, earlier, n, rm, Some(REMINDER_DAYS), now, later);
    }
    assert(!reminder_due(mr2, later));
    assert(rule_verdict(mr2, NamingRule::Title) == rule_verdict(mr, NamingRule::Title));
    assert(rule_verdict(mr2, NamingRule::BranchName) == rule_verdict(mr, NamingRule::BranchName));
    let tm = rule_kind(NamingRule::Title).marker_text();
    match rule_warning(mr, NamingRule::Title) {
        Some(w) => {
            let k = r.len() as int;
            assert(n[k] == w);
            let err = error_text(NamingRule::Title, rule_pattern(mr, NamingRule::Title)->Some_0@, rule_error(mr, NamingRule::Title));
            lemma_posted_marked(after, earlier, n, k, "@"@ + user + "\n\n"@ + rule_invalid_sentence(NamingRule::Title) + "\n"@ + err + "\n\n"@, tm, None, now, now);
            assert(has_marked_note(after, tm, None, 0)) by {
                let i = choose|i: int| 0 <= i < after.len() && is_marked_note(#[trigger] after[i], tm, None, now);
                assert(is_marked_note(after[i], tm, None, 0));
            }
        },
        None => {
            if rule_verdict(mr, NamingRule::Title) == Some(false) {
                lemma_marked_kept(after, earlier, n, tm, None, now, 0);
            }
        },
    }
    assert(rule_warning(mr2, NamingRule::Title) is None);
    let bm = rule_kind(NamingRule::BranchName).marker_text();
    match rule_warning(mr, NamingRule::BranchName) {
        Some(w) => {
            let k = (r.len() + t.len()) as int;
            assert(n[k] == w);
            let err = error_text(NamingRule::BranchName, rule_pattern(mr, NamingRule::BranchName)->Some_0@, rule_error(mr, NamingRule::BranchName));
            lemma_posted_marked(after, earlier, n, k, "@"@ + user + "\n\n"@ + rule_invalid_sentence(NamingRule::BranchName) + "\n"@ + err + "\n\n"@, bm, None, now, now);
            assert(has_marked_note(after, bm, None, 0)) by {
                let i = choose|i: int| 0 <= i < after.len() && is_marked_note(#[trigger] after[i], bm, None, now);
                assert(is_marked_note(after[i], bm, None, 0));
            }
        },
        None => {
            if rule_verdict(mr, NamingRule::BranchName) == Some(false) {
                lemma_marked_kept(after, earlier, n, bm, None, now, 0);
            }
        },
    }
    assert(rule_warning(mr2, NamingRule::BranchName) is None);
    assert(expected_notices(mr2, later) =~= Seq::<Seq<char>>::empty());
}

} // verus!
