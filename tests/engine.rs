use gitlab_bot::cache::{Cache, CONFIG_TTL_MS};
use gitlab_bot::client::{
    api_path, branch_path, commit_pages, commits_path, merge_request_path, merge_requests_path, note_path,
    parse_u64, pipeline_jobs_path, project_path, repo_file_path, total_pages, PageError, Pagination,
};
use gitlab_bot::config::{RepoConfig, RepoMergeRequestConfig, ReportConfig};
use gitlab_bot::reconcile::{plan_report_writes, CommentWrite};
use gitlab_bot::report::{
    build_status_section, check_rule, evaluate_policies, latest_pipeline, needs_jobs, reminder_comment,
    render_report, rule_outcome, traces_to_fetch, CommentKind, NamingRule,
};
use gitlab_bot::schedule::{select_changed, FanOut, Outcome, MAX_IN_FLIGHT};
use gitlab_bot::snapshot::{bot_comments_of, FullMergeRequest};
use gitlab_bot::text::{contains, decimal_string, same_text};
use gitlab_bot::types::{
    Assignee, Author, Branch, Commit, Job, MergeRequest, MergeRequestTimeStats, Note, Pipeline, Project,
};

const BOT: u64 = 99;
const HUMAN: u64 = 7;
const DAY: i64 = 86_400_000;
const NOW: i64 = 1_700_000_000_000;
const WEB: &str = "https://git.example.com/group/app";

fn author(id: u64, username: &str) -> Author {
    Author {
        id,
        username: username.to_string(),
        email: None,
        name: username.to_string(),
        state: "active".to_string(),
        created_at: None,
    }
}

fn commit(date: i64) -> Commit {
    Commit {
        author_email: "dev@example.com".to_string(),
        author_name: "dev".to_string(),
        authored_date: date,
        committed_date: date,
        committer_email: "dev@example.com".to_string(),
        committer_name: "dev".to_string(),
        id: "abc123".to_string(),
        short_id: "abc".to_string(),
        title: "change".to_string(),
        message: "change".to_string(),
        parent_ids: vec![],
    }
}

fn project() -> Project {
    Project {
        id: 3,
        description: None,
        default_branch: "master".to_string(),
        visibility: "private".to_string(),
        ssh_url_to_repo: "git@git.example.com:group/app.git".to_string(),
        http_url_to_repo: "https://git.example.com/group/app.git".to_string(),
        web_url: WEB.to_string(),
        tag_list: vec![],
        name: "app".to_string(),
        name_with_namespace: "group / app".to_string(),
        path: "app".to_string(),
        path_with_namespace: "group/app".to_string(),
        issues_enabled: true,
        open_issues_count: 0,
        merge_requests_enabled: true,
        jobs_enabled: true,
        wiki_enabled: false,
        snippets_enabled: false,
        resolve_outdated_diff_discussions: None,
        container_registry_enabled: false,
        created_at: "2020-01-01T00:00:00Z".to_string(),
        last_activity_at: "2020-01-01T00:00:00Z".to_string(),
        creator_id: 1,
        import_status: "none".to_string(),
        import_error: None,
        archived: false,
        avatar_url: None,
        shared_runners_enabled: true,
        forks_count: 0,
        star_count: 0,
        runners_token: None,
        public_jobs: true,
        repository_storage: None,
        only_allow_merge_if_pipeline_succeeds: false,
        only_allow_merge_if_all_discussions_are_resolved: false,
        printing_merge_requests_link_enabled: None,
        request_access_enabled: false,
        approvals_before_merge: None,
    }
}

fn merge_request(id: u64, updated_at: i64, title: &str, assigned: bool) -> MergeRequest {
    MergeRequest {
        id,
        iid: id + 100,
        target_branch: "master".to_string(),
        source_branch: "feature/x".to_string(),
        project_id: 3,
        title: title.to_string(),
        state: "opened".to_string(),
        created_at: None,
        updated_at,
        upvotes: 0,
        downvotes: 0,
        author: author(HUMAN, "alice"),
        assignee: if assigned {
            Some(Assignee {
                id: 8,
                username: "bob".to_string(),
                email: None,
                name: "Bob".to_string(),
                state: "active".to_string(),
                created_at: None,
            })
        } else {
            None
        },
        source_project_id: 3,
        target_project_id: 3,
        labels: vec![],
        description: String::new(),
        work_in_progress: false,
        milestone: None,
        merge_when_pipeline_succeeds: false,
        merge_status: "can_be_merged".to_string(),
        sha: "abc123".to_string(),
        merge_commit_sha: None,
        user_notes_count: 0,
        changes_count: None,
        should_remove_source_branch: None,
        force_remove_source_branch: false,
        web_url: format!("{}/merge_requests/{}", WEB, id + 100),
        time_stats: MergeRequestTimeStats {
            time_estimate: 0,
            total_time_spent: 0,
            human_time_estimate: None,
            human_total_time_spent: None,
        },
    }
}

fn note(id: u64, author_id: u64, body: &str, created_at: i64) -> Note {
    Note {
        id,
        body: body.to_string(),
        attachment: None,
        author: Some(author(author_id, if author_id == BOT { "bot" } else { "alice" })),
        created_at,
        updated_at: None,
        system: Some(false),
        noteable_id: 1,
        noteable_type: "MergeRequest".to_string(),
        noteable_iid: 101,
    }
}

fn naming(title: Option<&str>, title_error: Option<&str>, branch: Option<&str>, branch_error: Option<&str>) -> RepoConfig {
    RepoConfig {
        disabled: None,
        merge_requests: Some(RepoMergeRequestConfig {
            title_pattern: title.map(|s| s.to_string()),
            title_error: title_error.map(|s| s.to_string()),
            branch_name_pattern: branch.map(|s| s.to_string()),
            branch_name_error: branch_error.map(|s| s.to_string()),
        }),
        reports: vec![],
    }
}

fn snapshot(
    mr: MergeRequest,
    comments: Vec<Note>,
    pipelines: Vec<Pipeline>,
    config: RepoConfig,
    head_commit_at: i64,
) -> FullMergeRequest {
    let branch = Branch {
        name: mr.source_branch.clone(),
        merged: false,
        protected: false,
        developers_can_push: true,
        developers_can_merge: true,
        commit: commit(head_commit_at),
    };
    FullMergeRequest::assemble(project(), mr, branch, vec![], vec![], comments, pipelines, config, BOT)
}

fn pipeline(id: u64, status: &str) -> Pipeline {
    Pipeline { id, sha: "abc123".to_string(), branch: "feature/x".to_string(), status: status.to_string() }
}

fn job(id: u64, name: &str, status: &str) -> Job {
    Job {
        commit: commit(NOW),
        created_at: NOW,
        started_at: None,
        finished_at: None,
        id,
        name: name.to_string(),
        status: status.to_string(),
        tag: false,
        stage: "test".to_string(),
        branch: "feature/x".to_string(),
        artifacts_file: None,
    }
}

/// Makes the planned writes on a list of notes, newest first.
fn apply(notes: &mut Vec<Note>, writes: &[CommentWrite], next_id: &mut u64) {
    for w in writes {
        match w {
            CommentWrite::Create { body } => {
                notes.insert(0, note(*next_id, BOT, body, NOW));
                *next_id += 1;
            }
            CommentWrite::Update { note_id, body } => {
                for n in notes.iter_mut() {
                    if n.id == *note_id {
                        n.body = body.clone();
                    }
                }
            }
            CommentWrite::Delete { note_id } => notes.retain(|n| n.id != *note_id),
        }
    }
}

fn live_reports(notes: &[Note]) -> usize {
    notes
        .iter()
        .filter(|n| n.author.as_ref().map(|a| a.id == BOT).unwrap_or(false) && n.body.contains("[report]"))
        .count()
}

#[test]
fn decimal_string_renders_digits() {
    assert_eq!(decimal_string(0), "0");
    assert_eq!(decimal_string(1234567), "1234567");
    assert_eq!(decimal_string(u64::MAX), "18446744073709551615");
}

#[test]
fn contains_finds_marker_substrings() {
    assert!(contains("Pipeline ok\n\n[report]\n", "[report]"));
    assert!(!contains("Pipeline ok", "[report]"));
    assert!(!contains("[repor", "[report]"));
    assert!(contains("anything", ""));
    assert!(same_text("failed", "failed"));
    assert!(!same_text("failed", "fail"));
}

#[test]
fn job_url_joins_project_url_and_id() {
    let mr = snapshot(merge_request(1, NOW, "t", true), vec![], vec![], RepoConfig::default(), NOW);
    assert_eq!(mr.job_url(42), "https://git.example.com/group/app/-/jobs/42");
}

#[test]
fn bot_comments_keep_only_bot_notes_in_order() {
    let comments = vec![note(5, BOT, "a", NOW), note(4, HUMAN, "b", NOW), note(3, BOT, "c", NOW)];
    let bots = bot_comments_of(&comments, BOT);
    assert_eq!(bots.iter().map(|n| n.id).collect::<Vec<_>>(), vec![5, 3]);
    let mr = snapshot(merge_request(1, NOW, "t", true), comments, vec![], RepoConfig::default(), NOW);
    assert_eq!(mr.bot_comments.len(), 2);
    assert_eq!(mr.comments.len(), 3);
}

#[test]
fn has_bot_comment_respects_marker_and_age() {
    let comments = vec![note(2, BOT, "hey\n\n[reminder]", NOW - 6 * DAY), note(1, HUMAN, "[title_warning]", NOW)];
    let mr = snapshot(merge_request(1, NOW, "t", true), comments, vec![], RepoConfig::default(), NOW);
    assert!(mr.has_bot_comment("[reminder]", None, NOW));
    assert!(!mr.has_bot_comment("[reminder]", Some(5), NOW));
    assert!(mr.has_bot_comment("[reminder]", Some(7), NOW));
    assert!(!mr.has_bot_comment("[title_warning]", None, NOW));
}

#[test]
fn reminder_is_due_after_five_quiet_days() {
    let mr = snapshot(merge_request(1, NOW, "t", true), vec![], vec![], RepoConfig::default(), NOW - 6 * DAY);
    let body = reminder_comment(&mr, NOW).unwrap();
    assert_eq!(
        body,
        "@alice friendly reminder: this merge request has not been updated for 5 days!\nLet's get going! ;)\n\n[reminder]"
    );
    let fresh = snapshot(merge_request(1, NOW, "t", true), vec![], vec![], RepoConfig::default(), NOW - 4 * DAY);
    assert!(reminder_comment(&fresh, NOW).is_none());
    let reminded = snapshot(
        merge_request(1, NOW, "t", true),
        vec![note(9, BOT, &body, NOW - 2 * DAY)],
        vec![],
        RepoConfig::default(),
        NOW - 6 * DAY,
    );
    assert!(reminder_comment(&reminded, NOW).is_none());
    let old_reminder = snapshot(
        merge_request(1, NOW, "t", true),
        vec![note(9, BOT, &body, NOW - 6 * DAY)],
        vec![],
        RepoConfig::default(),
        NOW - 6 * DAY,
    );
    assert!(reminder_comment(&old_reminder, NOW).is_some());
}

#[test]
fn invalid_title_gets_one_warning_naming_the_pattern() {
    let pattern = r"^\[[A-Z]+-\d+\]";
    let mr = snapshot(merge_request(1, NOW, "fix bug", true), vec![], vec![], naming(Some(pattern), None, None, None), NOW);
    let outcome = check_rule(NamingRule::Title, &mr).unwrap();
    assert!(!outcome.valid);
    assert_eq!(outcome.line, "- [ ] Valid Merge Request Title :warning: \n");
    let warning = outcome.warning.unwrap();
    assert!(warning.contains(pattern));
    assert_eq!(
        warning,
        format!(
            "@alice\n\nThe merge request title is invalid. \nMerge request title should match the pattern: `{}`\n\n[title_warning]",
            pattern
        )
    );
    let eval = evaluate_policies(&mr, NOW).unwrap();
    assert_eq!(eval.notices.len(), 1);
    assert!(eval.notices[0].contains(pattern));
}

#[test]
fn title_warning_is_not_repeated() {
    let pattern = r"^\[[A-Z]+-\d+\]";
    let mr = snapshot(
        merge_request(1, NOW, "fix bug", true),
        vec![note(4, BOT, "old\n\n[title_warning]", NOW - 30 * DAY)],
        vec![],
        naming(Some(pattern), None, None, None),
        NOW,
    );
    let outcome = check_rule(NamingRule::Title, &mr).unwrap();
    assert!(!outcome.valid);
    assert!(outcome.warning.is_none());
}

#[test]
fn valid_title_is_checked_off() {
    let mr = snapshot(
        merge_request(1, NOW, "[ABC-12] fix bug", true),
        vec![],
        vec![],
        naming(Some(r"^\[[A-Z]+-\d+\]"), None, None, None),
        NOW,
    );
    let outcome = check_rule(NamingRule::Title, &mr).unwrap();
    assert!(outcome.valid);
    assert!(outcome.warning.is_none());
    assert_eq!(outcome.line, "- [x] Valid Merge Request Title \n");
}

#[test]
fn branch_rule_uses_custom_error() {
    let mr = snapshot(
        merge_request(1, NOW, "t", true),
        vec![],
        vec![],
        naming(None, None, Some("^(feature|fix)-"), Some("Use feature-* or fix-*")),
        NOW,
    );
    let outcome = check_rule(NamingRule::BranchName, &mr).unwrap();
    assert!(!outcome.valid);
    assert_eq!(outcome.line, "- [ ] Valid Branch Name :warning: \n");
    assert_eq!(
        outcome.warning.unwrap(),
        "@alice\n\nThe branch name is invalid. \nUse feature-* or fix-*\n\n[branch_name_warning]"
    );
    assert!(check_rule(NamingRule::Title, &mr).is_none());
}

#[test]
fn rule_outcome_follows_the_match_result() {
    let mr = snapshot(merge_request(1, NOW, "t", true), vec![], vec![], RepoConfig::default(), NOW);
    let ok = rule_outcome(NamingRule::BranchName, &mr, "^x", &None, true);
    assert!(ok.warning.is_none());
    assert_eq!(ok.line, "- [x] Valid Branch Name \n");
    let bad = rule_outcome(NamingRule::BranchName, &mr, "^x", &None, false);
    assert_eq!(
        bad.warning.unwrap(),
        "@alice\n\nThe branch name is invalid. \nBranch name should match the pattern: `^x`\n\n[branch_name_warning]"
    );
}

#[test]
fn uncompilable_pattern_skips_the_rule() {
    let rules = RepoMergeRequestConfig {
        title_pattern: Some("^a+$".to_string()),
        title_error: None,
        branch_name_pattern: Some("foo(bar".to_string()),
        branch_name_error: None,
    };
    assert_eq!(rules.title_regex().unwrap().as_str(), "^a+$");
    assert!(rules.branch_regex().is_none());
    let aaa = snapshot(merge_request(1, NOW, "aaa", true), vec![], vec![], naming(Some("^a+$"), None, None, None), NOW);
    assert!(check_rule(NamingRule::Title, &aaa).unwrap().valid);
    let ab = snapshot(merge_request(1, NOW, "ab", true), vec![], vec![], naming(Some("^a+$"), None, None, None), NOW);
    assert!(!check_rule(NamingRule::Title, &ab).unwrap().valid);
    let mr = snapshot(merge_request(1, NOW, "t", true), vec![], vec![], naming(Some("foo(bar"), None, None, None), NOW);
    assert!(check_rule(NamingRule::Title, &mr).is_none());
    let eval = evaluate_policies(&mr, NOW).unwrap();
    assert_eq!(eval.validation, "- [x] Assignee selected \n");
}

#[test]
fn disabled_project_produces_nothing() {
    let mut config = naming(Some("^x"), None, None, None);
    config.disabled = Some(true);
    assert!(config.is_disabled());
    let mr = snapshot(merge_request(1, NOW, "t", false), vec![], vec![], config, NOW - 9 * DAY);
    assert!(evaluate_policies(&mr, NOW).is_none());
}

#[test]
fn policies_list_notices_in_order_and_the_checklist() {
    let mr = snapshot(
        merge_request(1, NOW, "fix bug", false),
        vec![],
        vec![],
        naming(Some("^x"), Some("Title must start with x"), Some("^y"), None),
        NOW - 6 * DAY,
    );
    let eval = evaluate_policies(&mr, NOW).unwrap();
    assert_eq!(eval.notices.len(), 3);
    assert!(eval.notices[0].ends_with("[reminder]"));
    assert!(eval.notices[1].ends_with("[title_warning]"));
    assert!(eval.notices[2].ends_with("[branch_name_warning]"));
    assert_eq!(
        eval.validation,
        "- [ ] Valid Merge Request Title :warning: \n- [ ] Valid Branch Name :warning: \n- [ ] Assignee selected :warning: \n"
    );
}

#[test]
fn posted_notices_are_not_asked_for_again() {
    let config = naming(Some("^x"), None, Some("^y"), None);
    let mr = snapshot(merge_request(1, NOW, "fix bug", true), vec![note(1, HUMAN, "hi", NOW)], vec![], config.clone(), NOW - 6 * DAY);
    let first = evaluate_policies(&mr, NOW).unwrap();
    assert_eq!(first.notices.len(), 3);
    let mut comments: Vec<Note> = first
        .notices
        .iter()
        .enumerate()
        .map(|(i, body)| note(200 + i as u64, BOT, body, NOW))
        .collect();
    comments.extend(mr.comments.iter().cloned());
    let again = snapshot(merge_request(1, NOW, "fix bug", true), comments, vec![], config, NOW - 6 * DAY);
    let second = evaluate_policies(&again, NOW).unwrap();
    assert!(second.notices.is_empty());
    let two_days_later = evaluate_policies(&again, NOW + 2 * DAY).unwrap();
    assert!(two_days_later.notices.is_empty());
    assert_eq!(second.validation, first.validation);
}

#[test]
fn config_defaults_when_missing() {
    let c = RepoConfig::or_default(None);
    assert!(!c.is_disabled());
    assert!(c.merge_requests.is_none());
    assert!(c.reports.is_empty());
    let loaded = RepoConfig {
        disabled: Some(false),
        merge_requests: None,
        reports: vec![ReportConfig { job_name: "test".to_string(), path: "report.xml".to_string(), format: None }],
    };
    let c = RepoConfig::or_default(Some(loaded));
    assert_eq!(c.reports.len(), 1);
    assert!(!c.is_disabled());
}

#[test]
fn failed_pipeline_shows_failed_job_logs() {
    let mr = snapshot(merge_request(1, NOW, "t", true), vec![], vec![pipeline(11, "failed")], RepoConfig::default(), NOW);
    let p = latest_pipeline(&mr).unwrap();
    assert!(needs_jobs(p));
    let jobs = vec![job(21, "build", "success"), job(22, "test", "failed"), job(23, "lint", "failed")];
    assert_eq!(traces_to_fetch(p, &jobs), vec![22, 23]);
    let traces = vec!["boom".to_string(), "lint error".to_string()];
    let section = build_status_section(&mr, p, &jobs, &traces);
    assert_eq!(
        section,
        "## Build Status\n\nPipeline failed! :warning:\n\n\
         #### Job: [test](https://git.example.com/group/app/-/jobs/22)\n\n<details><summary>Show Logs</summary><pre><code>boom</code></pre></details><br>\n\
         #### Job: [lint](https://git.example.com/group/app/-/jobs/23)\n\n<details><summary>Show Logs</summary><pre><code>lint error</code></pre></details><br>\n"
    );
}

#[test]
fn successful_pipeline_links_successful_jobs() {
    let mr = snapshot(merge_request(1, NOW, "t", true), vec![], vec![pipeline(11, "success")], RepoConfig::default(), NOW);
    let p = latest_pipeline(&mr).unwrap();
    let jobs = vec![job(21, "build", "success"), job(22, "manual", "skipped"), job(23, "test", "success")];
    assert!(traces_to_fetch(p, &jobs).is_empty());
    let section = build_status_section(&mr, p, &jobs, &vec![]);
    assert_eq!(
        section,
        "## Build Status\n\nPipeline passed! :rocket:\n\nSuccessful jobs: \
         [build](https://git.example.com/group/app/-/jobs/21), [test](https://git.example.com/group/app/-/jobs/23)\n"
    );
}

#[test]
fn pending_pipeline_needs_no_jobs() {
    let mr = snapshot(
        merge_request(1, NOW, "t", true),
        vec![],
        vec![pipeline(12, "pending"), pipeline(11, "failed")],
        RepoConfig::default(),
        NOW,
    );
    let p = latest_pipeline(&mr).unwrap();
    assert_eq!(p.id, 12);
    assert!(!needs_jobs(p));
    assert_eq!(build_status_section(&mr, p, &vec![], &vec![]), "## Build Status\n\nPipeline is running... ");
    let none = snapshot(merge_request(1, NOW, "t", true), vec![], vec![], RepoConfig::default(), NOW);
    assert!(latest_pipeline(&none).is_none());
}

#[test]
fn report_joins_sections_and_marker() {
    let validation = "- [x] Assignee selected \n".to_string();
    assert_eq!(
        render_report(Some("## Build Status\n\nPipeline is running... ".to_string()), &validation),
        "## Build Status\n\nPipeline is running... ## Validation\n\n- [x] Assignee selected \n\n\n\n\n[report]\n"
    );
    assert_eq!(render_report(None, &validation), "## Validation\n\n- [x] Assignee selected \n\n\n\n\n[report]\n");
    assert_eq!(render_report(None, &String::new()), "");
    assert_eq!(CommentKind::Report.marker(), "[report]");
    assert_eq!(CommentKind::BranchNameWarning.marker(), "[branch_name_warning]");
}

#[test]
fn empty_report_writes_nothing() {
    let comments = vec![note(1, BOT, "x\n\n[report]\n", NOW)];
    assert!(plan_report_writes(&String::new(), &comments, BOT).is_empty());
}

#[test]
fn unchanged_report_writes_nothing() {
    let report = "body\n\n[report]\n".to_string();
    let comments = vec![note(3, HUMAN, "looks fine", NOW), note(2, BOT, &report, NOW), note(1, BOT, "old\n\n[report]\n", NOW)];
    assert!(plan_report_writes(&report, &comments, BOT).is_empty());
}

#[test]
fn newest_bot_report_is_updated_in_place() {
    let report = "new\n\n[report]\n".to_string();
    let comments = vec![note(3, BOT, "old\n\n[report]\n", NOW), note(2, HUMAN, "hi", NOW), note(1, BOT, "older\n\n[report]\n", NOW)];
    let writes = plan_report_writes(&report, &comments, BOT);
    assert_eq!(writes.len(), 2);
    assert!(matches!(&writes[0], CommentWrite::Update { note_id: 3, body } if *body == report));
    assert!(matches!(writes[1], CommentWrite::Delete { note_id: 1 }));
}

#[test]
fn report_below_other_notes_is_replaced_by_a_new_one() {
    let report = "new\n\n[report]\n".to_string();
    let comments = vec![note(4, HUMAN, "[report] is stale", NOW), note(3, BOT, "old\n\n[report]\n", NOW), note(2, BOT, "[reminder]", NOW)];
    let writes = plan_report_writes(&report, &comments, BOT);
    assert_eq!(writes.len(), 2);
    assert!(matches!(&writes[0], CommentWrite::Create { body } if *body == report));
    assert!(matches!(writes[1], CommentWrite::Delete { note_id: 3 }));
}

#[test]
fn reconciling_twice_writes_once() {
    let report = "## Validation\n\n- [x] Assignee selected \n\n\n\n\n[report]\n".to_string();
    let mut notes = vec![note(2, HUMAN, "please have a look", NOW), note(1, BOT, "old\n\n[report]\n", NOW)];
    let mut next_id = 100;
    let first = plan_report_writes(&report, &notes, BOT);
    assert!(!first.is_empty());
    apply(&mut notes, &first, &mut next_id);
    let second = plan_report_writes(&report, &notes, BOT);
    assert!(second.is_empty());
}

#[test]
fn repeated_runs_leave_one_live_report() {
    let mut notes = vec![note(1, HUMAN, "opened", NOW)];
    let mut next_id = 100;
    let states = ["pending", "failed", "failed", "success", "pending"];
    for (round, status) in states.iter().enumerate() {
        let report = format!("## Build Status\n\n{}\n\n[report]\n", status);
        let writes = plan_report_writes(&report, &notes, BOT);
        apply(&mut notes, &writes, &mut next_id);
        assert_eq!(live_reports(&notes), 1);
        if round == 2 {
            notes.insert(0, note(50, HUMAN, "comment between runs", NOW));
        }
    }
}

#[test]
fn cache_skips_unchanged_merge_requests() {
    let mut cache = Cache::new();
    let mr = merge_request(1, NOW, "t", true);
    assert!(cache.merge_request_changed(&mr));
    assert!(cache.get_merge_request(&mr).is_none());
    let full = snapshot(mr.clone(), vec![], vec![], RepoConfig::default(), NOW);
    cache.set_merge_request(full);
    assert!(!cache.merge_request_changed(&mr));
    assert_eq!(cache.get_merge_request(&mr).unwrap().request.id, 1);
    let updated = merge_request(1, NOW + 1, "t", true);
    assert!(cache.merge_request_changed(&updated));
    assert!(cache.get_merge_request(&updated).is_none());
    let other = merge_request(2, NOW, "t", true);
    let selected = select_changed(&cache, vec![mr, updated, other]);
    assert_eq!(selected.iter().map(|m| (m.id, m.updated_at)).collect::<Vec<_>>(), vec![(1, NOW + 1), (2, NOW)]);
}

#[test]
fn project_config_expires_after_thirty_minutes() {
    let minute: u64 = 60_000;
    let t: u64 = 5_000_000;
    let mut cache = Cache::new();
    assert!(cache.get_project_config(3, t).is_none());
    cache.set_project_config(3, naming(Some("^x"), None, None, None), t);
    assert_eq!(CONFIG_TTL_MS, 30 * minute);
    let served = cache.get_project_config(3, t + 29 * minute).unwrap();
    assert!(served.merge_requests.is_some());
    assert!(cache.get_project_config(3, t + 31 * minute).is_none());
    assert!(cache.get_project_config(4, t).is_none());
    cache.store_loaded_config(4, None, t);
    assert!(cache.get_project_config(4, t + minute).unwrap().merge_requests.is_none());
}

#[test]
fn total_pages_header_is_read() {
    assert_eq!(parse_u64("3"), Some(3));
    assert_eq!(parse_u64("+12"), Some(12));
    assert_eq!(parse_u64("18446744073709551615"), Some(u64::MAX));
    assert_eq!(parse_u64("18446744073709551616"), None);
    assert_eq!(parse_u64(""), None);
    assert_eq!(parse_u64("+"), None);
    assert_eq!(parse_u64("1a"), None);
    assert_eq!(total_pages(Some("7")), Ok(7));
    assert_eq!(total_pages(None), Err(PageError::MissingTotalPages));
    assert_eq!(total_pages(Some("many")), Err(PageError::InvalidTotalPages));
    assert_eq!(commit_pages(100), 1);
    assert_eq!(commit_pages(101), 2);
    assert_eq!(commit_pages(0), 0);
}

#[test]
fn three_pages_are_read_in_order() {
    let mut p = Pagination::start(vec![1, 2], Some("3"), None).unwrap();
    let mut requested = vec![];
    while let Some(page) = p.next_page() {
        requested.push(page);
        let items = if page == 2 { vec![3, 4] } else { vec![5] };
        p.add_page(items);
    }
    assert_eq!(requested, vec![2, 3]);
    assert_eq!(p.into_items(), vec![1, 2, 3, 4, 5]);
}

#[test]
fn page_cap_bounds_the_requests() {
    let mut p = Pagination::start(vec!["a"], Some("9"), Some(1)).unwrap();
    assert_eq!(p.next_page(), None);
    assert_eq!(p.into_items(), vec!["a"]);
    let p2 = Pagination::start(vec![0u8], Some("4"), Some(2)).unwrap();
    assert_eq!(p2.next_page(), Some(2));
    assert!(Pagination::<u8>::start(vec![], None, None).is_err());
}

#[test]
fn failing_item_does_not_stop_the_others() {
    let mut fan = FanOut::new(3, MAX_IN_FLIGHT);
    assert_eq!(fan.start_next(), Some(0));
    assert_eq!(fan.start_next(), Some(1));
    assert_eq!(fan.start_next(), Some(2));
    assert_eq!(fan.start_next(), None);
    fan.finish(1, false);
    fan.finish(0, true);
    assert!(!fan.is_complete());
    fan.finish(2, true);
    assert!(fan.is_complete());
    assert_eq!(fan.outcome(0), Outcome::Succeeded);
    assert_eq!(fan.outcome(1), Outcome::Failed);
    assert_eq!(fan.outcome(2), Outcome::Succeeded);
}

#[test]
fn at_most_five_items_run_at_once() {
    let mut fan = FanOut::new(7, MAX_IN_FLIGHT);
    for i in 0..5 {
        assert_eq!(fan.start_next(), Some(i));
    }
    assert_eq!(fan.start_next(), None);
    assert_eq!(fan.outcome(5), Outcome::Waiting);
    fan.finish(3, false);
    assert_eq!(fan.start_next(), Some(5));
    assert_eq!(fan.start_next(), None);
}

#[test]
fn request_paths_are_built() {
    assert_eq!(api_path("user"), "/api/v4/user");
    assert_eq!(project_path(3), "projects/3");
    assert_eq!(branch_path(3, "feature/x"), "projects/3/repository/branches/feature/x");
    assert_eq!(commits_path(3, "master"), "projects/3/repository/commits?ref=master");
    assert_eq!(repo_file_path(3, ".gitlab-bot.toml", "master"), "projects/3/repository/files/.gitlab-bot.toml/raw?ref=master");
    assert_eq!(merge_requests_path(), "merge_requests?scope=all&state=opened");
    assert_eq!(pipeline_jobs_path(3, 11), "projects/3/pipelines/11/jobs");
    assert_eq!(merge_request_path(3, 101, "/notes"), "projects/3/merge_requests/101/notes");
    assert_eq!(note_path(3, 101, 5), "projects/3/merge_requests/101/notes/5");
}
