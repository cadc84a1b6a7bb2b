//! The request-independent part of the API client: request paths, the
//! total-pages header and page-based pagination.

use vstd::prelude::*;
use crate::text::{decimal, push_decimal, push_text};

verus! {

/// Items per page of a commit listing.
pub const COMMITS_PER_PAGE: u64 = 100;

pub open spec fn is_digit(c: char) -> bool {
    '0' <= c <= '9'
}

pub open spec fn digit_value(c: char) -> nat {
    (c as u32 - '0' as u32) as nat
}

/// The number written by the decimal digits `d`.
pub open spec fn digits_value(d: Seq<char>) -> nat
    decreases d.len(),
{
    if d.len() == 0 {
        0
    } else {
        digits_value(d.drop_last()) * 10 + digit_value(d.last())
    }
}

/// The digits of an unsigned number: the text without one leading `+`.
pub open spec fn unsigned_digits(s: Seq<char>) -> Seq<char> {
    if s.len() > 0 && s[0] == '+' {
        s.drop_first()
    } else {
        s
    }
}

/// The value of `s` read as a `u64` the way Rust's `u64::from_str` reads
/// it: an optional `+`, then at least one decimal digit, within range.
pub open spec fn u64_of(s: Seq<char>) -> Option<u64> {
    let d = unsigned_digits(s);
    if d.len() > 0 && (forall|i: int| 0 <= i < d.len() ==> is_digit(#[trigger] d[i])) && digits_value(d) <= u64::MAX {
        Some(digits_value(d) as u64)
    } else {
        None
    }
}

proof fn lemma_digits_monotone(d: Seq<char>, i: int)
    requires
        0 <= i <= d.len(),
    ensures
        digits_value(d.subrange(0, i)) <= digits_value(d),
    decreases d.len() - i,
{
    if i < d.len() {
        lemma_digits_monotone(d, i + 1);
        let p = d.subrange(0, i + 1);
        assert(p.drop_last() =~= d.subrange(0, i));
    } else {
        assert(d.subrange(0, i) =~= d);
    }
}

/// Reads `s` as a `u64`: an optional `+`, then decimal digits.
pub fn parse_u64(s: &str) -> (r: Option<u64>)
    ensures
        r == u64_of(s@),
{
    let cs = crate::text::chars_of(s);
    let mut start: usize = 0;
    if cs.len() > 0 && cs[0] == '+' {
        start = 1;
    }
    let ghost d = unsigned_digits(s@);
    assert(d =~= cs@.subrange(start as int, cs@.len() as int));
    if start >= cs.len() {
        return None;
    }
    let mut v: u64 = 0;
    let mut i: usize = start;
    while i < cs.len()
        invariant
            start <= i <= cs@.len(),
            cs@ == s@,
            d == unsigned_digits(s@),
            d == cs@.subrange(start as int, cs@.len() as int),
            forall|k: int| 0 <= k < i - start ==> is_digit(#[trigger] d[k]),
            v as nat == digits_value(d.subrange(0, i - start)),
        decreases cs@.len() - i,
    {
        let c = cs[i];
        assert(d[i - start] == c);
        if !('0' <= c && c <= '9') {
            assert(!is_digit(d[i - start]));
            return None;
        }
        let w: u128 = (v as u128) * 10 + ((c as u32 - '0' as u32) as u128);
        let ghost p = d.subrange(0, i - start + 1);
        assert(p.drop_last() =~= d.subrange(0, i - start));
        assert(p.last() == c);
        assert(w as nat == digits_value(p));
        if w > u64::MAX as u128 {
            proof {
                lemma_digits_monotone(d, i - start + 1);
            }
            assert(digits_value(d) > u64::MAX);
            return None;
        }
        v = w as u64;
        i = i + 1;
    }
    assert(d.subrange(0, d.len() as int) =~= d);
    Some(v)
}

/// Why the page count of a listing could not be read.
#[derive(Clone, Copy, Debug, PartialEq, Eq)]
pub enum PageError {
    /// The response had no `x-total-pages` header.
    MissingTotalPages,
    /// The header was not a decimal number.
    InvalidTotalPages,
}

/// The page count given by the `x-total-pages` header: an error when the
/// header is missing or not a decimal number.
pub open spec fn header_pages(header: Option<&str>) -> Result<u64, PageError> {
    match header {
        None => Err(PageError::MissingTotalPages),
        Some(h) => match u64_of(h@) {
            Some(n) => Ok(n),
            None => Err(PageError::InvalidTotalPages),
        },
    }
}

/// Reads the total page count from the `x-total-pages` header, if present.
pub fn total_pages(header: Option<&str>) -> (r: Result<u64, PageError>)
    ensures
        r == header_pages(header),
{
    match header {
        None => Err(PageError::MissingTotalPages),
        Some(h) => match parse_u64(h) {
            Some(n) => Ok(n),
            None => Err(PageError::InvalidTotalPages),
        },
    }
}

/// The last page to fetch: the page count, capped by `max_pages`.
pub open spec fn last_page(total: u64, max_pages: Option<u64>) -> u64 {
    match max_pages {
        Some(m) => if m < total { m } else { total },
        None => total,
    }
}

/// How many pages hold `max` items of a commit listing.
pub open spec fn pages_for(max: u64) -> u64 {
    ((max as int + COMMITS_PER_PAGE as int - 1) / COMMITS_PER_PAGE as int) as u64
}

/// The page cap that bounds a commit listing to `max` items.
pub fn commit_pages(max: u64) -> (r: u64)
    ensures
        r == pages_for(max),
{
    let q = max / COMMITS_PER_PAGE;
    if max % COMMITS_PER_PAGE == 0 {
        q
    } else {
        q + 1
    }
}

/// The concatenation of `pages` in order.
pub open spec fn concat_pages<T>(pages: Seq<Seq<T>>) -> Seq<T>
    decreases pages.len(),
{
    if pages.len() == 0 {
        Seq::empty()
    } else {
        concat_pages(pages.drop_last()) + pages.last()
    }
}

/// A listing being read page by page: pages `2..=last` follow the first
/// one, in order.
pub struct Pagination<T> {
    items: Vec<T>,
    next: u128,
    last: u64,
    pages: Ghost<Seq<Seq<T>>>,
}

impl<T> Pagination<T> {
    /// The pages received so far, in order.
    pub closed spec fn received(&self) -> Seq<Seq<T>> {
        self.pages@
    }

    /// The page to request next.
    pub closed spec fn next_spec(&self) -> nat {
        self.next as nat
    }

    /// The last page that will be requested.
    pub closed spec fn last_spec(&self) -> nat {
        self.last as nat
    }

    pub closed spec fn wf(&self) -> bool {
        &&& self.items@ == concat_pages(self.pages@)
        &&& self.next as nat == self.pages@.len() + 1
        &&& self.pages@.len() >= 1
    }

    /// Starts reading a listing from its first page and the value of its
    /// `x-total-pages` header; `max_pages` caps how many pages are read.
    pub fn start(first: Vec<T>, header: Option<&str>, max_pages: Option<u64>) -> (r: Result<Pagination<T>, PageError>)
        ensures
            match header_pages(header) {
                Ok(n) => r matches Ok(p) && p.wf() && p.received() == seq![first@] && p.next_spec() == 2
                    && p.last_spec() == last_page(n, max_pages),
                Err(e) => r == Err::<Pagination<T>, PageError>(e),
            },
    {
        match total_pages(header) {
            Err(e) => Err(e),
            Ok(n) => {
                let last = match max_pages {
                    Some(m) => if m < n { m } else { n },
                    None => n,
                };
                let ghost pages = seq![first@];
                assert(pages.drop_last() =~= Seq::<Seq<T>>::empty());
                assert(pages.last() == first@);
                assert(concat_pages(Seq::<Seq<T>>::empty()) == Seq::<T>::empty());
                assert(concat_pages(pages) =~= first@);
                Ok(Pagination { items: first, next: 2, last, pages: Ghost(pages) })
            },
        }
    }

    /// The page to request next, or none when the listing is complete.
    pub fn next_page(&self) -> (r: Option<u64>)
        ensures
            r is Some <==> self.next_spec() <= self.last_spec(),
            r matches Some(n) ==> n as nat == self.next_spec(),
    {
        if self.next <= self.last as u128 {
            Some(self.next as u64)
        } else {
            None
        }
    }

    /// Adds the items of the page returned by `next_page`.
    pub fn add_page(&mut self, items: Vec<T>)
        requires
            old(self).wf(),
            old(self).next_spec() <= old(self).last_spec(),
        ensures
            final(self).wf(),
            final(self).received() == old(self).received().push(items@),
            final(self).next_spec() == old(self).next_spec() + 1,
            final(self).last_spec() == old(self).last_spec(),
    {
        let mut items = items;
        let ghost page = items@;
        let ghost pages = self.pages@.push(page);
        self.items.append(&mut items);
        assert(pages.drop_last() =~= self.pages@);
        self.pages = Ghost(pages);
        self.next = self.next + 1;
    }

    /// All items read, in page order.
    pub fn into_items(self) -> (r: Vec<T>)
        requires
            self.wf(),
        ensures
            r@ == concat_pages(self.received()),
    {
        self.items
    }
}

// Request paths, relative to the API root.

/// The API root that every request path is relative to.
pub open spec fn api_path_text(path: Seq<char>) -> Seq<char> {
    "/api/v4/"@ + path
}

/// The absolute path of the API resource `path`, which must be relative.
pub fn api_path(path: &str) -> (r: String)
    requires
        path@.len() == 0 || path@[0] != '/',
    ensures
        r@ == api_path_text(path@),
{
    let mut s = String::new();
    push_text(&mut s, "/api/v4/");
    push_text(&mut s, path);
    assert(s@ =~= api_path_text(path@));
    s
}

pub open spec fn project_path_text(pid: u64) -> Seq<char> {
    "projects/"@ + decimal(pid as nat)
}

pub open spec fn merge_request_path_text(pid: u64, mrid: u64) -> Seq<char> {
    project_path_text(pid) + "/merge_requests/"@ + decimal(mrid as nat)
}

/// `projects/<pid>`.
pub fn project_path(pid: u64) -> (r: String)
    ensures
        r@ == project_path_text(pid),
{
    let mut s = String::new();
    push_text(&mut s, "projects/");
    push_decimal(&mut s, pid);
    assert(s@ =~= project_path_text(pid));
    s
}

/// `projects/<pid>` followed by `tail`.
pub fn project_subpath(pid: u64, tail: &str) -> (r: String)
    ensures
        r@ == project_path_text(pid) + tail@,
{
    let mut s = project_path(pid);
    push_text(&mut s, tail);
    s
}

/// `projects/<pid>/repository/branches/<branch>`.
pub fn branch_path(pid: u64, branch: &str) -> (r: String)
    ensures
        r@ == project_path_text(pid) + "/repository/branches/"@ + branch@,
{
    let mut s = project_subpath(pid, "/repository/branches/");
    push_text(&mut s, branch);
    s
}

/// `projects/<pid>/repository/commits?ref=<branch>`.
pub fn commits_path(pid: u64, branch: &str) -> (r: String)
    ensures
        r@ == project_path_text(pid) + "/repository/commits?ref="@ + branch@,
{
    let mut s = project_subpath(pid, "/repository/commits?ref=");
    push_text(&mut s, branch);
    s
}

/// `projects/<pid>/repository/files/<path>/raw?ref=<branch>`.
pub fn repo_file_path(pid: u64, path: &str, branch: &str) -> (r: String)
    ensures
        r@ == project_path_text(pid) + "/repository/files/"@ + path@ + "/raw?ref="@ + branch@,
{
    let mut s = project_subpath(pid, "/repository/files/");
    push_text(&mut s, path);
    push_text(&mut s, "/raw?ref=");
    push_text(&mut s, branch);
    assert(s@ =~= project_path_text(pid) + "/repository/files/"@ + path@ + "/raw?ref="@ + branch@);
    s
}

/// The listing of all open merge requests.
pub fn merge_requests_path() -> (r: String)
    ensures
        r@ == "merge_requests?scope=all&state=opened"@,
{
    let mut s = String::new();
    push_text(&mut s, "merge_requests?scope=all&state=opened");
    assert(s@ =~= "merge_requests?scope=all&state=opened"@);
    s
}

/// `projects/<pid>/pipelines/<pipeline_id>/jobs`.
pub fn pipeline_jobs_path(pid: u64, pipeline_id: u64) -> (r: String)
    ensures
        r@ == project_path_text(pid) + "/pipelines/"@ + decimal(pipeline_id as nat) + "/jobs"@,
{
    let mut s = project_subpath(pid, "/pipelines/");
    push_decimal(&mut s, pipeline_id);
    push_text(&mut s, "/jobs");
    assert(s@ =~= project_path_text(pid) + "/pipelines/"@ + decimal(pipeline_id as nat) + "/jobs"@);
    s
}

/// `projects/<pid>/jobs/<job_id>` followed by `tail`.
pub fn job_path(pid: u64, job_id: u64, tail: &str) -> (r: String)
    ensures
        r@ == project_path_text(pid) + "/jobs/"@ + decimal(job_id as nat) + tail@,
{
    let mut s = project_subpath(pid, "/jobs/");
    push_decimal(&mut s, job_id);
    push_text(&mut s, tail);
    assert(s@ =~= project_path_text(pid) + "/jobs/"@ + decimal(job_id as nat) + tail@);
    s
}

/// `projects/<pid>/merge_requests/<mrid>` followed by `tail`.
pub fn merge_request_path(pid: u64, mrid: u64, tail: &str) -> (r: String)
    ensures
        r@ == merge_request_path_text(pid, mrid) + tail@,
{
    let mut s = project_subpath(pid, "/merge_requests/");
    push_decimal(&mut s, mrid);
    push_text(&mut s, tail);
    assert(s@ =~= merge_request_path_text(pid, mrid) + tail@);
    s
}

/// `projects/<pid>/merge_requests/<mrid>/notes/<note_id>`.
pub fn note_path(pid: u64, mrid: u64, note_id: u64) -> (r: String)
    ensures
        r@ == merge_request_path_text(pid, mrid) + "/notes/"@ + decimal(note_id as nat),
{
    let mut s = merge_request_path(pid, mrid, "/notes/");
    push_decimal(&mut s, note_id);
    assert(s@ =~= merge_request_path_text(pid, mrid) + "/notes/"@ + decimal(note_id as nat));
    s
}

} // verus!
