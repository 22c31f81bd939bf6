use jobrail::job::{Job, JobId, JobOptions, JobState};
use jobrail::listing::{JobListing, JobPage, ListAction, ListError, ListEvent};
use jobrail::cursor::CursorError;

/// A job index: (member, score) sorted by score then member, both descending.
struct Index {
    entries: Vec<(String, u64, Job)>,
}

impl Index {
    fn new(count: usize) -> Index {
        let mut entries = Vec::new();
        for i in 0..count {
            let mut job = Job::new(format!("job-{i}"), serde_json::Value::Null, JobOptions::default());
            job.id = JobId(1000 + i as u128);
            if i % 2 == 1 {
                job.state = JobState::Cancelled;
            }
            // pairs of jobs share a score
            entries.push((job.id.text(), (i / 2) as u64, job));
        }
        entries.sort_by(|a, b| (b.1, &b.0).cmp(&(a.1, &a.0)));
        Index { entries }
    }

    fn find(&self, id: JobId) -> Option<&Job> {
        self.entries.iter().map(|e| &e.2).find(|j| j.id == id)
    }

    fn answer(&self, action: &ListAction) -> ListEvent {
        match action {
            ListAction::FetchTop { count } => ListEvent::Entries(
                self.entries.iter().take(*count).map(|e| (e.0.clone(), e.1)).collect(),
            ),
            ListAction::FetchSameScore { score } => {
                let mut members: Vec<String> =
                    self.entries.iter().filter(|e| e.1 == *score).map(|e| e.0.clone()).collect();
                members.sort();
                ListEvent::Members(members)
            }
            ListAction::FetchBelow { score, count } => ListEvent::Entries(
                self.entries
                    .iter()
                    .filter(|e| e.1 < *score)
                    .take(*count)
                    .map(|e| (e.0.clone(), e.1))
                    .collect(),
            ),
            ListAction::LoadStates { ids } => {
                ListEvent::States(ids.iter().map(|id| self.find(*id).map(|j| j.state)).collect())
            }
            ListAction::LoadJobs { ids } => {
                ListEvent::Jobs(ids.iter().map(|id| self.find(*id).cloned()).collect())
            }
            other => panic!("no answer for {other:?}"),
        }
    }

    fn list(&self, limit: usize, cursor: Option<String>, filter: Option<JobState>) -> Result<JobPage, ListError> {
        let (mut listing, mut action) = JobListing::start(limit, cursor, filter)?;
        loop {
            match action {
                ListAction::Page(page) => return Ok(page),
                ListAction::Fail(error) => return Err(error),
                _ => {
                    let event = self.answer(&action);
                    assert!(listing.accepts(&event));
                    let (next, next_action) = listing.step(event);
                    listing = next;
                    action = next_action;
                }
            }
        }
    }
}

#[test]
fn list_jobs_supports_pagination() {
    let index = Index::new(7);
    let first = index.list(2, None, None).unwrap();
    assert_eq!(first.jobs.len(), 2);
    assert!(first.has_more);
    let cursor = first.next_cursor.clone().expect("nextCursor should exist");
    let second = index.list(2, Some(cursor), None).unwrap();
    assert_eq!(second.jobs.len(), 2);
    for job in &second.jobs {
        assert!(!first.jobs.iter().any(|j| j.id == job.id), "second page should not contain jobs from first page");
    }
    // Walking every page visits every job once, newest first.
    let mut seen = Vec::new();
    let mut cursor = None;
    loop {
        let page = index.list(3, cursor, None).unwrap();
        seen.extend(page.jobs.iter().map(|j| j.id));
        if !page.has_more {
            assert!(page.next_cursor.is_none());
            break;
        }
        cursor = page.next_cursor;
    }
    let expected: Vec<JobId> = index.entries.iter().map(|e| e.2.id).collect();
    assert_eq!(seen, expected);
}

#[test]
fn list_jobs_supports_state_filter() {
    let index = Index::new(6);
    let page = index.list(100, None, Some(JobState::Cancelled)).unwrap();
    assert_eq!(page.jobs.len(), 3);
    assert!(page.jobs.iter().all(|j| j.state == JobState::Cancelled));
    assert!(!page.has_more);
}

#[test]
fn list_jobs_clamps_the_limit() {
    let index = Index::new(3);
    let page = index.list(0, None, None).unwrap();
    assert_eq!(page.jobs.len(), 1);
    assert!(page.has_more);
    let page = index.list(1_000, None, None).unwrap();
    assert_eq!(page.jobs.len(), 3);
}

#[test]
fn invalid_cursor_is_refused() {
    let index = Index::new(3);
    assert_eq!(index.list(2, Some("junk".to_string()), None).unwrap_err(), ListError::Cursor(CursorError::Malformed));
}

#[test]
fn invalid_member_fails_the_listing() {
    let (listing, action) = JobListing::start(5, None, None).unwrap();
    assert!(matches!(action, ListAction::FetchTop { count: 6 }));
    let (listing, action) = listing.step(ListEvent::Entries(vec![("not-a-uuid".to_string(), 1)]));
    match &action {
        ListAction::LoadStates { ids } => assert!(ids.is_empty()),
        other => panic!("unexpected {other:?}"),
    }
    let (_, action) = listing.step(ListEvent::States(vec![]));
    assert!(matches!(action, ListAction::Fail(ListError::InvalidJobId)));
}

#[test]
fn next_cursor_uses_the_id_text() {
    let mut index = Index::new(3);
    for entry in index.entries.iter_mut() {
        entry.0 = entry.0.to_uppercase();
    }
    index.entries.sort_by(|a, b| (b.1, &b.0).cmp(&(a.1, &a.0)));
    let page = index.list(1, None, None).unwrap();
    assert!(page.has_more);
    let last = &page.jobs[0];
    let score = index.entries.iter().find(|e| e.2.id == last.id).unwrap().1;
    assert_eq!(page.next_cursor, Some(format!("{score}:{}", last.id.text())));
}

#[test]
fn invalid_member_beyond_the_page_is_not_reached() {
    let mut index = Index::new(6);
    // the lowest entry of the index is no job id
    let last = index.entries.len() - 1;
    index.entries[last].0 = "not-a-uuid".to_string();
    let page = index.list(2, None, None).unwrap();
    assert_eq!(page.jobs.len(), 2);
    assert!(page.has_more);
    // a listing that has to read that entry before its page is full fails
    assert!(matches!(index.list(100, None, None), Err(ListError::InvalidJobId)));
}
