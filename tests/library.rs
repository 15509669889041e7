use cogsy::listenlog::ListenLog;
use cogsy::model::{ListenLogEntry, Profile, Release, Timestamp};
use cogsy::store::{QueryError, Scope, Store};
use cogsy::sync::{Action, Event, FetchFailure, Phase, Refresh, SyncError};
use cogsy::text::{contains_text, normalize, search_string};

fn release(id: i64, title: &str, artist: &str, year: u32) -> Release {
    Release::new(
        id,
        title.to_string(),
        artist.to_string(),
        year,
        vec!["Label".to_string()],
        vec!["Vinyl".to_string()],
        Timestamp::new(1_600_000_000, 0),
    )
}

fn profile(name: &str) -> Profile {
    Profile {
        username: name.to_string(),
        real_name: "Real Name".to_string(),
        registered: Timestamp::new(1_500_000_000, 0),
        listings: 0,
        collection: 3,
        wantlist: 1,
        rated: 2,
        average_rating_bits: 4.5f64.to_bits(),
    }
}

/// Runs a refresh over the given collection folders (one page each) and wantlist.
fn synced(folders: Vec<(&str, Vec<Release>)>, wantlist: Vec<Release>) -> Store {
    let mut store = Store::new();
    let names: Vec<String> = folders.iter().map(|(n, _)| n.to_string()).collect();
    let mut run = Refresh::new(names, 2);
    assert_eq!(run.action(), Action::FetchProfile);
    let mut action = run.step(Event::Profile(profile("someone")));
    for (i, (_, releases)) in folders.into_iter().enumerate() {
        assert_eq!(action, Action::FetchCollectionPage(i, 1));
        action = run.step(Event::Page(releases, false));
    }
    assert_eq!(action, Action::FetchWantlistPage(1));
    action = run.step(Event::Page(wantlist, false));
    assert_eq!(action, Action::Commit);
    assert_eq!(store.finish_refresh(run), Ok(()));
    store
}

fn ids(v: &[Release]) -> Vec<i64> {
    v.iter().map(|r| r.id).collect()
}

#[test]
fn normalize_lowercases_and_strips_punctuation() {
    assert_eq!(normalize("ABBEY, ROAD!"), "abbey road");
    assert_eq!(normalize("(What's the Story) Morning Glory?"), "whats the story morning glory");
    assert_eq!(normalize("a.b:c;d*e\"f'g"), "abcdefg");
    assert_eq!(normalize(""), "");
    assert_eq!(normalize("Björk"), "björk");
}

#[test]
fn normalize_is_idempotent() {
    for s in ["Kind of Blue", "ABBEY, ROAD!", "It's (a) *test*.", "", "!!!"] {
        let once = normalize(s);
        assert_eq!(normalize(&once), once);
    }
}

#[test]
fn search_string_joins_title_and_artist() {
    assert_eq!(search_string("Abbey Road", "The Beatles"), "abbey road the beatles");
    let r = release(1, "Kind of Blue", "Miles Davis", 1959);
    assert_eq!(r.search_string, "kind of blue miles davis");
}

#[test]
fn contains_text_finds_runs() {
    assert!(contains_text("abbey road the beatles", "abbey"));
    assert!(contains_text("abbey road the beatles", "road the"));
    assert!(contains_text("abc", ""));
    assert!(!contains_text("abc", "abcd"));
    assert!(!contains_text("abbey road", "roads"));
}

#[test]
fn find_by_title_ignores_case_and_punctuation() {
    let store = synced(
        vec![("Collection", vec![release(7, "Abbey Road", "The Beatles", 1969), release(8, "Blue Train", "John Coltrane", 1957)])],
        vec![],
    );
    let found = store.find("abbey", Scope::Collection).unwrap();
    assert_eq!(ids(&found), vec![7]);
    let found = store.find("ABBEY, ROAD!", Scope::Collection).unwrap();
    assert_eq!(ids(&found), vec![7]);
    let found = store.find("zeppelin", Scope::Collection).unwrap();
    assert!(found.is_empty());
}

#[test]
fn find_keeps_folder_and_stored_order() {
    let store = synced(
        vec![
            ("Jazz", vec![release(1, "Blue Train", "John Coltrane", 1957), release(2, "Blue in Green", "Bill Evans", 1959)]),
            ("Rock", vec![release(3, "Blue", "Joni Mitchell", 1971)]),
        ],
        vec![release(4, "Blue Lines", "Massive Attack", 1991)],
    );
    assert_eq!(ids(&store.find("blue", Scope::Collection).unwrap()), vec![1, 2, 3]);
    assert_eq!(ids(&store.find("blue", Scope::Wantlist).unwrap()), vec![4]);
}

#[test]
fn folders_are_kept_in_name_order() {
    let store = synced(
        vec![
            ("b", vec![release(1, "Blue Train", "John Coltrane", 1957)]),
            ("a", vec![release(2, "Blue", "Joni Mitchell", 1971)]),
            ("B", vec![release(3, "Blue Lines", "Massive Attack", 1991)]),
        ],
        vec![],
    );
    assert_eq!(store.folders.name(0), "B");
    assert_eq!(store.folders.name(1), "a");
    assert_eq!(store.folders.name(2), "b");
    assert_eq!(ids(&store.find("", Scope::Collection).unwrap()), vec![3, 2, 1]);
    assert_eq!(store.random(0).unwrap().id, 3);
    assert_eq!(store.random(2).unwrap().id, 1);
}

#[test]
fn text_order_follows_code_points() {
    assert!(cogsy::text::text_less("a", "b"));
    assert!(cogsy::text::text_less("B", "a"));
    assert!(cogsy::text::text_less("ab", "abc"));
    assert!(cogsy::text::text_less("", "a"));
    assert!(!cogsy::text::text_less("abc", "abc"));
    assert!(!cogsy::text::text_less("b", "ab"));
    assert!(cogsy::text::text_less("z", "é"));
}

#[test]
fn find_before_first_refresh_is_not_initialized() {
    let store = Store::new();
    assert_eq!(store.find("x", Scope::Collection).unwrap_err(), QueryError::NotInitialized);
    assert_eq!(store.profile().unwrap_err(), QueryError::NotInitialized);
}

#[test]
fn profile_after_refresh() {
    let store = synced(vec![], vec![]);
    let p = store.profile().unwrap();
    assert_eq!(p.username, "someone");
    assert_eq!(f64::from_bits(p.average_rating_bits), 4.5);
}

#[test]
fn random_on_empty_collection_fails() {
    let store = synced(vec![("Collection", vec![])], vec![release(1, "Want", "Me", 2000)]);
    assert_eq!(store.random(5).unwrap_err(), QueryError::EmptyCollection);
}

#[test]
fn random_is_uniform_over_all_releases() {
    let store = synced(
        vec![
            ("Big", vec![release(1, "A", "X", 1), release(2, "B", "X", 1)]),
            ("Small", vec![release(3, "C", "Y", 1)]),
        ],
        vec![],
    );
    let mut counts = [0u32; 3];
    for draw in 0..10_000u64 {
        let r = store.random(draw.wrapping_mul(0x9E37_79B9_7F4A_7C15)).unwrap();
        counts[(r.id - 1) as usize] += 1;
    }
    for c in counts {
        let share = c as f64 / 10_000.0;
        assert!((share - 1.0 / 3.0).abs() < 0.03, "share {}", share);
    }
    assert_eq!(store.random(2).unwrap().id, 3);
    assert_eq!(store.random(4).unwrap().id, 2);
}

#[test]
fn listen_log_runs_in_time_order() {
    let t1 = Timestamp::new(100, 0);
    let t2 = Timestamp::new(100, 5);
    let t3 = Timestamp::new(200, 0);
    let mut log = ListenLog::new();
    log.insert(t3, "three".to_string());
    log.insert(t1, "one".to_string());
    log.insert(t2, "two".to_string());
    assert_eq!(log.len(), 3);
    assert_eq!(log.entry(0), (t1, "one".to_string()));
    assert_eq!(log.entry(1), (t2, "two".to_string()));
    assert_eq!(log.entry(2), (t3, "three".to_string()));
}

#[test]
fn listen_log_same_time_last_write_wins() {
    let t = Timestamp::new(42, 0);
    let mut log = ListenLog::new();
    log.insert(t, "first".to_string());
    cogsy::listenlog::log_listen(&mut log, ListenLogEntry { id: 2, title: "second".to_string(), time: t });
    assert_eq!(log.len(), 1);
    assert_eq!(log.entry(0), (t, "second".to_string()));
}

#[test]
fn bootstrap_store_is_empty() {
    let store = Store::new();
    assert_eq!(store.folders.len(), 0);
    assert!(store.wantlist.is_empty());
    assert_eq!(store.listenlog.len(), 0);
    assert!(store.profile.is_none());
    assert!(!store.modified);
}

#[test]
fn kind_of_blue_found_and_logged() {
    let mut store = synced(vec![("Collection", vec![release(42, "Kind of Blue", "Miles Davis", 1959)])], vec![]);
    let found = store.find("kind of blue", Scope::Collection).unwrap();
    assert_eq!(found.len(), 1);
    assert_eq!(found[0].id, 42);
    assert_eq!(found[0].year, 1959);
    let t = Timestamp::new(1_700_000_000, 123);
    store.log_listen(42, "Kind of Blue".to_string(), t);
    assert_eq!(store.listenlog.len(), 1);
    assert_eq!(store.listenlog.entry(0), (t, "Kind of Blue".to_string()));
    assert!(store.modified);
}

#[test]
fn failed_page_leaves_store_untouched() {
    let mut store = synced(vec![("Collection", vec![release(1, "Old", "Band", 1990)])], vec![]);
    store.log_listen(1, "Old".to_string(), Timestamp::new(5, 0));
    store.modified = false;
    let mut run = Refresh::new(vec!["Collection".to_string()], 1);
    run.step(Event::Profile(profile("new")));
    let a = run.step(Event::Page(vec![release(10, "New", "Band", 2020)], true));
    assert_eq!(a, Action::FetchCollectionPage(0, 2));
    assert_eq!(run.step(Event::Failure(FetchFailure::Malformed)), Action::FetchCollectionPage(0, 2));
    assert_eq!(run.step(Event::Failure(FetchFailure::Unavailable)), Action::Abort);
    assert_eq!(run.phase, Phase::Failed(SyncError::RemoteUnavailable));
    assert_eq!(store.finish_refresh(run), Err(SyncError::RemoteUnavailable));
    assert_eq!(store.folders.len(), 1);
    assert_eq!(store.folders.folder_len(0), 1);
    assert_eq!(store.folders.release(0, 0).id, 1);
    assert_eq!(store.profile.as_ref().unwrap().username, "someone");
    assert_eq!(store.listenlog.len(), 1);
    assert!(!store.modified);
}

#[test]
fn retried_page_then_success_commits_everything() {
    let mut store = Store::new();
    let mut run = Refresh::new(vec!["A".to_string(), "B".to_string()], 3);
    run.step(Event::Profile(profile("me")));
    run.step(Event::Page(vec![release(1, "One", "X", 1)], true));
    assert_eq!(run.step(Event::Failure(FetchFailure::Unavailable)), Action::FetchCollectionPage(0, 2));
    assert_eq!(run.step(Event::Page(vec![release(2, "Two", "X", 1)], true)), Action::FetchCollectionPage(0, 3));
    assert_eq!(run.step(Event::Page(vec![release(3, "Three", "X", 1)], false)), Action::FetchCollectionPage(1, 1));
    assert_eq!(run.step(Event::Page(vec![], false)), Action::FetchWantlistPage(1));
    assert_eq!(run.step(Event::Page(vec![release(9, "Nine", "Y", 1)], false)), Action::Commit);
    assert_eq!(store.finish_refresh(run), Ok(()));
    assert_eq!(store.folders.len(), 2);
    assert_eq!(store.folders.name(0), "A");
    assert_eq!(store.folders.folder_len(0), 3);
    assert_eq!(store.folders.name(1), "B");
    assert_eq!(store.folders.folder_len(1), 0);
    assert_eq!(ids(&store.wantlist), vec![9]);
    assert!(store.modified);
}

#[test]
fn refresh_recomputes_search_strings() {
    let mut r = release(5, "Kind of Blue", "Miles Davis", 1959);
    r.search_string = "stale".to_string();
    let store = synced(vec![("Collection", vec![r])], vec![]);
    assert_eq!(store.folders.release(0, 0).search_string, "kind of blue miles davis");
}

#[test]
fn profile_failures_end_the_run() {
    let mut run = Refresh::new(vec![], 5);
    assert_eq!(run.step(Event::Failure(FetchFailure::Unavailable)), Action::Abort);
    assert_eq!(run.phase, Phase::Failed(SyncError::RemoteUnavailable));
    let mut run = Refresh::new(vec![], 5);
    assert_eq!(run.step(Event::Failure(FetchFailure::Malformed)), Action::Abort);
    assert_eq!(run.phase, Phase::Failed(SyncError::RemoteDataError));
    let mut store = Store::new();
    assert_eq!(store.finish_refresh(run), Err(SyncError::RemoteDataError));
    assert!(store.profile.is_none());
}

#[test]
fn unfinished_run_is_incomplete() {
    let mut store = Store::new();
    let mut run = Refresh::new(vec!["A".to_string()], 0);
    run.step(Event::Profile(profile("me")));
    assert_eq!(store.finish_refresh(run), Err(SyncError::Incomplete));
    assert!(store.profile.is_none());
    assert!(!store.modified);
}

#[test]
fn later_refresh_replaces_folder_contents() {
    let mut store = synced(vec![("Collection", vec![release(1, "Old", "Band", 1990)])], vec![]);
    let mut run = Refresh::new(vec!["Collection".to_string()], 0);
    run.step(Event::Profile(profile("me")));
    run.step(Event::Page(vec![release(2, "New", "Band", 2020)], false));
    run.step(Event::Page(vec![], false));
    assert_eq!(store.finish_refresh(run), Ok(()));
    assert_eq!(store.folders.len(), 1);
    assert_eq!(store.folders.release(0, 0).id, 2);
    assert_eq!(store.profile.as_ref().unwrap().username, "me");
}

#[test]
fn usernames_match_checks_the_mirrored_profile() {
    let app = cogsy::session::App::new("someone".to_string(), "SECRET".to_string(), Store::new());
    assert_eq!(app.usernames_match(), Err(QueryError::NotInitialized));
    let store = synced(vec![], vec![]);
    let app = cogsy::session::App::new("someone".to_string(), "t".to_string(), store);
    assert_eq!(app.usernames_match(), Ok(true));
    let store = synced(vec![], vec![]);
    let app = cogsy::session::App::new("other".to_string(), "t".to_string(), store);
    assert_eq!(app.usernames_match(), Ok(false));
    assert_eq!(app.message, "");
}

#[test]
fn page_two_of_three_failing_every_retry_keeps_store() {
    let mut store = synced(vec![("Collection", vec![release(1, "Old", "Band", 1990)])], vec![]);
    store.log_listen(1, "Old".to_string(), Timestamp::new(9, 0));
    store.modified = false;
    let mut run = Refresh::new(vec!["Collection".to_string()], 2);
    run.step(Event::Profile(profile("new")));
    assert_eq!(run.step(Event::Page(vec![release(10, "P1", "X", 1)], true)), Action::FetchCollectionPage(0, 2));
    assert_eq!(run.step(Event::Failure(FetchFailure::Unavailable)), Action::FetchCollectionPage(0, 2));
    assert_eq!(run.step(Event::Failure(FetchFailure::Malformed)), Action::FetchCollectionPage(0, 2));
    assert_eq!(run.step(Event::Failure(FetchFailure::Unavailable)), Action::Abort);
    assert_eq!(run.step(Event::Page(vec![release(12, "P3", "X", 1)], false)), Action::Abort);
    assert_eq!(store.finish_refresh(run), Err(SyncError::RemoteUnavailable));
    assert_eq!(store.folders.len(), 1);
    assert_eq!(store.folders.name(0), "Collection");
    assert_eq!(store.folders.folder_len(0), 1);
    assert_eq!(store.folders.release(0, 0).id, 1);
    assert!(store.wantlist.is_empty());
    assert_eq!(store.profile.as_ref().unwrap().username, "someone");
    assert_eq!(store.listenlog.entry(0), (Timestamp::new(9, 0), "Old".to_string()));
    assert!(!store.modified);
}
