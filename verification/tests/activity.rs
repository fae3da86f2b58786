use media_retention::activity::{replay_history, MediaKind, PlaybackRow};
use media_retention::catalog::{Catalog, Outcome, TitleRef};
use media_retention::error::SyncError;
use media_retention::json::read_document;
use media_retention::services::jellyfin::{read_playback, read_stamp, Jellyfin};
use media_retention::services::tautulli::{read_history_entry, Tautulli};
use media_retention::title::{CanonicalTitle, NEVER_VIEWED};

fn title(id: i32, name: &str, key: &str, last_view: i32) -> CanonicalTitle {
    CanonicalTitle {
        external_id: id,
        name: name.to_string(),
        path_hd: String::new(),
        path_4k: String::new(),
        playback_key: key.to_string(),
        last_view,
        protected: false,
    }
}

fn movies() -> Catalog {
    let mut catalog = Catalog::new();
    catalog.save(title(1, "Alpha", "100", 1000));
    catalog.save(title(2, "Beta", "200", NEVER_VIEWED));
    catalog
}

fn series() -> Catalog {
    let mut catalog = Catalog::new();
    catalog.save(title(10, "Show", "900", 50));
    catalog
}

fn seen(kind: MediaKind, key: &str, seen_at: Option<i32>) -> PlaybackRow {
    PlaybackRow::Seen { kind, reference: TitleRef::PlaybackKey(key.to_string()), seen_at }
}

#[test]
fn playback_without_a_time_fails_only_for_a_known_title() {
    let mut catalog = movies();
    let skipped = catalog.apply_playback(&TitleRef::Name("Unknown".to_string()), None).unwrap();
    assert_eq!(skipped.outcome, Outcome::Skipped);
    let failed = catalog.apply_playback(&TitleRef::Name("alpha".to_string()), None);
    assert_eq!(failed.unwrap_err(), SyncError::UpstreamUnavailable);
    let updated = catalog.apply_playback(&TitleRef::Name("alpha".to_string()), Some(1001)).unwrap();
    assert_eq!(updated.outcome, Outcome::Updated);
    assert_eq!(catalog.row(0).last_view, 1001);
    let unknown = catalog.apply_playback(&TitleRef::Name("Unknown".to_string()), Some(5)).unwrap();
    assert_eq!(unknown.outcome, Outcome::Skipped);
    assert_eq!(catalog.len(), 2);
}

#[test]
fn replay_stops_at_the_first_malformed_entry_and_keeps_what_it_did() {
    let mut catalog = movies();
    let history = vec![
        seen(MediaKind::Movie, "100", Some(2000)),
        seen(MediaKind::Movie, "nope", None),
        PlaybackRow::Malformed,
        seen(MediaKind::Movie, "200", Some(3000)),
    ];
    let outcome = catalog.replay(&history);
    assert_eq!(outcome.failure, Some(SyncError::UpstreamUnavailable));
    assert_eq!((outcome.report.updated, outcome.report.skipped), (1, 1));
    assert_eq!(outcome.report.writes.len(), 1);
    assert_eq!(outcome.report.writes[0].external_id, 1);
    assert_eq!(catalog.row(0).last_view, 2000);
    assert_eq!(catalog.row(1).last_view, NEVER_VIEWED);
}

#[test]
fn replay_of_a_readable_history_does_not_fail() {
    let mut catalog = movies();
    let history = vec![
        seen(MediaKind::Movie, "200", Some(7)),
        seen(MediaKind::Series, "100", Some(999)),
        seen(MediaKind::Movie, "100", Some(1000)),
        seen(MediaKind::Movie, "300", Some(1)),
    ];
    let outcome = catalog.replay(&history);
    assert_eq!(outcome.failure, None);
    assert_eq!((outcome.report.created, outcome.report.updated, outcome.report.skipped), (0, 1, 1));
    assert_eq!(catalog.row(0).last_view, 1000);
    assert_eq!(catalog.row(1).last_view, 7);
    let empty = catalog.replay(&Vec::new());
    assert_eq!(empty.failure, None);
    assert_eq!(empty.report.updated, 0);
}

#[test]
fn replay_over_both_catalogs_goes_by_kind() {
    let mut movies = movies();
    let mut series = series();
    let history = vec![
        seen(MediaKind::Movie, "100", Some(1500)),
        seen(MediaKind::Series, "900", Some(60)),
        seen(MediaKind::Series, "100", Some(9999)),
        seen(MediaKind::Movie, "900", Some(9999)),
        seen(MediaKind::Series, "900", None),
        seen(MediaKind::Movie, "200", Some(1)),
    ];
    let outcome = replay_history(&mut movies, &mut series, &history);
    assert_eq!(outcome.failure, Some(SyncError::UpstreamUnavailable));
    assert_eq!((outcome.movies.updated, outcome.movies.skipped), (1, 1));
    assert_eq!((outcome.series.updated, outcome.series.skipped), (1, 1));
    assert_eq!(movies.row(0).last_view, 1500);
    assert_eq!(movies.row(1).last_view, NEVER_VIEWED);
    assert_eq!(series.row(0).last_view, 60);
    assert_eq!(outcome.series.writes[0].external_id, 10);
}

#[test]
fn jellyfin_stamp_is_a_decimal_text() {
    assert_eq!(read_stamp(&read_document("\"1700000000\"").unwrap()), Some(1700000000));
    assert_eq!(read_stamp(&read_document("\"-5\"").unwrap()), Some(-5));
    assert_eq!(read_stamp(&read_document("\"\"").unwrap()), None);
    assert_eq!(read_stamp(&read_document("\"12a\"").unwrap()), None);
    assert_eq!(read_stamp(&read_document("\"3000000000\"").unwrap()), None);
    assert_eq!(read_stamp(&read_document("1700000000").unwrap()), None);
    assert_eq!(read_stamp(&read_document("null").unwrap()), None);
    let jellyfin = Jellyfin::new(1, "http://jellyfin", "k");
    assert_eq!(jellyfin.clean_api_timestamp(&read_document("\"42\"").unwrap()), Some(42));
    assert_eq!(jellyfin.clean_api_timestamp(&read_document("[\"42\"]").unwrap()), None);
}

#[test]
fn jellyfin_entry_is_a_pair_of_title_and_time() {
    let row = read_playback(&read_document(r#"["Alpha", "1234"]"#).unwrap(), MediaKind::Movie);
    match row {
        Some(PlaybackRow::Seen { kind, reference: TitleRef::Name(name), seen_at }) => {
            assert_eq!(kind, MediaKind::Movie);
            assert_eq!(name, "Alpha");
            assert_eq!(seen_at, Some(1234));
        }
        other => panic!("{:?}", other),
    }
    for ignored in [r#"["Alpha", null]"#, r#"["Alpha"]"#, r#"[]"#, r#"{"0": "Alpha", "1": "5"}"#, "5"] {
        assert!(read_playback(&read_document(ignored).unwrap(), MediaKind::Movie).is_none(), "{}", ignored);
    }
    assert!(matches!(
        read_playback(&read_document(r#"[5, "1234"]"#).unwrap(), MediaKind::Series),
        Some(PlaybackRow::Malformed)
    ));
    assert!(matches!(
        read_playback(&read_document(r#"["Alpha", 1234]"#).unwrap(), MediaKind::Series),
        Some(PlaybackRow::Seen { kind: MediaKind::Series, seen_at: None, .. })
    ));
}

#[test]
fn jellyfin_pass_moves_last_views_forward_by_title() {
    let jellyfin = Jellyfin::new(1, "http://jellyfin", "k");
    let mut catalog = movies();
    let body = r#"{"colums": ["ItemName", "lastView"], "results": [
        ["  ALPHA ", "2000"],
        ["Gamma", "not a time"],
        ["Beta", null],
        ["beta", "5"],
        ["Alpha", "1500"]
    ]}"#;
    let outcome = jellyfin.update_movies_activity(body, &mut catalog);
    assert_eq!(outcome.failure, None);
    assert_eq!((outcome.report.created, outcome.report.updated, outcome.report.skipped), (0, 2, 1));
    assert_eq!(catalog.len(), 2);
    assert_eq!(catalog.row(0).last_view, 2000);
    assert_eq!(catalog.row(1).last_view, 5);
    assert_eq!(outcome.report.writes.len(), 2);
    assert_eq!(outcome.report.writes[0].last_view, 2000);
    assert_eq!(outcome.report.writes[1].external_id, 2);
}

#[test]
fn jellyfin_pass_stops_at_an_unreadable_time_of_a_known_title() {
    let jellyfin = Jellyfin::new(1, "http://jellyfin", "k");
    let mut catalog = series();
    let body = r#"{"results": [["Show", "70"], ["Show", "seventy"], ["Show", "90"]]}"#;
    let outcome = jellyfin.update_series_activity(body, &mut catalog);
    assert_eq!(outcome.failure, Some(SyncError::UpstreamUnavailable));
    assert_eq!(outcome.report.updated, 1);
    assert_eq!(catalog.row(0).last_view, 70);
}

#[test]
fn jellyfin_answer_without_results_is_refused() {
    let jellyfin = Jellyfin::new(1, "http://jellyfin", "k");
    for body in ["", "{}", r#"{"results": null}"#, r#"{"results": {"0": []}}"#, "[]"] {
        let mut catalog = movies();
        let outcome = jellyfin.update_movies_activity(body, &mut catalog);
        assert_eq!(outcome.failure, Some(SyncError::UpstreamUnavailable), "{}", body);
        assert_eq!(outcome.report.updated + outcome.report.skipped + outcome.report.created, 0);
        assert_eq!(catalog.row(0).last_view, 1000);
        assert!(jellyfin.update_media_activity(body, MediaKind::Movie).is_err());
    }
    assert!(jellyfin.update_media_activity(r#"{"results": []}"#, MediaKind::Movie).unwrap().is_empty());
}

#[test]
fn jellyfin_request_parts() {
    let jellyfin = Jellyfin::new(4, "http://jellyfin", "k");
    assert_eq!(jellyfin.id(), 4);
    assert_eq!(jellyfin.url, "http://jellyfin");
    assert_eq!(jellyfin.api_key, "k");
    assert_eq!(jellyfin.query_url(), "http://jellyfin/user_usage_stats/submit_custom_query");
    assert_eq!(Jellyfin::query_body("SELECT 1"), "{\"CustomQueryString\":\"SELECT 1\"}");
    assert!(Jellyfin::movies_query().contains("INSTR(ItemName, ' - ')) == ''"));
    assert!(Jellyfin::series_query().contains("INSTR(ItemName, ' - ')) != ''"));
    assert_eq!(Jellyfin::movies_query().len(), Jellyfin::series_query().len());
    assert!(Jellyfin::movies_query().starts_with("SELECT IFNULL(NULLIF(SUBSTR(ItemName, 0,"));
    assert!(Jellyfin::series_query().ends_with("''), ItemName)"));
}

#[test]
fn tautulli_entry_names_its_title_by_the_outermost_key() {
    let entry = read_document(
        r#"{"grandparent_rating_key": 900, "parent_rating_key": 901, "rating_key": 902,
            "media_type": "episode", "date": 1700000000}"#,
    )
    .unwrap();
    match read_history_entry(&entry) {
        PlaybackRow::Seen { kind, reference: TitleRef::PlaybackKey(key), seen_at } => {
            assert_eq!(kind, MediaKind::Series);
            assert_eq!(key, "900");
            assert_eq!(seen_at, Some(1700000000));
        }
        other => panic!("{:?}", other),
    }
    let season = read_document(r#"{"grandparent_rating_key": "", "parent_rating_key": 901, "rating_key": 902}"#).unwrap();
    match read_history_entry(&season) {
        PlaybackRow::Seen { kind, reference: TitleRef::PlaybackKey(key), seen_at } => {
            assert_eq!(kind, MediaKind::Series);
            assert_eq!(key, "901");
            assert_eq!(seen_at, None);
        }
        other => panic!("{:?}", other),
    }
    let movie = read_document(r#"{"rating_key": -100, "media_type": "movie", "date": 4294967297}"#).unwrap();
    match read_history_entry(&movie) {
        PlaybackRow::Seen { kind, reference: TitleRef::PlaybackKey(key), seen_at } => {
            assert_eq!(kind, MediaKind::Movie);
            assert_eq!(key, "-100");
            assert_eq!(seen_at, Some(1));
        }
        other => panic!("{:?}", other),
    }
    let keyless = read_document(r#"{"rating_key": "100", "media_type": "movie", "date": 5}"#).unwrap();
    assert!(matches!(read_history_entry(&keyless), PlaybackRow::Malformed));
}

#[test]
fn tautulli_pass_moves_last_views_forward_by_key() {
    let mut tautulli = Tautulli::new(1, "http://tautulli", "key");
    assert!(tautulli.needs_history());
    assert_eq!(
        tautulli.history_url(),
        "http://tautulli/api/v2?cmd=get_history&length=500000&apikey=key"
    );
    let body = r#"{"response": {"result": "success", "data": {"recordsTotal": 4, "data": [
        {"rating_key": 100, "parent_rating_key": "", "grandparent_rating_key": "",
         "media_type": "movie", "date": 1800},
        {"rating_key": 5, "parent_rating_key": 6, "grandparent_rating_key": 900,
         "media_type": "episode", "date": 40},
        {"rating_key": 777, "media_type": "movie"},
        {"rating_key": 100, "media_type": "movie", "date": 1700},
        {"rating_key": 5, "parent_rating_key": 6, "grandparent_rating_key": 900,
         "media_type": "episode", "date": 80}
    ]}}}"#;
    assert_eq!(tautulli.update_history(body).unwrap(), 5);
    assert!(!tautulli.needs_history());
    assert_eq!(tautulli.get_history().unwrap().len(), 5);
    let mut movies = movies();
    let mut series = series();
    let outcome = tautulli.update_medias_activity(&mut movies, &mut series);
    assert_eq!(outcome.failure, None);
    assert_eq!((outcome.movies.updated, outcome.movies.skipped), (1, 1));
    assert_eq!((outcome.series.updated, outcome.series.skipped), (1, 0));
    assert_eq!(movies.row(0).last_view, 1800);
    assert_eq!(series.row(0).last_view, 80);
    assert_eq!(movies.len(), 2);
    assert_eq!(series.len(), 1);
}

#[test]
fn tautulli_pass_without_a_history_does_nothing() {
    let tautulli = Tautulli::new(1, "http://tautulli", "key");
    let mut movies = movies();
    let mut series = series();
    let outcome = tautulli.update_medias_activity(&mut movies, &mut series);
    assert_eq!(outcome.failure, Some(SyncError::UpstreamUnavailable));
    assert_eq!(outcome.movies.updated + outcome.series.updated, 0);
    assert_eq!(movies.row(0).last_view, 1000);
    assert_eq!(tautulli.get_history().unwrap_err(), SyncError::UpstreamUnavailable);
}

#[test]
fn tautulli_history_that_is_no_history_is_not_kept() {
    let mut tautulli = Tautulli::new(1, "http://tautulli", "key");
    for body in ["", "{}", r#"{"response": {"data": {"data": 5}}}"#, r#"{"response": {"data": []}}"#] {
        assert_eq!(tautulli.update_history(body).unwrap_err(), SyncError::UpstreamUnavailable, "{}", body);
        assert!(tautulli.needs_history());
    }
    assert_eq!(tautulli.update_history(r#"{"response": {"data": {"data": []}}}"#).unwrap(), 0);
    assert!(!tautulli.needs_history());
    assert_eq!(tautulli.update_history("broken").unwrap_err(), SyncError::UpstreamUnavailable);
    assert!(!tautulli.needs_history());
    assert!(tautulli.get_history().unwrap().is_empty());
}

#[test]
fn tautulli_pass_stops_at_an_entry_without_a_key() {
    let mut tautulli = Tautulli::new(1, "http://tautulli", "key");
    let body = r#"{"response": {"data": {"data": [
        {"rating_key": 200, "media_type": "movie", "date": 10},
        {"media_type": "movie", "date": 20},
        {"rating_key": 100, "media_type": "movie", "date": 5000}
    ]}}}"#;
    tautulli.update_history(body).unwrap();
    let mut movies = movies();
    let mut series = series();
    let outcome = tautulli.update_medias_activity(&mut movies, &mut series);
    assert_eq!(outcome.failure, Some(SyncError::UpstreamUnavailable));
    assert_eq!(outcome.movies.updated, 1);
    assert_eq!(movies.row(1).last_view, 10);
    assert_eq!(movies.row(0).last_view, 1000);
}

fn last_views(catalog: &Catalog) -> Vec<i32> {
    catalog.rows().iter().map(|t| t.last_view).collect()
}

fn readable_history(order: &[usize]) -> Vec<PlaybackRow> {
    let entries = [
        (MediaKind::Movie, "100", 1500),
        (MediaKind::Series, "900", 60),
        (MediaKind::Movie, "200", 7),
        (MediaKind::Movie, "100", 1800),
        (MediaKind::Series, "900", 55),
        (MediaKind::Series, "nobody", 9000),
    ];
    order.iter().map(|&k| seen(entries[k].0, entries[k].1, Some(entries[k].2))).collect()
}

#[test]
fn replay_over_both_catalogs_in_any_order_ends_at_the_same_last_views() {
    for order in [[0, 1, 2, 3, 4, 5], [5, 4, 3, 2, 1, 0], [3, 0, 4, 1, 5, 2]] {
        let mut movies = movies();
        let mut series = series();
        let outcome = replay_history(&mut movies, &mut series, &readable_history(&order));
        assert_eq!(outcome.failure, None);
        assert_eq!(last_views(&movies), vec![1800, 7]);
        assert_eq!(last_views(&series), vec![60]);
        assert_eq!(outcome.movies.created + outcome.series.created, 0);
        assert_eq!(outcome.series.skipped, 1);
    }
}

#[test]
fn replay_over_both_catalogs_run_again_changes_nothing() {
    let mut movies = movies();
    let mut series = series();
    let history = readable_history(&[0, 1, 2, 3, 4, 5]);
    replay_history(&mut movies, &mut series, &history);
    let again = replay_history(&mut movies, &mut series, &history);
    assert_eq!(again.failure, None);
    assert_eq!(again.movies.updated + again.series.updated, 0);
    assert_eq!(last_views(&movies), vec![1800, 7]);
    assert_eq!(last_views(&series), vec![60]);
    assert_eq!(movies.len(), 2);
    assert_eq!(series.len(), 1);
}

#[test]
fn replay_over_one_catalog_in_any_order_and_again() {
    for order in [[0, 2, 3], [3, 2, 0], [2, 3, 0]] {
        let mut catalog = movies();
        let history = readable_history(&order);
        assert_eq!(catalog.replay(&history).failure, None);
        assert_eq!(last_views(&catalog), vec![1800, 7]);
        let again = catalog.replay(&history);
        assert_eq!(again.report.updated, 0);
        assert_eq!(last_views(&catalog), vec![1800, 7]);
    }
}
