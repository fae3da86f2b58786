use media_retention::activity::MediaKind;
use media_retention::catalog::Catalog;
use media_retention::error::SyncError;
use media_retention::facts::{acquired, discovered, read_entry, read_facts, read_facts_from_text, Read, Source};
use media_retention::json::{flag_at, int_at, items_at, null_at, read_document, text_at};
use media_retention::services::movie::Movie;
use media_retention::services::overseerr::{read_endpoint, Overseerr};
use media_retention::services::radarr::Radarr;
use media_retention::services::serie::Serie;
use media_retention::services::sonarr::Sonarr;
use media_retention::title::{QualityTier, NEVER_VIEWED};

#[test]
fn document_members_are_read_by_key() {
    let doc = read_document(
        r#"{"n": 5, "big": 9223372036854775808, "real": 1.5, "neg": -3, "s": "text", "t": true,
            "z": null, "l": [1, "two"], "o": {"inner": 7}}"#,
    )
    .unwrap();
    assert_eq!(int_at(&doc, "n"), Some(5));
    assert_eq!(int_at(&doc, "neg"), Some(-3));
    assert_eq!(int_at(&doc, "big"), None);
    assert_eq!(int_at(&doc, "real"), None);
    assert_eq!(int_at(&doc, "s"), None);
    assert_eq!(int_at(&doc, "missing"), None);
    assert_eq!(text_at(&doc, "s"), Some("text"));
    assert_eq!(text_at(&doc, "n"), None);
    assert_eq!(flag_at(&doc, "t"), Some(true));
    assert_eq!(flag_at(&doc, "s"), None);
    assert!(null_at(&doc, "z"));
    assert!(null_at(&doc, "missing"));
    assert!(!null_at(&doc, "n"));
    assert_eq!(items_at(&doc, "l").unwrap().len(), 2);
    assert!(items_at(&doc, "o").is_none());
    assert_eq!(int_at(&doc, "inner"), None);
}

#[test]
fn document_that_is_no_json_is_not_read() {
    assert!(read_document("").is_none());
    assert!(read_document("{").is_none());
    assert!(read_document("[1, 2,]").is_none());
    assert!(read_document("null").is_some());
    let list = read_document("[1]").unwrap();
    assert!(null_at(&list, "0"));
    assert_eq!(int_at(&list, "anything"), None);
}

#[test]
fn acquired_title_has_the_path_of_its_tier_only() {
    let hd = acquired(42, "Film", "/hd/film", false);
    assert_eq!(hd.external_id, 42);
    assert_eq!(hd.name, "Film");
    assert_eq!(hd.path_hd, "/hd/film");
    assert_eq!(hd.path_4k, "");
    assert_eq!(hd.playback_key, "");
    assert_eq!(hd.last_view, NEVER_VIEWED);
    assert!(!hd.protected);
    let uhd = acquired(42, "Film", "/4k/film", true);
    assert_eq!(uhd.path_hd, "");
    assert_eq!(uhd.path_4k, "/4k/film");
}

#[test]
fn ids_are_cut_to_32_bits() {
    assert_eq!(acquired(4294967296 + 7, "x", "/", false).external_id, 7);
    assert_eq!(acquired(2147483648, "x", "/", false).external_id, i32::MIN);
    assert_eq!(discovered(-1, "", 0).external_id, -1);
}

#[test]
fn discovered_title_takes_key_and_first_seen_time() {
    let t = discovered(9, "881", 1234);
    assert_eq!(t.external_id, 9);
    assert_eq!(t.name, "");
    assert_eq!(t.path_hd, "");
    assert_eq!(t.path_4k, "");
    assert_eq!(t.playback_key, "881");
    assert_eq!(t.last_view, 1234);
    assert!(!t.protected);
}

#[test]
fn radarr_list_keeps_movies_with_an_id_and_a_file() {
    let radarr = Radarr::new(3, "http://radarr", "secret", true);
    let body = r#"[
        {"tmdbId": 1, "title": "One", "rootFolderPath": "/m", "hasFile": true},
        {"tmdbId": 2, "title": "Two", "rootFolderPath": "/m", "hasFile": false},
        {"tmdbId": null, "title": "No id"},
        {"title": "No id either", "hasFile": "broken"},
        {"tmdbId": 4, "title": "Four", "rootFolderPath": "/n", "hasFile": true}
    ]"#;
    let movies = radarr.get_all_movies(body).unwrap();
    assert_eq!(movies.len(), 2);
    assert_eq!(movies[0].tmdb_id, 1);
    assert_eq!(movies[0].name, "One");
    assert_eq!(movies[0].path_4k, "/m");
    assert_eq!(movies[0].path_hd, "");
    assert_eq!(movies[1].tmdb_id, 4);
    assert_eq!(movies[1].path_4k, "/n");
    assert_eq!(movies[1].last_view, NEVER_VIEWED);
}

#[test]
fn radarr_list_with_a_malformed_entry_is_refused_and_changes_nothing() {
    let radarr = Radarr::new(3, "http://radarr", "secret", false);
    let mut catalog = Catalog::new();
    for body in [
        r#"[{"tmdbId": 1, "title": "One", "rootFolderPath": "/m"}]"#,
        r#"[{"tmdbId": 1, "title": "One", "rootFolderPath": "/m", "hasFile": 1}]"#,
        r#"[{"tmdbId": 1, "title": "One", "hasFile": true}]"#,
        r#"[{"tmdbId": 1, "rootFolderPath": "/m", "hasFile": true}]"#,
        r#"[{"tmdbId": "1", "title": "One", "rootFolderPath": "/m", "hasFile": true}]"#,
        r#"[{"tmdbId": 5, "title": "Five", "rootFolderPath": "/m", "hasFile": true}, {"tmdbId": 6}]"#,
        r#"{"tmdbId": 1}"#,
        r#"not json"#,
    ] {
        assert_eq!(radarr.get_all_movies(body).unwrap_err(), SyncError::UpstreamUnavailable, "{}", body);
        assert_eq!(
            radarr.update_db_movies(body, &mut catalog).unwrap_err(),
            SyncError::UpstreamUnavailable
        );
        assert_eq!(catalog.len(), 0);
    }
    assert!(radarr.get_all_movies("[]").unwrap().is_empty());
}

#[test]
fn entry_that_is_no_object_has_no_id_and_is_skipped() {
    let doc = read_document("[7, null, \"x\"]").unwrap();
    let out = read_facts(Source::Radarr { is4k: false }, &doc).unwrap();
    assert!(out.is_empty());
}

#[test]
fn movie_from_one_entry() {
    let entry = read_document(r#"{"tmdbId": 603, "title": "Matrix", "rootFolderPath": "/films"}"#).unwrap();
    let movie = Movie::from_radarr_json(&entry, false).unwrap();
    assert_eq!(movie.tmdb_id, 603);
    assert_eq!(movie.name, "Matrix");
    assert_eq!(movie.path_hd, "/films");
    assert_eq!(movie.path_4k, "");
    assert_eq!(movie.rating_key, "");
    assert_eq!(movie.last_view, NEVER_VIEWED);
    assert!(!movie.protected);
    let uhd = Movie::from_radarr_json(&entry, true).unwrap();
    assert_eq!(uhd.path_hd, "");
    assert_eq!(uhd.path_4k, "/films");
    let wrong_key = read_document(r#"{"tvdbId": 603, "title": "Matrix", "rootFolderPath": "/films"}"#).unwrap();
    assert_eq!(Movie::from_radarr_json(&wrong_key, false).unwrap_err(), SyncError::UpstreamUnavailable);
    assert_eq!(Serie::from_sonarr_json(&wrong_key, true).unwrap().tvdb_id, 603);
    assert_eq!(Serie::from_sonarr_json(&entry, true).unwrap_err(), SyncError::UpstreamUnavailable);
}

#[test]
fn sonarr_list_keeps_series_with_an_id_and_episode_files() {
    let sonarr = Sonarr::new(1, "http://sonarr", "secret", false);
    let body = r#"[
        {"tvdbId": 10, "title": "Ten", "rootFolderPath": "/s", "statistics": {"episodeFileCount": 3}},
        {"tvdbId": 11, "title": "Eleven", "rootFolderPath": "/s", "statistics": {"episodeFileCount": 0}},
        {"tvdbId": null, "statistics": {}},
        {"tvdbId": 12, "title": "Twelve", "rootFolderPath": "/t", "statistics": {"episodeFileCount": -1}}
    ]"#;
    let series = sonarr.get_all_series(body).unwrap();
    assert_eq!(series.len(), 2);
    assert_eq!(series[0].tvdb_id, 10);
    assert_eq!(series[0].path_hd, "/s");
    assert_eq!(series[0].path_4k, "");
    assert_eq!(series[1].tvdb_id, 12);

    let mut catalog = Catalog::new();
    let report = sonarr.update_db_series(body, &mut catalog).unwrap();
    assert_eq!((report.created, report.updated), (2, 0));
    assert_eq!(catalog.row(1).name, "Twelve");
    assert_eq!(sonarr.tier(), QualityTier::Hd);
    assert_eq!(Sonarr::new(1, "u", "k", true).tier(), QualityTier::UltraHd);
}

#[test]
fn sonarr_list_with_a_malformed_entry_is_refused() {
    let sonarr = Sonarr::new(1, "http://sonarr", "secret", true);
    for body in [
        r#"[{"tvdbId": 10, "title": "Ten", "rootFolderPath": "/s"}]"#,
        r#"[{"tvdbId": 10, "title": "Ten", "rootFolderPath": "/s", "statistics": {"episodeFileCount": "3"}}]"#,
        r#"[{"tvdbId": 10, "title": "Ten", "rootFolderPath": "/s", "statistics": 3}]"#,
        r#"[{"tvdbId": 10, "rootFolderPath": "/s", "statistics": {"episodeFileCount": 3}}]"#,
        r#"3"#,
    ] {
        assert_eq!(sonarr.get_all_series(body).unwrap_err(), SyncError::UpstreamUnavailable, "{}", body);
    }
}

#[test]
fn discovery_list_keeps_media_of_the_kind_that_the_playback_system_holds() {
    let overseerr = Overseerr::new(1, "http://overseerr", "secret");
    let body = r#"{"results": [
        {"mediaType": "movie", "tmdbId": 1, "tvdbId": null, "ratingKey": "100", "ratingKey4k": null,
         "createdAt": "2023-01-01T00:00:00.000Z"},
        {"mediaType": "tv", "tmdbId": 2, "tvdbId": 20, "ratingKey": "200", "ratingKey4k": null,
         "createdAt": "2023-01-02T00:00:00.000Z"},
        {"mediaType": "movie", "tmdbId": 3, "ratingKey": null, "ratingKey4k": null,
         "createdAt": "broken"},
        {"mediaType": "movie", "tmdbId": 4, "ratingKey": null, "ratingKey4k": "444",
         "createdAt": "2023-01-03T00:00:01.000Z"}
    ]}"#;
    let movies = overseerr.get_all_movies(body).unwrap();
    assert_eq!(movies.len(), 2);
    assert_eq!(movies[0].tmdb_id, 1);
    assert_eq!(movies[0].rating_key, "100");
    assert_eq!(movies[0].last_view, 1672531200);
    assert_eq!(movies[0].name, "");
    assert_eq!(movies[1].tmdb_id, 4);
    assert_eq!(movies[1].rating_key, "");
    assert_eq!(movies[1].last_view, 1672531200 + 2 * 86400 + 1);
    let series = overseerr.get_all_series(body).unwrap();
    assert_eq!(series.len(), 1);
    assert_eq!(series[0].tvdb_id, 20);
    assert_eq!(series[0].rating_key, "200");
    assert_eq!(series[0].last_view, 1672531200 + 86400);

    let mut catalog = Catalog::new();
    let report = overseerr.update_db_series(body, &mut catalog).unwrap();
    assert_eq!(report.created, 1);
    let again = overseerr.update_db_series(body, &mut catalog).unwrap();
    assert_eq!((again.created, again.updated), (0, 0));
    assert_eq!(catalog.len(), 1);
}

#[test]
fn discovery_list_gives_a_known_movie_its_key() {
    let overseerr = Overseerr::new(1, "http://overseerr", "secret");
    let mut catalog = Catalog::new();
    Movie {
        tmdb_id: 7,
        name: "Seven".to_string(),
        path_hd: "/hd/seven".to_string(),
        path_4k: String::new(),
        rating_key: "old".to_string(),
        last_view: 50,
        protected: true,
    }
    .save(&mut catalog);
    let with_key = r#"{"results": [{"mediaType": "movie", "tmdbId": 7, "ratingKey": "777",
        "ratingKey4k": null, "createdAt": "1970-01-01T00:00:40.000Z"}]}"#;
    let report = overseerr.update_db_movies(with_key, &mut catalog).unwrap();
    assert_eq!((report.created, report.updated), (0, 1));
    let movie = Movie::get_by_rating_key(&catalog, "777").unwrap();
    assert_eq!(movie.tmdb_id, 7);
    assert_eq!(movie.name, "Seven");
    assert_eq!(movie.path_hd, "/hd/seven");
    assert_eq!(movie.last_view, 50);
    assert!(movie.protected);

    let without_key = r#"{"results": [{"mediaType": "movie", "tmdbId": 7, "ratingKey": null,
        "ratingKey4k": "4k", "createdAt": "1970-01-01T00:01:40.000Z"}]}"#;
    let report = overseerr.update_db_movies(without_key, &mut catalog).unwrap();
    assert_eq!((report.created, report.updated), (0, 1));
    let movie = Movie::get_by_rating_key(&catalog, "777").unwrap();
    assert_eq!(movie.rating_key, "777");
    assert_eq!(movie.last_view, 100);
    assert_eq!(catalog.len(), 1);
}

#[test]
fn discovery_list_with_a_malformed_entry_is_refused() {
    let overseerr = Overseerr::new(1, "http://overseerr", "secret");
    for body in [
        r#"{"results": [{"mediaType": 5, "tmdbId": 1, "ratingKey": "1", "createdAt": "2023-01-01T00:00:00.000Z"}]}"#,
        r#"{"results": [{"tmdbId": 1, "ratingKey": "1", "createdAt": "2023-01-01T00:00:00.000Z"}]}"#,
        r#"{"results": [{"mediaType": "movie", "tmdbId": 1, "ratingKey": "1", "createdAt": "2023-01-01"}]}"#,
        r#"{"results": [{"mediaType": "movie", "tmdbId": 1, "ratingKey": "1"}]}"#,
        r#"{"results": [{"mediaType": "movie", "ratingKey": "1", "createdAt": "2023-01-01T00:00:00.000Z"}]}"#,
        r#"{"results": 5}"#,
        r#"{}"#,
        r#"[]"#,
    ] {
        assert_eq!(overseerr.get_all_movies(body).unwrap_err(), SyncError::UpstreamUnavailable, "{}", body);
        let mut catalog = Catalog::new();
        assert!(overseerr.update_db_movies(body, &mut catalog).is_err());
        assert_eq!(catalog.len(), 0);
    }
    assert!(overseerr.get_all_movies(r#"{"results": []}"#).unwrap().is_empty());
}

#[test]
fn discovery_key_that_is_no_text_is_taken_as_empty() {
    let doc = read_document(
        r#"{"mediaType": "tv", "tvdbId": 20, "ratingKey": 200, "createdAt": "1970-01-01T00:00:05.000Z"}"#,
    )
    .unwrap();
    match read_entry(Source::Discovery { kind: MediaKind::Series }, &doc) {
        Read::Fact(t) => {
            assert_eq!(t.external_id, 20);
            assert_eq!(t.playback_key, "");
            assert_eq!(t.last_view, 5);
        }
        other => panic!("{:?}", other),
    }
    assert!(matches!(read_entry(Source::Discovery { kind: MediaKind::Movie }, &doc), Read::Skip));
}

#[test]
fn settings_list_gives_the_endpoints() {
    let overseerr = Overseerr::new(1, "http://overseerr", "secret");
    let body = r#"[
        {"externalUrl": "http://radarr-hd", "apiKey": "a", "is4k": false, "name": "HD"},
        {"externalUrl": "http://radarr-4k", "apiKey": "b", "is4k": true}
    ]"#;
    let endpoints = overseerr.get_radarrs(body).unwrap();
    assert_eq!(endpoints.len(), 2);
    assert_eq!(endpoints[0].url, "http://radarr-hd");
    assert_eq!(endpoints[0].api_key, "a");
    assert!(!endpoints[0].is4k);
    assert_eq!(endpoints[1].url, "http://radarr-4k");
    assert!(endpoints[1].is4k);
    assert_eq!(overseerr.get_sonarrs(body).unwrap().len(), 2);
    assert!(overseerr.get_sonarrs("[]").unwrap().is_empty());
}

#[test]
fn settings_list_with_a_malformed_entry_is_refused() {
    let overseerr = Overseerr::new(1, "http://overseerr", "secret");
    for body in [
        r#"[{"externalUrl": "u", "apiKey": "a"}]"#,
        r#"[{"externalUrl": "u", "is4k": true}]"#,
        r#"[{"apiKey": "a", "is4k": true}]"#,
        r#"[{"externalUrl": "u", "apiKey": "a", "is4k": "yes"}]"#,
        r#"{"externalUrl": "u", "apiKey": "a", "is4k": true}"#,
        r#"?"#,
    ] {
        assert_eq!(overseerr.get_radarrs(body).unwrap_err(), SyncError::UpstreamUnavailable, "{}", body);
    }
    assert!(read_endpoint(&read_document("{}").unwrap()).is_none());
}

#[test]
fn service_addresses() {
    let radarr = Radarr::new(3, "http://radarr", "secret", true);
    assert_eq!(radarr.id(), 3);
    assert_eq!(radarr.url(), "http://radarr");
    assert_eq!(radarr.api_key(), "secret");
    assert!(radarr.is4k());
    assert_eq!(radarr.tier(), QualityTier::UltraHd);
    assert_eq!(radarr.rootfolder_url(), "http://radarr/api/v3/rootfolder");
    assert_eq!(radarr.movies_url(), "http://radarr/api/v3/movie");
    let sonarr = Sonarr::new(4, "http://sonarr", "k", false);
    assert_eq!(sonarr.rootfolder_url(), "http://sonarr/api/v3/rootfolder");
    assert_eq!(sonarr.series_url(), "http://sonarr/api/v3/series");
    assert_eq!(sonarr.id(), 4);
    assert!(!sonarr.is4k());
    let overseerr = Overseerr::new(1, "http://o", "k");
    assert_eq!(overseerr.id(), 1);
    assert_eq!(overseerr.url(), "http://o");
    assert_eq!(overseerr.api_key(), "k");
    assert_eq!(overseerr.media_url(), "http://o/api/v1/Media?take=5000");
    assert_eq!(overseerr.radarr_settings_url(), "http://o/api/v1/settings/radarr");
    assert_eq!(overseerr.sonarr_settings_url(), "http://o/api/v1/settings/sonarr");
}

#[test]
fn facts_from_text_of_each_source() {
    let body = r#"[{"tmdbId": 1, "tvdbId": 2, "title": "T", "rootFolderPath": "/p", "hasFile": true,
        "statistics": {"episodeFileCount": 1}}]"#;
    let movie = read_facts_from_text(Source::Radarr { is4k: false }, body).unwrap();
    assert_eq!(movie[0].external_id, 1);
    let serie = read_facts_from_text(Source::Sonarr { is4k: true }, body).unwrap();
    assert_eq!(serie[0].external_id, 2);
    assert_eq!(serie[0].path_4k, "/p");
    assert!(read_facts_from_text(Source::Discovery { kind: MediaKind::Movie }, body).is_err());
}
