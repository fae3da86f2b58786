use media_retention::catalog::{ActivityFact, Catalog, Outcome, TitleRef};
use media_retention::services::disk::Disk;
use media_retention::services::movie::Movie;
use media_retention::services::overseerr::Overseerr;
use media_retention::services::radarr::Radarr;
use media_retention::services::sonarr::Sonarr;
use media_retention::storage::{RootFolder, StorageRegistry};
use media_retention::title::{CanonicalTitle, QualityTier, NEVER_VIEWED};

fn film(last_view: i32, protected: bool) -> CanonicalTitle {
    CanonicalTitle {
        external_id: 42,
        name: "Film".to_string(),
        path_hd: String::new(),
        path_4k: String::new(),
        playback_key: String::new(),
        last_view,
        protected,
    }
}

#[test]
fn activity_older_than_last_view_changes_nothing() {
    let mut catalog = Catalog::new();
    let report = catalog.sync_discovery(&vec![film(1000, false)]);
    assert_eq!(report.created, 1);
    assert_eq!(catalog.row(0).last_view, 1000);
    assert_eq!(catalog.row(0).name, "Film");

    let applied = catalog.apply_activity(&TitleRef::Name("Film".to_string()), 500);
    assert_eq!(applied.outcome, Outcome::Unchanged);
    assert!(applied.written.is_none());
    assert_eq!(catalog.row(0).last_view, 1000);
}

#[test]
fn activity_newer_than_last_view_moves_it_forward() {
    let mut catalog = Catalog::new();
    catalog.sync_discovery(&vec![film(1000, false)]);
    catalog.apply_activity(&TitleRef::Name("Film".to_string()), 500);
    let applied = catalog.apply_activity(&TitleRef::Name("Film".to_string()), 2000);
    assert_eq!(applied.outcome, Outcome::Updated);
    assert_eq!(applied.written.unwrap().last_view, 2000);
    assert_eq!(catalog.len(), 1);
    assert_eq!(catalog.row(0).last_view, 2000);
}

#[test]
fn activity_pass_over_both_facts_ends_at_the_latest() {
    let mut catalog = Catalog::new();
    catalog.sync_discovery(&vec![film(1000, false)]);
    let facts = vec![
        ActivityFact { reference: TitleRef::Name("Film".to_string()), seen_at: 500 },
        ActivityFact { reference: TitleRef::Name("Film".to_string()), seen_at: 2000 },
    ];
    let report = catalog.sync_activity(&facts);
    assert_eq!(report.updated, 1);
    assert_eq!(report.skipped, 0);
    assert_eq!(report.created, 0);
    assert_eq!(report.writes.len(), 1);
    assert_eq!(report.writes[0].last_view, 2000);
    assert_eq!(catalog.row(0).last_view, 2000);
}

#[test]
fn two_tiers_keep_their_paths_and_the_last_name_wins() {
    let mut catalog = Catalog::new();
    let hd = CanonicalTitle {
        external_id: 42,
        name: "Film".to_string(),
        path_hd: "/hd/film".to_string(),
        path_4k: String::new(),
        playback_key: String::new(),
        last_view: NEVER_VIEWED,
        protected: false,
    };
    let uhd = CanonicalTitle {
        external_id: 42,
        name: "Film 2".to_string(),
        path_hd: String::new(),
        path_4k: "/4k/film".to_string(),
        playback_key: String::new(),
        last_view: NEVER_VIEWED,
        protected: false,
    };
    let first = catalog.sync_acquisition(&vec![hd], QualityTier::Hd);
    assert_eq!((first.created, first.updated), (1, 0));
    let second = catalog.sync_acquisition(&vec![uhd], QualityTier::UltraHd);
    assert_eq!((second.created, second.updated), (0, 1));
    assert_eq!(catalog.len(), 1);
    let row = catalog.row(0);
    assert_eq!(row.external_id, 42);
    assert_eq!(row.path_hd, "/hd/film");
    assert_eq!(row.path_4k, "/4k/film");
    assert_eq!(row.name, "Film 2");
}

#[test]
fn two_tiers_from_the_services_documents() {
    let mut catalog = Catalog::new();
    let hd = Radarr::new(1, "http://hd", "k", false);
    let uhd = Radarr::new(2, "http://uhd", "k", true);
    let first = hd
        .update_db_movies(
            r#"[{"tmdbId": 42, "title": "Film", "rootFolderPath": "/hd/film", "hasFile": true}]"#,
            &mut catalog,
        )
        .unwrap();
    assert_eq!(first.created, 1);
    let second = uhd
        .update_db_movies(
            r#"[{"tmdbId": 42, "title": "Film 2", "rootFolderPath": "/4k/film", "hasFile": true}]"#,
            &mut catalog,
        )
        .unwrap();
    assert_eq!(second.updated, 1);
    let movies = Movie::get_all(&catalog);
    assert_eq!(movies.len(), 1);
    assert_eq!(movies[0].tmdb_id, 42);
    assert_eq!(movies[0].path_hd, "/hd/film");
    assert_eq!(movies[0].path_4k, "/4k/film");
    assert_eq!(movies[0].name, "Film 2");
    assert_eq!(movies[0].last_view, NEVER_VIEWED);
}

#[test]
fn unprotected_title_before_threshold_is_a_candidate() {
    let mut catalog = Catalog::new();
    catalog.save(film(1000, false));
    let out = catalog.classify(1500);
    assert_eq!(out.len(), 1);
    assert_eq!(out[0].external_id, 42);
    assert_eq!(out[0].last_view, 1000);
}

#[test]
fn protected_title_before_threshold_is_no_candidate() {
    let mut catalog = Catalog::new();
    catalog.save(film(1000, true));
    assert!(catalog.classify(1500).is_empty());
    assert!(catalog.classify(i32::MAX).is_empty());
    assert!(Movie::get_movies_to_delete(&catalog, 1500).is_empty());
}

#[test]
fn equal_capacity_from_two_instances_shares_one_pool() {
    let mut registry = StorageRegistry::new();
    let radarr = Radarr::new(1, "http://r", "k", false);
    let sonarr = Sonarr::new(7, "http://s", "k", false);
    let movies = radarr.populate_paths(
        &vec![RootFolder { path: "/movies".to_string(), free_space: 5000000000, id: 1 }],
        &mut registry,
    );
    let series = sonarr.populate_paths(
        &vec![RootFolder { path: "/series".to_string(), free_space: 5000000000, id: 1 }],
        &mut registry,
    );
    assert_eq!(registry.disks().len(), 1);
    assert_eq!(registry.disks()[0].get_free_space(), 5000000000);
    assert_eq!(registry.disks()[0].get_id(), 1);
    assert_eq!(movies.len(), 1);
    assert_eq!(series.len(), 1);
    assert_eq!(movies[0].disk_id(), series[0].disk_id());
    assert_eq!(movies[0].disk_id(), 1);
    assert_eq!(movies[0].radarr_id(), 1);
    assert_eq!(series[0].sonarr_id(), 7);
    let pool = Disk::get_by_free_space(&registry, 5000000000).unwrap();
    assert_eq!(pool.get_id(), 1);
    assert_eq!(series[0].get_disk(&registry).unwrap().get_free_space(), 5000000000);
}

#[test]
fn equal_capacity_from_two_instances_of_one_kind_shares_one_pool() {
    let mut registry = StorageRegistry::new();
    let first = Radarr::new(1, "http://a", "k", false);
    let second = Radarr::new(2, "http://b", "k", true);
    let a = first.populate_paths(
        &vec![RootFolder { path: "/data".to_string(), free_space: 5000000000, id: 3 }],
        &mut registry,
    );
    let b = second.populate_paths(
        &vec![RootFolder { path: "/data".to_string(), free_space: 5000000000, id: 9 }],
        &mut registry,
    );
    assert_eq!(registry.disks().len(), 1);
    assert_eq!(registry.radarr_paths().len(), 2);
    assert_eq!(a[0].disk_id(), b[0].disk_id());
}

#[test]
fn discovery_creates_with_the_reported_first_seen_time() {
    let mut catalog = Catalog::new();
    let overseerr = Overseerr::new(1, "http://o", "k");
    let body = r#"{"results": [{"mediaType": "movie", "tmdbId": 42, "ratingKey": "881",
        "ratingKey4k": null, "createdAt": "1970-01-01T00:16:40.000Z"}]}"#;
    let report = overseerr.update_db_movies(body, &mut catalog).unwrap();
    assert_eq!(report.created, 1);
    assert_eq!(catalog.row(0).external_id, 42);
    assert_eq!(catalog.row(0).last_view, 1000);
    assert_eq!(catalog.row(0).playback_key, "881");
    assert!(!catalog.row(0).protected);
}
