use modsync::config::default_config;
use modsync::config::validate_config;
use modsync::error::Error;
use modsync::reconcile::plan_import;
use modsync::reconcile::plan_update;
use modsync::schemas::Config;
use modsync::schemas::GetPublishedFileDetailsResponseItem;
use modsync::schemas::Mod;
use modsync::schemas::PublishedFileDetails;

fn row(id: &str, checksum: Option<&str>) -> Mod {
    Mod { id: id.to_owned(), name: None, checksum: checksum.map(|c| c.to_owned()) }
}

fn remote(id: &str, title: &str, time_updated: i64) -> (String, GetPublishedFileDetailsResponseItem) {
    (
        id.to_owned(),
        GetPublishedFileDetailsResponseItem::FileDetails(PublishedFileDetails {
            publishedfileid: id.to_owned(),
            title: title.to_owned(),
            time_updated,
            children: None,
        }),
    )
}

fn missing(id: &str) -> (String, GetPublishedFileDetailsResponseItem) {
    (
        id.to_owned(),
        GetPublishedFileDetailsResponseItem::MissingItem {
            result: 9,
            publishedfileid: id.to_owned(),
        },
    )
}

#[test]
fn import_decisions_follow_the_manifest() {
    let entries = vec![
        row("1", Some("X")),
        row("2", Some("X")),
        row("3", None),
        row("4", Some("X")),
    ];
    let locals = vec![
        Some("X".to_owned()), // matches: skip
        Some("Y".to_owned()), // differs: schedule with mismatch rationale
        None,                 // no checksum in manifest: always schedule
        None,                 // no local copy: schedule
    ];
    let plan = plan_import(&entries, &locals);
    let ids: Vec<&str> = plan.iter().map(|(m, _)| m.id.as_str()).collect();
    assert_eq!(ids, vec!["2", "3", "4"]);
    assert_eq!(plan[0].1, "Checksum mismatch - Y local <=> import X");
    assert_eq!(plan[1].1, "No comparison checksum");
    assert_eq!(plan[2].1, "No local version");
}

#[test]
fn import_with_all_matching_schedules_nothing() {
    let entries = vec![row("1", Some("X")), row("2", Some("Y"))];
    let locals = vec![Some("X".to_owned()), Some("Y".to_owned())];
    assert!(plan_import(&entries, &locals).is_empty());
}

#[test]
fn update_schedules_newer_and_unknown_items() {
    let t0 = 1_000_000;
    let t1 = 1_000_001;
    let results = vec![
        remote("1", "Newer", t1),
        remote("2", "Older", t0),
        remote("3", "Unseen", t0),
        missing("5"),
    ];
    let locals = vec![Some(t0), Some(t0), None, None];
    let plan = plan_update(&results, &locals);
    let scheduled: Vec<&str> = plan.to_download.iter().map(|c| c.id.as_str()).collect();
    assert_eq!(scheduled, vec!["1", "3"]);
    let current: Vec<&str> = plan.up_to_date.iter().map(|c| c.id.as_str()).collect();
    assert_eq!(current, vec!["2"]);
    assert_eq!(plan.missing, vec!["5".to_owned()]);
}

#[test]
fn update_equal_times_is_up_to_date() {
    let results = vec![remote("1", "Same", 42)];
    let locals = vec![Some(42)];
    let plan = plan_update(&results, &locals);
    assert!(plan.to_download.is_empty());
    assert_eq!(plan.up_to_date.len(), 1);
    assert!(plan.missing.is_empty());
}

#[test]
fn update_reports_sort_case_insensitively_by_title() {
    let results = vec![
        remote("1", "beta", 10),
        remote("2", "Alpha", 10),
        remote("3", "alpha two", 10),
    ];
    let locals = vec![None, None, None];
    let plan = plan_update(&results, &locals);
    let titles: Vec<&str> = plan.to_download.iter().map(|c| c.title.as_str()).collect();
    assert_eq!(titles, vec!["Alpha", "alpha two", "beta"]);
}

#[test]
fn title_order_folds_case_before_comparing() {
    // plain byte order would put "Zebra" before "apple"
    let results = vec![remote("1", "Zebra", 10), remote("2", "apple", 10)];
    let locals = vec![None, None];
    let plan = plan_update(&results, &locals);
    let titles: Vec<&str> = plan.to_download.iter().map(|c| c.title.as_str()).collect();
    assert_eq!(titles, vec!["apple", "Zebra"]);
}

#[test]
fn exported_manifest_orders_rows_case_insensitively_by_id() {
    let rows = vec![row("Zulu", Some("1")), row("alpha", Some("2")), row("Mike", None)];
    let manifest = modsync::reconcile::export_manifest(rows);
    let ids: Vec<&str> = manifest.mods.iter().map(|m| m.id.as_str()).collect();
    assert_eq!(ids, vec!["alpha", "Mike", "Zulu"]);
    assert_eq!(manifest.mods[2].checksum.as_deref(), Some("1"));
}

#[test]
fn empty_webapi_key_is_rejected() {
    let config = Config { collection_path: "mods".to_owned(), steam_webapi_key: String::new() };
    assert!(matches!(validate_config(config), Err(Error::MissingWebApiKey())));
}

#[test]
fn configured_key_passes_through() {
    let config = Config {
        collection_path: "elsewhere".to_owned(),
        steam_webapi_key: "SECRET-REDACTED".to_owned(),
    };
    match validate_config(config) {
        Ok(c) => {
            assert_eq!(c.collection_path, "elsewhere");
            assert_eq!(c.steam_webapi_key, "SECRET-REDACTED");
        }
        Err(_) => panic!("a configured key must be accepted"),
    }
}

#[test]
fn default_config_points_at_mods_with_no_key() {
    let c = default_config();
    assert_eq!(c.collection_path, "mods");
    assert_eq!(c.steam_webapi_key, "");
}
