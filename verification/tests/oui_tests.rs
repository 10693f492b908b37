use r_lanscan::error::RLanLibError;
use r_lanscan::net::MacAddr;
use r_lanscan::oui::db::OuiDb;
use r_lanscan::oui::offline_db::OfflineOuiDb;
use r_lanscan::oui::{oldest, oui_refresh_plan, Oui, OuiRefresh};

const HEADER: &str = "Registry,Assignment,Organization Name,Organization Address\n";

fn fixture_csv(rows: &[(&str, &str)]) -> String {
    let mut content = String::from(HEADER);
    for (assignment, org) in rows {
        content.push_str(&format!("MA-L,{},{},Some Address\n", assignment, org));
    }
    content
}

fn load(files: Vec<String>) -> OuiDb {
    let mut db = OuiDb::new("/var/lib/r-lanscan");
    db.load_data(&files).unwrap();
    db
}

fn organization(db: &OuiDb, mac: MacAddr) -> Option<String> {
    db.lookup(mac).map(|d| d.organization().to_string())
}

#[test]
fn new_creates_correct_csv_paths() {
    let db = OuiDb::new("/var/lib/r-lanscan");
    assert_eq!(
        db.csv_paths(),
        &vec![
            "/var/lib/r-lanscan/oui.csv".to_string(),
            "/var/lib/r-lanscan/mam.csv".to_string(),
            "/var/lib/r-lanscan/oui36.csv".to_string(),
            "/var/lib/r-lanscan/cid.csv".to_string(),
            "/var/lib/r-lanscan/iab.csv".to_string(),
        ]
    );
}

#[test]
fn csv_paths_add_no_second_separator() {
    let db = OuiDb::new("/var/lib/r-lanscan/");
    assert_eq!(db.csv_paths()[0], "/var/lib/r-lanscan/oui.csv");
    let relative = OuiDb::new("data");
    assert_eq!(relative.csv_paths()[4], "data/iab.csv");
}

#[test]
fn load_data_and_lookup_standard_oui() {
    let empty = fixture_csv(&[]);
    let db = load(vec![
        fixture_csv(&[("AABBCC", "Acme Corp"), ("112233", "Widgets Inc")]),
        empty.clone(),
        empty.clone(),
        empty.clone(),
        empty,
    ]);
    let mac = MacAddr::new(0xAA, 0xBB, 0xCC, 0x01, 0x02, 0x03);
    assert_eq!(organization(&db, mac), Some("Acme Corp".to_string()));
}

#[test]
fn lookup_returns_none_for_unknown_mac() {
    let empty = fixture_csv(&[]);
    let db = load(vec![empty.clone(), empty.clone(), empty.clone(), empty.clone(), empty]);
    let mac = MacAddr::new(0xDE, 0xAD, 0xBE, 0xEF, 0x00, 0x01);
    assert!(db.lookup(mac).is_none());
}

#[test]
fn load_data_deduplicates_across_files() {
    let empty = fixture_csv(&[]);
    let db = load(vec![
        fixture_csv(&[("AABBCC", "First")]),
        fixture_csv(&[("AABBCC", "Second")]),
        empty.clone(),
        empty.clone(),
        empty,
    ]);
    let mac = MacAddr::new(0xAA, 0xBB, 0xCC, 0x00, 0x00, 0x01);
    assert_eq!(organization(&db, mac), Some("First".to_string()));
}

#[test]
fn most_specific_prefix_wins() {
    let empty = fixture_csv(&[]);
    let db = load(vec![
        fixture_csv(&[("AABBCC", "Large")]),
        fixture_csv(&[("AABBCC1", "Medium")]),
        fixture_csv(&[("AABBCC123", "Small")]),
        empty.clone(),
        empty,
    ]);
    assert_eq!(organization(&db, MacAddr::new(0xAA, 0xBB, 0xCC, 0x12, 0x34, 0x56)), Some("Small".to_string()));
    assert_eq!(organization(&db, MacAddr::new(0xAA, 0xBB, 0xCC, 0x19, 0x34, 0x56)), Some("Medium".to_string()));
    assert_eq!(organization(&db, MacAddr::new(0xAA, 0xBB, 0xCC, 0x29, 0x34, 0x56)), Some("Large".to_string()));
}

#[test]
fn fields_are_cleaned_and_upper_cased() {
    let empty = fixture_csv(&[]);
    let db = load(vec![
        format!("{}MA-L, aabbcc ,\u{a0}Spaced\u{a0}Corp  ,Addr\n", HEADER),
        empty.clone(),
        empty.clone(),
        empty.clone(),
        empty,
    ]);
    assert_eq!(organization(&db, MacAddr::new(0xAA, 0xBB, 0xCC, 0, 0, 1)), Some("Spaced Corp".to_string()));
}

#[test]
fn a_record_without_organization_is_an_error() {
    let mut db = OuiDb::new("/data");
    let files = vec!["Registry,Assignment\nMA-L,AABBCC\n".to_string(), String::new(), String::new(), String::new(), String::new()];
    match db.load_data(&files) {
        Err(RLanLibError::Oui(m)) => assert_eq!(m, "missing organization field in record: /data/oui.csv"),
        _ => panic!("a short record was accepted"),
    }
}

#[test]
fn a_record_of_another_length_is_a_csv_error() {
    let mut db = OuiDb::new("/data");
    let files = vec![format!("{}MA-L,AABBCC\n", HEADER), String::new(), String::new(), String::new(), String::new()];
    match db.load_data(&files) {
        Err(RLanLibError::Oui(m)) => assert!(m.starts_with("failed to get csv record: /data/oui.csv : ")),
        _ => panic!("a short record was accepted"),
    }
}

#[test]
fn offline_lookup_finds_a_well_known_prefix() {
    let d = OfflineOuiDb.lookup(MacAddr::new(0, 0, 0, 0, 0, 0)).unwrap();
    assert_eq!(d.organization(), "XEROX CORPORATION");
}

#[test]
fn refresh_plan_by_age() {
    assert_eq!(oui_refresh_plan(None, 100), OuiRefresh::UpdateElseOffline);
    assert_eq!(oui_refresh_plan(Some(Some(101)), 100), OuiRefresh::UpdateKeepingOld);
    assert_eq!(oui_refresh_plan(Some(Some(100)), 100), OuiRefresh::Load);
    assert_eq!(oui_refresh_plan(Some(None), 100), OuiRefresh::Load);
}

#[test]
fn oldest_time_needs_every_file() {
    assert_eq!(oldest(&vec![Some(5), Some(3), Some(9)]), Some(3));
    assert_eq!(oldest(&vec![Some(5), None, Some(9)]), None);
    assert_eq!(oldest(&vec![]), None);
}
