use paradox_mcp::replies::{
    create_result, data_header, list_tables_result, not_found_result, open_failed_result,
    schema_header, search_header, write_result,
};

#[test]
fn headers() {
    let t = "people".to_string();
    assert_eq!(schema_header(&t), "Schema for table 'people':");
    assert_eq!(data_header(&t, 12), "Data for table 'people' (12 records):");
    assert_eq!(search_header(&t, 0), "Search results for table 'people' (0 found):");
}

#[test]
fn write_and_create_answers() {
    let t = "people".to_string();
    let r = create_result(&t, 3, true);
    assert!(!r.is_error);
    assert_eq!(r.texts, vec!["Successfully created table 'people' with 3 fields.".to_string()]);
    let r = create_result(&t, 3, false);
    assert!(r.is_error);
    assert_eq!(r.texts, vec!["Failed to create table 'people'.".to_string()]);
    let r = write_result(&t, true, true);
    assert_eq!(r.texts, vec!["Successfully updated record in table 'people'.".to_string()]);
    let r = write_result(&t, false, true);
    assert_eq!(r.texts, vec!["Successfully inserted record in table 'people'.".to_string()]);
    let r = write_result(&t, false, false);
    assert!(r.is_error);
    let r = not_found_result(1234);
    assert!(r.is_error);
    assert_eq!(r.texts, vec!["Record at index 1234 not found.".to_string()]);
    let r = open_failed_result(&"/d/x.db".to_string(), false);
    assert_eq!(r.texts, vec!["Failed to open table '/d/x.db'".to_string()]);
}

#[test]
fn list_tables_filters_db_files() {
    let names: Vec<String> =
        ["a.db", "notes.txt", ".db", "b.db", "db"].iter().map(|s| s.to_string()).collect();
    let r = list_tables_result(&names);
    assert!(!r.is_error);
    assert_eq!(r.texts, vec!["Found tables: a.db, b.db".to_string()]);
    let r = list_tables_result(&vec!["x.txt".to_string()]);
    assert_eq!(r.texts, vec!["No .db files found in location.".to_string()]);
}
