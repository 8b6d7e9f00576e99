use asciii_cli::clock::csv;
use asciii_cli::commands::{new, NewArgs};
use asciii_cli::decimal::{parse_year, year_text};
use asciii_cli::errors::StorageError;
use asciii_cli::ordering::{listing_order, ProjectRecord, SortField};
use asciii_cli::paths::join_path;
use chrono::Datelike;

#[test]
fn csv_without_year_uses_the_clock() {
    let before = chrono::Local::now().year();
    let got = csv(None);
    let after = chrono::Local::now().year();
    assert!(got == before || got == after);
    assert_eq!(csv(Some("1999")), 1999);
}

#[test]
fn year_round_trip_on_samples() {
    for y in [-1000, -1, 0, 1, 1970, 2038, 262143] {
        assert_eq!(parse_year(&year_text(y)), Some(y));
    }
}

#[test]
fn listing_is_a_stable_sort() {
    let recs: Vec<ProjectRecord> = [Some(3), None, Some(1), Some(3), None, Some(2)]
        .iter()
        .map(|d| ProjectRecord { name: None, manager: None, date: *d, index: None })
        .collect();
    let order = listing_order(&recs, SortField::Date);
    assert_eq!(order, vec![1, 4, 2, 5, 0, 3]);
    let resorted: Vec<ProjectRecord> = order
        .iter()
        .map(|&i| ProjectRecord { name: None, manager: None, date: recs[i].date, index: None })
        .collect();
    assert_eq!(listing_order(&resorted, SortField::Date), vec![0, 1, 2, 3, 4, 5]);
}

#[test]
fn wrapped_errors_describe_their_cause() {
    for e in [
        StorageError::ParseError("line 3".to_string()),
        StorageError::Git("object not found".to_string()),
        StorageError::Io("permission denied".to_string()),
    ] {
        assert_eq!(Some(e.description()), e.cause());
    }
}

#[test]
fn fill_keys_are_distinct() {
    let a = NewArgs {
        name: "n".to_string(),
        template: Some("t".to_string()),
        description: Some("d".to_string()),
        date: Some("1.1.2017".to_string()),
        time: Some("10:00".to_string()),
        time_end: Some("12:00".to_string()),
        manager: Some("m".to_string()),
        dont_edit: false,
    };
    let p = new(a, Some(Some("default".to_string())), None);
    let mut keys: Vec<&String> = p.fill_data.iter().map(|(k, _)| k).collect();
    assert_eq!(keys.len(), 5);
    keys.sort();
    keys.dedup();
    assert_eq!(keys.len(), 5);
}

#[test]
fn absolute_join_replaces() {
    assert_eq!(join_path("/home/me", "/etc"), "/etc");
    assert_eq!(join_path("/home/me", "docs"), "/home/me/docs");
}
