//! The table parser against real HTML documents.

use cheese_trackers_server::model::TrackerGameStatus;
use cheese_trackers_server::parse::{
    parse_tracker_html, CellDecodeError, Checks, Column, ParseTrackerError, TrackerTable,
};

fn doc(checks_rows: &str, hints_rows: &str) -> String {
    format!(
        "<html><body>\
         <table id=\"checks-table\"><thead><tr>\
         <th>#</th><th>Name</th><th>Game</th><th>Status</th><th>Checks</th><th>Last Activity</th>\
         </tr></thead><tbody>{checks_rows}</tbody></table>\
         <table id=\"hints-table\"><thead><tr>\
         <th>Finder</th><th>Receiver</th><th>Item</th><th>Location</th><th>Entrance</th><th>Found</th>\
         </tr></thead><tbody>{hints_rows}</tbody></table>\
         </body></html>"
    )
}

const ALICE_ROW: &str = "<tr><td>1</td><td>Alice</td><td>ALTTP</td><td>Playing</td>\
                         <td>5/20</td><td>30</td></tr>";
const HINT_ROW: &str = "<tr><td>Alice</td><td>Bob</td><td>Sword</td><td>Chest</td>\
                        <td>Vanilla</td><td></td></tr>";

#[test]
fn parses_one_slot_and_one_hint() {
    let html = doc(ALICE_ROW, HINT_ROW);
    let (games, hints) = parse_tracker_html(&html).unwrap();
    assert_eq!(games.len(), 1);
    let g = &games[0];
    assert_eq!(g.position, 1);
    assert_eq!(g.name, "Alice");
    assert_eq!(g.game, "ALTTP");
    assert_eq!(g.status, TrackerGameStatus::Playing);
    assert_eq!(g.checks.completed, 5);
    assert_eq!(g.checks.total, 20);
    assert_eq!(g.last_activity, Some(30_000));
    assert_eq!(hints.len(), 1);
    let h = &hints[0];
    assert_eq!(h.finder, "Alice");
    assert_eq!(h.receiver, "Bob");
    assert_eq!(h.item, "Sword");
    assert_eq!(h.location, "Chest");
    assert_eq!(h.entrance, "Vanilla");
    assert!(!h.found);
}

#[test]
fn parsing_is_deterministic() {
    let html = doc(ALICE_ROW, HINT_ROW);
    let (games1, hints1) = parse_tracker_html(&html).unwrap();
    let (games2, hints2) = parse_tracker_html(&html).unwrap();
    assert_eq!(games1.len(), games2.len());
    assert_eq!(hints1.len(), hints2.len());
    assert_eq!(games1[0].name, games2[0].name);
    assert_eq!(games1[0].checks.completed, games2[0].checks.completed);
    assert_eq!(hints1[0].item, hints2[0].item);
    assert_eq!(hints1[0].found, hints2[0].found);
}

#[test]
fn missing_checks_table_is_fatal() {
    let html = "<html><body><table id=\"hints-table\"><thead><tr><th>Finder</th></tr></thead>\
                <tbody></tbody></table></body></html>";
    let err = parse_tracker_html(html).unwrap_err();
    assert_eq!(err, ParseTrackerError::MissingTable(TrackerTable::Checks));
}

#[test]
fn missing_hints_table_is_fatal() {
    let html = doc(ALICE_ROW, "").replace("id=\"hints-table\"", "id=\"other\"");
    let err = parse_tracker_html(&html).unwrap_err();
    assert_eq!(err, ParseTrackerError::MissingTable(TrackerTable::Hints));
}

#[test]
fn missing_header_row_is_fatal() {
    let html = format!(
        "<html><body><table id=\"checks-table\"><tbody>{ALICE_ROW}</tbody></table></body></html>"
    );
    let err = parse_tracker_html(&html).unwrap_err();
    assert_eq!(err, ParseTrackerError::MissingTableHeader(TrackerTable::Checks));
}

#[test]
fn malformed_checks_cell_is_a_row_error() {
    let bad = "<tr><td>1</td><td>Alice</td><td>ALTTP</td><td>Playing</td>\
               <td>five</td><td>30</td></tr>";
    let html = doc(bad, "");
    let err = parse_tracker_html(&html).unwrap_err();
    match err {
        ParseTrackerError::Deserialize(TrackerTable::Checks, row) => {
            assert_eq!(row.row, 0);
            assert_eq!(row.error, CellDecodeError::InvalidValue(Column::Checks));
        }
        other => panic!("unexpected error {other:?}"),
    }
}

#[test]
fn unknown_status_is_a_row_error() {
    let bad = "<tr><td>1</td><td>Alice</td><td>ALTTP</td><td>Sleeping</td>\
               <td>5/20</td><td>30</td></tr>";
    let html = doc(bad, "");
    let err = parse_tracker_html(&html).unwrap_err();
    match err {
        ParseTrackerError::Deserialize(TrackerTable::Checks, row) => {
            assert_eq!(row.error, CellDecodeError::InvalidValue(Column::Status));
        }
        other => panic!("unexpected error {other:?}"),
    }
}

#[test]
fn second_bad_row_is_reported_by_index() {
    let rows = format!(
        "{ALICE_ROW}<tr><td>x</td><td>Bob</td><td>ALTTP</td><td>Ready</td>\
         <td>1/2</td><td>None</td></tr>"
    );
    let html = doc(&rows, "");
    let err = parse_tracker_html(&html).unwrap_err();
    match err {
        ParseTrackerError::Deserialize(TrackerTable::Checks, row) => {
            assert_eq!(row.row, 1);
            assert_eq!(row.error, CellDecodeError::InvalidValue(Column::Position));
        }
        other => panic!("unexpected error {other:?}"),
    }
}

#[test]
fn none_last_activity_reads_as_absent() {
    let row = "<tr><td>1</td><td>Alice</td><td>ALTTP</td><td>Ready</td>\
               <td>0/20</td><td>None</td></tr>";
    let html = doc(row, "");
    let (games, _) = parse_tracker_html(&html).unwrap();
    assert_eq!(games[0].last_activity, None);
}

#[test]
fn fractional_last_activity_truncates_to_milliseconds() {
    let row = "<tr><td>1</td><td>Alice</td><td>ALTTP</td><td>Ready</td>\
               <td>0/20</td><td>30.5</td></tr>";
    let html = doc(row, "");
    let (games, _) = parse_tracker_html(&html).unwrap();
    assert_eq!(games[0].last_activity, Some(30_500));
}

#[test]
fn reordered_and_extra_columns_are_tolerated() {
    let html = "<html><body>\
        <table id=\"checks-table\"><thead><tr>\
        <th>Extra</th><th>Name</th><th>#</th><th>Checks</th><th>Status</th><th>Game</th><th>Last Activity</th>\
        </tr></thead><tbody>\
        <tr><td>zzz</td><td>Alice</td><td>7</td><td>2/9</td><td>Connected</td><td>OOT</td><td>None</td></tr>\
        </tbody></table>\
        <table id=\"hints-table\"><thead><tr>\
        <th>Found</th><th>Finder</th><th>Receiver</th><th>Item</th><th>Location</th><th>Entrance</th>\
        </tr></thead><tbody>\
        <tr><td>\u{2714}</td><td>Alice</td><td>Alice</td><td>Bow</td><td>Shop</td><td>Vanilla</td></tr>\
        </tbody></table></body></html>";
    let (games, hints) = parse_tracker_html(html).unwrap();
    assert_eq!(games[0].position, 7);
    assert_eq!(games[0].name, "Alice");
    assert_eq!(games[0].game, "OOT");
    assert_eq!(games[0].status, TrackerGameStatus::Connected);
    assert_eq!(games[0].checks.completed, 2);
    assert!(hints[0].found);
}

#[test]
fn duplicate_column_is_a_row_error() {
    let html = "<html><body>\
        <table id=\"checks-table\"><thead><tr>\
        <th>#</th><th>Name</th><th>Name</th><th>Game</th><th>Status</th><th>Checks</th><th>Last Activity</th>\
        </tr></thead><tbody>\
        <tr><td>1</td><td>A</td><td>B</td><td>G</td><td>Ready</td><td>0/1</td><td>None</td></tr>\
        </tbody></table>\
        <table id=\"hints-table\"><thead><tr><th>Finder</th></tr></thead><tbody></tbody></table>\
        </body></html>";
    let err = parse_tracker_html(html).unwrap_err();
    match err {
        ParseTrackerError::Deserialize(TrackerTable::Checks, row) => {
            assert_eq!(row.error, CellDecodeError::DuplicateColumn(Column::Name));
        }
        other => panic!("unexpected error {other:?}"),
    }
}

#[test]
fn missing_column_is_a_row_error_only_when_rows_exist() {
    // A table with a bad header but no body rows decodes as empty.
    let html = "<html><body>\
        <table id=\"checks-table\"><thead><tr><th>Nothing</th></tr></thead><tbody></tbody></table>\
        <table id=\"hints-table\"><thead><tr><th>Finder</th></tr></thead><tbody></tbody></table>\
        </body></html>";
    let (games, hints) = parse_tracker_html(html).unwrap();
    assert!(games.is_empty());
    assert!(hints.is_empty());

    let html2 = "<html><body>\
        <table id=\"checks-table\"><thead><tr><th>Nothing</th></tr></thead><tbody>\
        <tr><td>1</td></tr></tbody></table>\
        <table id=\"hints-table\"><thead><tr><th>Finder</th></tr></thead><tbody></tbody></table>\
        </body></html>";
    let err = parse_tracker_html(html2).unwrap_err();
    match err {
        ParseTrackerError::Deserialize(TrackerTable::Checks, row) => {
            assert_eq!(row.error, CellDecodeError::MissingColumn(Column::Position));
        }
        other => panic!("unexpected error {other:?}"),
    }
}

#[test]
fn cell_text_is_trimmed() {
    let row = "<tr><td> 1 </td><td>  Alice  </td><td> ALTTP\t</td><td>\nPlaying\n</td>\
               <td> 5/20 </td><td> 30 </td></tr>";
    let html = doc(row, "");
    let (games, _) = parse_tracker_html(&html).unwrap();
    assert_eq!(games[0].position, 1);
    assert_eq!(games[0].name, "Alice");
    assert_eq!(games[0].game, "ALTTP");
    assert_eq!(games[0].last_activity, Some(30_000));
}

#[test]
fn short_rows_read_missing_cells_as_empty() {
    let hint = "<tr><td>Alice</td><td>Bob</td><td>Sword</td><td>Chest</td><td>Vanilla</td></tr>";
    let html = doc(ALICE_ROW, hint);
    let (_, hints) = parse_tracker_html(&html).unwrap();
    assert!(!hints[0].found);
}

#[test]
fn checks_convert_between_integer_widths() {
    let c: Checks<u32> = Checks { completed: 5, total: 20 };
    let wide: Checks<u64> = c.convert();
    assert_eq!(wide.completed, 5);
    assert_eq!(wide.total, 20);
    let narrow: Result<Checks<u8>, _> = c.try_convert();
    let narrow = narrow.unwrap();
    assert_eq!(narrow.completed, 5);
    assert_eq!(narrow.total, 20);
    let big: Checks<u32> = Checks { completed: 5, total: 300 };
    let too_small: Result<Checks<u8>, _> = big.try_convert();
    assert!(too_small.is_err());
}
