use kubetui::table::Table;
use kubetui::table::TableColumnDefinition;
use kubetui::table::TableRow;
use kubetui::table::Time;
use kubetui::table::Value;
use kubetui::table::KubeTable;
use kubetui::table::to_time;

fn col(name: &str) -> TableColumnDefinition {
    TableColumnDefinition {
        name: name.to_string(),
        kind: String::new(),
        format: String::new(),
        description: String::new(),
        priority: 0,
    }
}

fn row(cells: Vec<&str>) -> TableRow {
    TableRow {
        cells: cells.into_iter().map(|c| Value::Str(c.to_string())).collect(),
        conditions: None,
    }
}

#[test]
fn indexes_just() {
    let table = Table::new(vec![col("A"), col("B"), col("C"), col("D")], Vec::new()).unwrap();

    let targets = vec!["A", "B", "C", "D"];

    assert_eq!(table.find_indexes(&targets), vec![0, 1, 2, 3]);

    let targets = vec!["A", "B", "E"];

    assert_eq!(table.find_indexes(&targets), vec![0, 1]);
}

#[test]
fn to_time_from_3h() {
    assert_eq!(
        to_time("3h"),
        Time {
            hour: 3,
            minute: 0,
            second: 0
        }
    )
}

#[test]
fn to_time_from_3h10m() {
    assert_eq!(
        to_time("3h10m"),
        Time {
            hour: 3,
            minute: 10,
            second: 0
        }
    )
}

#[test]
fn to_time_from_10m() {
    assert_eq!(
        to_time("10m"),
        Time {
            hour: 0,
            minute: 10,
            second: 0
        }
    )
}

#[test]
fn to_second_from_3h10m() {
    assert_eq!(to_time("3h10m").to_second(), 3 * 3600 + 10 * 60)
}

#[test]
fn to_time_malformed_unit_defaults_to_zero() {
    assert_eq!(
        to_time("xxh10m"),
        Time {
            hour: 0,
            minute: 10,
            second: 0
        }
    );
    assert_eq!(to_time(""), Time { hour: 0, minute: 0, second: 0 });
}

#[test]
fn sort_rows_by_time_ascending_and_stable() {
    // lower elapsed sorts first; rows with equal keys keep their order
    let mut table = Table::new(
        vec![col("NAME"), col("AGE")],
        vec![
            row(vec!["a", "3h"]),
            row(vec!["b", "10m"]),
            row(vec!["c", "3h10m"]),
            row(vec!["d", "10m"]),
        ],
    )
    .unwrap();

    table.sort_rows_by_time(1);

    let order: Vec<String> = table
        .rows()
        .iter()
        .map(|r| r.cells[0].to_string())
        .collect();
    assert_eq!(order, vec!["b", "d", "a", "c"]);
}

#[test]
fn table_construction_rejects_misaligned_rows() {
    assert!(Table::new(vec![col("A"), col("B")], vec![row(vec!["only-one"])]).is_none());
}

#[test]
fn to_print_pads_and_dims_header() {
    let table = Table::new(
        vec![col("NAME"), col("AGE")],
        vec![row(vec!["pod-one", "3h"]), row(vec!["p", "10m"])],
    )
    .unwrap();

    let expected = "\u{1b}[90mNAME   \u{1b}[0m   \u{1b}[90mAGE\u{1b}[0m\npod-one   3h \np         10m";
    assert_eq!(table.to_print(), expected);
}

#[test]
fn to_print_skips_non_default_priority_columns() {
    let mut hidden = col("HIDDEN");
    hidden.priority = 1;
    let table = Table::new(
        vec![col("NAME"), hidden],
        vec![row(vec!["x", "secret"])],
    )
    .unwrap();

    assert_eq!(table.to_print(), "\u{1b}[90mNAME\u{1b}[0m\nx   ");
}

#[test]
fn value_projections() {
    assert_eq!(Value::Null.to_string(), "Null");
    assert_eq!(Value::Bool(true).to_string(), "True");
    assert_eq!(Value::Bool(false).to_string(), "False");
    assert_eq!(Value::Number("42".to_string()).to_string(), "42");
    assert_eq!(Value::Str("abc".to_string()).to_string(), "abc");
    assert_eq!(Value::Str("abc".to_string()).as_str(), Some("abc"));
    assert_eq!(Value::Null.as_str(), None);
}

#[test]
fn kube_table_rejects_misaligned_rows() {
    let header = vec!["KIND".to_string(), "NAME".to_string(), "AGE".to_string()];
    assert!(KubeTable::new(header.clone(), vec![vec!["a".to_string()]]).is_none());

    let mut t = KubeTable::new(header, Vec::new()).unwrap();
    let good = vec![vec!["Pod".to_string(), "p".to_string(), "1h".to_string()]];
    assert!(t.update_rows(good));
    assert_eq!(t.rows().len(), 1);
    assert!(!t.update_rows(vec![vec!["too-short".to_string()]]));
    assert_eq!(t.rows().len(), 1);
}
