use equipment_inventory::datetime::{period_holds, MyDatetime};
use equipment_inventory::error::ErrorKind;
use equipment_inventory::model::{interval_holds, DeviceInfo, DeviceStatus};
use equipment_inventory::table::{paginate, position};
use equipment_inventory::text::{chars_of, contains, same_text};

fn row(id: i32) -> DeviceInfo {
    DeviceInfo {
        id,
        name: format!("n{}", id),
        model: String::new(),
        maintain_interval: id,
        create_at: MyDatetime(0),
        update_at: MyDatetime(0),
    }
}

#[test]
fn a_form_value_is_read_as_seconds() {
    assert_eq!(MyDatetime::from_form_value("2020-01-31 23:59:59"), Ok(MyDatetime(1580515199)));
    assert_eq!(MyDatetime::from_form_value("1970-01-01 00:00:00"), Ok(MyDatetime(0)));
    assert_eq!(MyDatetime::from_form_value("1969-12-31 23:59:59"), Ok(MyDatetime(-1)));
}

#[test]
fn a_bad_form_value_is_an_invalid_argument() {
    for text in ["", "2020-01-31", "2020-01-31T23:59:59", "2020-13-01 00:00:00", "2020-01-31 24:00:00", "yesterday"] {
        assert_eq!(MyDatetime::from_form_value(text).unwrap_err().kind, ErrorKind::InvalidArgument);
    }
}

#[test]
fn a_parsed_time_is_taken_as_it_is() {
    assert_eq!(MyDatetime::from_parsed(Ok(5)), Ok(MyDatetime(5)));
    assert_eq!(MyDatetime::from_parsed(Ok(-7)), Ok(MyDatetime(-7)));
    let refused = chrono::NaiveDateTime::parse_from_str("x", "%Y-%m-%d %H:%M:%S").unwrap_err();
    assert_eq!(MyDatetime::from_parsed(Err(refused)).unwrap_err().kind, ErrorKind::InvalidArgument);
}

#[test]
fn periods_are_half_open_and_skip_absent_times() {
    let t = MyDatetime(50);
    assert!(t.within(&Some(MyDatetime(50)), &Some(MyDatetime(51))));
    assert!(!t.within(&Some(MyDatetime(50)), &Some(MyDatetime(50))));
    assert!(!t.within(&Some(MyDatetime(51)), &None));
    assert!(t.within(&None, &None));
    assert!(period_holds(&None, &None, &None));
    assert!(!period_holds(&None, &Some(MyDatetime(0)), &None));
    assert!(!period_holds(&None, &None, &Some(MyDatetime(0))));
    assert!(period_holds(&Some(t), &None, &Some(MyDatetime(51))));
}

#[test]
fn a_status_is_read_from_its_name() {
    assert_eq!(DeviceStatus::from_form_value("Running"), Ok(DeviceStatus::Running));
    assert_eq!(DeviceStatus::from_form_value("Stopped"), Ok(DeviceStatus::Stopped));
    assert_eq!(DeviceStatus::from_form_value("Breakdown"), Ok(DeviceStatus::Breakdown));
    assert_eq!(DeviceStatus::from_form_value("running").unwrap_err().kind, ErrorKind::InvalidArgument);
    assert_eq!(DeviceStatus::from_form_value("").unwrap_err().kind, ErrorKind::InvalidArgument);
    for s in [DeviceStatus::Running, DeviceStatus::Stopped, DeviceStatus::Breakdown] {
        assert_eq!(DeviceStatus::from_form_value(s.as_text()), Ok(s));
    }
    assert_eq!(DeviceStatus::Breakdown.as_text(), "Breakdown");
}

#[test]
fn contains_is_case_sensitive_and_counts_characters() {
    assert!(contains("hydraulic pump", "pump"));
    assert!(contains("hydraulic pump", "hydraulic pump"));
    assert!(contains("hydraulic pump", ""));
    assert!(contains("", ""));
    assert!(!contains("", "a"));
    assert!(!contains("hydraulic pump", "Pump"));
    assert!(!contains("pump", "pumps"));
    assert!(contains("泵 α-β", "α-"));
    assert!(!contains("泵 α-β", "β-"));
    assert!(contains("aab", "ab"));
    assert!(same_text("α-β", "α-β"));
    assert!(!same_text("ab", "abc"));
    assert!(!same_text("abc", "abd"));
    assert_eq!(chars_of("aβc"), vec!['a', 'β', 'c']);
}

#[test]
fn the_interval_test_is_half_open() {
    assert!(interval_holds(10, &Some(10), &Some(20)));
    assert!(interval_holds(19, &Some(10), &Some(20)));
    assert!(!interval_holds(20, &Some(10), &Some(20)));
    assert!(!interval_holds(9, &Some(10), &Some(20)));
    assert!(interval_holds(i32::MIN, &None, &None));
    assert!(interval_holds(i32::MAX, &Some(i32::MAX), &None));
    assert!(!interval_holds(i32::MAX, &None, &Some(i32::MAX)));
}

#[test]
fn a_page_starts_at_page_minus_one_times_size() {
    let rows: Vec<DeviceInfo> = (1..=10).map(row).collect();
    let ids = |page: i64, size: i64| paginate(&rows, page, size).unwrap().iter().map(|r| r.id).collect::<Vec<_>>();
    assert_eq!(ids(1, 4), vec![1, 2, 3, 4]);
    assert_eq!(ids(2, 4), vec![5, 6, 7, 8]);
    assert_eq!(ids(3, 4), vec![9, 10]);
    assert_eq!(ids(4, 4), Vec::<i32>::new());
    assert_eq!(ids(3, 5), Vec::<i32>::new());
    assert_eq!(ids(10, 1), vec![10]);
    assert_eq!(ids(1, i64::MAX), (1..=10).collect::<Vec<_>>());
    assert_eq!(ids(2, i64::MAX), Vec::<i32>::new());
    assert_eq!(paginate(&rows, 0, 4).unwrap_err().kind, ErrorKind::InvalidArgument);
    assert_eq!(paginate(&rows, 1, 0).unwrap_err().kind, ErrorKind::InvalidArgument);
}

#[test]
fn position_finds_a_key() {
    let rows: Vec<DeviceInfo> = vec![row(2), row(5), row(9)];
    assert_eq!(position(&rows, 5), Some(1));
    assert_eq!(position(&rows, 9), Some(2));
    assert_eq!(position(&rows, 3), None);
}
