use course_init::course::{Course, LoadError};
use course_init::deploy::DeployState;
use course_init::digits::{parse_id, push_decimal};
use course_init::overlay::{overlay_for, render_overlay, service_blocks, ServiceBlock};
use course_init::plan::{check_replicas, plan_overlay, InitError};
use course_init::table::parse_table;

fn block(i: usize, id: u32) -> String {
    format!(
        "  video-recorder{i}:\n    container_name: video-recorder{i}\n    environment:\n      - EMAIL=${{EMAIL}}\n      - PASSWORD=${{PASSWORD}}\n      - VIDEO_TO_RECORD_ID={id}\n    extends:\n      service: video-recorder\n      file: common-services.yaml\n"
    )
}

#[test]
fn two_courses_two_replicas() {
    let doc = plan_overlay(b"id\n101\n205\n", 2).unwrap();
    let expected = format!("services:\n{}{}", block(1, 101), block(2, 205));
    assert_eq!(doc, expected);
    let mut state = DeployState::start();
    let mut runs = 0;
    while !state.is_finished() {
        assert!(!state.command().is_empty());
        state = state.after(true);
        runs += 1;
    }
    assert_eq!(runs, 2);
    assert!(state.succeeded());
}

#[test]
fn two_courses_three_replicas() {
    assert_eq!(
        plan_overlay(b"id\n101\n205\n", 3),
        Err(InitError::ReplicaMismatch { requested: 3, found: 2 })
    );
}

#[test]
fn fewer_replicas_than_courses() {
    assert_eq!(
        plan_overlay(b"id\n101\n205\n", 1),
        Err(InitError::ReplicaMismatch { requested: 1, found: 2 })
    );
}

#[test]
fn header_only_with_zero_replicas() {
    assert_eq!(plan_overlay(b"id\n", 0).unwrap(), "services:\n");
}

#[test]
fn empty_file_with_zero_replicas() {
    assert_eq!(plan_overlay(b"", 0).unwrap(), "services:\n");
}

#[test]
fn header_only_with_one_replica() {
    assert_eq!(
        plan_overlay(b"id\n", 1),
        Err(InitError::ReplicaMismatch { requested: 1, found: 0 })
    );
}

#[test]
fn non_numeric_id_fails_to_load() {
    assert_eq!(
        plan_overlay(b"id\n101\nabc\n", 2),
        Err(InitError::Load(LoadError::InvalidId { row: 1 }))
    );
}

#[test]
fn first_bad_row_is_reported() {
    assert_eq!(
        Course::from_csv(b"id\nx\n7\ny\n"),
        Err(LoadError::InvalidId { row: 0 })
    );
}

#[test]
fn same_input_same_document() {
    let text = b"name,id\nalgebra,3\ncalculus,1\n";
    let a = plan_overlay(text, 2).unwrap();
    let b = plan_overlay(text, 2).unwrap();
    assert_eq!(a, b);
}

#[test]
fn blocks_follow_row_order() {
    let courses = Course::from_csv(b"id\n9\n4\n7\n").unwrap();
    assert_eq!(courses, vec![Course { id: 9 }, Course { id: 4 }, Course { id: 7 }]);
    let bs = service_blocks(&courses);
    assert_eq!(
        bs,
        vec![
            ServiceBlock { index: 1, course_id: 9 },
            ServiceBlock { index: 2, course_id: 4 },
            ServiceBlock { index: 3, course_id: 7 },
        ]
    );
    let doc = render_overlay(&bs);
    assert_eq!(doc, format!("services:\n{}{}{}", block(1, 9), block(2, 4), block(3, 7)));
    assert_eq!(overlay_for(&courses), doc);
}

#[test]
fn eleven_blocks_are_numbered_to_eleven() {
    let courses: Vec<Course> = (0..11).map(|i| Course { id: 100 + i }).collect();
    let doc = overlay_for(&courses);
    assert_eq!(doc.matches("container_name:").count(), 11);
    assert!(doc.contains("  video-recorder10:\n"));
    assert!(doc.contains("  video-recorder11:\n"));
    assert!(doc.contains("VIDEO_TO_RECORD_ID=110\n"));
}

#[test]
fn other_columns_are_ignored() {
    assert_eq!(
        Course::from_csv(b"title,id,teacher\nalgebra,12,smith\n"),
        Ok(vec![Course { id: 12 }])
    );
}

#[test]
fn missing_id_column() {
    assert_eq!(Course::from_csv(b"name\nalgebra\n"), Err(LoadError::MissingIdColumn));
}

#[test]
fn missing_id_column_without_rows() {
    assert_eq!(Course::from_csv(b"name\n"), Ok(vec![]));
}

#[test]
fn duplicate_id_column() {
    assert_eq!(Course::from_csv(b"id,id\n1,2\n"), Err(LoadError::DuplicateIdColumn));
}

#[test]
fn rows_of_unequal_length_are_malformed() {
    assert_eq!(Course::from_csv(b"id,name\n1\n"), Err(LoadError::Malformed));
}

#[test]
fn invalid_utf8_is_malformed() {
    assert_eq!(Course::from_csv(b"id\n\xff\n"), Err(LoadError::Malformed));
}

#[test]
fn quoted_fields_are_read() {
    assert_eq!(
        Course::from_csv(b"\"id\",name\n\"42\",\"a, b\"\n"),
        Ok(vec![Course { id: 42 }])
    );
}

#[test]
fn table_reader_splits_header_and_rows() {
    let t = parse_table(b"id,name\n1,a\n2,b\n").unwrap();
    assert_eq!(t.header, vec!["id".to_string(), "name".to_string()]);
    assert_eq!(
        t.rows,
        vec![
            vec!["1".to_string(), "a".to_string()],
            vec!["2".to_string(), "b".to_string()],
        ]
    );
    assert!(parse_table(b"a,b\n1\n").is_none());
}

#[test]
fn id_numerals() {
    assert_eq!(parse_id("101"), Some(101));
    assert_eq!(parse_id("0"), Some(0));
    assert_eq!(parse_id("+7"), Some(7));
    assert_eq!(parse_id("0x1F"), Some(31));
    assert_eq!(parse_id("0xff"), Some(255));
    assert_eq!(parse_id("4294967295"), Some(u32::MAX));
    assert_eq!(parse_id("0xFFFFFFFF"), Some(u32::MAX));
    assert_eq!(parse_id("007"), Some(7));
}

#[test]
fn rejected_id_numerals() {
    assert_eq!(parse_id(""), None);
    assert_eq!(parse_id("+"), None);
    assert_eq!(parse_id("-1"), None);
    assert_eq!(parse_id(" 5"), None);
    assert_eq!(parse_id("5 "), None);
    assert_eq!(parse_id("4294967296"), None);
    assert_eq!(parse_id("0x100000000"), None);
    assert_eq!(parse_id("0x"), None);
    assert_eq!(parse_id("0X1F"), None);
    assert_eq!(parse_id("1F"), None);
    assert_eq!(parse_id("1.5"), None);
}

#[test]
fn decimal_numerals() {
    let mut s = String::from("n=");
    push_decimal(&mut s, 0);
    assert_eq!(s, "n=0");
    let mut t = String::new();
    push_decimal(&mut t, 1234567890);
    assert_eq!(t, "1234567890");
    let mut u = String::new();
    push_decimal(&mut u, u64::MAX);
    assert_eq!(u, "18446744073709551615");
}

#[test]
fn replica_check() {
    assert_eq!(check_replicas(2, 2), Ok(()));
    assert_eq!(check_replicas(0, 0), Ok(()));
    assert_eq!(
        check_replicas(3, 2),
        Err(InitError::ReplicaMismatch { requested: 3, found: 2 })
    );
}

#[test]
fn deploy_commands() {
    let s = DeployState::start();
    assert_eq!(s, DeployState::TearingDown);
    assert_eq!(s.command(), vec!["compose".to_string(), "down".to_string()]);
    let s = s.after(true);
    assert_eq!(s, DeployState::BringingUp);
    assert_eq!(
        s.command(),
        vec!["compose".to_string(), "up".to_string(), "--build".to_string(), "-d".to_string()]
    );
    let s = s.after(true);
    assert_eq!(s, DeployState::Deployed);
    assert!(s.is_finished());
    assert!(s.command().is_empty());
}

#[test]
fn teardown_failure_stops_deploy() {
    let s = DeployState::start().after(false);
    assert_eq!(s, DeployState::TearDownFailed);
    assert!(s.is_finished());
    assert!(!s.succeeded());
    assert_eq!(s.after(true), DeployState::TearDownFailed);
}

#[test]
fn bring_up_failure_stops_deploy() {
    let s = DeployState::start().after(true).after(false);
    assert_eq!(s, DeployState::BringUpFailed);
    assert!(s.is_finished());
    assert!(!s.succeeded());
}
