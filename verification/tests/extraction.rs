use exif_rename::extract::{FileStat, Property};
use exif_rename::fields::{ExifField, ExifValue, TagContext};
use exif_rename::mode::Mode;
use exif_rename::paths::SourcePath;
use exif_rename::run::{App, IndexCounter, Settings};
use exif_rename::timestamp::Timestamp;
use exif_rename::value::{PropertyValue, SinceEpoch};

fn settings() -> Settings {
    Settings {
        destination: "{{SysPath}}/{{SysName}}_{{SysIdx}}{{SysDotExt}}".to_string(),
        mode: Mode::Move,
        timestamp_format: "%Y%m%d_%H%M%S".to_string(),
        verbose: false,
        dry_run: false,
        force: false,
        delete_empty_dirs: false,
        force_absolute_symlinks: false,
        max_display_len: 100,
        idx_start: 0,
        idx_width: 6,
        invalid_characters: "[^\\w\\+\\-]+".to_string(),
        replacement: "_".to_string(),
    }
}

fn app() -> App {
    App::new(settings(), Timestamp { secs: 946_684_800, nanos: 0 }, "/work".to_string())
        .expect("the default settings are valid")
}

fn path(parts: &[&str]) -> SourcePath {
    SourcePath::new(parts.iter().map(|p| p.to_string()).collect())
}

fn p(key: &str, value: PropertyValue) -> Property {
    Property { key: key.to_string(), value }
}

fn pp(key: &str, text: &str) -> Property {
    p(key, PropertyValue::Path(text.to_string()))
}

fn keys(props: &[Property]) -> Vec<String> {
    props.iter().map(|p| p.key.clone()).collect()
}

fn field(name: &str, context: TagContext, number: u16, ifd: u16, value: ExifValue) -> ExifField {
    ExifField { name: name.to_string(), context, number, ifd, value }
}

#[test]
fn path_properties_of_an_absolute_file() {
    let props = app().extract_properties(&path(&["/", "in", "IMG_1.JPG"]), None, None, None);
    let expected = vec![
        p("SysDateTimeNow", PropertyValue::Timestamp(Timestamp { secs: 946_684_800, nanos: 0 })),
        pp("SysCwd", "/work"),
        pp("SysExt", "JPG"),
        pp("SysDotExt", ".JPG"),
        pp("SysName", "IMG_1"),
        pp("SysFullName", "IMG_1.JPG"),
        pp("SysPath", "/in"),
        pp("SysPathElem0", "/"),
        pp("SysPathAncestor2", "/"),
        pp("SysPathHead0", "/"),
        pp("SysPathElem1", "in"),
        pp("SysPathAncestor1", "/in"),
        pp("SysPathHead1", "/in"),
        pp("SysPathElem2", "IMG_1.JPG"),
        pp("SysPathAncestor0", "/in/IMG_1.JPG"),
        pp("SysPathHead2", "/in/IMG_1.JPG"),
        pp("SysPathTail0", "/in"),
        pp("SysPathTail1", "in"),
    ];
    assert_eq!(props, expected);
}

#[test]
fn path_properties_of_a_bare_name() {
    let props = app().extract_properties(&path(&["notes"]), None, None, None);
    let expected = vec![
        p("SysDateTimeNow", PropertyValue::Timestamp(Timestamp { secs: 946_684_800, nanos: 0 })),
        pp("SysCwd", "/work"),
        p("SysExt", PropertyValue::Nothing),
        p("SysDotExt", PropertyValue::Nothing),
        pp("SysName", "notes"),
        pp("SysFullName", "notes"),
        pp("SysPath", ""),
        pp("SysPathElem0", "notes"),
        pp("SysPathAncestor0", "notes"),
        pp("SysPathHead0", "notes"),
    ];
    assert_eq!(props, expected);
}

#[test]
fn path_properties_of_the_root() {
    let props = app().extract_properties(&path(&["/"]), None, None, None);
    let expected = vec![
        p("SysDateTimeNow", PropertyValue::Timestamp(Timestamp { secs: 946_684_800, nanos: 0 })),
        pp("SysCwd", "/work"),
        p("SysExt", PropertyValue::Nothing),
        p("SysDotExt", PropertyValue::Nothing),
        p("SysName", PropertyValue::Nothing),
        p("SysFullName", PropertyValue::Nothing),
        p("SysPath", PropertyValue::Nothing),
        pp("SysPathElem0", "/"),
        pp("SysPathAncestor0", "/"),
        pp("SysPathHead0", "/"),
    ];
    assert_eq!(props, expected);
}

#[test]
fn file_without_exif_has_every_synthetic_key() {
    let stat = FileStat {
        created: Some(SinceEpoch { secs: 1_000_000_000, nanos: 0 }),
        modified: Some(SinceEpoch { secs: 1_000_000_001, nanos: 0 }),
        accessed: None,
        size: 3,
    };
    let content = b"abc".to_vec();
    let props =
        app().extract_properties(&path(&["in", "a.txt"]), Some(stat), Some(&content), None);
    let found = keys(&props);
    for key in [
        "SysDateTimeNow",
        "SysCwd",
        "SysExt",
        "SysDotExt",
        "SysName",
        "SysFullName",
        "SysPath",
        "SysPathElem0",
        "SysPathElem1",
        "SysPathAncestor0",
        "SysPathAncestor1",
        "SysPathHead0",
        "SysPathHead1",
        "SysPathTail0",
        "SysDateTimeCreated",
        "SysDateTimeModified",
        "SysDateTimeAccessed",
        "SysSize",
        "SysSha1",
    ] {
        assert!(found.contains(&key.to_string()), "{} is missing", key);
    }
    assert_eq!(found.len(), 19);
    let tail = &props[14..];
    assert_eq!(
        tail,
        &[
            p(
                "SysDateTimeCreated",
                PropertyValue::Timestamp(Timestamp { secs: 1_000_000_000, nanos: 0 })
            ),
            p(
                "SysDateTimeModified",
                PropertyValue::Timestamp(Timestamp { secs: 1_000_000_001, nanos: 0 })
            ),
            p("SysDateTimeAccessed", PropertyValue::Nothing),
            p("SysSize", PropertyValue::Integer(3)),
            p(
                "SysSha1",
                PropertyValue::Text("a9993e364706816aba3e25717850c26c9cd0d89d".to_string())
            ),
        ]
    );
}

#[test]
fn groups_degrade_on_their_own() {
    let src = path(&["a.txt"]);
    let content = b"abc".to_vec();
    let stat = FileStat { created: None, modified: None, accessed: None, size: u64::MAX };
    let bare = app().extract_properties(&src, None, None, None);
    let hashed = app().extract_properties(&src, None, Some(&content), None);
    let stated = app().extract_properties(&src, Some(stat), None, None);
    assert_eq!(hashed.len(), bare.len() + 1);
    assert_eq!(hashed[..bare.len()], bare[..]);
    assert_eq!(hashed[bare.len()].key, "SysSha1");
    assert_eq!(stated.len(), bare.len() + 4);
    assert_eq!(stated[..bare.len()], bare[..]);
    assert_eq!(stated[bare.len() + 3], p("SysSize", PropertyValue::Integer(i64::MAX)));
    let empty: Vec<ExifField> = Vec::new();
    let no_fields = app().extract_properties(&src, None, None, Some(&empty));
    assert_eq!(no_fields, bare);
}

#[test]
fn exif_kinds_become_values() {
    let fields = vec![
        field("Orientation", TagContext::Tiff, 0x112, 0, ExifValue::Short(vec![6, 1])),
        field("A", TagContext::Exif, 1, 0, ExifValue::Byte(vec![200])),
        field("B", TagContext::Exif, 2, 0, ExifValue::Long(vec![4_000_000_000])),
        field("C", TagContext::Exif, 3, 0, ExifValue::SByte(vec![-5])),
        field("D", TagContext::Exif, 4, 0, ExifValue::SShort(vec![-300])),
        field("E", TagContext::Exif, 5, 0, ExifValue::SLong(vec![-70_000])),
        field("F", TagContext::Exif, 6, 0, ExifValue::Rational(vec![(10, 20), (1, 2)])),
        field("G", TagContext::Exif, 7, 0, ExifValue::SRational(vec![(-1, 3)])),
        field("H", TagContext::Exif, 8, 0, ExifValue::Float(vec!["1.5".to_string()])),
        field("I", TagContext::Exif, 9, 0, ExifValue::Double(vec!["2.25".to_string()])),
        field("J", TagContext::Exif, 10, 0, ExifValue::Undefined("0231".to_string())),
        field("K", TagContext::Exif, 11, 0, ExifValue::Unknown),
        field("Make", TagContext::Tiff, 0x10f, 0, ExifValue::Ascii(vec![b"Canon".to_vec()])),
        field("L", TagContext::Exif, 12, 0, ExifValue::Short(vec![])),
        field("M", TagContext::Exif, 13, 0, ExifValue::Ascii(vec![])),
        field("N", TagContext::Exif, 14, 0, ExifValue::Ascii(vec![vec![0xff, 0xfe]])),
        field("O", TagContext::Exif, 15, 0, ExifValue::Rational(vec![])),
        field("P", TagContext::Exif, 16, 0, ExifValue::Double(vec![])),
    ];
    let values: Vec<PropertyValue> = fields.iter().map(|f| f.property_value()).collect();
    assert_eq!(
        values,
        vec![
            PropertyValue::Integer(6),
            PropertyValue::Integer(200),
            PropertyValue::Integer(4_000_000_000),
            PropertyValue::Integer(-5),
            PropertyValue::Integer(-300),
            PropertyValue::Integer(-70_000),
            PropertyValue::Fraction(10, 20),
            PropertyValue::Fraction(-1, 3),
            PropertyValue::Real("1.5".to_string()),
            PropertyValue::Real("2.25".to_string()),
            PropertyValue::Text("0231".to_string()),
            PropertyValue::Nothing,
            PropertyValue::Text("Canon".to_string()),
            PropertyValue::Nothing,
            PropertyValue::Nothing,
            PropertyValue::Nothing,
            PropertyValue::Nothing,
            PropertyValue::Nothing,
        ]
    );
}

#[test]
fn date_time_tags_are_parsed() {
    let text = ExifValue::Ascii(vec![b"2000:01:01 00:00:00".to_vec()]);
    let at = PropertyValue::Timestamp(Timestamp { secs: 946_684_800, nanos: 0 });
    let as_text = PropertyValue::Text("2000:01:01 00:00:00".to_string());
    let changed = field("DateTime", TagContext::Tiff, 0x132, 0, text.clone());
    let taken = field("DateTimeOriginal", TagContext::Exif, 0x9003, 0, text.clone());
    let digitized = field("DateTimeDigitized", TagContext::Exif, 0x9004, 0, text.clone());
    let other_group = field("X", TagContext::Gps, 0x132, 0, text.clone());
    let other_number = field("Y", TagContext::Exif, 0x132, 0, text.clone());
    assert!(changed.is_date_time());
    assert!(taken.is_date_time());
    assert!(digitized.is_date_time());
    assert!(!other_group.is_date_time());
    assert!(!other_number.is_date_time());
    assert_eq!(changed.property_value(), at);
    assert_eq!(taken.property_value(), at);
    assert_eq!(digitized.property_value(), at);
    assert_eq!(other_group.property_value(), as_text);
    assert_eq!(other_number.property_value(), as_text);
    let broken = field(
        "DateTime",
        TagContext::Tiff,
        0x132,
        0,
        ExifValue::Ascii(vec![b"0000:00:00 00:00:00".to_vec()]),
    );
    assert_eq!(broken.property_value(), PropertyValue::Text("0000:00:00 00:00:00".to_string()));
}

#[test]
fn exif_keys_are_sanitized_and_marked() {
    let fields = vec![
        field("Make", TagContext::Tiff, 0x10f, 0, ExifValue::Ascii(vec![b"Canon".to_vec()])),
        field("Tag(Exif, 59932)", TagContext::Exif, 59932, 0, ExifValue::Short(vec![1])),
        field("Compression", TagContext::Tiff, 0x103, 1, ExifValue::Short(vec![6])),
        field("Make", TagContext::Tiff, 0x10f, 2, ExifValue::Ascii(vec![b"Other".to_vec()])),
    ];
    let src = path(&["x"]);
    let bare = app().extract_properties(&src, None, None, None);
    let props = app().extract_properties(&src, None, None, Some(&fields));
    assert_eq!(props[..bare.len()], bare[..]);
    assert_eq!(
        props[bare.len()..],
        [
            p("Make", PropertyValue::Text("Canon".to_string())),
            p("TagExif59932", PropertyValue::Integer(1)),
            p("TnCompression", PropertyValue::Integer(6)),
            p("Make", PropertyValue::Text("Other".to_string())),
        ]
    );
}

#[test]
fn later_entries_win_in_the_table() {
    let app = app();
    let fields = vec![
        field("Make", TagContext::Tiff, 0x10f, 0, ExifValue::Ascii(vec![b"First one".to_vec()])),
        field("Sys Name", TagContext::Tiff, 1, 0, ExifValue::Ascii(vec![b"from exif".to_vec()])),
        field("Make", TagContext::Tiff, 0x10f, 0, ExifValue::Ascii(vec![b"Second".to_vec()])),
    ];
    let props = app.extract_properties(&path(&["in", "a.txt"]), None, None, Some(&fields));
    let mut counter = IndexCounter::new(41);
    let table = app.apply_matches(&props, &mut counter);
    assert_eq!(counter.value, 42);
    assert_eq!(table.get("Make"), Some("Second".to_string()));
    assert_eq!(table.get("SysName"), Some("from_exif".to_string()));
    assert_eq!(table.get("SysFullName"), Some("a.txt".to_string()));
    assert_eq!(table.get("SysPath"), Some("in".to_string()));
    assert_eq!(table.get("SysIdx"), Some("000041".to_string()));
    assert_eq!(table.get("SysDateTimeNow"), Some("20000101_000000".to_string()));
    assert_eq!(table.get("Missing"), None);
    let rows = table.rows();
    assert_eq!(rows.len(), props.len() - 2 + 1);
    assert!(rows.contains(&("SysName".to_string(), "from_exif".to_string())));
    assert!(rows.contains(&("Make".to_string(), "Second".to_string())));
    assert!(!rows.contains(&("Make".to_string(), "First_one".to_string())));
    let mut keys: Vec<String> = rows.iter().map(|row| row.0.clone()).collect();
    keys.sort();
    keys.dedup();
    assert_eq!(keys.len(), rows.len());
}

#[test]
fn table_is_a_json_object_of_texts() {
    let app = app();
    let props = vec![
        p("B", PropertyValue::Integer(2)),
        p("A", PropertyValue::Text("one".to_string())),
    ];
    let mut counter = IndexCounter::new(0);
    let table = app.apply_matches(&props, &mut counter);
    let json = table.as_json();
    assert_eq!(json.len(), 3);
    assert_eq!(json.get("A"), Some(&serde_json::Value::String("one".to_string())));
    assert_eq!(json.get("B"), Some(&serde_json::Value::String("2".to_string())));
    assert_eq!(json.get("SysIdx"), Some(&serde_json::Value::String("000000".to_string())));
}

#[test]
fn empty_table_has_no_rows() {
    let table = exif_rename::table::PropertyTable::new();
    assert!(table.rows().is_empty());
    assert_eq!(table.get("SysIdx"), None);
    assert!(table.as_json().is_empty());
}

#[test]
fn index_key_cannot_be_taken_over() {
    let app = app();
    let props = vec![p("SysIdx", PropertyValue::Text("mine".to_string()))];
    let mut counter = IndexCounter::new(7);
    let table = app.apply_matches(&props, &mut counter);
    assert_eq!(table.rows(), vec![("SysIdx".to_string(), "000007".to_string())]);
    assert_eq!(table.get("SysIdx"), Some("000007".to_string()));
}

#[test]
fn indices_are_consecutive_across_patterns() {
    let app = app();
    let mut counter = IndexCounter::new(5);
    let mut seen = Vec::new();
    for pattern in [vec!["a", "b", "c"], vec![], vec!["d", "e"]] {
        for name in pattern {
            let props = app.extract_properties(&path(&[name]), None, None, None);
            let table = app.apply_matches(&props, &mut counter);
            seen.push(table.get("SysIdx").expect("an index"));
        }
    }
    assert_eq!(seen, vec!["000005", "000006", "000007", "000008", "000009"]);
    assert_eq!(counter.value, 10);
}

#[test]
fn counter_takes_and_moves_on() {
    let mut counter = IndexCounter::new(3);
    assert_eq!(counter.take(), 3);
    assert_eq!(counter.take(), 4);
    assert_eq!(counter.value, 5);
    assert_eq!(app().counter(), IndexCounter { value: 0 });
}

#[test]
fn index_width_is_a_minimum() {
    let mut s = settings();
    s.idx_width = 2;
    s.idx_start = 998;
    let app = App::new(s, Timestamp { secs: 0, nanos: 0 }, "/".to_string()).expect("valid");
    let mut counter = app.counter();
    let empty: Vec<Property> = Vec::new();
    assert_eq!(app.apply_matches(&empty, &mut counter).get("SysIdx"), Some("998".to_string()));
    assert_eq!(app.apply_matches(&empty, &mut counter).get("SysIdx"), Some("999".to_string()));
    assert_eq!(app.apply_matches(&empty, &mut counter).get("SysIdx"), Some("1000".to_string()));
}

#[test]
fn invalid_settings_are_refused() {
    let mut s = settings();
    s.invalid_characters = "[".to_string();
    match App::new(s, Timestamp { secs: 0, nanos: 0 }, "/".to_string()) {
        Ok(_) => panic!("an open bracket is no pattern"),
        Err(e) => assert_eq!(e.pattern, "["),
    }
}

#[test]
fn cleanup_is_wanted_only_after_moving() {
    for mode in Mode::value_variants() {
        for delete_empty_dirs in [false, true] {
            let mut s = settings();
            s.mode = mode;
            s.delete_empty_dirs = delete_empty_dirs;
            let app = App::new(s, Timestamp { secs: 0, nanos: 0 }, "/".to_string()).expect("valid");
            assert_eq!(app.cleanup_wanted(), mode == Mode::Move && delete_empty_dirs);
        }
    }
}

#[test]
fn template_keeps_the_case_of_the_extension() {
    let app = app();
    let content = b"abc".to_vec();
    let props =
        app.extract_properties(&path(&["/", "in", "IMG_1.JPG"]), None, Some(&content), None);
    let mut counter = app.counter();
    let table = app.apply_matches(&props, &mut counter);
    let mut engine = handlebars::Handlebars::new();
    engine.register_escape_fn(handlebars::no_escape);
    engine
        .register_template_string("destination", "{{SysPath}}/{{SysName}}_{{SysSha1}}.{{SysExt}}")
        .expect("a valid template");
    let rendered = engine.render("destination", table.as_json()).expect("every key is there");
    assert_eq!(rendered, "/in/IMG_1_a9993e364706816aba3e25717850c26c9cd0d89d.JPG");
}
