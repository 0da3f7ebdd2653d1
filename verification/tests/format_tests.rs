use ydclient::disk_types::{
    format_resource_line, format_resource_report, format_resource_summary, Exif, Resource,
    ResourceList,
};
use ydclient::records::MountStatus;
use ydclient::textfmt::{bool_str, i64_to_string, pad_left, pad_right, u64_to_string};

fn resource(kind: &str, name: &str, media: &str, created: &str, modified: &str) -> Resource {
    Resource {
        antivirus_status: String::new(),
        resource_id: String::new(),
        file: String::from("https://dl/x"),
        size: 42,
        photoslice_time: String::new(),
        _embedded: ResourceList::default(),
        exif: Exif { date_time: String::new() },
        media_type: String::from(media),
        preview: String::new(),
        kind: String::from(kind),
        mime_type: String::new(),
        revision: 0,
        public_url: String::new(),
        path: String::from("disk:/x"),
        md5: String::new(),
        public_key: String::new(),
        sha256: String::new(),
        name: String::from(name),
        created: String::from(created),
        modified: String::from(modified),
    }
}

#[test]
fn numbers_render_in_decimal() {
    assert_eq!(u64_to_string(0), "0");
    assert_eq!(u64_to_string(7), "7");
    assert_eq!(u64_to_string(105), "105");
    assert_eq!(u64_to_string(u64::MAX), "18446744073709551615");
    assert_eq!(i64_to_string(0), "0");
    assert_eq!(i64_to_string(-1), "-1");
    assert_eq!(i64_to_string(i64::MIN), "-9223372036854775808");
    assert_eq!(i64_to_string(i64::MAX), "9223372036854775807");
}

#[test]
fn padding_left_and_right() {
    assert_eq!(pad_left("7", 6), "     7");
    assert_eq!(pad_left("1234567", 6), "1234567");
    assert_eq!(pad_right("ab", 5), "ab   ");
    assert_eq!(pad_right("abcdef", 5), "abcdef");
    assert_eq!(bool_str(true), "true");
    assert_eq!(bool_str(false), "false");
}

#[test]
fn status_report_matches_the_reference_layout() {
    let status = MountStatus { total_entries: 7, directories: 2, files: 5, files_wo_md5: 3 };
    let expected = "\n        Total entries:      7\n          Directories:      2\n                Files:      5\nFiles without digiest:      3";
    assert_eq!(status.render(), expected);
}

#[test]
fn resource_line_matches_the_reference_layout() {
    let r = resource("file", "a.txt", "document", "2020", "2021");
    assert_eq!(
        format_resource_line(&r),
        " \u{21b3} (file) a.txt                          Type: document CTime: 2020 MTime: 2021"
    );
}

#[test]
fn resource_report_joins_lines() {
    let a = resource("file", "a", "m", "c", "d");
    let b = resource("dir", "b", "m", "c", "d");
    let report = format_resource_report(&vec![a, b]);
    let lines: Vec<&str> = report.split('\n').collect();
    assert_eq!(lines.len(), 2);
    assert!(lines[0].starts_with(" \u{21b3} (file) a"));
    assert!(lines[1].starts_with(" \u{21b3} (dir) b"));
    assert_eq!(format_resource_report(&vec![]), "");
}

#[test]
fn resource_summary_lists_the_four_fields() {
    let r = resource("file", "a.txt", "document", "2020", "2021");
    assert_eq!(
        format_resource_summary(&r),
        "Name: a.txt\nPath: disk:/x\nFile: https://dl/x\nSize: 42"
    );
}

#[test]
fn resource_list_default_is_uninitialized() {
    let d = ResourceList::default();
    assert_eq!(d.sort, "_Uninitialized");
    assert_eq!(d.path, "_Uninitialized");
    assert!(d.items.is_empty());
    assert_eq!(d.limit, 0);
    assert_eq!(d.offset, 0);
    assert_eq!(d.total, 0);
}
