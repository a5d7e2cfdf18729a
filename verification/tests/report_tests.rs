use finspect::report::{build_report_block, format_local_timestamp, format_timestamp, tail_after_char};
use finspect::App;

#[test]
fn timestamp_layout_is_zero_padded() {
    assert_eq!(format_timestamp(5, 7, 26, 9, 5), "05/07/26 09:05");
    assert_eq!(format_timestamp(12, 31, 99, 23, 59), "12/31/99 23:59");
    assert_eq!(format_timestamp(1, 1, 0, 0, 0), "01/01/00 00:00");
}

#[test]
fn tail_after_char_extracts_basename_and_extension() {
    assert_eq!(tail_after_char("dir/sub/name.txt", '/'), "name.txt");
    assert_eq!(tail_after_char("name.txt", '/'), "name.txt");
    assert_eq!(tail_after_char("dir/", '/'), "");
    assert_eq!(tail_after_char("name.txt", '.'), "txt");
    assert_eq!(tail_after_char("archive.tar.gz", '.'), "gz");
    assert_eq!(tail_after_char("noext", '.'), "noext");
    assert_eq!(tail_after_char("", '/'), "");
}

#[test]
fn report_block_layout_is_fixed() {
    let block = build_report_block("file.txt", 2048, 0o644, "01/02/03 04:05");
    let expected = "########## File: file.txt ##########\n\
                    Size: 2.0K\n\
                    Permissions: rw-r--r--\n\
                    Date Modified: 01/02/03 04:05\n\
                    ################################\n";
    assert_eq!(block, expected);
}

#[test]
fn report_block_for_two_kilobyte_file() {
    let block = build_report_block("data.bin", 2048, 0o644, "01/02/03 04:05");
    assert!(block.contains("Size: 2.0K"));
    assert!(block.contains("Permissions: rw-r--r--"));
}

#[test]
fn file_details_uses_basename_and_metadata() {
    let args = vec!["prog".to_string(), "some/dir/data.bin".to_string()];
    let app = App::new(&args).unwrap();
    let block = app.file_details(2048, 0o644, 0).unwrap();
    assert!(block.starts_with("########## File: data.bin ##########\n"));
    assert!(block.contains("Size: 2.0K"));
    assert!(block.contains("Permissions: rw-r--r--"));
    assert!(block.contains("Date Modified: "));
    assert!(block.ends_with("################################\n"));
    assert_eq!(block.lines().count(), 5);
}

#[test]
fn out_of_range_moment_gives_no_timestamp() {
    assert!(format_local_timestamp(i64::MIN).is_none());
    assert!(format_local_timestamp(i64::MAX).is_none());
}

#[test]
fn ordinary_moment_gives_a_timestamp() {
    let ts = format_local_timestamp(0).unwrap();
    assert_eq!(ts.len(), 14);
    let bytes = ts.as_bytes();
    assert_eq!(bytes[2], b'/');
    assert_eq!(bytes[5], b'/');
    assert_eq!(bytes[8], b' ');
    assert_eq!(bytes[11], b':');
}
