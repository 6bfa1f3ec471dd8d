use metasort::exif::ExifFields;

const REPORT: &str = "Date/Time Original              : 2021:05:06 07:08:09\r\nMIME Type                       : image/jpeg\nImage Size                      : 4032x3024\nFile Type                       : JPEG\n";

#[test]
fn a_report_is_read_field_by_field() {
    let fields = ExifFields::from_report(REPORT);
    assert_eq!(fields.date, "2021:05:06 07:08:09");
    assert_eq!(fields.mime_type, "image/jpeg");
    assert_eq!(fields.image_size, "4032x3024");
    assert_eq!(fields.file_type, "JPEG");
}

#[test]
fn the_last_line_about_a_field_counts() {
    let fields = ExifFields::from_report("MIME Type: a\nMIME Type: b\nother: c\n");
    assert_eq!(fields.mime_type, "b");
    assert_eq!(fields.date, "");
    let emptied = ExifFields::from_report("Date/Time Original: x\nDate/Time Original:\n");
    assert_eq!(emptied.date, "");
}

#[test]
fn the_first_label_decides_what_a_line_is_about() {
    let fields = ExifFields::from_report("File Type of MIME Type: x\nImage Size Date/Time Original: y");
    assert_eq!(fields.mime_type, "x");
    assert_eq!(fields.file_type, "");
    assert_eq!(fields.date, "y");
    assert_eq!(fields.image_size, "");
}

#[test]
fn output_that_is_not_unicode_is_read_as_far_as_it_goes() {
    let mut bytes = b"File Type: J".to_vec();
    bytes.push(0xff);
    bytes.extend_from_slice(b"G\n");
    let fields = ExifFields::from_output(&Some(bytes));
    assert_eq!(fields.file_type, "J\u{fffd}G");
}

#[test]
fn a_program_that_was_not_run_says_nothing() {
    let fields = ExifFields::from_output(&None);
    assert_eq!(fields.date, "");
    assert_eq!(fields.mime_type, "");
    assert_eq!(fields.image_size, "");
    assert_eq!(fields.file_type, "");
    let read = ExifFields::from_output(&Some(REPORT.as_bytes().to_vec()));
    assert_eq!(read.date, "2021:05:06 07:08:09");
}
