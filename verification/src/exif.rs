//! Reading the report that ExifTool prints about a file.
use vstd::prelude::*;
use vstd::utf8::encode_utf8;
use crate::outside::text_of_bytes;
use crate::text::{
    after_colon, contains_text, law_encoded_text_is_read_back, lines_of, occurs_in, split_lines,
    text_in, texts, trimmed, value_of_line,
};

verus! {

/// The fields of the report that matter here.
#[derive(Clone, Copy, PartialEq, Eq, Structural, Debug)]
pub enum Field {
    Date,
    MimeType,
    ImageSize,
    FileType,
}

/// What a report says of a file. A field that it does not name is empty.
pub struct ExifFields {
    pub date: String,
    pub mime_type: String,
    pub image_size: String,
    pub file_type: String,
}

/// The texts of [`ExifFields`].
pub struct ExifTexts {
    pub date: Seq<char>,
    pub mime_type: Seq<char>,
    pub image_size: Seq<char>,
    pub file_type: Seq<char>,
}

impl View for ExifFields {
    type V = ExifTexts;

    open spec fn view(&self) -> ExifTexts {
        ExifTexts {
            date: self.date@,
            mime_type: self.mime_type@,
            image_size: self.image_size@,
            file_type: self.file_type@,
        }
    }
}

/// The field that a line is about: the first of the four labels, in this order,
/// that stands in it.
pub open spec fn field_of(line: Seq<char>) -> Option<Field> {
    if occurs_in(line, "Date/Time Original"@) {
        Some(Field::Date)
    } else if occurs_in(line, "MIME Type"@) {
        Some(Field::MimeType)
    } else if occurs_in(line, "Image Size"@) {
        Some(Field::ImageSize)
    } else if occurs_in(line, "File Type"@) {
        Some(Field::FileType)
    } else {
        None
    }
}

/// The value of a field: what the last line about it says behind its first
/// colon. Empty if there is no such line.
pub open spec fn field_value(lines: Seq<Seq<char>>, field: Field) -> Seq<char>
    decreases lines.len(),
{
    if lines.len() == 0 {
        seq![]
    } else if field_of(lines.last()) == Some(field) {
        trimmed(after_colon(lines.last()))
    } else {
        field_value(lines.drop_last(), field)
    }
}

/// What the lines of a report say.
pub open spec fn fields_of_lines(lines: Seq<Seq<char>>) -> ExifTexts {
    ExifTexts {
        date: field_value(lines, Field::Date),
        mime_type: field_value(lines, Field::MimeType),
        image_size: field_value(lines, Field::ImageSize),
        file_type: field_value(lines, Field::FileType),
    }
}

/// What a report says.
pub open spec fn report_fields(text: Seq<char>) -> ExifTexts {
    fields_of_lines(lines_of(text))
}

/// What the output of a run says; nothing if the program could not be run.
pub open spec fn output_fields(output: Option<Seq<u8>>) -> ExifTexts {
    match output {
        Some(bytes) => report_fields(text_in(bytes)),
        None => fields_of_lines(seq![]),
    }
}

/// The view of what a program printed, if it could be run.
pub open spec fn opt_bytes(o: Option<Vec<u8>>) -> Option<Seq<u8>> {
    match o {
        Some(v) => Some(v@),
        None => None,
    }
}

fn label_of(line: &str) -> (field: Option<Field>)
    ensures
        field == field_of(line@),
{
    if contains_text(line, "Date/Time Original") {
        Some(Field::Date)
    } else if contains_text(line, "MIME Type") {
        Some(Field::MimeType)
    } else if contains_text(line, "Image Size") {
        Some(Field::ImageSize)
    } else if contains_text(line, "File Type") {
        Some(Field::FileType)
    } else {
        None
    }
}

impl ExifFields {
    /// A report that names no field.
    pub fn empty() -> (fields: ExifFields)
        ensures
            fields@ == fields_of_lines(seq![]),
    {
        ExifFields {
            date: String::new(),
            mime_type: String::new(),
            image_size: String::new(),
            file_type: String::new(),
        }
    }

    /// Reads a report.
    pub fn from_report(text: &str) -> (fields: ExifFields)
        ensures
            fields@ == report_fields(text@),
    {
        let lines = split_lines(text);
        let ghost all = lines_of(text@);
        let mut fields = ExifFields::empty();
        let mut i: usize = 0;
        assert(all.take(0) =~= seq![]);
        while i < lines.len()
            invariant
                i <= lines.len(),
                all == texts(lines@),
                fields@ == fields_of_lines(all.take(i as int)),
            decreases lines.len() - i,
        {
            let line = lines[i].as_str();
            assert(all[i as int] == line@);
            assert(all.take(i + 1).drop_last() =~= all.take(i as int));
            match label_of(line) {
                Some(Field::Date) => {
                    fields.date = value_of_line(line);
                },
                Some(Field::MimeType) => {
                    fields.mime_type = value_of_line(line);
                },
                Some(Field::ImageSize) => {
                    fields.image_size = value_of_line(line);
                },
                Some(Field::FileType) => {
                    fields.file_type = value_of_line(line);
                },
                None => {},
            }
            i = i + 1;
        }
        assert(all.take(i as int) =~= all);
        fields
    }

    /// Reads what a run of ExifTool printed, if it could be run.
    pub fn from_output(output: &Option<Vec<u8>>) -> (fields: ExifFields)
        ensures
            fields@ == output_fields(opt_bytes(*output)),
    {
        match output {
            Some(bytes) => ExifFields::from_report(text_of_bytes(bytes).as_str()),
            None => ExifFields::empty(),
        }
    }
}

// ---------------------------------------------------------------------------
// Laws
// ---------------------------------------------------------------------------
proof fn lemma_last_line(lines: Seq<Seq<char>>, field: Field, i: int)
    requires
        0 <= i < lines.len(),
        field_of(lines[i]) == Some(field),
        forall|j: int| i < j < lines.len() ==> field_of(#[trigger] lines[j]) != Some(field),
    ensures
        field_value(lines, field) == trimmed(after_colon(lines[i])),
    decreases lines.len(),
{
    if i < lines.len() - 1 {
        assert(field_of(lines[lines.len() - 1]) != Some(field));
        let rest = lines.drop_last();
        assert forall|j: int| i < j < rest.len() implies field_of(#[trigger] rest[j]) != Some(
            field,
        ) by {
            assert(rest[j] == lines[j]);
        }
        lemma_last_line(rest, field, i);
    }
}

proof fn lemma_no_line(lines: Seq<Seq<char>>, field: Field)
    requires
        forall|j: int| 0 <= j < lines.len() ==> field_of(#[trigger] lines[j]) != Some(field),
    ensures
        field_value(lines, field).len() == 0,
    decreases lines.len(),
{
    if lines.len() > 0 {
        assert(field_of(lines[lines.len() - 1]) != Some(field));
        let rest = lines.drop_last();
        assert forall|j: int| 0 <= j < rest.len() implies field_of(#[trigger] rest[j]) != Some(
            field,
        ) by {
            assert(rest[j] == lines[j]);
        }
        lemma_no_line(rest, field);
    }
}

/// The date is what stands behind the first colon of the last line that names the
/// date.
pub proof fn law_date_is_in_its_last_line(text: Seq<char>, i: int)
    requires
        0 <= i < lines_of(text).len(),
        occurs_in(lines_of(text)[i], "Date/Time Original"@),
        forall|j: int|
            i < j < lines_of(text).len() ==> !occurs_in(
                #[trigger] lines_of(text)[j],
                "Date/Time Original"@,
            ),
    ensures
        report_fields(text).date == trimmed(after_colon(lines_of(text)[i])),
{
    lemma_last_line(lines_of(text), Field::Date, i);
}

/// The MIME type is what stands behind the first colon of the last line that names
/// it and not the date.
pub proof fn law_mime_type_is_in_its_last_line(text: Seq<char>, i: int)
    requires
        0 <= i < lines_of(text).len(),
        occurs_in(lines_of(text)[i], "MIME Type"@),
        !occurs_in(lines_of(text)[i], "Date/Time Original"@),
        forall|j: int|
            i < j < lines_of(text).len() ==> !occurs_in(#[trigger] lines_of(text)[j], "MIME Type"@)
                || occurs_in(lines_of(text)[j], "Date/Time Original"@),
    ensures
        report_fields(text).mime_type == trimmed(after_colon(lines_of(text)[i])),
{
    lemma_last_line(lines_of(text), Field::MimeType, i);
}

/// The image size is what stands behind the first colon of the last line that names
/// it and neither the date nor the MIME type.
pub proof fn law_image_size_is_in_its_last_line(text: Seq<char>, i: int)
    requires
        0 <= i < lines_of(text).len(),
        occurs_in(lines_of(text)[i], "Image Size"@),
        !occurs_in(lines_of(text)[i], "Date/Time Original"@),
        !occurs_in(lines_of(text)[i], "MIME Type"@),
        forall|j: int|
            i < j < lines_of(text).len() ==> !occurs_in(#[trigger] lines_of(text)[j], "Image Size"@)
                || occurs_in(lines_of(text)[j], "Date/Time Original"@)
                || occurs_in(lines_of(text)[j], "MIME Type"@),
    ensures
        report_fields(text).image_size == trimmed(after_colon(lines_of(text)[i])),
{
    lemma_last_line(lines_of(text), Field::ImageSize, i);
}

/// The file type is what stands behind the first colon of the last line that names
/// it and none of the other three fields.
pub proof fn law_file_type_is_in_its_last_line(text: Seq<char>, i: int)
    requires
        0 <= i < lines_of(text).len(),
        occurs_in(lines_of(text)[i], "File Type"@),
        !occurs_in(lines_of(text)[i], "Date/Time Original"@),
        !occurs_in(lines_of(text)[i], "MIME Type"@),
        !occurs_in(lines_of(text)[i], "Image Size"@),
        forall|j: int|
            i < j < lines_of(text).len() ==> !occurs_in(#[trigger] lines_of(text)[j], "File Type"@)
                || occurs_in(lines_of(text)[j], "Date/Time Original"@)
                || occurs_in(lines_of(text)[j], "MIME Type"@)
                || occurs_in(lines_of(text)[j], "Image Size"@),
    ensures
        report_fields(text).file_type == trimmed(after_colon(lines_of(text)[i])),
{
    lemma_last_line(lines_of(text), Field::FileType, i);
}

/// What no line is about is empty.
pub proof fn law_fields_that_are_not_named_are_empty(text: Seq<char>)
    ensures
        ({
            let lines = lines_of(text);
            let fields = report_fields(text);
            &&& (forall|i: int|
                    0 <= i < lines.len() ==> !occurs_in(#[trigger] lines[i], "Date/Time Original"@))
                        ==> fields.date == Seq::<char>::empty()
            &&& (forall|i: int|
                    0 <= i < lines.len() ==> !occurs_in(#[trigger] lines[i], "MIME Type"@)
                        || occurs_in(lines[i], "Date/Time Original"@))
                            ==> fields.mime_type == Seq::<char>::empty()
            &&& (forall|i: int|
                    0 <= i < lines.len() ==> !occurs_in(#[trigger] lines[i], "Image Size"@)
                        || occurs_in(lines[i], "Date/Time Original"@)
                        || occurs_in(lines[i], "MIME Type"@))
                            ==> fields.image_size == Seq::<char>::empty()
            &&& (forall|i: int|
                    0 <= i < lines.len() ==> !occurs_in(#[trigger] lines[i], "File Type"@)
                        || occurs_in(lines[i], "Date/Time Original"@)
                        || occurs_in(lines[i], "MIME Type"@)
                        || occurs_in(lines[i], "Image Size"@))
                            ==> fields.file_type == Seq::<char>::empty()
        }),
{
    let lines = lines_of(text);
    let fields = report_fields(text);
    if (forall|i: int|
            0 <= i < lines.len() ==> !occurs_in(#[trigger] lines[i], "Date/Time Original"@)) {
        lemma_no_line(lines, Field::Date);
        assert(fields.date =~= Seq::<char>::empty());
    }
    if (forall|i: int|
            0 <= i < lines.len() ==> !occurs_in(#[trigger] lines[i], "MIME Type"@)
                || occurs_in(lines[i], "Date/Time Original"@)) {
        lemma_no_line(lines, Field::MimeType);
        assert(fields.mime_type =~= Seq::<char>::empty());
    }
    if (forall|i: int|
            0 <= i < lines.len() ==> !occurs_in(#[trigger] lines[i], "Image Size"@)
                || occurs_in(lines[i], "Date/Time Original"@)
                || occurs_in(lines[i], "MIME Type"@)) {
        lemma_no_line(lines, Field::ImageSize);
        assert(fields.image_size =~= Seq::<char>::empty());
    }
    if (forall|i: int|
            0 <= i < lines.len() ==> !occurs_in(#[trigger] lines[i], "File Type"@)
                || occurs_in(lines[i], "Date/Time Original"@)
                || occurs_in(lines[i], "MIME Type"@)
                || occurs_in(lines[i], "Image Size"@)) {
        lemma_no_line(lines, Field::FileType);
        assert(fields.file_type =~= Seq::<char>::empty());
    }
}

/// What ExifTool prints is read as the text that it encodes; a run that failed and
/// a report without lines say nothing.
pub proof fn law_output_is_read_as_a_report(text: Seq<char>, bytes: Seq<u8>)
    ensures
        output_fields(Some(encode_utf8(text))) == report_fields(text),
        output_fields(Some(bytes)) == report_fields(text_in(bytes)),
        output_fields(None) == (ExifTexts {
            date: seq![],
            mime_type: seq![],
            image_size: seq![],
            file_type: seq![],
        }),
        fields_of_lines(seq![]) == output_fields(None),
{
    law_encoded_text_is_read_back(text, bytes);
}

/// The texts of fields are those of the strings.
pub proof fn law_fields_have_their_texts(fields: ExifFields, output: Vec<u8>)
    ensures
        fields@.date == fields.date@,
        fields@.mime_type == fields.mime_type@,
        fields@.image_size == fields.image_size@,
        fields@.file_type == fields.file_type@,
        opt_bytes(Some(output)) == Some(output@),
        opt_bytes(None) is None,
{
}

} // verus!
