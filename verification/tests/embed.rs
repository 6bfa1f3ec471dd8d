use metasort::embed::{
    arguments, choose_date, guesses_date, letters_of, log_line, read_complaint, text_after,
    wants_filename, Complaint, DateSource, EmbedJob, Metadata, Outcome, Step, ToolRun,
};

fn some(s: &str) -> Option<String> {
    Some(s.to_string())
}

fn nothing() -> Metadata {
    Metadata { latitude: None, longitude: None, altitude: None, make: None, model: None }
}

fn failed(stderr: &str) -> ToolRun {
    ToolRun::Ended { success: false, stderr: stderr.as_bytes().to_vec() }
}

fn succeeded() -> ToolRun {
    ToolRun::Ended { success: true, stderr: Vec::new() }
}

fn job() -> EmbedJob {
    EmbedJob::new(&some("2020:01:01 00:00:00"), &nothing(), "/in/a.png".to_string())
}

#[test]
fn only_a_two_asks_for_the_filename() {
    assert!(wants_filename("2"));
    assert!(wants_filename(" 2 \r\n"));
    for reply in ["", "1\n", "22\n", "two", "2 2"] {
        assert!(!wants_filename(reply));
    }
}

#[test]
fn dates_are_guessed_in_two_directories_only() {
    assert!(guesses_date(true, &some("WhatsApp")));
    assert!(guesses_date(true, &some("screenshots")));
    assert!(!guesses_date(true, &some("screenshot")));
    assert!(!guesses_date(true, &some("Camera")));
    assert!(!guesses_date(true, &None));
    assert!(!guesses_date(false, &some("Whatsapp")));
}

#[test]
fn a_guess_comes_before_the_metadata() {
    assert_eq!(choose_date(some("m"), true, some("g")), (some("g"), DateSource::Filename));
    assert_eq!(choose_date(some("m"), false, some("g")), (some("m"), DateSource::Metadata));
    assert_eq!(choose_date(some("m"), true, None), (some("m"), DateSource::Metadata));
    assert_eq!(choose_date(None, true, some("g")), (some("g"), DateSource::Filename));
    assert_eq!(choose_date(None, false, some("g")), (None, DateSource::Fallback));
    assert_eq!(choose_date(None, true, None), (None, DateSource::Fallback));
    assert_eq!(DateSource::Metadata.label(), "metadata");
    assert_eq!(DateSource::Filename.label(), "filename");
    assert_eq!(DateSource::Fallback.label(), "metadata (fallback)");
}

#[test]
fn all_arguments_stand_in_order() {
    let m = Metadata {
        latitude: some("1.5"),
        longitude: some("-2"),
        altitude: some("3"),
        make: some("Acme"),
        model: some("X 1"),
    };
    assert_eq!(
        arguments(&some("2020:01:01 00:00:00"), &m, "/in/a.jpg".to_string()),
        vec![
            "-EXIF:DateTimeOriginal=2020:01:01 00:00:00",
            "-GPSLatitude=1.5",
            "-GPSLongitude=-2",
            "-GPSAltitude=3",
            "-Make=Acme",
            "-Model=X 1",
            "-overwrite_original",
            "/in/a.jpg",
        ]
    );
    assert_eq!(
        arguments(&None, &nothing(), "/in/a.jpg".to_string()),
        vec!["-overwrite_original", "/in/a.jpg"]
    );
}

#[test]
fn half_a_position_is_not_written() {
    let mut m = nothing();
    m.latitude = some("1");
    assert_eq!(arguments(&None, &m, "p".to_string()), vec!["-overwrite_original", "p"]);
    m.latitude = None;
    m.longitude = some("1");
    assert_eq!(arguments(&None, &m, "p".to_string()), vec!["-overwrite_original", "p"]);
}

#[test]
fn complaints_are_read() {
    assert_eq!(text_after("xabyab!", "ab"), some("yab!"));
    assert_eq!(text_after("xab", "ab"), some(""));
    assert_eq!(text_after("xa", "ab"), None);
    assert_eq!(text_after("", ""), some(""));
    assert_eq!(letters_of("jpeg)"), "jpeg");
    assert_eq!(letters_of("éa1"), "éa");
    assert_eq!(letters_of("3gp"), "");
    assert_eq!(letters_of("all"), "all");
    assert!(matches!(read_complaint("error: not a valid png (looks more like a jpeg) - a.png"),
        Complaint::LooksLike(e) if e == "jpeg"));
    assert!(matches!(read_complaint("looks more like a 3gp"), Complaint::LooksLike(e) if e.is_empty()));
    assert!(matches!(read_complaint("it looks more like a"), Complaint::LooksOdd));
    assert!(matches!(read_complaint("looks more like a\tjpeg"), Complaint::LooksOdd));
    assert!(matches!(read_complaint("file not found"), Complaint::Other));
}

#[test]
fn a_job_that_succeeds_is_over() {
    let mut j = job();
    assert!(matches!(j.step, Step::Run));
    j.tool_ended(succeeded());
    assert!(matches!(j.step, Step::Done(Outcome::Embedded)));
}

#[test]
fn a_job_that_fails_says_why() {
    let mut j = job();
    j.tool_ended(failed("  Error: File NOT found\n"));
    assert!(matches!(&j.step, Step::Done(Outcome::Failed(m)) if m == "error: file not found"));
    let mut j = job();
    j.tool_ended(ToolRun::NotRun);
    assert!(matches!(j.step, Step::Done(Outcome::NotRun)));
    let mut j = job();
    j.tool_ended(failed("Looks more like a"));
    assert!(matches!(j.step, Step::Done(Outcome::LeftAlone)));
}

#[test]
fn a_misnamed_file_is_renamed_and_tried_again() {
    let complaint = "Error: Not a valid PNG (looks more like a JPEG) - /in/a.png";
    let mut j = job();
    j.tool_ended(failed(complaint));
    assert!(matches!(&j.step, Step::Rename(e) if e == "jpeg"));
    j.renamed(some("/in/a.jpeg"));
    assert!(matches!(j.step, Step::RunAgain));
    assert_eq!(
        j.args,
        vec!["-EXIF:DateTimeOriginal=2020:01:01 00:00:00", "-overwrite_original", "/in/a.jpeg"]
    );
    j.tool_ended(succeeded());
    assert!(matches!(j.step, Step::Done(Outcome::EmbeddedOnRetry)));

    let mut j = job();
    j.tool_ended(failed(complaint));
    j.renamed(some("/in/a.jpeg"));
    j.tool_ended(failed(" Looks more like a PNG "));
    assert!(matches!(&j.step, Step::Done(Outcome::FailedOnRetry(m)) if m == "Looks more like a PNG"));

    let mut j = job();
    j.tool_ended(failed(complaint));
    j.renamed(some("/in/a.jpeg"));
    j.tool_ended(ToolRun::NotRun);
    assert!(matches!(j.step, Step::Done(Outcome::NotRunOnRetry)));
}

#[test]
fn a_file_that_cannot_be_renamed_is_given_up() {
    let mut j = job();
    j.tool_ended(failed("looks more like a jpeg"));
    j.renamed(None);
    assert!(matches!(j.step, Step::Done(Outcome::NotRenamed)));
    assert_eq!(j.args.last(), some("/in/a.png").as_ref());
}

#[test]
fn every_outcome_but_one_is_logged() {
    let line = |outcome: Outcome| log_line(&outcome, "D", "E", "\"b.jpeg\"");
    assert_eq!(line(Outcome::Embedded), some("✅ Embedded metadata. D"));
    assert_eq!(
        line(Outcome::Failed("m".to_string())),
        some("❌ Failed to embed metadata. Stderr: m. D")
    );
    assert_eq!(line(Outcome::LeftAlone), None);
    assert_eq!(line(Outcome::NotRun), some("❌ Error running exiftool. Error: E. D"));
    assert_eq!(
        line(Outcome::NotRenamed),
        some("❌ Failed to embed metadata. Could not rename mismatched file. D")
    );
    assert_eq!(
        line(Outcome::EmbeddedOnRetry),
        some("✅ Embedded metadata on retry after rename. File: \"b.jpeg\"")
    );
    assert_eq!(
        line(Outcome::FailedOnRetry("m".to_string())),
        some("❌ Failed to embed metadata on retry. Stderr: m. File: \"b.jpeg\"")
    );
    assert_eq!(
        line(Outcome::NotRunOnRetry),
        some("❌ Error running exiftool on retry. Error: E. File: \"b.jpeg\"")
    );
}

#[test]
fn messages_in_other_scripts_are_decoded() {
    let mut j = job();
    j.tool_ended(failed("Größe ÜBER 1"));
    assert!(matches!(&j.step, Step::Done(Outcome::Failed(m)) if m == "größe über 1"));
}
