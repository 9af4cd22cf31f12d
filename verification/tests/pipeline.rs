use wav_files_vad_api::format::{OpenError, Reading, FIRST_READ};
use wav_files_vad_api::paths::{PathError, TreePath};
use wav_files_vad_api::pipeline::{
    advance, start, FileAction, FileContext, FileEvent, FileStage, JobDescriptor, STATUS_OK,
};
use wav_files_vad_api::selector::EndpointSelector;
use wav_files_vad_api::tally::{Outcome, SkipReason};

fn path(parts: &[&str]) -> TreePath {
    TreePath::new(parts.iter().map(|part| part.to_string()).collect())
}

fn context(model: Option<&str>) -> FileContext {
    FileContext {
        input_root: path(&["in"]),
        output_root: path(&["out"]),
        model: model.map(|name| name.to_string()),
    }
}

fn selector(names: &[&str]) -> EndpointSelector {
    EndpointSelector::new(names.iter().map(|name| name.to_string()).collect()).unwrap()
}

fn finished(outcome: Outcome) -> (FileStage, FileAction) {
    (FileStage::Finished(outcome), FileAction::Report(outcome))
}

/// Feeds the events to a fresh file, one after the other.
fn drive(
    ctx: &FileContext,
    file: &TreePath,
    selector: &mut EndpointSelector,
    events: &[FileEvent],
) -> Vec<(FileStage, FileAction)> {
    let mut steps = vec![start()];
    for event in events {
        let stage = steps.last().unwrap().0;
        steps.push(advance(ctx, file, stage, *event, selector));
    }
    steps
}

fn jobs_in(steps: &[(FileStage, FileAction)]) -> usize {
    steps.iter().filter(|step| matches!(step.1, FileAction::Submit { .. })).count()
}

#[test]
fn success_status_is_200() {
    assert_eq!(STATUS_OK, 200);
}

#[test]
fn work_starts_with_the_header() {
    assert_eq!(start(), (FileStage::Validating(FIRST_READ), FileAction::ReadHeader(FIRST_READ)));
}

#[test]
fn first_read_is_4096_bytes() {
    assert_eq!(FIRST_READ, 4096);
    assert_eq!(start(), (FileStage::Validating(4096), FileAction::ReadHeader(4096)));
}

#[test]
fn longer_header_is_read_again() {
    let mut sel = selector(&["A"]);
    let file = path(&["in", "a.wav"]);
    let step = advance(
        &context(None),
        &file,
        FileStage::Validating(FIRST_READ),
        FileEvent::Validated(Reading::More(8192)),
        &mut sel,
    );
    assert_eq!(step, (FileStage::Validating(8192), FileAction::ReadHeader(8192)));
    let step = advance(
        &context(None),
        &file,
        step.0,
        FileEvent::Validated(Reading::More(16384)),
        &mut sel,
    );
    assert_eq!(step, (FileStage::Validating(16384), FileAction::ReadHeader(16384)));
    let step = advance(
        &context(None),
        &file,
        step.0,
        FileEvent::Validated(Reading::Verdict(Ok(true))),
        &mut sel,
    );
    assert_eq!(step.0, FileStage::Probing);
    assert_eq!(sel.next(), "A");
}

#[test]
fn longer_read_is_out_of_turn_after_the_verdict() {
    let mut sel = selector(&["A"]);
    for stage in [FileStage::Probing, FileStage::Preparing, FileStage::Submitting] {
        let step = advance(
            &context(None),
            &path(&["in", "a.wav"]),
            stage,
            FileEvent::Validated(Reading::More(8192)),
            &mut sel,
        );
        assert_eq!(step, finished(Outcome::Skipped(SkipReason::OutOfTurn)));
    }
}

#[test]
fn accepted_file_is_probed_for_its_marker() {
    let mut sel = selector(&["A"]);
    let step = advance(
        &context(None),
        &path(&["in", "c", "d.wav"]),
        FileStage::Validating(FIRST_READ),
        FileEvent::Validated(Reading::Verdict(Ok(true))),
        &mut sel,
    );
    assert_eq!(
        step,
        (FileStage::Probing, FileAction::ProbeMarker(path(&["out", "c", "d.wav", "d"])))
    );
}

#[test]
fn rejected_format_is_skipped() {
    let mut sel = selector(&["A"]);
    let step = advance(
        &context(None),
        &path(&["in", "b.wav"]),
        FileStage::Validating(FIRST_READ),
        FileEvent::Validated(Reading::Verdict(Ok(false))),
        &mut sel,
    );
    assert_eq!(step, finished(Outcome::Skipped(SkipReason::WrongFormat)));
}

#[test]
fn unreadable_header_is_skipped_with_its_cause() {
    let mut sel = selector(&["A"]);
    for error in [OpenError::Io, OpenError::Malformed, OpenError::Unsupported] {
        let step = advance(
            &context(None),
            &path(&["in", "b.wav"]),
            FileStage::Validating(FIRST_READ),
            FileEvent::Validated(Reading::Verdict(Err(error))),
            &mut sel,
        );
        assert_eq!(step, finished(Outcome::Skipped(SkipReason::Unreadable(error))));
    }
}

#[test]
fn file_outside_the_input_root_is_skipped() {
    let mut sel = selector(&["A"]);
    let step = advance(
        &context(None),
        &path(&["elsewhere", "a.wav"]),
        FileStage::Validating(FIRST_READ),
        FileEvent::Validated(Reading::Verdict(Ok(true))),
        &mut sel,
    );
    assert_eq!(step, finished(Outcome::Skipped(SkipReason::Misplaced(PathError::OutsideRoot))));
}

#[test]
fn existing_marker_is_skipped() {
    let mut sel = selector(&["A"]);
    let step = advance(
        &context(None),
        &path(&["in", "a.wav"]),
        FileStage::Probing,
        FileEvent::Probed(true),
        &mut sel,
    );
    assert_eq!(step, finished(Outcome::Skipped(SkipReason::AlreadyDone)));
}

#[test]
fn missing_marker_leads_to_the_output_directory() {
    let mut sel = selector(&["A"]);
    let step = advance(
        &context(None),
        &path(&["in", "c", "d.wav"]),
        FileStage::Probing,
        FileEvent::Probed(false),
        &mut sel,
    );
    assert_eq!(
        step,
        (FileStage::Preparing, FileAction::EnsureDirectory(path(&["out", "c", "d.wav"])))
    );
}

#[test]
fn failed_directory_is_skipped() {
    let mut sel = selector(&["A"]);
    let step = advance(
        &context(None),
        &path(&["in", "a.wav"]),
        FileStage::Preparing,
        FileEvent::Prepared(false),
        &mut sel,
    );
    assert_eq!(step, finished(Outcome::Skipped(SkipReason::DirectoryFailed)));
}

#[test]
fn ready_directory_leads_to_the_job() {
    let mut sel = selector(&["http://a/vad", "http://b/vad"]);
    let step = advance(
        &context(Some("silero")),
        &path(&["in", "c", "d.wav"]),
        FileStage::Preparing,
        FileEvent::Prepared(true),
        &mut sel,
    );
    let job = JobDescriptor {
        input_file: path(&["in", "c", "d.wav"]),
        output_dir: path(&["out", "c", "d.wav"]),
        model: Some("silero".to_string()),
    };
    assert_eq!(
        step,
        (FileStage::Submitting, FileAction::Submit { endpoint: "http://a/vad".to_string(), job })
    );
}

#[test]
fn job_without_model() {
    let mut sel = selector(&["A"]);
    let step = advance(
        &context(None),
        &path(&["in", "a.wav"]),
        FileStage::Preparing,
        FileEvent::Prepared(true),
        &mut sel,
    );
    match step.1 {
        FileAction::Submit { job, .. } => assert_eq!(job.model, None),
        other => panic!("no job: {:?}", other),
    }
}

#[test]
fn status_200_is_processed() {
    let mut sel = selector(&["A"]);
    let step = advance(
        &context(None),
        &path(&["in", "a.wav"]),
        FileStage::Submitting,
        FileEvent::Answered(Some(200)),
        &mut sel,
    );
    assert_eq!(step, finished(Outcome::Processed));
}

#[test]
fn other_statuses_are_skipped() {
    let mut sel = selector(&["A"]);
    for status in [0u16, 199, 201, 204, 301, 404, 500, 503, u16::MAX] {
        let step = advance(
            &context(None),
            &path(&["in", "a.wav"]),
            FileStage::Submitting,
            FileEvent::Answered(Some(status)),
            &mut sel,
        );
        assert_eq!(step, finished(Outcome::Skipped(SkipReason::Status(status))));
    }
}

#[test]
fn missing_answer_is_skipped() {
    let mut sel = selector(&["A"]);
    let step = advance(
        &context(None),
        &path(&["in", "a.wav"]),
        FileStage::Submitting,
        FileEvent::Answered(None),
        &mut sel,
    );
    assert_eq!(step, finished(Outcome::Skipped(SkipReason::Transport)));
}

#[test]
fn answer_out_of_turn_ends_the_file() {
    let mut sel = selector(&["A", "B"]);
    let cases = [
        (FileStage::Validating(FIRST_READ), FileEvent::Probed(false)),
        (FileStage::Validating(FIRST_READ), FileEvent::Answered(Some(200))),
        (FileStage::Probing, FileEvent::Validated(Reading::Verdict(Ok(true)))),
        (FileStage::Probing, FileEvent::Prepared(true)),
        (FileStage::Preparing, FileEvent::Probed(false)),
        (FileStage::Preparing, FileEvent::Answered(Some(200))),
        (FileStage::Submitting, FileEvent::Prepared(true)),
        (FileStage::Submitting, FileEvent::Validated(Reading::Verdict(Ok(true)))),
    ];
    for (stage, event) in cases {
        let step = advance(&context(None), &path(&["in", "a.wav"]), stage, event, &mut sel);
        assert_eq!(step, finished(Outcome::Skipped(SkipReason::OutOfTurn)));
    }
    // No endpoint was used up.
    assert_eq!(sel.next(), "A");
}

#[test]
fn finished_file_stays_finished() {
    let mut sel = selector(&["A", "B"]);
    let outcomes = [Outcome::Processed, Outcome::Skipped(SkipReason::AlreadyDone)];
    let events = [
        FileEvent::Validated(Reading::Verdict(Ok(true))),
        FileEvent::Probed(false),
        FileEvent::Prepared(true),
        FileEvent::Answered(Some(200)),
    ];
    for outcome in outcomes {
        for event in events {
            let step = advance(
                &context(None),
                &path(&["in", "a.wav"]),
                FileStage::Finished(outcome),
                event,
                &mut sel,
            );
            assert_eq!(step, finished(outcome));
        }
    }
    assert_eq!(sel.next(), "A");
}

#[test]
fn clean_file_is_processed_with_one_job() {
    let mut sel = selector(&["A", "B"]);
    let steps = drive(
        &context(None),
        &path(&["in", "a.wav"]),
        &mut sel,
        &[
            FileEvent::Validated(Reading::Verdict(Ok(true))),
            FileEvent::Probed(false),
            FileEvent::Prepared(true),
            FileEvent::Answered(Some(200)),
        ],
    );
    let stages: Vec<FileStage> = steps.iter().map(|step| step.0).collect();
    assert_eq!(
        stages,
        vec![
            FileStage::Validating(4096),
            FileStage::Probing,
            FileStage::Preparing,
            FileStage::Submitting,
            FileStage::Finished(Outcome::Processed),
        ]
    );
    assert_eq!(jobs_in(&steps), 1);
}

#[test]
fn selector_moves_only_when_a_job_is_sent() {
    let ctx = context(None);
    let file = path(&["in", "a.wav"]);
    let mut sel = selector(&["A", "B", "C"]);
    // Skipped before submission: the cursor stays at A.
    drive(&ctx, &file, &mut sel, &[FileEvent::Validated(Reading::Verdict(Ok(false)))]);
    drive(&ctx, &file, &mut sel, &[FileEvent::Validated(Reading::Verdict(Ok(true))), FileEvent::Probed(true)]);
    drive(
        &ctx,
        &file,
        &mut sel,
        &[FileEvent::Validated(Reading::Verdict(Ok(true))), FileEvent::Probed(false), FileEvent::Prepared(false)],
    );
    // Submitted: this job goes to A, and the answer does not move the cursor.
    let steps = drive(
        &ctx,
        &file,
        &mut sel,
        &[
            FileEvent::Validated(Reading::Verdict(Ok(true))),
            FileEvent::Probed(false),
            FileEvent::Prepared(true),
            FileEvent::Answered(Some(500)),
        ],
    );
    assert!(matches!(&steps[3].1, FileAction::Submit { endpoint, .. } if endpoint == "A"));
    assert_eq!(sel.next(), "B");
}

#[test]
fn two_channels_8_bit_or_44100_hz_are_never_dispatched() {
    // Whatever arrives after the verdict, no job is sent.
    let later = [
        FileEvent::Probed(false),
        FileEvent::Prepared(true),
        FileEvent::Answered(Some(200)),
        FileEvent::Validated(Reading::Verdict(Ok(true))),
        FileEvent::Prepared(true),
    ];
    let mut sel = selector(&["A"]);
    let mut events = vec![FileEvent::Validated(Reading::Verdict(Ok(false)))];
    events.extend_from_slice(&later);
    let steps = drive(&context(None), &path(&["in", "b.wav"]), &mut sel, &events);
    assert_eq!(jobs_in(&steps), 0);
    for step in &steps[1..] {
        assert_eq!(step.0, FileStage::Finished(Outcome::Skipped(SkipReason::WrongFormat)));
    }
}

#[test]
fn existing_marker_never_leads_to_a_job() {
    let later = [
        FileEvent::Probed(false),
        FileEvent::Prepared(true),
        FileEvent::Answered(Some(200)),
    ];
    let mut sel = selector(&["A"]);
    let mut events = vec![FileEvent::Validated(Reading::Verdict(Ok(true))), FileEvent::Probed(true)];
    events.extend_from_slice(&later);
    let steps = drive(&context(None), &path(&["in", "c", "d.wav"]), &mut sel, &events);
    assert_eq!(jobs_in(&steps), 0);
    for step in &steps[2..] {
        assert_eq!(step.0, FileStage::Finished(Outcome::Skipped(SkipReason::AlreadyDone)));
    }
}

#[test]
fn status_500_is_skipped_and_the_next_file_is_processed() {
    let ctx = context(None);
    let mut sel = selector(&["A", "B"]);
    let events = |status: u16| {
        [
            FileEvent::Validated(Reading::Verdict(Ok(true))),
            FileEvent::Probed(false),
            FileEvent::Prepared(true),
            FileEvent::Answered(Some(status)),
        ]
    };
    let first = drive(&ctx, &path(&["in", "a.wav"]), &mut sel, &events(500));
    let second = drive(&ctx, &path(&["in", "b.wav"]), &mut sel, &events(200));
    assert_eq!(first[4].0, FileStage::Finished(Outcome::Skipped(SkipReason::Status(500))));
    assert_eq!(second[4].0, FileStage::Finished(Outcome::Processed));
    assert!(matches!(&second[3].1, FileAction::Submit { endpoint, .. } if endpoint == "B"));
}

#[test]
fn at_most_one_job_per_file() {
    // Every sequence of four events over a small alphabet.
    let alphabet = [
        FileEvent::Validated(Reading::Verdict(Ok(true))),
        FileEvent::Validated(Reading::More(8192)),
        FileEvent::Probed(false),
        FileEvent::Probed(true),
        FileEvent::Prepared(true),
        FileEvent::Prepared(false),
        FileEvent::Answered(Some(200)),
        FileEvent::Answered(None),
    ];
    let ctx = context(None);
    let file = path(&["in", "a.wav"]);
    let n = alphabet.len();
    for code in 0..n * n * n * n {
        let events = [
            alphabet[code % n],
            alphabet[code / n % n],
            alphabet[code / (n * n) % n],
            alphabet[code / (n * n * n) % n],
        ];
        let mut sel = selector(&["A"]);
        let steps = drive(&ctx, &file, &mut sel, &events);
        assert!(jobs_in(&steps) <= 1);
    }
}
