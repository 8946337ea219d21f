use latex_formula::error::{RenderingError, SanitizeError};
use latex_formula::formula::{FormulaTemplate, Templates};
use latex_formula::registry::Registry;
use latex_formula::render::{
    Action, JobState, Outcome, Renderer, Stage, TEMP_FILE_NAME_DVI, TEMP_FILE_NAME_LATEX,
    TEMP_FILE_NAME_SVG,
};

fn job() -> Renderer {
    let templates = Templates {
        document: Some("~DOCUMENT_CONTENT~".to_string()),
        display_formula: Some("$~FORMULA~$".to_string()),
        common_formula: Some("~FORMULA~".to_string()),
    };
    let template = FormulaTemplate::new("x", &Registry::standard(), &templates).unwrap();
    Renderer::new(template, 5000)
}

fn exited(status: i32) -> Outcome {
    Outcome::Exited { status, output_present: true }
}

fn every_outcome_but_released() -> Vec<Outcome> {
    vec![
        Outcome::Wrote,
        Outcome::IoFailed,
        exited(0),
        exited(1),
        Outcome::SpawnFailed,
        Outcome::TimedOut,
        Outcome::Read(vec![9]),
    ]
}

fn at_compile() -> Renderer {
    let mut j = job();
    j.advance(Outcome::Wrote);
    j
}

fn at_convert() -> Renderer {
    let mut j = at_compile();
    j.advance(exited(0));
    j
}

fn at_read() -> Renderer {
    let mut j = at_convert();
    j.advance(exited(0));
    j
}

#[test]
fn file_names() {
    assert_eq!(TEMP_FILE_NAME_LATEX, "temp.tex");
    assert_eq!(TEMP_FILE_NAME_DVI, "temp.dvi");
    assert_eq!(TEMP_FILE_NAME_SVG, "temp.svg");
}

#[test]
fn new_job_asks_for_the_source_to_be_written() {
    let j = job();
    assert_eq!(j.next_action(), Action::WriteSource);
    assert_eq!(j.source(), "$x$");
    assert_eq!(j.timeout_ms(), 5000);
    assert!(!j.is_finished());
    assert!(j.holds_workspace());
    assert_eq!(j.image(), None);
    assert_eq!(j.failure(), None);
    assert_eq!(j.exit_status(), None);
}

#[test]
fn job_whose_steps_all_succeed_ends_with_the_image() {
    let mut j = job();
    j.advance(Outcome::Wrote);
    assert_eq!(j.next_action(), Action::RunCompiler);
    j.advance(exited(0));
    assert_eq!(j.next_action(), Action::RunConverter);
    j.advance(exited(0));
    assert_eq!(j.next_action(), Action::ReadImage);
    j.advance(Outcome::Read(vec![60, 115, 118, 103, 62]));
    assert!(j.is_finished());
    assert_eq!(j.image(), Some(&vec![60, 115, 118, 103, 62]));
    assert_eq!(j.failure(), None);
    assert_eq!(j.exit_status(), Some(0));
    assert!(j.holds_workspace());
    assert_eq!(j.next_action(), Action::Teardown);
    j.advance(Outcome::Released);
    assert!(!j.holds_workspace());
    assert_eq!(j.next_action(), Action::Finish);
    assert_eq!(j.image(), Some(&vec![60, 115, 118, 103, 62]));
}

#[test]
fn failed_write_fails_the_job_at_the_source() {
    let mut j = job();
    j.advance(Outcome::IoFailed);
    assert_eq!(j.failure(), Some((Stage::SourceWrite, RenderingError::IOError)));
    assert_eq!(j.image(), None);
    assert_eq!(j.next_action(), Action::Teardown);
}

#[test]
fn broken_source_fails_the_job_at_compile() {
    let mut j = at_compile();
    j.advance(exited(1));
    assert_eq!(j.failure(), Some((Stage::Compile, RenderingError::ToolError)));
    assert_eq!(j.exit_status(), Some(1));
    assert_eq!(j.image(), None);
    assert_eq!(j.next_action(), Action::Teardown);
    j.advance(Outcome::Released);
    assert!(!j.holds_workspace());
    assert_eq!(j.next_action(), Action::Finish);
    assert_eq!(j.failure(), Some((Stage::Compile, RenderingError::ToolError)));
}

#[test]
fn negative_status_is_a_tool_error() {
    let mut j = at_compile();
    j.advance(exited(-1));
    assert_eq!(j.failure(), Some((Stage::Compile, RenderingError::ToolError)));
    assert_eq!(j.exit_status(), Some(-1));
}

#[test]
fn status_zero_without_output_is_a_tool_error() {
    let mut j = at_compile();
    j.advance(Outcome::Exited { status: 0, output_present: false });
    assert_eq!(j.failure(), Some((Stage::Compile, RenderingError::ToolError)));
    assert_eq!(j.exit_status(), Some(0));
}

#[test]
fn compiler_that_cannot_start_is_a_tool_error() {
    let mut j = at_compile();
    j.advance(Outcome::SpawnFailed);
    assert_eq!(j.failure(), Some((Stage::Compile, RenderingError::ToolError)));
    assert_eq!(j.exit_status(), None);
}

#[test]
fn compiler_that_hangs_is_a_timeout() {
    let mut j = at_compile();
    j.advance(Outcome::TimedOut);
    assert_eq!(j.failure(), Some((Stage::Compile, RenderingError::Timeout)));
    assert_eq!(j.next_action(), Action::Teardown);
}

#[test]
fn converter_failures_are_tagged_convert() {
    let mut j = at_convert();
    j.advance(exited(2));
    assert_eq!(j.failure(), Some((Stage::Convert, RenderingError::ToolError)));
    assert_eq!(j.exit_status(), Some(2));
    let mut j = at_convert();
    j.advance(Outcome::SpawnFailed);
    assert_eq!(j.failure(), Some((Stage::Convert, RenderingError::ToolError)));
    assert_eq!(j.exit_status(), Some(0));
    let mut j = at_convert();
    j.advance(Outcome::TimedOut);
    assert_eq!(j.failure(), Some((Stage::Convert, RenderingError::Timeout)));
    let mut j = at_convert();
    j.advance(Outcome::Exited { status: 0, output_present: false });
    assert_eq!(j.failure(), Some((Stage::Convert, RenderingError::ToolError)));
}

#[test]
fn failed_read_fails_the_job_at_the_image() {
    let mut j = at_read();
    j.advance(Outcome::IoFailed);
    assert_eq!(j.failure(), Some((Stage::ImageRead, RenderingError::IOError)));
    assert_eq!(j.image(), None);
    assert_eq!(j.next_action(), Action::Teardown);
}

#[test]
fn empty_image_is_still_the_result() {
    let mut j = at_read();
    j.advance(Outcome::Read(vec![]));
    assert_eq!(j.image(), Some(&vec![]));
}

#[test]
fn outcome_that_answers_another_step_changes_nothing() {
    let mut j = job();
    for outcome in [exited(0), Outcome::SpawnFailed, Outcome::TimedOut, Outcome::Read(vec![1]), Outcome::Released] {
        j.advance(outcome);
        assert_eq!(j.next_action(), Action::WriteSource);
        assert!(j.holds_workspace());
        assert_eq!(j.exit_status(), None);
    }
    let mut j = at_compile();
    for outcome in [Outcome::Wrote, Outcome::IoFailed, Outcome::Read(vec![1]), Outcome::Released] {
        j.advance(outcome);
        assert_eq!(j.next_action(), Action::RunCompiler);
        assert!(j.holds_workspace());
    }
    let mut j = at_read();
    for outcome in [Outcome::Wrote, exited(3), Outcome::SpawnFailed, Outcome::TimedOut, Outcome::Released] {
        j.advance(outcome);
        assert_eq!(j.next_action(), Action::ReadImage);
        assert_eq!(j.exit_status(), Some(0));
    }
}

#[test]
fn finished_job_stays_as_it_is() {
    let mut done = at_read();
    done.advance(Outcome::Read(vec![7]));
    let mut failed = at_compile();
    failed.advance(Outcome::TimedOut);
    for outcome in every_outcome_but_released() {
        done.advance(outcome);
        assert_eq!(done.image(), Some(&vec![7]));
        assert_eq!(done.next_action(), Action::Teardown);
    }
    for outcome in every_outcome_but_released() {
        failed.advance(outcome);
        assert_eq!(failed.failure(), Some((Stage::Compile, RenderingError::Timeout)));
        assert_eq!(failed.image(), None);
        assert_eq!(failed.next_action(), Action::Teardown);
    }
    done.advance(Outcome::Released);
    done.advance(Outcome::Read(vec![9]));
    done.advance(Outcome::Released);
    assert_eq!(done.next_action(), Action::Finish);
    assert_eq!(done.image(), Some(&vec![7]));
}

#[test]
fn job_states_compare_by_what_they_hold() {
    assert_eq!(JobState::Done(vec![1]), JobState::Done(vec![1]));
    assert_ne!(JobState::Done(vec![1]), JobState::Done(vec![2]));
    assert_ne!(
        JobState::Failed(Stage::Compile, RenderingError::ToolError),
        JobState::Failed(Stage::Convert, RenderingError::ToolError)
    );
    assert_ne!(JobState::Created, JobState::SourceWritten);
    assert_ne!(JobState::IntermediateProduced, JobState::ImageProduced);
}

#[test]
fn forbidden_syntax_has_a_description() {
    assert_eq!(
        SanitizeError::ForbiddenSyntax.description(),
        "Notation contains unsupported LaTeX syntax"
    );
}

#[test]
fn rendering_errors_are_distinct() {
    assert_ne!(RenderingError::ToolError, RenderingError::Timeout);
    assert_ne!(RenderingError::IOError, RenderingError::MissingTemplate);
}
