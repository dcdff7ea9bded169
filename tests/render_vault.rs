use note_vault::render::{failure_message, run_process, run_process_allow_missing};
use note_vault::{
    list_note_files, list_notes, open_or_create_vault, render_note_pdf, require_vault,
    to_note_summary, vault_info, AppError, NoteEngine, ProcessOutcome, RenderStage,
};

fn exited(success: bool, stdout: &str, stderr: &str) -> ProcessOutcome {
    ProcessOutcome::Exited {
        success,
        status: String::from("exit status: 1"),
        stdout: String::from(stdout),
        stderr: String::from(stderr),
    }
}

fn ok_run() -> ProcessOutcome {
    exited(true, "", "")
}

#[test]
fn render_missing_note_is_not_found() {
    let r = render_note_pdf("/tmp/v/notes/a.tex", false);
    assert_eq!(
        r.err(),
        Some(AppError::NotFound(String::from("note does not exist: /tmp/v/notes/a.tex")))
    );
}

#[test]
fn render_unknown_extension_is_invalid() {
    let r = render_note_pdf("/tmp/v/notes/a.md", true);
    assert_eq!(
        r.err(),
        Some(AppError::InvalidInput(String::from(
            "unsupported note extension for render: /tmp/v/notes/a.md"
        )))
    );
}

#[test]
fn render_typst_single_run() {
    let job = render_note_pdf("/tmp/v/notes/a.typ", true).unwrap();
    assert_eq!(job.stage, RenderStage::Typst);
    assert_eq!(job.pdf_path, "/tmp/v/notes/a.pdf");
    let inv = job.invocation().unwrap();
    assert_eq!(inv.program, "typst");
    assert_eq!(inv.args, vec!["compile", "/tmp/v/notes/a.typ", "/tmp/v/notes/a.pdf"]);
    let done = job.advance(ok_run()).unwrap();
    assert_eq!(done.stage, RenderStage::Finished);
    assert!(done.invocation().is_none());
    assert_eq!(done.finish(true), Ok(String::from("/tmp/v/notes/a.pdf")));
}

#[test]
fn render_typst_missing_compiler_is_fatal() {
    let job = render_note_pdf("/tmp/v/notes/a.typ", true).unwrap();
    assert_eq!(
        job.advance(ProcessOutcome::NotInstalled).err(),
        Some(AppError::InvalidInput(String::from("typst is not installed or not in PATH")))
    );
}

#[test]
fn render_latex_falls_back_to_two_passes() {
    let job = render_note_pdf("/tmp/v/notes/b.tex", true).unwrap();
    assert_eq!(job.stage, RenderStage::Latexmk);
    assert_eq!(job.out_dir, "/tmp/v/notes");
    let inv = job.invocation().unwrap();
    assert_eq!(inv.program, "latexmk");
    assert_eq!(
        inv.args,
        vec![
            "-pdf",
            "-interaction=nonstopmode",
            "-halt-on-error",
            "-outdir",
            "/tmp/v/notes",
            "/tmp/v/notes/b.tex"
        ]
    );
    let first = job.advance(ProcessOutcome::NotInstalled).unwrap();
    assert_eq!(first.stage, RenderStage::PdflatexFirst);
    let inv = first.invocation().unwrap();
    assert_eq!(inv.program, "pdflatex");
    assert_eq!(
        inv.args,
        vec![
            "-interaction=nonstopmode",
            "-halt-on-error",
            "-output-directory",
            "/tmp/v/notes",
            "/tmp/v/notes/b.tex"
        ]
    );
    let second = first.advance(ok_run()).unwrap();
    assert_eq!(second.stage, RenderStage::PdflatexSecond);
    assert_eq!(second.invocation().unwrap().program, "pdflatex");
    let done = second.advance(ok_run()).unwrap();
    assert_eq!(done.stage, RenderStage::Finished);
    assert_eq!(done.finish(true), Ok(String::from("/tmp/v/notes/b.pdf")));
}

#[test]
fn render_latexmk_success_skips_fallback() {
    let job = render_note_pdf("/tmp/v/notes/b.tex", true).unwrap();
    let done = job.advance(ok_run()).unwrap();
    assert_eq!(done.stage, RenderStage::Finished);
}

#[test]
fn render_latexmk_failure_is_fatal() {
    let job = render_note_pdf("/tmp/v/notes/b.tex", true).unwrap();
    assert_eq!(
        job.advance(exited(false, "", "! Undefined control sequence.\n")).err(),
        Some(AppError::InvalidInput(String::from(
            "latexmk failed: ! Undefined control sequence."
        )))
    );
}

#[test]
fn render_first_pass_failure_stops_chain() {
    let job = render_note_pdf("/tmp/v/notes/b.tex", true).unwrap();
    let first = job.advance(ProcessOutcome::NotInstalled).unwrap();
    assert_eq!(
        first.advance(exited(false, "  log text \n", "")).err(),
        Some(AppError::InvalidInput(String::from("pdflatex failed: log text")))
    );
    let first = render_note_pdf("/tmp/v/notes/b.tex", true)
        .unwrap()
        .advance(ProcessOutcome::NotInstalled)
        .unwrap();
    assert_eq!(
        first.advance(ProcessOutcome::NotInstalled).err(),
        Some(AppError::InvalidInput(String::from("pdflatex is not installed or not in PATH")))
    );
}

#[test]
fn render_missing_output_is_not_found() {
    let job = render_note_pdf("/tmp/v/notes/a.typ", true).unwrap();
    let done = job.advance(ok_run()).unwrap();
    assert_eq!(
        done.finish(false),
        Err(AppError::NotFound(String::from(
            "render finished but pdf not found: /tmp/v/notes/a.pdf"
        )))
    );
}

#[test]
fn process_failure_classification() {
    assert_eq!(
        run_process("typst", &ProcessOutcome::SpawnFailed(String::from("denied"))),
        Err(AppError::Io(String::from("denied")))
    );
    assert_eq!(run_process("typst", &ok_run()), Ok(()));
    assert_eq!(run_process_allow_missing("latexmk", &ProcessOutcome::NotInstalled), Ok(None));
    assert_eq!(run_process_allow_missing("latexmk", &ok_run()), Ok(Some(())));
    assert_eq!(
        run_process_allow_missing("latexmk", &ProcessOutcome::SpawnFailed(String::from("e"))),
        Err(AppError::Io(String::from("e")))
    );
    let status = String::from("exit status: 2");
    assert_eq!(
        failure_message("latexmk", &status, &String::from(" \n"), &String::new()),
        "latexmk exited with status exit status: 2"
    );
    assert_eq!(
        failure_message("typst", &status, &String::from("out"), &String::from(" err ")),
        "typst failed: err"
    );
    assert_eq!(
        failure_message("typst", &status, &String::from("out"), &String::from("\t")),
        "typst failed: out"
    );
}

#[test]
fn list_note_files_filters_by_extension() {
    let files: Vec<String> = vec![
        "/v/notes/a.tex",
        "/v/notes/deep/er/b.typ",
        "/v/notes/c.md",
        "/v/notes/d.pdf",
        "/v/notes/sub/E.TEX",
        "/v/notes/noext",
    ]
    .into_iter()
    .map(String::from)
    .collect();
    let kept = list_note_files("/v/notes", true, &files).unwrap();
    assert_eq!(kept, vec!["/v/notes/a.tex", "/v/notes/deep/er/b.typ", "/v/notes/sub/E.TEX"]);
    assert_eq!(
        list_note_files("/v/notes", false, &files),
        Err(AppError::NotFound(String::from("directory does not exist: /v/notes")))
    );
}

#[test]
fn list_notes_newest_first_and_stable() {
    let scanned = vec![
        (String::from("/v/notes/a.tex"), Some(5)),
        (String::from("/v/notes/b.typ"), None),
        (String::from("/v/notes/c.tex"), Some(9)),
        (String::from("/v/notes/d.typ"), Some(5)),
        (String::from("/v/notes/e.tex"), None),
        (String::from("/v/notes/f.tex"), Some(0)),
    ];
    let notes = list_notes(scanned).unwrap();
    let titles: Vec<&str> = notes.iter().map(|n| n.title.as_str()).collect();
    assert_eq!(titles, vec!["c", "a", "d", "f", "b", "e"]);
    assert_eq!(notes[0].engine, NoteEngine::Latex);
    assert_eq!(notes[0].updated_at_unix, Some(9));
    assert_eq!(notes[2].path, "/v/notes/d.typ");
    assert_eq!(list_notes(Vec::new()).unwrap().len(), 0);
}

#[test]
fn list_notes_rejects_non_note() {
    let scanned = vec![
        (String::from("/v/notes/a.tex"), Some(1)),
        (String::from("/v/notes/b.txt"), Some(2)),
    ];
    assert_eq!(
        list_notes(scanned).err(),
        Some(AppError::InvalidInput(String::from("unsupported note extension: /v/notes/b.txt")))
    );
}

#[test]
fn summary_of_a_note() {
    let s = to_note_summary("/v/notes/Group Theory.typ", Some(42)).unwrap();
    assert_eq!(s.title, "Group Theory");
    assert_eq!(s.engine, NoteEngine::Typst);
    assert_eq!(s.updated_at_unix, Some(42));
    assert_eq!(s.path, "/v/notes/Group Theory.typ");
}

#[test]
fn vault_open_and_require() {
    assert_eq!(open_or_create_vault("/tmp/v"), Ok(String::from("/tmp/v/notes")));
    assert_eq!(open_or_create_vault("/tmp/v/"), Ok(String::from("/tmp/v/notes")));
    assert_eq!(
        open_or_create_vault("  "),
        Err(AppError::InvalidInput(String::from("vault path must not be empty")))
    );
    assert_eq!(
        require_vault("/nope", false),
        Err(AppError::NotFound(String::from("vault does not exist: /nope")))
    );
    assert_eq!(require_vault("/tmp/v", true), Ok(String::from("/tmp/v/notes")));
    let notes = list_notes(vec![(String::from("/tmp/v/notes/a.tex"), None)]).unwrap();
    let info = vault_info("/tmp/v", &notes);
    assert_eq!(info.root_path, "/tmp/v");
    assert_eq!(info.note_count, 1);
}
