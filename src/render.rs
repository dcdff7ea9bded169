//! Rendering a note to PDF, as a sequence of decisions between compiler runs.
//!
//! The caller starts a job with `render_note_pdf`, runs each `invocation` the
//! job asks for, hands the outcome to `advance`, and once the job is finished
//! asks `finish` whether the PDF is there.
use vstd::prelude::*;

use crate::engine::{engine_of_path, NoteEngine};
use crate::errors::{AppError, AppResult};
use crate::paths::{parent_dir, parent_of, pdf_path_for, pdf_sibling};
use crate::text::{trim, trim_ws};

verus! {

/// How one run of an outside program ended.
#[derive(Debug, Clone)]
pub enum ProcessOutcome {
    /// The program is not installed or not on the search path.
    NotInstalled,
    /// The program could not be started for another reason.
    SpawnFailed(String),
    /// The program ran; `status` describes its exit status.
    Exited { success: bool, status: String, stdout: String, stderr: String },
}

/// The step a render job has reached.
#[derive(Debug, Clone, Copy, PartialEq, Eq)]
pub enum RenderStage {
    /// The integrated LaTeX build tool is to run.
    Latexmk,
    /// The base LaTeX compiler is to run its first pass.
    PdflatexFirst,
    /// The base LaTeX compiler is to run its second pass.
    PdflatexSecond,
    /// The Typst compiler is to run.
    Typst,
    /// All runs are done; the output is still to be checked.
    Finished,
}

/// A program and its arguments.
#[derive(Debug, Clone)]
pub struct Invocation {
    pub program: String,
    pub args: Vec<String>,
}

/// A render in progress.
#[derive(Debug, Clone)]
pub struct RenderJob {
    pub note_path: String,
    pub out_dir: String,
    pub pdf_path: String,
    pub stage: RenderStage,
}

/// The message for a run that exited unsuccessfully: standard error if it
/// said anything, else standard output, else the exit status.
pub open spec fn failure_text(
    bin: Seq<char>,
    status: Seq<char>,
    stdout: Seq<char>,
    stderr: Seq<char>,
) -> Seq<char> {
    let details = if trim_ws(stderr).len() > 0 {
        trim_ws(stderr)
    } else {
        trim_ws(stdout)
    };
    if details.len() == 0 {
        bin + " exited with status "@ + status
    } else {
        bin + " failed: "@ + details
    }
}

/// What a run of `bin` that must succeed comes to: `Ok` on success; a
/// missing program or a failed run is invalid input, any other start failure
/// is an I/O error.
pub open spec fn run_post(bin: Seq<char>, outcome: ProcessOutcome, r: AppResult<()>) -> bool {
    match outcome {
        ProcessOutcome::NotInstalled => r matches Err(AppError::InvalidInput(m)) && m@ == bin
            + " is not installed or not in PATH"@,
        ProcessOutcome::SpawnFailed(e) => r matches Err(AppError::Io(m)) && m@ == e@,
        ProcessOutcome::Exited { success, status, stdout, stderr } => if success {
            r is Ok
        } else {
            r matches Err(AppError::InvalidInput(m)) && m@ == failure_text(
                bin,
                status@,
                stdout@,
                stderr@,
            )
        },
    }
}

/// As `run_post`, except that a missing program is no error: it gives `Ok(None)`.
pub open spec fn optional_run_post(
    bin: Seq<char>,
    outcome: ProcessOutcome,
    r: AppResult<Option<()>>,
) -> bool {
    match outcome {
        ProcessOutcome::NotInstalled => r == Ok::<Option<()>, AppError>(None),
        ProcessOutcome::SpawnFailed(e) => r matches Err(AppError::Io(m)) && m@ == e@,
        ProcessOutcome::Exited { success, status, stdout, stderr } => if success {
            r == Ok::<Option<()>, AppError>(Some(()))
        } else {
            r matches Err(AppError::InvalidInput(m)) && m@ == failure_text(
                bin,
                status@,
                stdout@,
                stderr@,
            )
        },
    }
}

/// The message for a run of `bin` that exited unsuccessfully.
pub fn failure_message(bin: &str, status: &String, stdout: &String, stderr: &String) -> (r: String)
    ensures
        r@ == failure_text(bin@, status@, stdout@, stderr@),
{
    let err = trim(stderr.as_str());
    let details = if err.unicode_len() > 0 {
        err
    } else {
        trim(stdout.as_str())
    };
    let mut m = String::from_str(bin);
    if details.unicode_len() == 0 {
        m.append(" exited with status ");
        m.append(status.as_str());
    } else {
        m.append(" failed: ");
        m.append(details);
    }
    m
}

/// Judges a run of `bin` that must succeed.
pub fn run_process(bin: &str, outcome: &ProcessOutcome) -> (r: AppResult<()>)
    ensures
        run_post(bin@, *outcome, r),
{
    match outcome {
        ProcessOutcome::NotInstalled => {
            let mut m = String::from_str(bin);
            m.append(" is not installed or not in PATH");
            Err(AppError::InvalidInput(m))
        },
        ProcessOutcome::SpawnFailed(e) => Err(AppError::Io(e.clone())),
        ProcessOutcome::Exited { success, status, stdout, stderr } => {
            if *success {
                Ok(())
            } else {
                Err(AppError::InvalidInput(failure_message(bin, status, stdout, stderr)))
            }
        },
    }
}

/// Judges a run of `bin` that may be missing: `Ok(None)` when it is.
pub fn run_process_allow_missing(bin: &str, outcome: &ProcessOutcome) -> (r: AppResult<
    Option<()>,
>)
    ensures
        optional_run_post(bin@, *outcome, r),
{
    match outcome {
        ProcessOutcome::NotInstalled => Ok(None),
        ProcessOutcome::SpawnFailed(e) => Err(AppError::Io(e.clone())),
        ProcessOutcome::Exited { success, status, stdout, stderr } => {
            if *success {
                Ok(Some(()))
            } else {
                Err(AppError::InvalidInput(failure_message(bin, status, stdout, stderr)))
            }
        },
    }
}

/// The stage a render of a note of engine `e` begins with.
pub open spec fn first_stage(e: NoteEngine) -> RenderStage {
    match e {
        NoteEngine::Latex => RenderStage::Latexmk,
        NoteEngine::Typst => RenderStage::Typst,
    }
}

/// What `render_note_pdf` decides for the note at `path`, given whether a
/// file is there.
pub open spec fn start_post(path: Seq<char>, exists: bool, r: AppResult<RenderJob>) -> bool {
    if !exists {
        r matches Err(AppError::NotFound(m)) && m@ == "note does not exist: "@ + path
    } else {
        match engine_of_path(path) {
            None => r matches Err(AppError::InvalidInput(m)) && m@
                == "unsupported note extension for render: "@ + path,
            Some(e) => r matches Ok(job) && job.note_path@ == path && job.out_dir@ == parent_dir(
                path,
            ) && pdf_sibling(path) == Some(job.pdf_path@) && job.stage == first_stage(e),
        }
    }
}

/// Starts rendering the note at `path`, given whether a file is there. The
/// PDF is always written beside the note, under the note's stem.
pub fn render_note_pdf(path: &str, exists: bool) -> (r: AppResult<RenderJob>)
    ensures
        start_post(path@, exists, r),
{
    if !exists {
        let mut m = String::from_str("note does not exist: ");
        m.append(path);
        return Err(AppError::NotFound(m));
    }
    let engine = match NoteEngine::from_path(path) {
        Some(e) => e,
        None => {
            let mut m = String::from_str("unsupported note extension for render: ");
            m.append(path);
            return Err(AppError::InvalidInput(m));
        },
    };
    let pdf_path = match pdf_path_for(path) {
        Some(p) => p,
        None => {
            // A path with an extension names a file, so it has a stem.
            let mut m = String::from_str("failed to resolve file stem: ");
            m.append(path);
            return Err(AppError::InvalidInput(m));
        },
    };
    let stage = match engine {
        NoteEngine::Latex => RenderStage::Latexmk,
        NoteEngine::Typst => RenderStage::Typst,
    };
    Ok(
        RenderJob {
            note_path: String::from_str(path),
            out_dir: String::from_str(parent_of(path)),
            pdf_path,
            stage,
        },
    )
}

pub open spec fn latexmk_args(job: RenderJob) -> Seq<Seq<char>> {
    seq![
        "-pdf"@,
        "-interaction=nonstopmode"@,
        "-halt-on-error"@,
        "-outdir"@,
        job.out_dir@,
        job.note_path@,
    ]
}

pub open spec fn pdflatex_args(job: RenderJob) -> Seq<Seq<char>> {
    seq![
        "-interaction=nonstopmode"@,
        "-halt-on-error"@,
        "-output-directory"@,
        job.out_dir@,
        job.note_path@,
    ]
}

pub open spec fn typst_args(job: RenderJob) -> Seq<Seq<char>> {
    seq!["compile"@, job.note_path@, job.pdf_path@]
}

/// The program that a stage runs.
pub open spec fn program_of(stage: RenderStage) -> Seq<char> {
    match stage {
        RenderStage::Latexmk => "latexmk"@,
        RenderStage::PdflatexFirst => "pdflatex"@,
        RenderStage::PdflatexSecond => "pdflatex"@,
        RenderStage::Typst => "typst"@,
        RenderStage::Finished => Seq::empty(),
    }
}

/// The arguments that a job's current stage runs its program with.
pub open spec fn args_of(job: RenderJob) -> Seq<Seq<char>> {
    match job.stage {
        RenderStage::Latexmk => latexmk_args(job),
        RenderStage::PdflatexFirst => pdflatex_args(job),
        RenderStage::PdflatexSecond => pdflatex_args(job),
        RenderStage::Typst => typst_args(job),
        RenderStage::Finished => Seq::empty(),
    }
}

pub open spec fn views(v: Seq<String>) -> Seq<Seq<char>> {
    v.map_values(|s: String| s@)
}

/// Whether a run ended in success.
pub open spec fn succeeded(outcome: ProcessOutcome) -> bool {
    match outcome {
        ProcessOutcome::Exited { success, .. } => success,
        _ => false,
    }
}

/// The stage after a successful run in `stage`.
pub open spec fn stage_after(stage: RenderStage) -> RenderStage {
    match stage {
        RenderStage::PdflatexFirst => RenderStage::PdflatexSecond,
        _ => RenderStage::Finished,
    }
}

/// What `advance` makes of a job in a running stage and the outcome of its run.
pub open spec fn advance_post(job: RenderJob, outcome: ProcessOutcome, r: AppResult<RenderJob>) -> bool {
    let moved = |stage: RenderStage|
        r matches Ok(next) && next.note_path == job.note_path && next.out_dir == job.out_dir
            && next.pdf_path == job.pdf_path && next.stage == stage;
    if job.stage == RenderStage::Latexmk {
        match outcome {
            ProcessOutcome::NotInstalled => moved(RenderStage::PdflatexFirst),
            _ => {
                &&& forall|e: AppError| r == Err::<RenderJob, AppError>(e) ==> optional_run_post(
                    program_of(job.stage),
                    outcome,
                    Err(e),
                )
                &&& r is Ok <==> succeeded(outcome)
                &&& r is Ok ==> moved(RenderStage::Finished)
            },
        }
    } else {
        &&& forall|e: AppError| r == Err::<RenderJob, AppError>(e) ==> run_post(
            program_of(job.stage),
            outcome,
            Err(e),
        )
        &&& r is Ok <==> succeeded(outcome)
        &&& r is Ok ==> moved(stage_after(job.stage))
    }
}

/// What `finish` makes of a finished job, given whether the PDF is there.
pub open spec fn finish_post(job: RenderJob, pdf_exists: bool, r: AppResult<String>) -> bool {
    if pdf_exists {
        r matches Ok(p) && p@ == job.pdf_path@
    } else {
        r matches Err(AppError::NotFound(m)) && m@ == "render finished but pdf not found: "@
            + job.pdf_path@
    }
}

fn strings(items: &[&str]) -> (r: Vec<String>)
    ensures
        views(r@) == items@.map_values(|s: &str| s@),
{
    let mut out: Vec<String> = Vec::new();
    let mut i: usize = 0;
    while i < items.len()
        invariant
            i <= items@.len(),
            out@.len() == i,
            forall|k: int| 0 <= k < i ==> (#[trigger] out@[k])@ == items@[k]@,
        decreases items@.len() - i,
    {
        out.push(String::from_str(items[i]));
        i = i + 1;
    }
    assert(views(out@) =~= items@.map_values(|s: &str| s@));
    out
}

impl RenderJob {
    /// The program run and arguments of the current stage; `None` once finished.
    pub fn invocation(&self) -> (r: Option<Invocation>)
        ensures
            self.stage == RenderStage::Finished <==> r is None,
            r matches Some(inv) ==> inv.program@ == program_of(self.stage) && views(inv.args@)
                == args_of(*self),
    {
        let note = self.note_path.as_str();
        let out = self.out_dir.as_str();
        match self.stage {
            RenderStage::Latexmk => {
                let a = [
                    "-pdf",
                    "-interaction=nonstopmode",
                    "-halt-on-error",
                    "-outdir",
                    out,
                    note,
                ];
                let args = strings(&a);
                assert(views(args@) =~= latexmk_args(*self));
                Some(Invocation { program: String::from_str("latexmk"), args })
            },
            RenderStage::PdflatexFirst | RenderStage::PdflatexSecond => {
                let a = [
                    "-interaction=nonstopmode",
                    "-halt-on-error",
                    "-output-directory",
                    out,
                    note,
                ];
                let args = strings(&a);
                assert(views(args@) =~= pdflatex_args(*self));
                Some(Invocation { program: String::from_str("pdflatex"), args })
            },
            RenderStage::Typst => {
                let a = ["compile", note, self.pdf_path.as_str()];
                let args = strings(&a);
                assert(views(args@) =~= typst_args(*self));
                Some(Invocation { program: String::from_str("typst"), args })
            },
            RenderStage::Finished => None,
        }
    }

    fn moved_to(self, stage: RenderStage) -> (r: RenderJob)
        ensures
            r.note_path == self.note_path && r.out_dir == self.out_dir && r.pdf_path
                == self.pdf_path && r.stage == stage,
    {
        RenderJob { stage, ..self }
    }

    /// The job after its current stage's run ended with `outcome`. A missing
    /// integrated LaTeX tool falls back to two passes of the base compiler;
    /// every other failure ends the render.
    pub fn advance(self, outcome: ProcessOutcome) -> (r: AppResult<RenderJob>)
        requires
            self.stage != RenderStage::Finished,
        ensures
            advance_post(self, outcome, r),
    {
        match self.stage {
            RenderStage::Latexmk => match run_process_allow_missing("latexmk", &outcome) {
                Err(e) => Err(e),
                Ok(None) => Ok(self.moved_to(RenderStage::PdflatexFirst)),
                Ok(Some(())) => Ok(self.moved_to(RenderStage::Finished)),
            },
            RenderStage::PdflatexFirst => match run_process("pdflatex", &outcome) {
                Err(e) => Err(e),
                Ok(()) => Ok(self.moved_to(RenderStage::PdflatexSecond)),
            },
            RenderStage::PdflatexSecond => match run_process("pdflatex", &outcome) {
                Err(e) => Err(e),
                Ok(()) => Ok(self.moved_to(RenderStage::Finished)),
            },
            _ => match run_process("typst", &outcome) {
                Err(e) => Err(e),
                Ok(()) => Ok(self.moved_to(RenderStage::Finished)),
            },
        }
    }

    /// The rendered PDF's path, given whether storage has it: a finished run
    /// that left no PDF is reported as not found.
    pub fn finish(&self, pdf_exists: bool) -> (r: AppResult<String>)
        requires
            self.stage == RenderStage::Finished,
        ensures
            finish_post(*self, pdf_exists, r),
    {
        if pdf_exists {
            Ok(self.pdf_path.clone())
        } else {
            let mut m = String::from_str("render finished but pdf not found: ");
            m.append(self.pdf_path.as_str());
            Err(AppError::NotFound(m))
        }
    }
}

/// A render whose runs all succeeded but that left no PDF fails as not
/// found, while a run that exits unsuccessfully fails as invalid input: the
/// two are told apart by their kind.
pub proof fn lemma_missing_output_is_not_found(
    done: RenderJob,
    finished: AppResult<String>,
    running: RenderJob,
    status: String,
    stdout: String,
    stderr: String,
    failed: AppResult<RenderJob>,
)
    requires
        done.stage == RenderStage::Finished,
        finish_post(done, false, finished),
        running.stage != RenderStage::Finished,
        advance_post(
            running,
            ProcessOutcome::Exited { success: false, status, stdout, stderr },
            failed,
        ),
    ensures
        finished matches Err(AppError::NotFound(_)),
        failed matches Err(AppError::InvalidInput(_)),
{
    let outcome = ProcessOutcome::Exited { success: false, status, stdout, stderr };
    let e = failed->Err_0;
    if running.stage == RenderStage::Latexmk {
        assert(optional_run_post(program_of(running.stage), outcome, Err(e)));
    } else {
        assert(run_post(program_of(running.stage), outcome, Err(e)));
    }
}

} // verus!
