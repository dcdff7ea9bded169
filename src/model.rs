//! What the library reports about notes and vaults, built from paths and
//! from what storage handed back.
use vstd::prelude::*;

use crate::engine::{engine_of_path, NoteEngine};
use crate::errors::{AppError, AppResult};
use crate::paths::{file_stem, path_stem};

verus! {

/// A note as listed: where it is stored, its title, its engine and when it
/// was last modified (seconds since the epoch), if storage could tell.
#[derive(Debug, Clone)]
pub struct NoteSummary {
    pub path: String,
    pub title: String,
    pub engine: NoteEngine,
    pub updated_at_unix: Option<u64>,
}

/// A note with its full text.
#[derive(Debug, Clone)]
pub struct NoteDocument {
    pub path: String,
    pub title: String,
    pub engine: NoteEngine,
    pub content: String,
}

/// A vault's root and how many notes it held when asked.
#[derive(Debug, Clone)]
pub struct VaultInfo {
    pub root_path: String,
    pub note_count: usize,
}

/// A summary as plain values.
pub struct SummaryView {
    pub path: Seq<char>,
    pub title: Seq<char>,
    pub engine: NoteEngine,
    pub updated_at_unix: Option<u64>,
}

impl View for NoteSummary {
    type V = SummaryView;

    open spec fn view(&self) -> SummaryView {
        SummaryView {
            path: self.path@,
            title: self.title@,
            engine: self.engine,
            updated_at_unix: self.updated_at_unix,
        }
    }
}

/// The summary of the note at `path`, modified at `updated`.
pub open spec fn summary_of(path: Seq<char>, updated: Option<u64>) -> SummaryView {
    SummaryView {
        path,
        title: title_of(path),
        engine: engine_of_path(path).unwrap(),
        updated_at_unix: updated,
    }
}

pub open spec fn untitled() -> Seq<char> {
    seq!['u', 'n', 't', 'i', 't', 'l', 'e', 'd']
}

/// The title of the note at `p`: its file stem, or `untitled` without one.
pub open spec fn title_of(p: Seq<char>) -> Seq<char> {
    match path_stem(p) {
        Some(s) => s,
        None => untitled(),
    }
}

/// What `to_note_summary` returns for the note at `path`, modified at `updated`.
pub open spec fn summary_post(
    path: Seq<char>,
    updated: Option<u64>,
    r: AppResult<NoteSummary>,
) -> bool {
    match engine_of_path(path) {
        None => r matches Err(AppError::InvalidInput(m)) && m@ == "unsupported note extension: "@
            + path,
        Some(e) => r matches Ok(s) && s.path@ == path && s.title@ == title_of(path) && s.engine
            == e && s.updated_at_unix == updated,
    }
}

/// What `to_note_document` returns for the note at `path` holding `content`.
pub open spec fn document_post(
    path: Seq<char>,
    content: Seq<char>,
    r: AppResult<NoteDocument>,
) -> bool {
    match engine_of_path(path) {
        None => r matches Err(AppError::InvalidInput(m)) && m@ == "unsupported note extension: "@
            + path,
        Some(e) => r matches Ok(d) && d.path@ == path && d.title@ == title_of(path) && d.engine
            == e && d.content@ == content,
    }
}

/// The title of the note at `path`.
pub fn title_for(path: &str) -> (r: String)
    ensures
        r@ == title_of(path@),
{
    match file_stem(path) {
        Some(s) => String::from_str(s),
        None => {
            proof {
                reveal_strlit("untitled");
            }
            assert("untitled"@ =~= untitled());
            String::from_str("untitled")
        },
    }
}

/// The summary of the note stored at `path`, last modified at `updated_at_unix`
/// (absent when storage could not say). A path with an extension of neither
/// engine is no note.
pub fn to_note_summary(path: &str, updated_at_unix: Option<u64>) -> (r: AppResult<NoteSummary>)
    ensures
        summary_post(path@, updated_at_unix, r),
{
    match NoteEngine::from_path(path) {
        None => {
            let mut m = String::from_str("unsupported note extension: ");
            m.append(path);
            Err(AppError::InvalidInput(m))
        },
        Some(engine) => Ok(
            NoteSummary {
                path: String::from_str(path),
                title: title_for(path),
                engine,
                updated_at_unix,
            },
        ),
    }
}

/// The document of the note stored at `path`, whose text is `content`.
pub fn to_note_document(path: &str, content: String) -> (r: AppResult<NoteDocument>)
    ensures
        document_post(path@, content@, r),
{
    match to_note_summary(path, None) {
        Err(e) => Err(e),
        Ok(summary) => Ok(
            NoteDocument {
                path: summary.path,
                title: summary.title,
                engine: summary.engine,
                content,
            },
        ),
    }
}

} // verus!
