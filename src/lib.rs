pub mod engine;
pub mod errors;
pub mod model;
pub mod notes;
pub mod paths;
pub mod render;
pub mod slug;
pub mod text;
pub mod vault;

pub use engine::{parse_engine, NoteEngine};
pub use errors::{AppError, AppResult};
pub use model::{to_note_document, to_note_summary, NoteDocument, NoteSummary, VaultInfo};
pub use notes::{create_note, note_template, read_note, resolve_pdf_preview, save_note, NoteCreation};
pub use render::{render_note_pdf, Invocation, ProcessOutcome, RenderJob, RenderStage};
pub use slug::slugify;
pub use vault::{list_note_files, list_notes, open_or_create_vault, require_vault, vault_info};
