use note_vault::engine::NoteEngine;
use note_vault::notes::{create_note, read_note, resolve_pdf_preview, save_note};
use note_vault::paths::pdf_path_for;
use note_vault::{parse_engine, slugify, AppError};

#[test]
fn extension_round_trip() {
    for engine in [NoteEngine::Latex, NoteEngine::Typst] {
        let path = format!("/tmp/v/notes/a.{}", engine.extension());
        assert_eq!(NoteEngine::from_path(&path), Some(engine));
        let bare = format!("note.{}", engine.extension());
        assert_eq!(NoteEngine::from_path(&bare), Some(engine));
    }
}

#[test]
fn engine_from_path_cases() {
    assert_eq!(NoteEngine::Latex.extension(), "tex");
    assert_eq!(NoteEngine::Typst.extension(), "typ");
    assert_eq!(NoteEngine::from_path("/x/A.TEX"), Some(NoteEngine::Latex));
    assert_eq!(NoteEngine::from_path("/x/b.TyP"), Some(NoteEngine::Typst));
    assert_eq!(NoteEngine::from_path("/x/a.md"), None);
    assert_eq!(NoteEngine::from_path("/x/tex"), None);
    assert_eq!(NoteEngine::from_path("/x/.tex"), None);
    assert_eq!(NoteEngine::from_path("a.tex.bak"), None);
    assert_eq!(NoteEngine::from_path(""), None);
}

#[test]
fn parse_engine_names() {
    assert_eq!(parse_engine("latex"), Ok(NoteEngine::Latex));
    assert_eq!(parse_engine("  LaTeX \n"), Ok(NoteEngine::Latex));
    assert_eq!(parse_engine("TYPST"), Ok(NoteEngine::Typst));
    assert_eq!(
        parse_engine("word"),
        Err(AppError::InvalidInput(String::from("unsupported engine: word")))
    );
    assert!(matches!(parse_engine(""), Err(AppError::InvalidInput(_))));
}

#[test]
fn slug_examples() {
    assert_eq!(slugify("Midterm Notes!"), "midterm-notes");
    assert_eq!(slugify("  --Hello__World--  "), "hello-world");
    assert_eq!(slugify("a \t b"), "a-b");
    assert_eq!(slugify("Chapter 3: Groups"), "chapter-3-groups");
    assert_eq!(slugify("Ünïcode"), "ncode");
    assert_eq!(slugify("x\u{3000}y"), "x-y");
}

#[test]
fn slug_fallback_and_shape() {
    assert_eq!(slugify(""), "note");
    assert_eq!(slugify("!!!"), "note");
    assert_eq!(slugify("- _ -"), "note");
    assert_eq!(slugify("日本語"), "note");
    for title in ["Midterm Notes!", "--a--b--", "A_B-C D", "x!!y"] {
        let s = slugify(title);
        assert_eq!(slugify(title), s);
        assert!(s.chars().all(|c| c.is_ascii_lowercase() || c.is_ascii_digit() || c == '-'));
        assert!(!s.starts_with('-') && !s.ends_with('-') && !s.contains("--"));
    }
}

#[test]
fn create_note_scenario() {
    let engine = parse_engine("latex").unwrap();
    let mut c = create_note("/tmp/v", "Midterm Notes!", engine).unwrap();
    assert_eq!(c.notes_dir, "/tmp/v/notes");
    assert_eq!(c.candidate(), "/tmp/v/notes/midterm-notes.tex");
    let content = c.content();
    assert!(content.contains("\\title{Midterm Notes!}"));
    assert!(content.starts_with("\\documentclass{article}\n"));
    assert_eq!(c.on_probe(false), Some(String::from("/tmp/v/notes/midterm-notes.tex")));

    let mut second = create_note("/tmp/v", "Midterm Notes!", engine).unwrap();
    assert_eq!(second.on_probe(true), None);
    assert_eq!(second.on_probe(false), Some(String::from("/tmp/v/notes/midterm-notes-2.tex")));
}

#[test]
fn creation_suffixes_count_up() {
    let mut c = create_note("/v/", "Group Theory", NoteEngine::Typst).unwrap();
    assert_eq!(c.candidate(), "/v/notes/group-theory.typ");
    for _ in 0..9 {
        assert_eq!(c.on_probe(true), None);
    }
    assert_eq!(c.index, 10);
    assert_eq!(c.candidate(), "/v/notes/group-theory-10.typ");
}

#[test]
fn create_note_rejects_blank_title() {
    let err = AppError::InvalidInput(String::from("title must not be empty"));
    assert_eq!(create_note("/tmp/v", "", NoteEngine::Latex).err(), Some(err.clone()));
    assert_eq!(create_note("/tmp/v", " \t\n", NoteEngine::Latex).err(), Some(err));
}

#[test]
fn create_note_trims_title() {
    let c = create_note("/tmp/v", "  Ring  ", NoteEngine::Typst).unwrap();
    assert_eq!(c.title, "Ring");
    assert_eq!(
        c.content(),
        "#set document(title: \"Ring\")\n\n= Ring\n\n// Write your theorem / derivation here\n"
    );
}

#[test]
fn read_missing_note_is_not_found() {
    let r = read_note("/tmp/v/notes/a.tex", None);
    assert_eq!(
        r.err(),
        Some(AppError::NotFound(String::from("note does not exist: /tmp/v/notes/a.tex")))
    );
}

#[test]
fn read_note_builds_document() {
    let d = read_note("/tmp/v/notes/My Note.typ", Some(String::from("= Hi\n"))).unwrap();
    assert_eq!(d.path, "/tmp/v/notes/My Note.typ");
    assert_eq!(d.title, "My Note");
    assert_eq!(d.engine, NoteEngine::Typst);
    assert_eq!(d.content, "= Hi\n");
    let bad = read_note("/tmp/v/notes/a.md", Some(String::new()));
    assert_eq!(
        bad.err(),
        Some(AppError::InvalidInput(String::from(
            "unsupported note extension: /tmp/v/notes/a.md"
        )))
    );
}

#[test]
fn save_requires_existing_note() {
    assert_eq!(
        save_note("/tmp/v/notes/x.tex", false),
        Err(AppError::NotFound(String::from("note does not exist: /tmp/v/notes/x.tex")))
    );
    assert_eq!(save_note("/tmp/v/notes/x.tex", true), Ok(()));
    let d = read_note("/tmp/v/notes/x.tex", Some(String::from("new text"))).unwrap();
    assert_eq!(d.content, "new text");
}

#[test]
fn pdf_preview_scenario() {
    assert_eq!(resolve_pdf_preview("/tmp/v/notes/a.typ", false), None);
    assert_eq!(
        resolve_pdf_preview("/tmp/v/notes/a.typ", true),
        Some(String::from("/tmp/v/notes/a.pdf"))
    );
}

#[test]
fn pdf_sibling_paths() {
    assert_eq!(pdf_path_for("a.typ"), Some(String::from("a.pdf")));
    assert_eq!(pdf_path_for("/a.tex"), Some(String::from("/a.pdf")));
    assert_eq!(pdf_path_for("/x/y/b.c.tex"), Some(String::from("/x/y/b.c.pdf")));
    assert_eq!(pdf_path_for("/x/.hidden"), Some(String::from("/x/.hidden.pdf")));
    assert_eq!(pdf_path_for("/x/"), None);
    assert_eq!(pdf_path_for("/x/.."), None);
    assert_eq!(resolve_pdf_preview("/x/", true), None);
}

#[test]
fn error_messages() {
    assert_eq!(AppError::NotFound(String::from("x")).message(), "Not found: x");
    assert_eq!(AppError::InvalidInput(String::from("y")).message(), "Invalid input: y");
    assert_eq!(AppError::Io(String::from("z")).message(), "I/O error: z");
}
