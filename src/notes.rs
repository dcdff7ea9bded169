//! Creating, reading and saving notes, and finding a note's rendered PDF.
//!
//! Storage stays with the caller: each function here takes what storage
//! reported (whether a path exists, what a file holds) and decides.
use vstd::prelude::*;

use crate::engine::{engine_of_path, ext_for, NoteEngine};
use crate::errors::{AppError, AppResult};
use crate::model::{document_post, to_note_document, NoteDocument};
use crate::paths::{join, join_path, pdf_path_for, pdf_sibling};
use crate::slug::{slug, slugify};
use crate::text::{trim, trim_ws};

verus! {

pub open spec fn digit(d: nat) -> char {
    ((d + 48) as u32) as char
}

/// The decimal digits of `n`, most significant first.
pub open spec fn decimal(n: nat) -> Seq<char>
    decreases n,
{
    if n < 10 {
        seq![digit(n)]
    } else {
        decimal(n / 10).push(digit(n % 10))
    }
}

proof fn lemma_decimal_injective(i: nat, j: nat)
    requires
        decimal(i) == decimal(j),
    ensures
        i == j,
    decreases i,
{
    lemma_decimal_len(i);
    lemma_decimal_len(j);
    if i >= 10 && j >= 10 {
        assert(decimal(i).drop_last() =~= decimal(i / 10));
        assert(decimal(j).drop_last() =~= decimal(j / 10));
        assert(digit(i % 10) == decimal(i).last());
        lemma_decimal_injective(i / 10, j / 10);
    } else if i < 10 && j < 10 {
        assert(digit(i) == decimal(i)[0]);
    } else {
        assert(decimal(i).len() != decimal(j).len());
    }
}

proof fn lemma_decimal_len(n: nat)
    ensures
        decimal(n).len() >= 1,
        n >= 10 ==> decimal(n).len() >= 2,
    decreases n,
{
    if n >= 10 {
        lemma_decimal_len(n / 10);
    }
}

/// Appends the decimal digits of `n` to `out`.
pub fn push_decimal(out: &mut String, n: usize)
    ensures
        final(out)@ == old(out)@ + decimal(n as nat),
    decreases n,
{
    if n >= 10 {
        push_decimal(out, n / 10);
    }
    let d: u8 = (n % 10) as u8;
    let c = (d + 48) as char;
    assert(c == digit((n % 10) as nat));
    out.push(c);
    assert(decimal(n as nat) == if n < 10 {
        seq![digit(n as nat)]
    } else {
        decimal((n / 10) as nat).push(digit((n % 10) as nat))
    });
}

/// The file name tried at attempt `index` (counting from 1): `slug.ext` first,
/// then `slug-2.ext`, `slug-3.ext`, and so on.
pub open spec fn candidate_name(slug: Seq<char>, ext: Seq<char>, index: nat) -> Seq<char> {
    if index <= 1 {
        slug + seq!['.'] + ext
    } else {
        slug + seq!['-'] + decimal(index) + seq!['.'] + ext
    }
}

pub open spec fn notes_subdir() -> Seq<char> {
    seq!['n', 'o', 't', 'e', 's']
}

/// The directory of a vault that holds its notes.
pub open spec fn notes_dir(vault: Seq<char>) -> Seq<char> {
    join(vault, notes_subdir())
}

pub open spec fn latex_template(title: Seq<char>) -> Seq<char> {
    "\\documentclass{article}\n\\usepackage{amsmath,amssymb,amsthm}\n\n\\title{"@ + title
        + "}\n\\begin{document}\n\\maketitle\n\n% Write your theorem / derivation here\n\n\\end{document}\n"@
}

pub open spec fn typst_template(title: Seq<char>) -> Seq<char> {
    "#set document(title: \""@ + title + "\")\n\n= "@ + title
        + "\n\n// Write your theorem / derivation here\n"@
}

/// The first text of a new note titled `title`.
pub open spec fn template(title: Seq<char>, engine: NoteEngine) -> Seq<char> {
    match engine {
        NoteEngine::Latex => latex_template(title),
        NoteEngine::Typst => typst_template(title),
    }
}

/// The starting text of a new note: a minimal document of the engine that
/// carries `title`.
pub fn note_template(title: &str, engine: NoteEngine) -> (r: String)
    ensures
        r@ == template(title@, engine),
{
    match engine {
        NoteEngine::Latex => {
            let mut s = String::from_str(
                "\\documentclass{article}\n\\usepackage{amsmath,amssymb,amsthm}\n\n\\title{",
            );
            s.append(title);
            s.append(
                "}\n\\begin{document}\n\\maketitle\n\n% Write your theorem / derivation here\n\n\\end{document}\n",
            );
            s
        },
        NoteEngine::Typst => {
            let mut s = String::from_str("#set document(title: \"");
            s.append(title);
            s.append("\")\n\n= ");
            s.append(title);
            s.append("\n\n// Write your theorem / derivation here\n");
            s
        },
    }
}

/// The directory under `vault_path` that holds the notes.
pub fn notes_dir_of(vault_path: &str) -> (r: String)
    ensures
        r@ == notes_dir(vault_path@),
{
    proof {
        reveal_strlit("notes");
    }
    assert("notes"@ =~= notes_subdir());
    join_path(vault_path, "notes")
}

/// A note being created: its title and slug are fixed, and `index` counts
/// the file names tried so far. Storage answers, for each name, whether it
/// is taken.
pub struct NoteCreation {
    pub notes_dir: String,
    pub title: String,
    pub slug: String,
    pub engine: NoteEngine,
    pub index: usize,
}

impl NoteCreation {
    pub open spec fn wf(&self) -> bool {
        self.index >= 1 && self.slug@ == slug(self.title@)
    }

    /// The path that attempt `self.index` tries.
    pub open spec fn candidate_spec(&self) -> Seq<char> {
        join(self.notes_dir@, candidate_name(self.slug@, ext_for(self.engine), self.index as nat))
    }

    /// The path to try next.
    pub fn candidate(&self) -> (r: String)
        requires
            self.wf(),
        ensures
            r@ == self.candidate_spec(),
    {
        let mut name = String::from_str(self.slug.as_str());
        if self.index >= 2 {
            name.push('-');
            push_decimal(&mut name, self.index);
        }
        name.push('.');
        name.append(self.engine.extension());
        proof {
            let ext = ext_for(self.engine);
            if self.index >= 2 {
                assert(name@ =~= self.slug@ + seq!['-'] + decimal(self.index as nat) + seq!['.']
                    + ext);
            } else {
                assert(name@ =~= self.slug@ + seq!['.'] + ext);
            }
        }
        join_path(self.notes_dir.as_str(), name.as_str())
    }

    /// Takes storage's answer on whether the current candidate is taken. A
    /// taken name moves on to the next attempt and gives `None`; a free one
    /// is the path to write the note to.
    pub fn on_probe(&mut self, taken: bool) -> (r: Option<String>)
        requires
            old(self).wf(),
            old(self).index < usize::MAX,
        ensures
            final(self).wf(),
            taken ==> (r is None) && final(self).index == old(self).index + 1,
            taken ==> final(self).notes_dir == old(self).notes_dir && final(self).title == old(
                self,
            ).title && final(self).slug == old(self).slug && final(self).engine == old(self).engine,
            !taken ==> *final(self) == *old(self),
            !taken ==> (r matches Some(p) && p@ == old(self).candidate_spec()),
    {
        if taken {
            self.index = self.index + 1;
            None
        } else {
            Some(self.candidate())
        }
    }

    /// The text that the new note starts with.
    pub fn content(&self) -> (r: String)
        ensures
            r@ == template(self.title@, self.engine),
    {
        note_template(self.title.as_str(), self.engine)
    }
}

/// Starts creating a note titled `title` (trimmed) in the vault at
/// `vault_path`. A title that is empty after trimming is refused.
pub fn create_note(vault_path: &str, title: &str, engine: NoteEngine) -> (r: AppResult<
    NoteCreation,
>)
    ensures
        trim_ws(title@).len() == 0 <==> r is Err,
        r matches Err(e) ==> e matches AppError::InvalidInput(m) && m@
            == "title must not be empty"@,
        r matches Ok(c) ==> c.wf() && c.index == 1 && c.notes_dir@ == notes_dir(vault_path@)
            && c.title@ == trim_ws(title@) && c.slug@ == slug(trim_ws(title@)) && c.engine
            == engine,
{
    let clean = trim(title);
    if clean.unicode_len() == 0 {
        return Err(AppError::InvalidInput(String::from_str("title must not be empty")));
    }
    Ok(
        NoteCreation {
            notes_dir: notes_dir_of(vault_path),
            title: String::from_str(clean),
            slug: slugify(clean),
            engine,
            index: 1,
        },
    )
}

/// Two creations of the same title in the same vault get different files:
/// when the first has taken the plain name, the second's next attempt is the
/// name suffixed `-2`, and no two attempts of one creation share a path.
pub proof fn lemma_creation_unique(c: NoteCreation, i: nat, j: nat)
    requires
        i >= 1,
        j >= 1,
        i != j,
    ensures
        join(c.notes_dir@, candidate_name(c.slug@, ext_for(c.engine), i)) != join(
            c.notes_dir@,
            candidate_name(c.slug@, ext_for(c.engine), j),
        ),
        candidate_name(c.slug@, ext_for(c.engine), 2) == c.slug@ + seq!['-', '2', '.']
            + ext_for(c.engine),
{
    let d = c.notes_dir@;
    let s = c.slug@;
    let e = ext_for(c.engine);
    let a = candidate_name(s, e, i);
    let b = candidate_name(s, e, j);
    assert(decimal(2) =~= seq!['2']);
    assert(s + seq!['-'] + decimal(2) + seq!['.'] + e =~= s + seq!['-', '2', '.'] + e);
    if join(d, a) == join(d, b) {
        let pre = join(d, Seq::empty()).len();
        assert(join(d, a) =~= join(d, Seq::empty()) + a);
        assert(join(d, b) =~= join(d, Seq::empty()) + b);
        assert(a =~= join(d, a).subrange(pre as int, join(d, a).len() as int));
        assert(b =~= join(d, b).subrange(pre as int, join(d, b).len() as int));
        lemma_decimal_len(i);
        lemma_decimal_len(j);
        if i >= 2 && j >= 2 {
            let k = s.len() + 1;
            assert(decimal(i) =~= a.subrange(k as int, a.len() - e.len() - 1));
            assert(decimal(j) =~= b.subrange(k as int, b.len() - e.len() - 1));
            lemma_decimal_injective(i, j);
        } else {
            assert(a.len() != b.len());
        }
    }
}

/// What `read_note` returns for `path`, given the text storage read (`None`
/// when no file is there).
pub open spec fn read_post(
    path: Seq<char>,
    loaded: Option<Seq<char>>,
    r: AppResult<NoteDocument>,
) -> bool {
    match loaded {
        None => r matches Err(AppError::NotFound(m)) && m@ == "note does not exist: "@ + path,
        Some(c) => document_post(path, c, r),
    }
}

/// What `save_note` decides for `path`, given whether a file is there.
pub open spec fn save_post(path: Seq<char>, exists: bool, r: AppResult<()>) -> bool {
    if exists {
        r is Ok
    } else {
        r matches Err(AppError::NotFound(m)) && m@ == "note does not exist: "@ + path
    }
}

fn missing_note(path: &str) -> (r: AppError)
    ensures
        r matches AppError::NotFound(m) && m@ == "note does not exist: "@ + path@,
{
    let mut m = String::from_str("note does not exist: ");
    m.append(path);
    AppError::NotFound(m)
}

/// The note at `path`, given what storage read there (`None`: no such file).
pub fn read_note(path: &str, loaded: Option<String>) -> (r: AppResult<NoteDocument>)
    ensures
        read_post(
            path@,
            match loaded {
                Some(c) => Some(c@),
                None => None,
            },
            r,
        ),
{
    match loaded {
        None => Err(missing_note(path)),
        Some(content) => to_note_document(path, content),
    }
}

/// Whether the note at `path` may be overwritten: saving never creates a
/// note, so a path with no file is refused.
pub fn save_note(path: &str, exists: bool) -> (r: AppResult<()>)
    ensures
        save_post(path@, exists, r),
{
    if exists {
        Ok(())
    } else {
        Err(missing_note(path))
    }
}

/// Saving to a path with no note fails as not found. Saving to a note's path
/// is allowed, and reading that path back once it holds `content` gives
/// `content` verbatim.
pub proof fn lemma_save_then_read(
    path: Seq<char>,
    content: Seq<char>,
    missing: AppResult<()>,
    saved: AppResult<()>,
    read: AppResult<NoteDocument>,
)
    requires
        engine_of_path(path) is Some,
        save_post(path, false, missing),
        save_post(path, true, saved),
        read_post(path, Some(content), read),
    ensures
        missing matches Err(AppError::NotFound(_)),
        saved is Ok,
        read matches Ok(d) && d.content@ == content && d.path@ == path,
{
}

/// The PDF beside the note at `path`, given whether storage has a file at
/// `pdf_path_for(path)`.
pub fn resolve_pdf_preview(path: &str, pdf_exists: bool) -> (r: Option<String>)
    ensures
        r matches Some(p) ==> pdf_exists && pdf_sibling(path@) == Some(p@),
        r is None ==> !pdf_exists || pdf_sibling(path@) is None,
{
    if pdf_exists {
        pdf_path_for(path)
    } else {
        None
    }
}

} // verus!
