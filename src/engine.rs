use vstd::prelude::*;

use crate::errors::AppError;
use crate::paths::{
    extension, ext_of, file_name, last_index, lemma_last_index, lemma_last_index_append,
    names_file, path_ext,
};
use crate::text::{lower, lower_seq, to_lower, trim, trim_ws};

verus! {

/// The markup dialect a note is written in.
#[derive(Debug, Clone, Copy, PartialEq, Eq)]
pub enum NoteEngine {
    Latex,
    Typst,
}

/// The file extension that stores notes of engine `e`.
pub open spec fn ext_for(e: NoteEngine) -> Seq<char> {
    match e {
        NoteEngine::Latex => seq!['t', 'e', 'x'],
        NoteEngine::Typst => seq!['t', 'y', 'p'],
    }
}

/// The engine that an extension stands for, compared without regard to ASCII case.
pub open spec fn engine_of_ext(ext: Seq<char>) -> Option<NoteEngine> {
    if lower_seq(ext) == ext_for(NoteEngine::Latex) {
        Some(NoteEngine::Latex)
    } else if lower_seq(ext) == ext_for(NoteEngine::Typst) {
        Some(NoteEngine::Typst)
    } else {
        None
    }
}

/// The engine of the note stored at `p`, if `p` is a note at all.
pub open spec fn engine_of_path(p: Seq<char>) -> Option<NoteEngine> {
    match path_ext(p) {
        Some(e) => engine_of_ext(e),
        None => None,
    }
}

/// The engine that a user-supplied name stands for, ignoring surrounding
/// whitespace and ASCII case.
pub open spec fn engine_of_name(raw: Seq<char>) -> Option<NoteEngine> {
    if lower_seq(trim_ws(raw)) == seq!['l', 'a', 't', 'e', 'x'] {
        Some(NoteEngine::Latex)
    } else if lower_seq(trim_ws(raw)) == seq!['t', 'y', 'p', 's', 't'] {
        Some(NoteEngine::Typst)
    } else {
        None
    }
}

/// Whether `s`, with its ASCII capitals lowered, equals `t`.
pub fn lower_eq(s: &str, t: &str) -> (r: bool)
    ensures
        r == (lower_seq(s@) == t@),
{
    let n: usize = s.unicode_len();
    if n != t.unicode_len() {
        return false;
    }
    let mut i: usize = 0;
    while i < n
        invariant
            n == s@.len() == t@.len(),
            i <= n,
            forall|k: int| 0 <= k < i ==> lower(s@[k]) == t@[k],
        decreases n - i,
    {
        if to_lower(s.get_char(i)) != t.get_char(i) {
            assert(lower_seq(s@)[i as int] != t@[i as int]);
            return false;
        }
        i = i + 1;
    }
    assert(lower_seq(s@) =~= t@);
    true
}

impl NoteEngine {
    /// The extension under which notes of this engine are stored.
    pub fn extension(&self) -> (r: &'static str)
        ensures
            r@ == ext_for(*self),
    {
        match self {
            NoteEngine::Latex => {
                proof {
                    reveal_strlit("tex");
                }
                "tex"
            },
            NoteEngine::Typst => {
                proof {
                    reveal_strlit("typ");
                }
                "typ"
            },
        }
    }

    /// The engine of the note stored at `path`; `None` when its extension is
    /// neither of the two known ones, or when it has none.
    pub fn from_path(path: &str) -> (r: Option<NoteEngine>)
        ensures
            r == engine_of_path(path@),
    {
        match extension(path) {
            None => None,
            Some(ext) => {
                proof {
                    reveal_strlit("tex");
                    reveal_strlit("typ");
                }
                assert("tex"@ =~= ext_for(NoteEngine::Latex));
                assert("typ"@ =~= ext_for(NoteEngine::Typst));
                if lower_eq(ext, "tex") {
                    Some(NoteEngine::Latex)
                } else if lower_eq(ext, "typ") {
                    Some(NoteEngine::Typst)
                } else {
                    None
                }
            },
        }
    }
}

/// Reads a user-supplied engine name; anything but `latex` or `typst`
/// (after trimming, in any ASCII case) is rejected.
pub fn parse_engine(raw: &str) -> (r: Result<NoteEngine, AppError>)
    ensures
        match r {
            Ok(e) => engine_of_name(raw@) == Some(e),
            Err(err) => engine_of_name(raw@) is None && err == AppError::InvalidInput(
                err->InvalidInput_0,
            ) && err->InvalidInput_0@ == "unsupported engine: "@ + raw@,
        },
{
    let name = trim(raw);
    proof {
        reveal_strlit("latex");
        reveal_strlit("typst");
    }
    assert("latex"@ =~= seq!['l', 'a', 't', 'e', 'x']);
    assert("typst"@ =~= seq!['t', 'y', 'p', 's', 't']);
    if lower_eq(name, "latex") {
        Ok(NoteEngine::Latex)
    } else if lower_eq(name, "typst") {
        Ok(NoteEngine::Typst)
    } else {
        let mut msg = String::from_str("unsupported engine: ");
        msg.append(raw);
        Err(AppError::InvalidInput(msg))
    }
}

/// Storing a note under the extension of its engine lets the engine be read
/// back from the path: for any base path that does not end in a separator,
/// the base followed by `.` and the engine's extension is classified as that
/// engine.
pub proof fn lemma_extension_round_trip(base: Seq<char>, e: NoteEngine)
    requires
        base.len() > 0,
        base.last() != '/',
    ensures
        engine_of_path(base + seq!['.'] + ext_for(e)) == Some(e),
{
    let ext = ext_for(e);
    let tail = seq!['.'] + ext;
    let p = base + tail;
    assert(base + seq!['.'] + ext =~= p);
    assert(forall|k: int| 0 <= k < tail.len() ==> tail[k] != '/');
    lemma_last_index_append(base, tail, '/');
    lemma_last_index(base, '/');
    let s = last_index(base, '/') + 1;
    let stem = base.subrange(s, base.len() as int);
    assert(file_name(p) =~= stem + tail);
    assert(forall|k: int| 0 <= k < ext.len() ==> ext[k] != '.');
    lemma_last_index_append(stem + seq!['.'], ext, '.');
    assert(stem + seq!['.'] + ext =~= stem + tail);
    assert(stem.len() > 0);
    assert(last_index(stem + seq!['.'], '.') == stem.len());
    assert(names_file(file_name(p))) by {
        assert(file_name(p).len() >= 4);
    }
    assert(ext_of(file_name(p)) == Some(ext)) by {
        assert(file_name(p).subrange(stem.len() + 1 as int, file_name(p).len() as int) =~= ext);
    }
    assert(lower_seq(ext) =~= ext);
}

} // verus!
