//! Path arithmetic on `/`-separated path strings: the last component, its
//! stem and extension, the directory it stands in, and joining.
use vstd::prelude::*;

verus! {

/// Index of the last occurrence of `c` in `s`, or -1.
pub open spec fn last_index(s: Seq<char>, c: char) -> int
    decreases s.len(),
{
    if s.len() == 0 {
        -1
    } else if s.last() == c {
        s.len() - 1
    } else {
        last_index(s.drop_last(), c)
    }
}

pub proof fn lemma_last_index(s: Seq<char>, c: char)
    ensures
        -1 <= last_index(s, c) < s.len(),
        last_index(s, c) >= 0 ==> s[last_index(s, c)] == c,
        forall|k: int| last_index(s, c) < k < s.len() ==> s[k] != c,
    decreases s.len(),
{
    if s.len() > 0 && s.last() != c {
        lemma_last_index(s.drop_last(), c);
        assert forall|k: int| last_index(s, c) < k < s.len() implies s[k] != c by {
            if k < s.len() - 1 {
                assert(s.drop_last()[k] == s[k]);
            }
        }
    }
}

/// Characters appended after the last `c` leave the last index of `c` in place.
pub proof fn lemma_last_index_append(s: Seq<char>, t: Seq<char>, c: char)
    requires
        forall|k: int| 0 <= k < t.len() ==> t[k] != c,
    ensures
        last_index(s + t, c) == last_index(s, c),
    decreases t.len(),
{
    if t.len() == 0 {
        assert(s + t =~= s);
    } else {
        assert((s + t).drop_last() =~= s + t.drop_last());
        lemma_last_index_append(s, t.drop_last(), c);
    }
}

/// The last component: what follows the last `/`.
pub open spec fn file_name(p: Seq<char>) -> Seq<char> {
    p.subrange(last_index(p, '/') + 1, p.len() as int)
}

/// A last component that names a file: neither empty nor `.` nor `..`.
pub open spec fn names_file(n: Seq<char>) -> bool {
    n.len() > 0 && n != seq!['.'] && n != seq!['.', '.']
}

/// The stem of a file name: all before its last `.`, unless that dot leads the name.
pub open spec fn stem_of(n: Seq<char>) -> Seq<char> {
    if last_index(n, '.') > 0 {
        n.subrange(0, last_index(n, '.'))
    } else {
        n
    }
}

/// The extension of a file name: all after its last `.`, unless that dot leads the name.
pub open spec fn ext_of(n: Seq<char>) -> Option<Seq<char>> {
    if last_index(n, '.') > 0 {
        Some(n.subrange(last_index(n, '.') + 1, n.len() as int))
    } else {
        None
    }
}

pub open spec fn path_stem(p: Seq<char>) -> Option<Seq<char>> {
    if names_file(file_name(p)) {
        Some(stem_of(file_name(p)))
    } else {
        None
    }
}

pub open spec fn path_ext(p: Seq<char>) -> Option<Seq<char>> {
    if names_file(file_name(p)) {
        ext_of(file_name(p))
    } else {
        None
    }
}

/// The directory that the last component stands in: empty for a bare name,
/// `/` for a name right under the root.
pub open spec fn parent_dir(p: Seq<char>) -> Seq<char> {
    if last_index(p, '/') == -1 {
        Seq::empty()
    } else if last_index(p, '/') == 0 {
        seq!['/']
    } else {
        p.subrange(0, last_index(p, '/'))
    }
}

/// `name` placed inside `dir`.
pub open spec fn join(dir: Seq<char>, name: Seq<char>) -> Seq<char> {
    if dir.len() == 0 {
        name
    } else if dir.last() == '/' {
        dir + name
    } else {
        dir + seq!['/'] + name
    }
}

/// The file beside `p` with the same stem and the extension `pdf`.
pub open spec fn pdf_sibling(p: Seq<char>) -> Option<Seq<char>> {
    match path_stem(p) {
        Some(st) => Some(join(parent_dir(p), st + seq!['.', 'p', 'd', 'f'])),
        None => None,
    }
}

/// Position of the last `c` in `s`.
pub fn find_last(s: &str, c: char) -> (r: Option<usize>)
    ensures
        match r {
            Some(i) => i == last_index(s@, c) && i < s@.len(),
            None => last_index(s@, c) == -1,
        },
{
    let n: usize = s.unicode_len();
    let mut j: usize = n;
    assert(s@.subrange(0, n as int) =~= s@);
    while j > 0 && s.get_char(j - 1) != c
        invariant
            n == s@.len(),
            j <= n,
            last_index(s@, c) == last_index(s@.subrange(0, j as int), c),
        decreases j,
    {
        assert(s@.subrange(0, j as int).drop_last() =~= s@.subrange(0, j - 1));
        j = j - 1;
    }
    if j == 0 {
        None
    } else {
        Some(j - 1)
    }
}

/// The last component of `path`, when it names a file.
pub fn file_name_of(path: &str) -> (r: Option<&str>)
    ensures
        match r {
            Some(n) => names_file(file_name(path@)) && n@ == file_name(path@),
            None => !names_file(file_name(path@)),
        },
{
    proof {
        lemma_last_index(path@, '/');
    }
    let plen: usize = path.unicode_len();
    let start: usize = match find_last(path, '/') {
        Some(k) => k + 1,
        None => 0,
    };
    let name = path.substring_char(start, plen);
    let len: usize = name.unicode_len();
    if len == 0 {
        return None;
    }
    let c0 = name.get_char(0);
    if len == 1 && c0 == '.' {
        assert(name@ =~= seq!['.']);
        return None;
    }
    if len == 2 && c0 == '.' && name.get_char(1) == '.' {
        assert(name@ =~= seq!['.', '.']);
        return None;
    }
    assert(name@ != seq!['.'] && name@ != seq!['.', '.']) by {
        if len == 1 {
            assert(seq!['.'][0] == '.');
        }
        if len == 2 {
            assert(seq!['.', '.'][0] == '.' && seq!['.', '.'][1] == '.');
        }
    }
    Some(name)
}

/// The stem of the file that `path` names.
pub fn file_stem(path: &str) -> (r: Option<&str>)
    ensures
        r matches Some(s) ==> path_stem(path@) == Some(s@),
        r is None ==> path_stem(path@) is None,
{
    match file_name_of(path) {
        None => None,
        Some(name) => {
            proof {
                lemma_last_index(name@, '.');
            }
            match find_last(name, '.') {
                Some(d) => {
                    if d > 0 {
                        Some(name.substring_char(0, d))
                    } else {
                        Some(name)
                    }
                },
                None => Some(name),
            }
        },
    }
}

/// The extension of the file that `path` names.
pub fn extension(path: &str) -> (r: Option<&str>)
    ensures
        r matches Some(s) ==> path_ext(path@) == Some(s@),
        r is None ==> path_ext(path@) is None,
{
    match file_name_of(path) {
        None => None,
        Some(name) => {
            proof {
                lemma_last_index(name@, '.');
            }
            let nlen: usize = name.unicode_len();
            match find_last(name, '.') {
                Some(d) => {
                    if d > 0 {
                        Some(name.substring_char(d + 1, nlen))
                    } else {
                        None
                    }
                },
                None => None,
            }
        },
    }
}

/// The directory that the last component of `path` stands in.
pub fn parent_of(path: &str) -> (r: &str)
    ensures
        r@ == parent_dir(path@),
{
    proof {
        lemma_last_index(path@, '/');
    }
    match find_last(path, '/') {
        None => path.substring_char(0, 0),
        Some(k) => {
            if k == 0 {
                path.substring_char(0, 1)
            } else {
                path.substring_char(0, k)
            }
        },
    }
}

/// A new string holding `a` followed by `b`.
pub fn concat(a: &str, b: &str) -> (r: String)
    ensures
        r@ == a@ + b@,
{
    let mut s = String::from_str(a);
    s.append(b);
    s
}

/// The path of `name` inside `dir`.
pub fn join_path(dir: &str, name: &str) -> (r: String)
    ensures
        r@ == join(dir@, name@),
{
    let n: usize = dir.unicode_len();
    if n == 0 {
        String::from_str(name)
    } else if dir.get_char(n - 1) == '/' {
        concat(dir, name)
    } else {
        let mut s = String::from_str(dir);
        s.append("/");
        s.append(name);
        proof {
            reveal_strlit("/");
        }
        s
    }
}

/// The path of the PDF beside the note at `path`, when `path` names a file.
pub fn pdf_path_for(path: &str) -> (r: Option<String>)
    ensures
        r matches Some(s) ==> pdf_sibling(path@) == Some(s@),
        r is None ==> pdf_sibling(path@) is None,
{
    match file_stem(path) {
        None => None,
        Some(stem) => {
            let name = concat(stem, ".pdf");
            proof {
                reveal_strlit(".pdf");
            }
            assert(".pdf"@ =~= seq!['.', 'p', 'd', 'f']);
            Some(join_path(parent_of(path), name.as_str()))
        },
    }
}

} // verus!
