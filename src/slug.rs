//! Titles turned into file-system-safe names.
use vstd::prelude::*;

use crate::text::{is_alnum, is_alphanumeric, is_whitespace, is_ws, lower, to_lower};

verus! {

/// Characters that become a single hyphen in a slug.
pub open spec fn is_sep(c: char) -> bool {
    is_ws(c) || c == '-' || c == '_'
}

/// The slug before its ends are trimmed: ASCII letters and digits lowered and
/// kept, a separator turned into a hyphen unless one is already last, all else dropped.
pub open spec fn slug_draft(s: Seq<char>) -> Seq<char>
    decreases s.len(),
{
    if s.len() == 0 {
        Seq::empty()
    } else {
        let d = slug_draft(s.drop_last());
        let c = s.last();
        if is_alnum(c) {
            d.push(lower(c))
        } else if is_sep(c) && !(d.len() > 0 && d.last() == '-') {
            d.push('-')
        } else {
            d
        }
    }
}

/// `s` without its leading hyphens.
pub open spec fn strip_start(s: Seq<char>) -> Seq<char>
    decreases s.len(),
{
    if s.len() > 0 && s[0] == '-' {
        strip_start(s.subrange(1, s.len() as int))
    } else {
        s
    }
}

/// `s` without its trailing hyphens.
pub open spec fn strip_end(s: Seq<char>) -> Seq<char>
    decreases s.len(),
{
    if s.len() > 0 && s.last() == '-' {
        strip_end(s.drop_last())
    } else {
        s
    }
}

pub open spec fn fallback_slug() -> Seq<char> {
    seq!['n', 'o', 't', 'e']
}

/// The slug of a title: the draft with hyphens trimmed from both ends, or
/// `note` when nothing is left.
pub open spec fn slug(s: Seq<char>) -> Seq<char> {
    let core = strip_end(strip_start(slug_draft(s)));
    if core.len() == 0 {
        fallback_slug()
    } else {
        core
    }
}

pub open spec fn slug_char(c: char) -> bool {
    ('a' <= c && c <= 'z') || ('0' <= c && c <= '9') || c == '-'
}

/// Non-empty, made of `[a-z0-9-]` only, with no hyphen at either end and no
/// two hyphens in a row.
pub open spec fn well_formed_slug(s: Seq<char>) -> bool {
    &&& s.len() > 0
    &&& forall|i: int| 0 <= i < s.len() ==> slug_char(#[trigger] s[i])
    &&& s[0] != '-'
    &&& s.last() != '-'
    &&& forall|i: int| 0 <= i < s.len() - 1 ==> !(#[trigger] s[i] == '-' && s[i + 1] == '-')
}

proof fn lemma_draft(s: Seq<char>)
    ensures
        forall|i: int| 0 <= i < slug_draft(s).len() ==> slug_char(#[trigger] slug_draft(s)[i]),
        forall|i: int|
            0 <= i < slug_draft(s).len() - 1 ==> !(#[trigger] slug_draft(s)[i] == '-' && slug_draft(
                s,
            )[i + 1] == '-'),
        (forall|i: int| 0 <= i < s.len() ==> !is_alnum(#[trigger] s[i])) ==> forall|i: int|
            0 <= i < slug_draft(s).len() ==> #[trigger] slug_draft(s)[i] == '-',
    decreases s.len(),
{
    if s.len() > 0 {
        let t = s.drop_last();
        lemma_draft(t);
        let d = slug_draft(t);
        let r = slug_draft(s);
        let c = s.last();
        assert(slug_char(lower(c)) || !is_alnum(c)) by {
            if 'A' <= c && c <= 'Z' {
                assert('a' <= ((c as u32) + 32) as char && ((c as u32) + 32) as char <= 'z');
            }
        }
        assert forall|i: int| 0 <= i < r.len() implies slug_char(#[trigger] r[i]) by {
            if i < d.len() {
                assert(r[i] == d[i]);
            }
        }
        assert forall|i: int| 0 <= i < r.len() - 1 implies !(#[trigger] r[i] == '-' && r[i + 1]
            == '-') by {
            assert(r[i] == d[i]);
            if i + 1 < d.len() {
                assert(r[i + 1] == d[i + 1]);
            }
        }
        if forall|i: int| 0 <= i < s.len() ==> !is_alnum(#[trigger] s[i]) {
            assert forall|i: int| 0 <= i < t.len() implies !is_alnum(#[trigger] t[i]) by {
                assert(t[i] == s[i]);
            }
        }
    }
}

proof fn lemma_strip_start(s: Seq<char>)
    ensures
        strip_start(s).len() <= s.len(),
        strip_start(s).len() > 0 ==> strip_start(s)[0] != '-',
        forall|i: int|
            0 <= i < strip_start(s).len() ==> #[trigger] strip_start(s)[i] == s[i + s.len()
                - strip_start(s).len()],
        (forall|i: int| 0 <= i < s.len() ==> #[trigger] s[i] == '-') ==> strip_start(s).len() == 0,
    decreases s.len(),
{
    if s.len() > 0 && s[0] == '-' {
        lemma_strip_start(s.subrange(1, s.len() as int));
    }
}

proof fn lemma_strip_end(s: Seq<char>)
    ensures
        strip_end(s).len() <= s.len(),
        strip_end(s).len() > 0 ==> strip_end(s).last() != '-',
        forall|i: int| 0 <= i < strip_end(s).len() ==> #[trigger] strip_end(s)[i] == s[i],
        strip_end(s).len() == 0 ==> s.len() == 0 || s[0] == '-',
    decreases s.len(),
{
    if s.len() > 0 && s.last() == '-' {
        lemma_strip_end(s.drop_last());
    }
}

/// Every slug is well formed, and a title without ASCII letters or digits
/// (the empty one included) gets the slug `note`. Being a function of the
/// title alone, the slug is the same on every call.
pub proof fn lemma_slug_well_formed(s: Seq<char>)
    ensures
        well_formed_slug(slug(s)),
        (forall|i: int| 0 <= i < s.len() ==> !is_alnum(#[trigger] s[i])) ==> slug(s)
            == fallback_slug(),
{
    let d = slug_draft(s);
    lemma_draft(s);
    lemma_strip_start(d);
    let a = strip_start(d);
    lemma_strip_end(a);
    let core = strip_end(a);
    let off = d.len() - a.len();
    if core.len() > 0 {
        assert forall|i: int| 0 <= i < core.len() implies slug_char(#[trigger] core[i]) by {
            assert(core[i] == a[i]);
            assert(a[i] == d[i + off]);
        }
        assert forall|i: int| 0 <= i < core.len() - 1 implies !(#[trigger] core[i] == '-' && core[i
            + 1] == '-') by {
            assert(core[i] == d[i + off]);
            assert(core[i + 1] == d[i + 1 + off]);
        }
        assert(core[0] == a[0]);
    } else {
        let f = fallback_slug();
        assert(f[0] == 'n' && f[1] == 'o' && f[2] == 't' && f[3] == 'e');
        assert(forall|i: int| 0 <= i < f.len() ==> slug_char(#[trigger] f[i]));
    }
}

fn ends_with_hyphen(s: &String) -> (r: bool)
    ensures
        r == (s@.len() > 0 && s@.last() == '-'),
{
    let n: usize = s.as_str().unicode_len();
    n > 0 && s.as_str().get_char(n - 1) == '-'
}

/// The slug of `title`: lower-case ASCII letters and digits, single hyphens
/// between words, `note` when nothing usable is left.
pub fn slugify(title: &str) -> (r: String)
    ensures
        r@ == slug(title@),
{
    let n: usize = title.unicode_len();
    let mut out = String::new();
    let mut i: usize = 0;
    while i < n
        invariant
            n == title@.len(),
            i <= n,
            out@ == slug_draft(title@.subrange(0, i as int)),
        decreases n - i,
    {
        let c = title.get_char(i);
        assert(title@.subrange(0, i + 1).drop_last() =~= title@.subrange(0, i as int));
        if is_alphanumeric(c) {
            out.push(to_lower(c));
        } else if (is_whitespace(c) || c == '-' || c == '_') && !ends_with_hyphen(&out) {
            out.push('-');
        }
        i = i + 1;
    }
    assert(title@.subrange(0, n as int) =~= title@);
    let d = out.as_str();
    let mut a: usize = 0;
    let m: usize = d.unicode_len();
    assert(d@.subrange(0, m as int) =~= d@);
    while a < m && d.get_char(a) == '-'
        invariant
            m == d@.len(),
            a <= m,
            strip_start(d@) == strip_start(d@.subrange(a as int, m as int)),
        decreases m - a,
    {
        assert(d@.subrange(a as int, m as int).subrange(1, (m - a) as int) =~= d@.subrange(
            a + 1,
            m as int,
        ));
        a = a + 1;
    }
    assert(d@.subrange(a as int, m as int) =~= strip_start(d@));
    let mut b: usize = m;
    while b > a && d.get_char(b - 1) == '-'
        invariant
            m == d@.len(),
            a <= b <= m,
            strip_start(d@) == d@.subrange(a as int, m as int),
            strip_end(strip_start(d@)) == strip_end(d@.subrange(a as int, b as int)),
        decreases b - a,
    {
        assert(d@.subrange(a as int, b as int).drop_last() =~= d@.subrange(a as int, b - 1));
        b = b - 1;
    }
    if a == b {
        proof {
            reveal_strlit("note");
        }
        assert("note"@ =~= fallback_slug());
        String::from_str("note")
    } else {
        String::from_str(d.substring_char(a, b))
    }
}

} // verus!
