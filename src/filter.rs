//! Extension filters of the form `*`, `*.*` or `*.<ext>`.
use vstd::prelude::*;
use vstd::string::*;

verus! {

/// The view of an optional string.
pub open spec fn opt_view(o: Option<String>) -> Option<Seq<char>> {
    match o {
        Some(s) => Some(s@),
        None => None,
    }
}

/// True when `s` begins with the two characters `*.`.
pub open spec fn starts_with_star_dot(s: Seq<char>) -> bool {
    s.len() >= 2 && s[0] == '*' && s[1] == '.'
}

/// `s` with every leading repetition of `*.` removed.
pub open spec fn strip_star_dots(s: Seq<char>) -> Seq<char>
    decreases s.len(),
{
    if starts_with_star_dot(s) {
        strip_star_dots(s.skip(2))
    } else {
        s
    }
}

/// The extension that a filter asks for; `None` when the filter matches every file.
pub open spec fn wanted_ext(filter: Seq<char>) -> Option<Seq<char>> {
    if filter == seq!['*'] || filter == seq!['*', '.', '*'] {
        None
    } else if starts_with_star_dot(filter) {
        Some(strip_star_dots(filter))
    } else {
        None
    }
}

/// The code of `c` once ASCII upper case is folded to lower case.
pub open spec fn fold_char(c: char) -> int {
    if 'A' <= c && c <= 'Z' {
        (c as u32) + 32
    } else {
        c as u32 as int
    }
}

/// ASCII case-insensitive equality of two character sequences.
pub open spec fn eq_ignore_ascii_case(a: Seq<char>, b: Seq<char>) -> bool {
    a.len() == b.len() && forall|i: int| 0 <= i < a.len() ==> #[trigger] fold_char(a[i]) == fold_char(b[i])
}

/// Whether a file with extension `ext` passes a filter whose wanted extension is `want`.
pub open spec fn ext_passes(want: Option<Seq<char>>, ext: Option<Seq<char>>) -> bool {
    match want {
        None => true,
        Some(w) => match ext {
            Some(e) => eq_ignore_ascii_case(e, w),
            None => false,
        },
    }
}

/// Whether a file with extension `ext` passes `filter`.
pub open spec fn file_passes(filter: Seq<char>, ext: Option<Seq<char>>) -> bool {
    ext_passes(wanted_ext(filter), ext)
}

fn fold_exec(c: char) -> (r: u32)
    ensures
        r as int == fold_char(c),
{
    if 'A' <= c && c <= 'Z' {
        (c as u32) + 32
    } else {
        c as u32
    }
}

/// ASCII case-insensitive comparison of two strings.
pub fn same_ignoring_ascii_case(a: &str, b: &str) -> (r: bool)
    ensures
        r == eq_ignore_ascii_case(a@, b@),
{
    let n = a.unicode_len();
    let m = b.unicode_len();
    if n != m {
        return false;
    }
    let mut i: usize = 0;
    while i < n
        invariant
            n == a@.len(),
            m == b@.len(),
            n == m,
            i <= n,
            forall|j: int| 0 <= j < i ==> #[trigger] fold_char(a@[j]) == fold_char(b@[j]),
        decreases n - i,
    {
        if fold_exec(a.get_char(i)) != fold_exec(b.get_char(i)) {
            return false;
        }
        i = i + 1;
    }
    true
}

/// The extension that `filter` asks for, or `None` when it matches every file.
pub fn wanted_extension(filter: &str) -> (r: Option<String>)
    ensures
        opt_view(r) == wanted_ext(filter@),
{
    let n = filter.unicode_len();
    if n == 1 && filter.get_char(0) == '*' {
        assert(filter@ =~= seq!['*']);
        return None;
    }
    if n == 3 && filter.get_char(0) == '*' && filter.get_char(1) == '.' && filter.get_char(2) == '*' {
        assert(filter@ =~= seq!['*', '.', '*']);
        return None;
    }
    if !(n >= 2 && filter.get_char(0) == '*' && filter.get_char(1) == '.') {
        assert(!(filter@ =~= seq!['*']));
        assert(!(filter@ =~= seq!['*', '.', '*']));
        return None;
    }
    let mut i: usize = 0;
    assert(filter@.skip(0) =~= filter@);
    while i < n && n - i >= 2 && filter.get_char(i) == '*' && filter.get_char(i + 1) == '.'
        invariant
            n == filter@.len(),
            i <= n,
            strip_star_dots(filter@) == strip_star_dots(filter@.skip(i as int)),
        decreases n - i,
    {
        assert(starts_with_star_dot(filter@.skip(i as int)));
        assert(filter@.skip(i as int).skip(2) =~= filter@.skip(i + 2));
        i = i + 2;
    }
    assert(!starts_with_star_dot(filter@.skip(i as int)));
    let rest = filter.substring_char(i, n);
    assert(rest@ =~= filter@.skip(i as int));
    Some(rest.to_owned())
}

/// Whether a file whose extension is `ext` passes the wanted extension `want`
/// (as [`wanted_extension`] returns it).
pub fn extension_passes(want: &Option<String>, ext: &Option<String>) -> (r: bool)
    ensures
        r == ext_passes(opt_view(*want), opt_view(*ext)),
{
    match want {
        None => true,
        Some(w) => match ext {
            Some(e) => same_ignoring_ascii_case(e.as_str(), w.as_str()),
            None => false,
        },
    }
}

/// Whether a file whose extension is `ext` passes `filter`.
pub fn file_matches(filter: &str, ext: &Option<String>) -> (r: bool)
    ensures
        r == file_passes(filter@, opt_view(*ext)),
{
    let want = wanted_extension(filter);
    extension_passes(&want, ext)
}

} // verus!
