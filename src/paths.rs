//! Portfolio file names: the file name and stem of a path written as text
//! (with `/` as the separator), and the name of a new portfolio's file.
use vstd::prelude::*;

use crate::text::{chars_of, push_char};

verus! {

/// The characters after the last `/` of `p` (all of `p` if it has none).
pub open spec fn tail_segment(p: Seq<char>) -> Seq<char>
    decreases p.len(),
{
    if p.len() == 0 || p.last() == '/' {
        Seq::empty()
    } else {
        tail_segment(p.drop_last()).push(p.last())
    }
}

/// The last component of the path `p`, if it is a name: separators at the
/// end and `.` components are skipped, and a last component `..`, or none at
/// all, gives no name.
pub open spec fn file_name_of(p: Seq<char>) -> Option<Seq<char>>
    decreases p.len(),
{
    if p.len() == 0 {
        None
    } else if p.last() == '/' {
        file_name_of(p.drop_last())
    } else {
        let seg = tail_segment(p);
        if seg == seq!['.'] {
            file_name_of(p.subrange(0, p.len() - 1))
        } else if seg == seq!['.', '.'] {
            None
        } else {
            Some(seg)
        }
    }
}

/// The position of the last `.` in `s`, or -1.
pub open spec fn last_dot(s: Seq<char>) -> int
    decreases s.len(),
{
    if s.len() == 0 {
        -1
    } else if s.last() == '.' {
        s.len() - 1
    } else {
        last_dot(s.drop_last())
    }
}

/// A file name without its extension: the part before the last `.`, or the
/// whole name if it has no `.` other than a leading one.
pub open spec fn stem_of(name: Seq<char>) -> Seq<char> {
    if last_dot(name) <= 0 {
        name
    } else {
        name.subrange(0, last_dot(name))
    }
}

/// The stem of the path `p`'s file name, if it has one.
pub open spec fn file_stem_of(p: Seq<char>) -> Option<Seq<char>> {
    match file_name_of(p) {
        Some(name) => Some(stem_of(name)),
        None => None,
    }
}

/// The characters with Unicode's White_Space property.
pub open spec fn is_white_space(c: char) -> bool {
    ||| '\u{9}' <= c <= '\u{d}'
    ||| c == ' '
    ||| c == '\u{85}'
    ||| c == '\u{a0}'
    ||| c == '\u{1680}'
    ||| '\u{2000}' <= c <= '\u{200a}'
    ||| c == '\u{2028}'
    ||| c == '\u{2029}'
    ||| c == '\u{202f}'
    ||| c == '\u{205f}'
    ||| c == '\u{3000}'
}

/// `s` without its leading white space.
pub open spec fn trim_start(s: Seq<char>) -> Seq<char>
    decreases s.len(),
{
    if s.len() > 0 && is_white_space(s[0]) {
        trim_start(s.drop_first())
    } else {
        s
    }
}

/// `s` without its trailing white space.
pub open spec fn trim_end(s: Seq<char>) -> Seq<char>
    decreases s.len(),
{
    if s.len() > 0 && is_white_space(s.last()) {
        trim_end(s.drop_last())
    } else {
        s
    }
}

/// `s` without its leading and trailing white space.
pub open spec fn trimmed(s: Seq<char>) -> Seq<char> {
    trim_end(trim_start(s))
}

pub(crate) fn white_space(c: char) -> (r: bool)
    ensures
        r == is_white_space(c),
{
    ('\u{9}' <= c && c <= '\u{d}') || c == ' ' || c == '\u{85}' || c == '\u{a0}' || c
        == '\u{1680}' || ('\u{2000}' <= c && c <= '\u{200a}') || c == '\u{2028}' || c
        == '\u{2029}' || c == '\u{202f}' || c == '\u{205f}' || c == '\u{3000}'
}

/// Text made of `chars[start..end]`.
fn text_of(chars: &Vec<char>, start: usize, end: usize) -> (r: String)
    requires
        start <= end <= chars@.len(),
    ensures
        r@ == chars@.subrange(start as int, end as int),
{
    let mut s = String::new();
    let mut i = start;
    while i < end
        invariant
            start <= i <= end <= chars@.len(),
            s@ == chars@.subrange(start as int, i as int),
        decreases end - i,
    {
        push_char(&mut s, chars[i]);
        i = i + 1;
        assert(s@ =~= chars@.subrange(start as int, i as int));
    }
    s
}

/// The tail segment of `p[..end]` starts just after the `/` before it.
proof fn lemma_tail_segment(p: Seq<char>, start: int, end: int)
    requires
        0 <= start <= end <= p.len(),
        start == 0 || p[start - 1] == '/',
        forall|i: int| start <= i < end ==> p[i] != '/',
    ensures
        tail_segment(p.subrange(0, end)) == p.subrange(start, end),
    decreases end - start,
{
    if end == start {
        if start > 0 {
            assert(p.subrange(0, end).last() == '/');
        }
        assert(p.subrange(start, end) =~= Seq::<char>::empty());
    } else {
        lemma_tail_segment(p, start, end - 1);
        assert(p.subrange(0, end).drop_last() =~= p.subrange(0, end - 1));
        assert(p.subrange(start, end) =~= p.subrange(start, end - 1).push(p[end - 1]));
    }
}

/// The position of the last `.` of `s[..end]` is found by looking back from
/// `end`.
proof fn lemma_last_dot(s: Seq<char>, end: int)
    requires
        0 <= end <= s.len(),
    ensures
        -1 <= last_dot(s.subrange(0, end)) < end,
        last_dot(s.subrange(0, end)) >= 0 ==> s[last_dot(s.subrange(0, end))] == '.',
        forall|i: int| last_dot(s.subrange(0, end)) < i < end ==> s[i] != '.',
    decreases end,
{
    if end > 0 {
        assert(s.subrange(0, end).drop_last() =~= s.subrange(0, end - 1));
        lemma_last_dot(s, end - 1);
    }
}

/// The range of `p` that holds its file name, if it has one.
fn file_name_range(p: &Vec<char>) -> (r: Option<(usize, usize)>)
    ensures
        match r {
            Some((start, end)) => start <= end <= p@.len() && file_name_of(p@) == Some(
                p@.subrange(start as int, end as int),
            ),
            None => file_name_of(p@) is None,
        },
{
    let mut end = p.len();
    assert(p@.subrange(0, end as int) =~= p@);
    loop
        invariant
            end <= p@.len(),
            file_name_of(p@) == file_name_of(p@.subrange(0, end as int)),
        decreases end,
    {
        if end == 0 {
            return None;
        }
        let ghost prefix = p@.subrange(0, end as int);
        if p[end - 1] == '/' {
            assert(prefix.drop_last() =~= p@.subrange(0, end - 1));
            end = end - 1;
        } else {
            let mut start = end - 1;
            while start > 0 && p[start - 1] != '/'
                invariant
                    start < end <= p@.len(),
                    forall|i: int| start <= i < end ==> p@[i] != '/',
                decreases start,
            {
                start = start - 1;
            }
            proof {
                lemma_tail_segment(p@, start as int, end as int);
            }
            let len = end - start;
            if len == 1 && p[start] == '.' {
                assert(p@.subrange(start as int, end as int) =~= seq!['.']);
                assert(prefix.subrange(0, prefix.len() - 1) =~= p@.subrange(0, end - 1));
                end = end - 1;
            } else if len == 2 && p[start] == '.' && p[start + 1] == '.' {
                assert(p@.subrange(start as int, end as int) =~= seq!['.', '.']);
                return None;
            } else {
                proof {
                    let seg = p@.subrange(start as int, end as int);
                    if len == 1 {
                        assert(seg[0] != '.');
                        assert(seg != seq!['.']);
                    }
                    if len == 2 {
                        assert(seg[0] != '.' || seg[1] != '.');
                        assert(seg != seq!['.', '.']);
                    }
                    assert(seg.len() != 1 ==> seg != seq!['.']);
                    assert(seg.len() != 2 ==> seg != seq!['.', '.']);
                }
                return Some((start, end));
            }
        }
    }
}

/// The stem of a path's file name, or the empty text if the path has no file
/// name.
pub fn as_file_stem(path: &str) -> (r: String)
    ensures
        r@ == match file_stem_of(path@) {
            Some(stem) => stem,
            None => Seq::empty(),
        },
{
    let p = chars_of(path);
    match file_name_range(&p) {
        None => String::new(),
        Some((start, end)) => {
            let ghost name = p@.subrange(start as int, end as int);
            let mut dot = end;
            while dot > start && p[dot - 1] != '.'
                invariant
                    start <= dot <= end <= p@.len(),
                    forall|i: int| dot <= i < end ==> p@[i] != '.',
                decreases dot,
            {
                dot = dot - 1;
            }
            proof {
                lemma_last_dot(name, name.len() as int);
                assert(name.subrange(0, name.len() as int) =~= name);
                let d = last_dot(name);
                if dot > start {
                    assert(name[dot - 1 - start] == '.');
                    assert(d == dot - 1 - start) by {
                        if d > dot - 1 - start {
                            assert(name[d] == p@[start + d]);
                        }
                    }
                } else {
                    assert(d == -1) by {
                        if d >= 0 {
                            assert(name[d] == p@[start + d]);
                            assert(p@[start + d] != '.');
                        }
                    }
                }
            }
            if dot - start <= 1 {
                text_of(&p, start, end)
            } else {
                let r = text_of(&p, start, dot - 1);
                assert(r@ =~= name.subrange(0, last_dot(name)));
                r
            }
        },
    }
}

/// The range of `chars` that remains once leading and trailing white space
/// is taken off.
pub(crate) fn trimmed_range(chars: &Vec<char>) -> (r: (usize, usize))
    ensures
        r.0 <= r.1 <= chars@.len(),
        chars@.subrange(r.0 as int, r.1 as int) == trimmed(chars@),
{
    let n = chars.len();
    let mut start: usize = 0;
    assert(chars@.subrange(0, n as int) =~= chars@);
    while start < n && white_space(chars[start])
        invariant
            start <= n == chars@.len(),
            trim_start(chars@) == trim_start(chars@.subrange(start as int, n as int)),
        decreases n - start,
    {
        assert(chars@.subrange(start as int, n as int).drop_first() =~= chars@.subrange(
            start + 1,
            n as int,
        ));
        start = start + 1;
    }
    let mut end = n;
    assert(chars@.subrange(start as int, n as int) =~= chars@.subrange(start as int, end as int));
    while end > start && white_space(chars[end - 1])
        invariant
            start <= end <= n == chars@.len(),
            trimmed(chars@) == trim_end(chars@.subrange(start as int, end as int)),
        decreases end,
    {
        assert(chars@.subrange(start as int, end as int).drop_last() =~= chars@.subrange(
            start as int,
            end - 1,
        ));
        end = end - 1;
    }
    (start, end)
}

/// The file stem that names a new portfolio's file: the stem of the given
/// name once white space around it is taken off, or an error if that text
/// has no file name.
pub fn get_portfolio_name_interactively(portfolio_name: &str) -> (r: Result<String, String>)
    ensures
        match file_stem_of(trimmed(portfolio_name@)) {
            Some(stem) => r is Ok && r->Ok_0@ == stem,
            None => r is Err && r->Err_0@ == "Invalid portfolio name"@,
        },
{
    let chars = chars_of(portfolio_name);
    let (start, end) = trimmed_range(&chars);
    let name = text_of(&chars, start, end);
    let stem = as_file_stem(name.as_str());
    let has_name = file_name_range(&chars_of(name.as_str())).is_some();
    if has_name {
        Ok(stem)
    } else {
        Err(String::from_str("Invalid portfolio name"))
    }
}

/// The paths among `paths` that have a file name, in their order.
pub fn list_data_files(paths: Vec<String>) -> (r: Vec<String>)
    ensures
        r@.map_values(|s: String| s@) == paths@.map_values(|s: String| s@).filter(
            |p: Seq<char>| file_name_of(p) is Some,
        ),
{
    let ghost views = paths@.map_values(|s: String| s@);
    let ghost keep = |p: Seq<char>| file_name_of(p) is Some;
    let mut out: Vec<String> = Vec::new();
    let mut i: usize = 0;
    while i < paths.len()
        invariant
            i <= paths@.len(),
            views == paths@.map_values(|s: String| s@),
            keep == (|p: Seq<char>| file_name_of(p) is Some),
            out@.map_values(|s: String| s@) == views.take(i as int).filter(keep),
        decreases paths@.len() - i,
    {
        let path = &paths[i];
        let named = file_name_range(&chars_of(path.as_str())).is_some();
        proof {
            assert(views.take(i + 1).drop_last() =~= views.take(i as int));
            assert(views.take(i + 1).last() == path@);
            views.take(i as int).lemma_filter_push(path@, keep);
            assert(views.take(i + 1) =~= views.take(i as int).push(path@));
        }
        if named {
            let ghost before = out@;
            out.push(String::from_str(path.as_str()));
            assert(out@.map_values(|s: String| s@) =~= before.map_values(|s: String| s@).push(path@));
        }
        assert(out@.map_values(|s: String| s@) == views.take(i + 1).filter(keep));
        i = i + 1;
    }
    assert(views.take(i as int) =~= views);
    out
}

} // verus!
