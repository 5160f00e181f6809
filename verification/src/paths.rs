//! Paths as text, with Unix separators: joining, file names and extensions.
use vstd::prelude::*;

use crate::text::{
    char_vec_views, chars_equal, chars_of, split_at_char, split_char, lemma_split_char_nonempty,
    string_of, lemma_split_char_none, lemma_split_char_last, lemma_split_char_first,
    lemma_split_char_pieces, piece_of,
};
use vstd::string::*;

verus! {

/// `base` with `part` appended as a further component (`Path::join` on Unix): an
/// absolute `part` replaces `base`, and a separator is put between them unless
/// `base` is empty or already ends with one.
pub open spec fn path_join(base: Seq<char>, part: Seq<char>) -> Seq<char> {
    if part.len() > 0 && part[0] == '/' {
        part
    } else if base.len() == 0 || base.last() == '/' {
        base + part
    } else {
        base + seq!['/'] + part
    }
}

/// Joins `part` onto `base`.
pub fn join_path(base: &str, part: &str) -> (p: String)
    ensures
        p@ == path_join(base@, part@),
{
    let b = chars_of(base);
    let q = chars_of(part);
    if q.len() > 0 && q[0] == '/' {
        return String::from_str(part);
    }
    let mut p = String::from_str(base);
    if b.len() > 0 && b[b.len() - 1] != '/' {
        p.append("/");
        proof {
            reveal_strlit("/");
        }
        assert("/"@ =~= seq!['/']);
    }
    p.append(part);
    p
}

/// The last component that names something: empty pieces and `.` do not count.
pub open spec fn last_named(segments: Seq<Seq<char>>) -> Option<Seq<char>>
    decreases segments.len(),
{
    if segments.len() == 0 {
        None
    } else if segments.last().len() == 0 || segments.last() == "."@ {
        last_named(segments.drop_last())
    } else {
        Some(segments.last())
    }
}

/// The final component of a path (`Path::file_name`): none when the path has no
/// named component or ends in `..`.
pub open spec fn file_name(path: Seq<char>) -> Option<Seq<char>> {
    match last_named(split_char(path, '/')) {
        Some(name) => if name == ".."@ {
            None
        } else {
            Some(name)
        },
        None => None,
    }
}

/// The extension of a file name (`Path::extension`): what follows its last `.`;
/// none when it has no `.` or its only `.` is its first character.
pub open spec fn extension(name: Seq<char>) -> Option<Seq<char>> {
    let parts = split_char(name, '.');
    if parts.len() <= 1 || (parts.len() == 2 && parts[0].len() == 0) {
        None
    } else {
        Some(parts.last())
    }
}

/// The extension of the file a path names.
pub open spec fn path_extension(path: Seq<char>) -> Option<Seq<char>> {
    match file_name(path) {
        Some(name) => extension(name),
        None => None,
    }
}

/// The final component of a path.
pub fn path_file_name(path: &str) -> (r: Option<Vec<char>>)
    ensures
        match r {
            Some(v) => file_name(path@) == Some(v@),
            None => file_name(path@) is None,
        },
{
    let v = chars_of(path);
    let segs = split_at_char(&v, '/');
    let ghost views = char_vec_views(segs@);
    let dot = chars_of(".");
    let mut k = segs.len();
    assert(views.take(k as int) =~= views);
    while k > 0 && (segs[k - 1].len() == 0 || chars_equal(&segs[k - 1], &dot))
        invariant
            k <= segs.len(),
            views == char_vec_views(segs@),
            dot@ == "."@,
            last_named(views) == last_named(views.take(k as int)),
        decreases k,
    {
        assert(views.take(k as int).drop_last() =~= views.take(k - 1));
        k = k - 1;
    }
    if k == 0 {
        assert(views.take(0) =~= Seq::<Seq<char>>::empty());
        return None;
    }
    assert(views.take(k as int).last() == segs[k - 1]@);
    let name = segs[k - 1].clone();
    assert(name@ == segs[k - 1]@);
    let dotdot = chars_of("..");
    if chars_equal(&name, &dotdot) {
        None
    } else {
        Some(name)
    }
}

/// The extension of a file name.
pub fn name_extension(name: &Vec<char>) -> (r: Option<Vec<char>>)
    ensures
        match r {
            Some(v) => extension(name@) == Some(v@),
            None => extension(name@) is None,
        },
{
    let parts = split_at_char(name, '.');
    proof {
        lemma_split_char_nonempty(name@, '.');
    }
    let ghost views = char_vec_views(parts@);
    assert(views.len() == parts.len());
    if parts.len() <= 1 || (parts.len() == 2 && parts[0].len() == 0) {
        assert(parts.len() == 2 ==> views[0] == parts[0]@);
        None
    } else {
        let last = parts[parts.len() - 1].clone();
        assert(views.last() == parts[parts.len() - 1]@);
        Some(last)
    }
}

/// The extension of the file a path names, as text.
pub fn extension_of_path(path: &str) -> (r: Option<String>)
    ensures
        match r {
            Some(s) => path_extension(path@) == Some(s@),
            None => path_extension(path@) is None,
        },
{
    match path_file_name(path) {
        Some(name) => match name_extension(&name) {
            Some(ext) => Some(string_of(&ext, 0, ext.len())),
            None => None,
        },
        None => None,
    }
}


/// The named component found is one of the pieces, and is not empty.
proof fn lemma_last_named_is_piece(segments: Seq<Seq<char>>)
    ensures
        last_named(segments) matches Some(n) ==> n.len() > 0 && exists|k: int|
            0 <= k < segments.len() && #[trigger] segments[k] == n,
    decreases segments.len(),
{
    if segments.len() > 0 {
        lemma_last_named_is_piece(segments.drop_last());
        if let Some(n) = last_named(segments) {
            if segments.last().len() == 0 || segments.last() == "."@ {
                let k = choose|k: int|
                    0 <= k < segments.drop_last().len() && #[trigger] segments.drop_last()[k] == n;
                assert(segments[k] == n);
            } else {
                assert(segments[segments.len() - 1] == n);
            }
        }
    }
}

/// A file name is a non-empty run of characters of the path without separators.
pub proof fn lemma_file_name_has_no_separator(path: Seq<char>)
    ensures
        file_name(path) matches Some(n) ==> n.len() > 0 && !n.contains('/') && piece_of(n, path, '/'),
{
    lemma_last_named_is_piece(split_char(path, '/'));
    lemma_split_char_pieces(path, '/');
    if let Some(n) = file_name(path) {
        let k = choose|k: int|
            0 <= k < split_char(path, '/').len() && #[trigger] split_char(path, '/')[k] == n;
        assert(piece_of(split_char(path, '/')[k], path, '/'));
        assert(!n.contains('/')) by {
            if n.contains('/') {
                let m = choose|m: int| 0 <= m < n.len() && n[m] == '/';
                assert(n[m] != '/');
            }
        }
    }
}

/// An extension holds no dot, and only characters of the name.
pub proof fn lemma_extension_has_no_dot(name: Seq<char>)
    ensures
        extension(name) matches Some(e) ==> !e.contains('.') && piece_of(e, name, '.'),
{
    lemma_split_char_pieces(name, '.');
    lemma_split_char_nonempty(name, '.');
    if let Some(e) = extension(name) {
        let parts = split_char(name, '.');
        assert(parts[parts.len() - 1] == e);
        assert(piece_of(parts[parts.len() - 1], name, '.'));
        assert(!e.contains('.')) by {
            if e.contains('.') {
                let m = choose|m: int| 0 <= m < e.len() && e[m] == '.';
                assert(e[m] != '.');
            }
        }
    }
}

/// Joining a plain name onto a directory gives a path whose file name is that name.
pub proof fn lemma_join_file_name(dir: Seq<char>, name: Seq<char>)
    requires
        name.len() > 0,
        !name.contains('/'),
        name != "."@,
        name != ".."@,
    ensures
        file_name(path_join(dir, name)) == Some(name),
{
    assert(name[0] != '/');
    let joined = path_join(dir, name);
    if dir.len() == 0 {
        assert(joined =~= name);
        lemma_split_char_none(name, '/');
        assert(split_char(name, '/').last() == name);
    } else if dir.last() == '/' {
        assert(joined =~= dir.drop_last() + seq!['/'] + name);
        lemma_split_char_last(dir.drop_last(), '/', name);
    } else {
        lemma_split_char_last(dir, '/', name);
    }
}

/// A name made of a stem that does not start with a dot, a dot, and a text without
/// dots has that text as its extension.
pub proof fn lemma_extension_after_dot(stem: Seq<char>, ext: Seq<char>)
    requires
        stem.len() > 0,
        stem[0] != '.',
        !ext.contains('.'),
    ensures
        extension(stem + seq!['.'] + ext) == Some(ext),
{
    let name = stem + seq!['.'] + ext;
    lemma_split_char_last(stem, '.', ext);
    assert(name[0] == stem[0]);
    lemma_split_char_first(name, '.');
}

} // verus!
