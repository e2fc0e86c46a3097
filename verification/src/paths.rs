//! Unix paths held as text, with the parts of `std::path` that the library
//! relies on: joining, the last component, its stem and extension, and the
//! check that a name consists of plain components only.
use vstd::prelude::*;
use crate::text::{
    chars_of, extend_chars, extend_str, has_prefix, index_from, lemma_index_from, split_from,
    split_spec, starts_with, string_from_chars,
};

verus! {

/// `PathBuf::join` on Unix: an absolute `part` replaces `base`; otherwise a
/// separator is inserted unless `base` is empty or already ends with one.
pub open spec fn join_spec(base: Seq<char>, part: Seq<char>) -> Seq<char> {
    if part.len() > 0 && part[0] == '/' {
        part
    } else if base.len() == 0 || base.last() == '/' {
        base + part
    } else {
        base + seq!['/'] + part
    }
}

/// Joins a path and a further part.
pub fn join_chars(base: &Vec<char>, part: &Vec<char>) -> (res: Vec<char>)
    ensures
        res@ == join_spec(base@, part@),
{
    if part.len() > 0 && part[0] == '/' {
        let mut res: Vec<char> = Vec::new();
        extend_chars(&mut res, part);
        assert(res@ =~= part@);
        return res;
    }
    let mut res: Vec<char> = Vec::new();
    extend_chars(&mut res, base);
    if base.len() > 0 && base[base.len() - 1] != '/' {
        res.push('/');
    }
    extend_chars(&mut res, part);
    assert(res@ =~= join_spec(base@, part@));
    res
}

/// `Path::join`, as text.
pub fn join(base: &str, part: &str) -> (res: String)
    ensures
        res@ == join_spec(base@, part@),
{
    let b = chars_of(base);
    let p = chars_of(part);
    let joined = join_chars(&b, &p);
    string_from_chars(&joined)
}

/// The index of the last occurrence of `c` in `s`, or -1.
pub open spec fn last_index_of(s: Seq<char>, c: char) -> int
    decreases s.len(),
{
    if s.len() == 0 {
        -1
    } else if s.last() == c {
        s.len() - 1
    } else {
        last_index_of(s.drop_last(), c)
    }
}

pub proof fn lemma_last_index_bounds(s: Seq<char>, c: char)
    ensures
        -1 <= last_index_of(s, c) < s.len(),
        last_index_of(s, c) >= 0 ==> s[last_index_of(s, c)] == c,
        forall|k: int| last_index_of(s, c) < k < s.len() ==> s[k] != c,
    decreases s.len(),
{
    if s.len() > 0 && s.last() != c {
        lemma_last_index_bounds(s.drop_last(), c);
        assert forall|k: int| last_index_of(s, c) < k < s.len() implies s[k] != c by {
            if k < s.len() - 1 {
                assert(s[k] == s.drop_last()[k]);
            }
        }
    }
}

/// Finds the last occurrence of `c` among the first `end` characters.
pub fn rfind(s: &Vec<char>, end: usize, c: char) -> (res: Option<usize>)
    requires
        end <= s@.len(),
    ensures
        match res {
            Some(i) => i < end && i == last_index_of(s@.subrange(0, end as int), c),
            None => last_index_of(s@.subrange(0, end as int), c) == -1,
        },
{
    let mut j: usize = end;
    while j > 0 && s[j - 1] != c
        invariant
            j <= end <= s@.len(),
            last_index_of(s@.subrange(0, end as int), c) == last_index_of(
                s@.subrange(0, j as int),
                c,
            ),
        decreases j,
    {
        assert(s@.subrange(0, j as int).drop_last() =~= s@.subrange(0, j - 1));
        j = j - 1;
    }
    if j == 0 {
        None
    } else {
        Some(j - 1)
    }
}

/// The name of the last component of a path, as `Path::file_name` finds
/// it: trailing separators and `.` components are skipped; there is none
/// for a root, an empty path, or a last component `..`.
pub open spec fn file_name_spec(p: Seq<char>) -> Option<Seq<char>>
    decreases p.len(),
{
    let k = last_index_of(p, '/');
    let segment = p.subrange(k + 1, p.len() as int);
    if segment.len() == 0 || segment == seq!['.'] {
        if k < 0 {
            None
        } else {
            proof {
                lemma_last_index_bounds(p, '/');
            }
            file_name_spec(p.subrange(0, k))
        }
    } else if segment == seq!['.', '.'] {
        None
    } else {
        Some(segment)
    }
}

/// The stem of a file name (`Path::file_stem`): the part before the last
/// `.`, unless there is none or the only one leads the name.
pub open spec fn stem_spec(name: Seq<char>) -> Seq<char> {
    let d = last_index_of(name, '.');
    if d <= 0 {
        name
    } else {
        name.subrange(0, d)
    }
}

/// The extension of a file name (`Path::extension`).
pub open spec fn extension_spec(name: Seq<char>) -> Option<Seq<char>> {
    let d = last_index_of(name, '.');
    if d <= 0 {
        None
    } else {
        Some(name.subrange(d + 1, name.len() as int))
    }
}

/// `Path::file_stem`.
pub open spec fn file_stem_spec(p: Seq<char>) -> Option<Seq<char>> {
    match file_name_spec(p) {
        Some(name) => Some(stem_spec(name)),
        None => None,
    }
}

/// `Path::extension`.
pub open spec fn path_extension_spec(p: Seq<char>) -> Option<Seq<char>> {
    match file_name_spec(p) {
        Some(name) => extension_spec(name),
        None => None,
    }
}

/// The characters `s[from..to]`.
pub fn slice_chars(s: &Vec<char>, from: usize, to: usize) -> (res: Vec<char>)
    requires
        from <= to <= s@.len(),
    ensures
        res@ == s@.subrange(from as int, to as int),
{
    let mut res: Vec<char> = Vec::new();
    let mut k = from;
    while k < to
        invariant
            from <= k <= to <= s@.len(),
            res@ == s@.subrange(from as int, k as int),
        decreases to - k,
    {
        res.push(s[k]);
        k = k + 1;
        assert(s@.subrange(from as int, k as int) =~= s@.subrange(from as int, k - 1).push(
            s@[k - 1],
        ));
    }
    res
}

/// The last component of a path.
pub fn file_name_chars(p: &Vec<char>) -> (res: Option<Vec<char>>)
    ensures
        match res {
            Some(name) => file_name_spec(p@) == Some(name@),
            None => file_name_spec(p@) is None,
        },
{
    let mut end: usize = p.len();
    assert(p@.subrange(0, end as int) =~= p@);
    loop
        invariant
            end <= p@.len(),
            file_name_spec(p@) == file_name_spec(p@.subrange(0, end as int)),
        decreases end,
    {
        let ghost q = p@.subrange(0, end as int);
        let found = rfind(p, end, '/');
        let start: usize = match found {
            Some(k) => k + 1,
            None => 0,
        };
        proof {
            lemma_last_index_bounds(q, '/');
        }
        let segment = slice_chars(p, start, end);
        assert(segment@ =~= q.subrange(last_index_of(q, '/') + 1, q.len() as int));
        let is_dot = segment.len() == 1 && segment[0] == '.';
        if segment.len() == 0 || is_dot {
            if is_dot {
                assert(segment@ =~= seq!['.']);
            }
            match found {
                None => {
                    return None;
                },
                Some(k) => {
                    assert(q.subrange(0, k as int) =~= p@.subrange(0, k as int));
                    end = k;
                },
            }
        } else {
            if segment.len() == 2 && segment[0] == '.' && segment[1] == '.' {
                assert(segment@ =~= seq!['.', '.']);
                return None;
            }
            assert(segment@ != seq!['.']);
            assert(segment@ != seq!['.', '.']);
            return Some(segment);
        }
    }
}

/// `Path::file_stem`, as text.
pub fn file_stem_chars(p: &Vec<char>) -> (res: Option<Vec<char>>)
    ensures
        match res {
            Some(stem) => file_stem_spec(p@) == Some(stem@),
            None => file_stem_spec(p@) is None,
        },
{
    match file_name_chars(p) {
        None => None,
        Some(name) => {
            let d = rfind(&name, name.len(), '.');
            assert(name@.subrange(0, name@.len() as int) =~= name@);
            match d {
                Some(i) if i > 0 => Some(slice_chars(&name, 0, i)),
                _ => Some(name),
            }
        },
    }
}

/// `Path::extension`, as text.
pub fn extension_chars(p: &Vec<char>) -> (res: Option<Vec<char>>)
    ensures
        match res {
            Some(ext) => path_extension_spec(p@) == Some(ext@),
            None => path_extension_spec(p@) is None,
        },
{
    match file_name_chars(p) {
        None => None,
        Some(name) => {
            let d = rfind(&name, name.len(), '.');
            assert(name@.subrange(0, name@.len() as int) =~= name@);
            proof {
                lemma_last_index_bounds(name@, '.');
            }
            match d {
                Some(i) if i > 0 => Some(slice_chars(&name, i + 1, name.len())),
                _ => None,
            }
        },
    }
}

/// Whether `s` has a component `..` at position `i`.
pub open spec fn parent_component_at(s: Seq<char>, i: int) -> bool {
    &&& 0 <= i
    &&& i + 2 <= s.len()
    &&& s[i] == '.'
    &&& s[i + 1] == '.'
    &&& (i == 0 || s[i - 1] == '/')
    &&& (i + 2 == s.len() || s[i + 2] == '/')
}

/// Whether a non-empty name consists of plain (`Component::Normal`)
/// components only: it is not absolute, does not start with a `.`
/// component, and has no `..` component.
pub open spec fn only_normal_components(s: Seq<char>) -> bool {
    &&& s.len() > 0
    &&& s[0] != '/'
    &&& !(s[0] == '.' && (s.len() == 1 || s[1] == '/'))
    &&& forall|i: int| !parent_component_at(s, i)
}

/// Whether a name is a simple file name: a single plain component, so it
/// is not empty, has no `/`, and is neither `.` nor `..`.
pub open spec fn simple_file_name(s: Seq<char>) -> bool {
    &&& s.len() > 0
    &&& forall|i: int| 0 <= i < s.len() ==> s[i] != '/'
    &&& s != seq!['.']
    &&& s != seq!['.', '.']
}

/// Every name that is a single plain component is a simple file name:
/// any non-empty name without `/` other than `.` and `..` (spaces and any
/// other characters included), and no other name is.
pub proof fn lemma_simple_name_accepts(s: Seq<char>)
    ensures
        (s.len() > 0 && (forall|i: int| 0 <= i < s.len() ==> s[i] != '/') && s != seq!['.'] && s
            != seq!['.', '.']) <==> simple_file_name(s),
        s.contains('/') ==> !simple_file_name(s),
{
}

/// A simple file name consists of plain components only.
pub proof fn lemma_simple_name_is_plain(s: Seq<char>)
    requires
        simple_file_name(s),
    ensures
        only_normal_components(s),
{
    if s[0] == '.' && s.len() == 1 {
        assert(s =~= seq!['.']);
    }
    assert forall|i: int| !parent_component_at(s, i) by {
        if parent_component_at(s, i) {
            if i > 0 {
                assert(s[i - 1] == '/');
            }
            if i + 2 < s.len() {
                assert(s[i + 2] == '/');
            }
            assert(s =~= seq!['.', '.']);
        }
    }
}

/// Checks that a name is a simple file name.
pub fn is_simple_file_name(s: &Vec<char>) -> (res: bool)
    ensures
        res == simple_file_name(s@),
{
    let n = s.len();
    if n == 0 {
        return false;
    }
    if n == 1 && s[0] == '.' {
        assert(s@ =~= seq!['.']);
        return false;
    }
    if n == 2 && s[0] == '.' && s[1] == '.' {
        assert(s@ =~= seq!['.', '.']);
        return false;
    }
    let mut i: usize = 0;
    while i < n
        invariant
            n == s@.len(),
            i <= n,
            forall|k: int| 0 <= k < i ==> s@[k] != '/',
        decreases n - i,
    {
        if s[i] == '/' {
            return false;
        }
        i = i + 1;
    }
    assert(s@ != seq!['.']) by {
        if s@ == seq!['.'] {
            assert(s@[0] == '.');
        }
    }
    assert(s@ != seq!['.', '.']) by {
        if s@ == seq!['.', '.'] {
            assert(s@[0] == '.' && s@[1] == '.');
        }
    }
    true
}

/// `path + suffix`, appending to the last component (`OsString::push`).
pub fn append_suffix(path: &str, suffix: &str) -> (res: String)
    ensures
        res@ == path@ + suffix@,
{
    let mut chars = chars_of(path);
    extend_str(&mut chars, suffix);
    string_from_chars(&chars)
}

/// A path with a leading `~/` resolved against the home directory, or
/// against `~` when the home directory is unknown.
pub open spec fn expand_home_spec(path: Seq<char>, home: Option<Seq<char>>) -> Seq<char> {
    if has_prefix(path, seq!['~', '/']) {
        let base = match home {
            Some(h) => h,
            None => seq!['~'],
        };
        join_spec(base, path.subrange(2, path.len() as int))
    } else {
        path
    }
}

/// Resolves a leading `~/` against the home directory.
pub fn expand_home_path(path: &str, home: Option<&str>) -> (res: String)
    ensures
        res@ == expand_home_spec(path@, match home {
            Some(h) => Some(h@),
            None => None,
        }),
{
    let p = chars_of(path);
    let mut prefix: Vec<char> = Vec::new();
    prefix.push('~');
    prefix.push('/');
    assert(prefix@ =~= seq!['~', '/']);
    if !starts_with(&p, &prefix) {
        return string_from_chars(&p);
    }
    let base: Vec<char> = match home {
        Some(h) => chars_of(h),
        None => {
            let mut t: Vec<char> = Vec::new();
            t.push('~');
            assert(t@ =~= seq!['~']);
            t
        },
    };
    let rest = slice_chars(&p, 2, p.len());
    let joined = join_chars(&base, &rest);
    string_from_chars(&joined)
}

} // verus!

verus! {

/// The key of one `/`-separated piece of a path: nothing for an empty
/// piece or for a `.` that does not lead a relative path; otherwise the
/// component's kind (current folder, parent, plain name) followed by its
/// name and a terminating NUL.
pub open spec fn piece_key(piece: Seq<char>, leading: bool) -> Seq<char> {
    if piece.len() == 0 {
        Seq::empty()
    } else if piece == seq!['.'] {
        if leading {
            seq!['\u{2}', '\0']
        } else {
            Seq::empty()
        }
    } else if piece == seq!['.', '.'] {
        seq!['\u{3}', '\0']
    } else {
        seq!['\u{4}'] + piece + seq!['\0']
    }
}

/// The keys of the pieces of a path, in order.
pub open spec fn pieces_key(pieces: Seq<Seq<char>>, absolute: bool) -> Seq<char>
    decreases pieces.len(),
{
    if pieces.len() == 0 {
        Seq::empty()
    } else {
        pieces_key(pieces.drop_last(), absolute) + piece_key(
            pieces.last(),
            !absolute && pieces.len() == 1,
        )
    }
}

/// Whether a path is absolute (starts at the root).
pub open spec fn is_absolute(p: Seq<char>) -> bool {
    p.len() > 0 && p[0] == '/'
}

/// A path's components (`Path::components` on Unix: the root, a leading
/// `.`, `..` and plain names; empty pieces and other `.` pieces dropped),
/// each written as a kind character, its name and a NUL. Two paths are
/// equal as `Path`s exactly when their keys are equal, and, names holding
/// no NUL, one orders before the other component by component exactly
/// when its key is lexicographically smaller.
pub open spec fn path_key_spec(p: Seq<char>) -> Seq<char> {
    let root: Seq<char> = if is_absolute(p) {
        seq!['\u{1}', '\0']
    } else {
        Seq::empty()
    };
    root + pieces_key(crate::text::split_spec(p, '/'), is_absolute(p))
}

/// Whether two texts name the same path, component by component.
pub open spec fn same_path(a: Seq<char>, b: Seq<char>) -> bool {
    path_key_spec(a) == path_key_spec(b)
}

/// How many components a piece adds.
pub open spec fn piece_count(piece: Seq<char>, leading: bool) -> nat {
    if piece.len() == 0 || (piece == seq!['.'] && !leading) {
        0
    } else {
        1
    }
}

pub open spec fn pieces_count(pieces: Seq<Seq<char>>, absolute: bool) -> nat
    decreases pieces.len(),
{
    if pieces.len() == 0 {
        0
    } else {
        pieces_count(pieces.drop_last(), absolute) + piece_count(
            pieces.last(),
            !absolute && pieces.len() == 1,
        )
    }
}

/// `Path::components().count()`.
pub open spec fn component_count_spec(p: Seq<char>) -> nat {
    (if is_absolute(p) {
        1nat
    } else {
        0nat
    }) + pieces_count(crate::text::split_spec(p, '/'), is_absolute(p))
}

fn is_dot(piece: &Vec<char>) -> (res: bool)
    ensures
        res == (piece@ == seq!['.']),
{
    let r = piece.len() == 1 && piece[0] == '.';
    proof {
        if piece@.len() == 1 && piece@[0] == '.' {
            assert(piece@ =~= seq!['.']);
        }
    }
    r
}

fn is_dot_dot(piece: &Vec<char>) -> (res: bool)
    ensures
        res == (piece@ == seq!['.', '.']),
{
    let r = piece.len() == 2 && piece[0] == '.' && piece[1] == '.';
    proof {
        if piece@.len() == 2 && piece@[0] == '.' && piece@[1] == '.' {
            assert(piece@ =~= seq!['.', '.']);
        }
    }
    r
}

/// The component key of a path (see `path_key_spec`).
pub fn path_key(path: &str) -> (res: Vec<char>)
    ensures
        res@ == path_key_spec(path@),
{
    let chars = chars_of(path);
    let absolute = chars.len() > 0 && chars[0] == '/';
    let pieces = crate::text::split(path, '/');
    let ghost pv = pieces.deep_view();
    let mut key: Vec<char> = Vec::new();
    if absolute {
        key.push('\u{1}');
        key.push('\0');
    }
    let ghost root = key@;
    let mut i: usize = 0;
    while i < pieces.len()
        invariant
            pv == pieces.deep_view(),
            i <= pv.len(),
            key@ == root + pieces_key(pv.subrange(0, i as int), absolute),
        decreases pv.len() - i,
    {
        let piece = chars_of(pieces[i].as_str());
        let ghost before = key@;
        assert(pv.subrange(0, i + 1).drop_last() =~= pv.subrange(0, i as int));
        assert(pv.subrange(0, i + 1).last() == piece@);
        let leading = !absolute && i == 0;
        if piece.len() == 0 {
        } else if is_dot(&piece) {
            if leading {
                key.push('\u{2}');
                key.push('\0');
            }
        } else if is_dot_dot(&piece) {
            key.push('\u{3}');
            key.push('\0');
        } else {
            key.push('\u{4}');
            extend_chars(&mut key, &piece);
            key.push('\0');
        }
        assert(key@ =~= before + piece_key(piece@, leading));
        i = i + 1;
    }
    assert(pv.subrange(0, pv.len() as int) =~= pv);
    key
}

/// Whether a path has more than one component (`components().count() > 1`).
pub fn has_several_components(path: &str) -> (res: bool)
    ensures
        res == (component_count_spec(path@) > 1),
{
    let chars = chars_of(path);
    let absolute = chars.len() > 0 && chars[0] == '/';
    let pieces = crate::text::split(path, '/');
    let ghost pv = pieces.deep_view();
    let root: u8 = if absolute {
        1
    } else {
        0
    };
    let mut count: u8 = root;
    let mut i: usize = 0;
    while i < pieces.len()
        invariant
            pv == pieces.deep_view(),
            i <= pv.len(),
            root == (if absolute {
                1nat
            } else {
                0nat
            }),
            count == (if root + pieces_count(pv.subrange(0, i as int), absolute) > 2 {
                2
            } else {
                root + pieces_count(pv.subrange(0, i as int), absolute)
            }),
        decreases pv.len() - i,
    {
        let piece = chars_of(pieces[i].as_str());
        assert(pv.subrange(0, i + 1).drop_last() =~= pv.subrange(0, i as int));
        assert(pv.subrange(0, i + 1).last() == piece@);
        let leading = !absolute && i == 0;
        if piece.len() > 0 && !(is_dot(&piece) && !leading) && count < 2 {
            count = count + 1;
        }
        i = i + 1;
    }
    assert(pv.subrange(0, pv.len() as int) =~= pv);
    count > 1
}

/// Whether two texts name the same path.
pub fn paths_equal(a: &str, b: &str) -> (res: bool)
    ensures
        res == same_path(a@, b@),
{
    let x = path_key(a);
    let y = path_key(b);
    crate::text::chars_equal(&x, &y)
}

/// The last piece before `upto` that is a component of the path (see
/// `piece_count`), or -1.
pub open spec fn last_component_piece(pieces: Seq<Seq<char>>, upto: int, absolute: bool) -> int
    decreases upto,
{
    if upto <= 0 {
        -1
    } else if piece_count(pieces[upto - 1], !absolute && upto - 1 == 0) == 1 {
        upto - 1
    } else {
        last_component_piece(pieces, upto - 1, absolute)
    }
}

/// Pieces joined by `/` (the inverse of splitting at `/`).
pub open spec fn join_pieces(pieces: Seq<Seq<char>>) -> Seq<char>
    decreases pieces.len(),
{
    if pieces.len() == 0 {
        Seq::empty()
    } else if pieces.len() == 1 {
        pieces[0]
    } else {
        join_pieces(pieces.drop_last()) + seq!['/'] + pieces.last()
    }
}

/// `Path::parent`: the path without its last component; none for a path
/// that is empty or ends in the root. The text kept is the path up to the
/// end of the component before the last; with no such component it is the
/// root for an absolute path and empty otherwise.
pub open spec fn parent_spec(p: Seq<char>) -> Option<Seq<char>> {
    let pieces = crate::text::split_spec(p, '/');
    let absolute = is_absolute(p);
    let last = last_component_piece(pieces, pieces.len() as int, absolute);
    if last < 0 {
        None
    } else {
        let before = last_component_piece(pieces, last, absolute);
        if before < 0 {
            Some(
                if absolute {
                    seq!['/']
                } else {
                    Seq::empty()
                },
            )
        } else {
            Some(join_pieces(pieces.subrange(0, before + 1)))
        }
    }
}

pub proof fn lemma_last_component_piece(pieces: Seq<Seq<char>>, upto: int, absolute: bool)
    requires
        0 <= upto <= pieces.len(),
    ensures
        last_component_piece(pieces, upto, absolute) < upto,
        -1 <= last_component_piece(pieces, upto, absolute),
    decreases upto,
{
    if upto > 0 {
        lemma_last_component_piece(pieces, upto - 1, absolute);
    }
}

fn last_component_index(pieces: &Vec<String>, upto: usize, absolute: bool) -> (res: Option<usize>)
    requires
        upto <= pieces@.len(),
    ensures
        match res {
            Some(i) => i as int == last_component_piece(pieces.deep_view(), upto as int, absolute),
            None => last_component_piece(pieces.deep_view(), upto as int, absolute) == -1,
        },
{
    let ghost pv = pieces.deep_view();
    let mut k = upto;
    while k > 0
        invariant
            pv == pieces.deep_view(),
            k <= upto <= pv.len(),
            last_component_piece(pv, upto as int, absolute) == last_component_piece(pv, k as int, absolute),
        decreases k,
    {
        let piece = chars_of(pieces[k - 1].as_str());
        assert(pieces@[k - 1]@ == pv[k - 1]);
        let leading = !absolute && k - 1 == 0;
        if piece.len() > 0 && !(is_dot(&piece) && !leading) {
            return Some(k - 1);
        }
        k = k - 1;
    }
    None
}

fn joined_pieces(pieces: &Vec<String>, count: usize) -> (res: String)
    requires
        count <= pieces@.len(),
    ensures
        res@ == join_pieces(pieces.deep_view().subrange(0, count as int)),
{
    let ghost pv = pieces.deep_view();
    let mut out: Vec<char> = Vec::new();
    let mut i: usize = 0;
    while i < count
        invariant
            pv == pieces.deep_view(),
            count <= pv.len(),
            i <= count,
            out@ == join_pieces(pv.subrange(0, i as int)),
        decreases count - i,
    {
        assert(pieces@[i as int]@ == pv[i as int]);
        assert(pv.subrange(0, i + 1).drop_last() =~= pv.subrange(0, i as int));
        if i > 0 {
            out.push('/');
        }
        extend_str(&mut out, pieces[i].as_str());
        proof {
            if i == 0 {
                assert(out@ =~= join_pieces(pv.subrange(0, 1)));
            } else {
                assert(out@ =~= join_pieces(pv.subrange(0, i + 1)));
            }
        }
        i = i + 1;
    }
    string_from_chars(&out)
}

/// The parent of a path (`Path::parent`).
pub fn parent(path: &str) -> (res: Option<String>)
    ensures
        res.deep_view() == parent_spec(path@),
{
    let chars = chars_of(path);
    let absolute = chars.len() > 0 && chars[0] == '/';
    let pieces = crate::text::split(path, '/');
    proof {
        lemma_last_component_piece(pieces.deep_view(), pieces.deep_view().len() as int, absolute);
    }
    let last = match last_component_index(&pieces, pieces.len(), absolute) {
        Some(i) => i,
        None => {
            return None;
        },
    };
    proof {
        lemma_last_component_piece(pieces.deep_view(), last as int, absolute);
    }
    match last_component_index(&pieces, last, absolute) {
        Some(before) => Some(joined_pieces(&pieces, before + 1)),
        None => {
            let mut root: Vec<char> = Vec::new();
            if absolute {
                root.push('/');
            }
            proof {
                if absolute {
                    assert(root@ =~= seq!['/']);
                } else {
                    assert(root@ =~= Seq::<char>::empty());
                }
            }
            Some(string_from_chars(&root))
        },
    }
}

/// The paths of `s` without repeats, each kept where it first occurs;
/// paths are the same when their components are (`Path`'s `==`).
pub open spec fn first_occurrences(s: Seq<Seq<char>>) -> Seq<Seq<char>>
    decreases s.len(),
{
    if s.len() == 0 {
        Seq::empty()
    } else {
        let prev = first_occurrences(s.drop_last());
        if prev.map_values(|p: Seq<char>| path_key_spec(p)).contains(path_key_spec(s.last())) {
            prev
        } else {
            prev.push(s.last())
        }
    }
}

/// Removing repeated paths keeps no two paths that are the same.
pub proof fn lemma_first_occurrences_distinct(s: Seq<Seq<char>>)
    ensures
        forall|i: int, j: int|
            0 <= i < j < first_occurrences(s).len() ==> !same_path(
                #[trigger] first_occurrences(s)[i],
                #[trigger] first_occurrences(s)[j],
            ),
    decreases s.len(),
{
    if s.len() > 0 {
        let prev = first_occurrences(s.drop_last());
        lemma_first_occurrences_distinct(s.drop_last());
        let keys = prev.map_values(|p: Seq<char>| path_key_spec(p));
        let r = first_occurrences(s);
        if !keys.contains(path_key_spec(s.last())) {
            assert forall|i: int, j: int|
                0 <= i < j < r.len() implies !same_path(#[trigger] r[i], #[trigger] r[j]) by {
                if j == r.len() - 1 {
                    assert(keys[i] == path_key_spec(r[i]));
                } else {
                    assert(r[i] == prev[i] && r[j] == prev[j]);
                }
            }
        }
    }
}

/// Removing repeated paths keeps, for every path given, one that is the
/// same.
pub proof fn lemma_first_occurrences_cover(s: Seq<Seq<char>>)
    ensures
        forall|i: int|
            0 <= i < s.len() ==> exists|k: int|
                0 <= k < first_occurrences(s).len() && same_path(
                    #[trigger] s[i],
                    #[trigger] first_occurrences(s)[k],
                ),
    decreases s.len(),
{
    if s.len() > 0 {
        let prev = first_occurrences(s.drop_last());
        lemma_first_occurrences_cover(s.drop_last());
        let keys = prev.map_values(|p: Seq<char>| path_key_spec(p));
        let r = first_occurrences(s);
        assert forall|i: int| 0 <= i < s.len() implies exists|k: int|
            0 <= k < r.len() && same_path(#[trigger] s[i], #[trigger] r[k]) by {
            if i < s.len() - 1 {
                assert(s[i] == s.drop_last()[i]);
                let k = choose|k: int| 0 <= k < prev.len() && same_path(s.drop_last()[i], prev[k]);
                assert(r[k] == prev[k]);
            } else if keys.contains(path_key_spec(s.last())) {
                let w = choose|w: int| 0 <= w < keys.len() && keys[w] == path_key_spec(s.last());
                assert(same_path(s[i], r[w]));
            } else {
                assert(same_path(s[i], r[r.len() - 1]));
            }
        }
    }
}

/// Removing repeated paths keeps only paths that were given.
pub proof fn lemma_first_occurrences_given(s: Seq<Seq<char>>)
    ensures
        forall|k: int|
            0 <= k < first_occurrences(s).len() ==> s.contains(#[trigger] first_occurrences(s)[k]),
    decreases s.len(),
{
    if s.len() > 0 {
        let prev = first_occurrences(s.drop_last());
        lemma_first_occurrences_given(s.drop_last());
        let r = first_occurrences(s);
        assert forall|k: int| 0 <= k < r.len() implies s.contains(#[trigger] r[k]) by {
            if k < prev.len() {
                assert(r[k] == prev[k]);
                let j = choose|j: int| 0 <= j < s.drop_last().len() && s.drop_last()[j] == prev[k];
                assert(s[j] == r[k]);
            } else {
                assert(s[s.len() - 1] == r[k]);
            }
        }
    }
}

fn contains_key(keys: &Vec<Vec<char>>, key: &Vec<char>) -> (res: bool)
    ensures
        res == keys.deep_view().contains(key@),
{
    let mut i: usize = 0;
    while i < keys.len()
        invariant
            i <= keys@.len(),
            forall|k: int| 0 <= k < i ==> keys@[k]@ != key@,
        decreases keys@.len() - i,
    {
        if crate::text::chars_equal(&keys[i], key) {
            assert(keys.deep_view()[i as int] == key@);
            return true;
        }
        i = i + 1;
    }
    assert forall|k: int| 0 <= k < keys.deep_view().len() implies keys.deep_view()[k] != key@ by {
        assert(keys.deep_view()[k] == keys@[k]@);
    }
    false
}

/// Whether `path` is among `paths`.
pub fn contains_path(paths: &Vec<String>, path: &str) -> (res: bool)
    ensures
        res == paths.deep_view().contains(path@),
{
    let mut i: usize = 0;
    while i < paths.len()
        invariant
            i <= paths@.len(),
            forall|k: int| 0 <= k < i ==> paths@[k]@ != path@,
        decreases paths@.len() - i,
    {
        if crate::text::str_equal(paths[i].as_str(), path) {
            assert(paths.deep_view()[i as int] == path@);
            return true;
        }
        i = i + 1;
    }
    assert forall|k: int| 0 <= k < paths.deep_view().len() implies paths.deep_view()[k] != path@ by {
        assert(paths.deep_view()[k] == paths@[k]@);
    }
    false
}

/// Removes repeated paths, keeping the first occurrence of each.
pub fn unique(paths: Vec<String>) -> (res: Vec<String>)
    ensures
        res.deep_view() == first_occurrences(paths.deep_view()),
{
    let ghost all = paths.deep_view();
    let mut res: Vec<String> = Vec::new();
    let mut keys: Vec<Vec<char>> = Vec::new();
    let mut rest = paths;
    let mut i: usize = 0;
    let n = rest.len();
    while rest.len() > 0
        invariant
            all.len() == n,
            i + rest@.len() == n,
            rest.deep_view() == all.subrange(i as int, n as int),
            res.deep_view() == first_occurrences(all.subrange(0, i as int)),
            keys.deep_view() == res.deep_view().map_values(|p: Seq<char>| path_key_spec(p)),
        decreases rest@.len(),
    {
        let ghost before = rest@;
        let ghost before_view = rest.deep_view();
        assert(all[i as int] == rest.deep_view()[0]);
        let path = rest.remove(0);
        assert(path@ == all[i as int]);
        assert(all.subrange(0, i + 1).drop_last() =~= all.subrange(0, i as int));
        let key = path_key(path.as_str());
        if !contains_key(&keys, &key) {
            let ghost old_res = res.deep_view();
            let ghost old_keys = keys.deep_view();
            let ghost key_view = key@;
            let ghost old_key_vec = keys@;
            res.push(path);
            keys.push(key);
            assert(keys@ == old_key_vec.push(keys@[keys@.len() - 1]));
            assert forall|k: int| 0 <= k < keys.deep_view().len() implies keys.deep_view()[k]
                == old_keys.push(key_view)[k] by {
                assert(keys.deep_view()[k] == keys@[k]@);
                if k < old_keys.len() {
                    assert(old_keys[k] == old_key_vec[k]@);
                }
            }
            assert(res.deep_view() =~= first_occurrences(all.subrange(0, i as int)).push(
                all[i as int],
            ));
            assert(keys.deep_view() =~= res.deep_view().map_values(
                |p: Seq<char>| path_key_spec(p),
            )) by {
                assert(keys.deep_view() =~= old_keys.push(path_key_spec(all[i as int])));
            }
        }
        i = i + 1;
        assert forall|k: int| 0 <= k < rest@.len() implies rest.deep_view()[k] == all.subrange(
            i as int,
            n as int,
        )[k] by {
            assert(rest@[k] == before[k + 1]);
            assert(before_view[k + 1] == before[k + 1]@);
            assert(all.subrange(i - 1, n as int)[k + 1] == all[i + k]);
        }
        assert(rest.deep_view() =~= all.subrange(i as int, n as int));
    }
    assert(all.subrange(0, n as int) =~= all);
    res
}

/// The key paths are sorted by: their component key.
pub open spec fn path_sort_key(p: Seq<char>) -> (u8, Seq<char>) {
    (0, path_key_spec(p))
}

/// Sorts paths component by component, as `Vec<PathBuf>::sort` does;
/// paths that are equal keep their order.
pub fn sort_paths(paths: Vec<String>) -> (res: Vec<String>)
    ensures
        crate::sorting::is_stable_sort_of(
            res.deep_view(),
            paths.deep_view(),
            paths.deep_view().map_values(|p: Seq<char>| path_sort_key(p)),
            false,
        ),
{
    let ghost pv = paths.deep_view();
    let mut keys: Vec<crate::sorting::SortKey> = Vec::new();
    let mut i: usize = 0;
    while i < paths.len()
        invariant
            pv == paths.deep_view(),
            i <= pv.len(),
            keys@.len() == i,
            forall|k: int| 0 <= k < i ==> #[trigger] keys@[k].deep_view() == path_sort_key(pv[k]),
        decreases pv.len() - i,
    {
        assert(paths@[i as int]@ == pv[i as int]);
        keys.push(crate::sorting::SortKey { rank: 0, text: path_key(paths[i].as_str()) });
        i = i + 1;
    }
    assert(keys.deep_view() =~= pv.map_values(|p: Seq<char>| path_sort_key(p)));
    let ghost items = paths@;
    let sorted = crate::sorting::stable_sort(paths, &keys, false);
    proof {
        crate::sorting::lemma_stable_sort_map(sorted@, items, keys.deep_view(), false, |s: String| s@);
        assert(items.map_values(|s: String| s@) =~= pv);
        assert(sorted@.map_values(|s: String| s@) =~= sorted.deep_view());
    }
    sorted
}

proof fn lemma_index_from_joined(a: Seq<char>, sep: char, b: Seq<char>, from: int)
    requires
        0 <= from <= a.len(),
    ensures
        index_from(a + seq![sep] + b, sep, from) == (if index_from(a, sep, from) >= 0 {
            index_from(a, sep, from)
        } else {
            a.len() as int
        }),
    decreases a.len() - from,
{
    let t = a + seq![sep] + b;
    if from < a.len() {
        assert(t[from] == a[from]);
        if a[from] != sep {
            lemma_index_from_joined(a, sep, b, from + 1);
        }
    } else {
        assert(t[from] == sep);
    }
}

proof fn lemma_index_from_after(a: Seq<char>, sep: char, b: Seq<char>, j: int)
    requires
        0 <= j <= b.len(),
    ensures
        index_from(a + seq![sep] + b, sep, a.len() + 1 + j) == (if index_from(b, sep, j) >= 0 {
            index_from(b, sep, j) + a.len() + 1
        } else {
            -1
        }),
    decreases b.len() - j,
{
    let t = a + seq![sep] + b;
    if j < b.len() {
        assert(t[a.len() + 1 + j] == b[j]);
        if b[j] != sep {
            lemma_index_from_after(a, sep, b, j + 1);
            assert(a.len() + 1 + j + 1 == a.len() + 1 + (j + 1));
        }
    }
}

proof fn lemma_split_after(a: Seq<char>, sep: char, b: Seq<char>, j: int)
    requires
        0 <= j <= b.len(),
    ensures
        split_from(a + seq![sep] + b, sep, a.len() + 1 + j) == split_from(b, sep, j),
    decreases b.len() - j,
{
    let t = a + seq![sep] + b;
    let off = a.len() + 1;
    lemma_index_from_after(a, sep, b, j);
    lemma_index_from(b, sep, j);
    let kb = index_from(b, sep, j);
    if kb < 0 {
        assert(t.subrange(off + j, t.len() as int) =~= b.subrange(j, b.len() as int));
    } else {
        assert(t.subrange(off + j, kb + off) =~= b.subrange(j, kb));
        lemma_split_after(a, sep, b, kb + 1);
        assert(kb + off + 1 == off + (kb + 1));
    }
}

proof fn lemma_split_from_joined(a: Seq<char>, sep: char, b: Seq<char>, from: int)
    requires
        0 <= from <= a.len(),
    ensures
        split_from(a + seq![sep] + b, sep, from) == split_from(a, sep, from) + split_spec(b, sep),
    decreases a.len() - from,
{
    let t = a + seq![sep] + b;
    lemma_index_from_joined(a, sep, b, from);
    lemma_index_from(a, sep, from);
    let ka = index_from(a, sep, from);
    if ka >= 0 {
        assert(t.subrange(from, ka) =~= a.subrange(from, ka));
        lemma_split_from_joined(a, sep, b, ka + 1);
        assert(split_from(t, sep, from) =~= seq![a.subrange(from, ka)] + (split_from(a, sep, ka + 1)
            + split_spec(b, sep)));
    } else {
        assert(t.subrange(from, a.len() as int) =~= a.subrange(from, a.len() as int));
        lemma_split_after(a, sep, b, 0);
        assert(a.len() + 1 + 0 == a.len() + 1);
    }
}

/// `str::split` of two texts joined by the separator gives the pieces of
/// the first, then those of the second.
pub(crate) proof fn lemma_split_joined(a: Seq<char>, sep: char, b: Seq<char>)
    ensures
        split_spec(a + seq![sep] + b, sep) == split_spec(a, sep) + split_spec(b, sep),
        split_spec(a, sep).len() >= 1,
{
    lemma_split_from_joined(a, sep, b, 0);
    lemma_index_from(a, sep, 0);
}

proof fn lemma_pieces_appended(p: Seq<Seq<char>>, q: Seq<Seq<char>>, absolute: bool)
    requires
        p.len() >= 1,
    ensures
        pieces_count(p + q, absolute) == pieces_count(p, absolute) + pieces_count(q, true),
        pieces_key(p + q, absolute) == pieces_key(p, absolute) + pieces_key(q, true),
    decreases q.len(),
{
    if q.len() > 0 {
        assert((p + q).drop_last() =~= p + q.drop_last());
        lemma_pieces_appended(p, q.drop_last(), absolute);
        assert((p + q).last() == q.last());
    } else {
        assert(p + q =~= p);
    }
}

proof fn lemma_first_piece_counts(q: Seq<Seq<char>>, absolute: bool)
    requires
        q.len() >= 1,
    ensures
        pieces_count(q, absolute) >= piece_count(q[0], !absolute),
    decreases q.len(),
{
    if q.len() > 1 {
        lemma_first_piece_counts(q.drop_last(), absolute);
        assert(q.drop_last()[0] == q[0]);
    }
}

/// A name made of plain components has a first piece that is a plain
/// name, so it adds a component wherever it stands.
proof fn lemma_plain_name_counts(name: Seq<char>, absolute: bool)
    requires
        only_normal_components(name),
    ensures
        pieces_count(split_spec(name, '/'), absolute) >= 1,
{
    let q = split_spec(name, '/');
    lemma_index_from(name, '/', 0);
    let k = index_from(name, '/', 0);
    if k >= 0 {
        assert(k != 0);
        assert(q[0] == name.subrange(0, k));
    } else {
        assert(q[0] == name.subrange(0, name.len() as int));
    }
    assert(q[0].len() > 0);
    assert(q[0] != seq!['.']) by {
        if q[0] == seq!['.'] {
            assert(name[0] == q[0][0]);
            if k >= 0 {
                assert(k == 1);
            } else {
                assert(name.len() == 1);
            }
        }
    }
    lemma_first_piece_counts(q, absolute);
}

/// A plain name joined to a folder gives a path whose components start
/// with the folder's components and has more of them.
pub(crate) proof fn lemma_join_extends_folder(folder: Seq<char>, name: Seq<char>)
    requires
        only_normal_components(name),
    ensures
        crate::text::has_prefix(path_key_spec(join_spec(folder, name)), path_key_spec(folder)),
        component_count_spec(join_spec(folder, name)) > component_count_spec(folder),
{
    let joined = join_spec(folder, name);
    let q = split_spec(name, '/');
    lemma_plain_name_counts(name, true);
    lemma_plain_name_counts(name, false);
    if folder.len() == 0 {
        assert(joined =~= name);
        assert(split_spec(folder, '/') =~= seq![Seq::<char>::empty()]) by {
            assert(folder.subrange(0, 0) =~= Seq::<char>::empty());
        }
        let one: Seq<Seq<char>> = seq![Seq::<char>::empty()];
        assert(one.drop_last() =~= Seq::<Seq<char>>::empty());
        assert(one.last() == Seq::<char>::empty());
        assert(piece_key(Seq::<char>::empty(), true) =~= Seq::<char>::empty());
        assert(pieces_key(one.drop_last(), false) =~= Seq::<char>::empty());
        assert(pieces_key(one, false) =~= Seq::<char>::empty());
        assert(path_key_spec(folder) =~= Seq::<char>::empty());
        assert(piece_count(Seq::<char>::empty(), true) == 0);
        assert(pieces_count(one.drop_last(), false) == 0);
        assert(pieces_count(one, false) == 0);
        assert(path_key_spec(joined).subrange(0, 0) =~= path_key_spec(folder));
    } else {
        let absolute = is_absolute(folder);
        let root: Seq<char> = if absolute {
            seq!['\u{1}', '\0']
        } else {
            Seq::empty()
        };
        let (head, tail): (Seq<char>, Seq<Seq<char>>) = if folder.last() == '/' {
            (folder.drop_last(), seq![Seq::<char>::empty()])
        } else {
            (folder, Seq::empty())
        };
        assert(joined =~= head + seq!['/'] + name);
        assert(joined[0] == folder[0]);
        assert(is_absolute(joined) == absolute);
        lemma_split_joined(head, '/', name);
        let p = split_spec(head, '/');
        if folder.last() == '/' {
            assert(folder =~= head + seq!['/'] + Seq::<char>::empty());
            lemma_split_joined(head, '/', Seq::<char>::empty());
            assert(split_spec(Seq::<char>::empty(), '/') =~= seq![Seq::<char>::empty()]) by {
                assert(Seq::<char>::empty().subrange(0, 0) =~= Seq::<char>::empty());
            }
            let one: Seq<Seq<char>> = seq![Seq::<char>::empty()];
            assert(split_spec(folder, '/') == p + one);
            lemma_pieces_appended(p, one, absolute);
            assert(one.drop_last() =~= Seq::<Seq<char>>::empty());
            assert(one.last() == Seq::<char>::empty());
            assert(piece_key(Seq::<char>::empty(), false) =~= Seq::<char>::empty());
            assert(piece_count(Seq::<char>::empty(), false) == 0);
            assert(pieces_key(one.drop_last(), true) =~= Seq::<char>::empty());
            assert(pieces_key(one, true) =~= Seq::<char>::empty());
            assert(pieces_count(one.drop_last(), true) == 0);
            assert(pieces_count(one, true) == 0);
            assert(pieces_key(split_spec(folder, '/'), absolute) =~= pieces_key(p, absolute));
            assert(pieces_count(split_spec(folder, '/'), absolute) == pieces_count(p, absolute));
        } else {
            assert(split_spec(folder, '/') == p);
        }
        lemma_pieces_appended(p, q, absolute);
        assert(path_key_spec(joined) =~= path_key_spec(folder) + pieces_key(q, true));
        assert(path_key_spec(joined).subrange(0, path_key_spec(folder).len() as int) =~= path_key_spec(
            folder,
        ));
    }
}

/// Whether one of `paths` is the same path as `x`, component by component.
pub fn contains_same_path(paths: &Vec<String>, x: &str) -> (res: bool)
    ensures
        res == exists|i: int| 0 <= i < paths@.len() && same_path(#[trigger] paths@[i]@, x@),
{
    let mut i: usize = 0;
    while i < paths.len()
        invariant
            i <= paths@.len(),
            forall|k: int| 0 <= k < i ==> !same_path(#[trigger] paths@[k]@, x@),
        decreases paths@.len() - i,
    {
        if paths_equal(paths[i].as_str(), x) {
            return true;
        }
        i = i + 1;
    }
    false
}

} // verus!
