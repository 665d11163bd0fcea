//! Which files are images, how a path given on the command line resolves,
//! and the natural order in which images are listed.
use vstd::prelude::*;
use std::path::Path;
use std::path::PathBuf;

verus! {

#[verifier::external_type_specification]
#[verifier::external_body]
pub struct ExPath(Path);

#[verifier::external_type_specification]
#[verifier::external_body]
pub struct ExPathBuf(PathBuf);

/// Unicode lowercase mapping of a string (`str::to_lowercase`).
pub uninterp spec fn lowercase(s: Seq<char>) -> Seq<char>;

/// Natural ordering of two strings as `natord::compare` computes it:
/// -1 (less), 0 (equal) or 1 (greater).
pub uninterp spec fn natord_order(a: Seq<char>, b: Seq<char>) -> int;

/// The extension of `path` as `Path::extension` finds it (the part of the
/// file name after its last dot), as UTF-8 text; `None` when there is none
/// or it is not valid UTF-8. It depends on the path alone.
pub uninterp spec fn path_extension_text(path: &Path) -> Option<Seq<char>>;

/// The file name of `path` as `Path::file_name` finds it, as UTF-8 text;
/// `None` when there is none or it is not valid UTF-8.
pub uninterp spec fn path_file_name_text(path: &Path) -> Option<Seq<char>>;

/// The file name of `path` as `Path::file_name` finds it, converted
/// lossily to text; `None` when there is none.
pub uninterp spec fn path_file_name_lossy_text(path: &Path) -> Option<Seq<char>>;

/// The parent of `path` as `Path::parent` finds it, as an owned path.
pub uninterp spec fn path_parent_buf(path: &Path) -> Option<PathBuf>;

/// `path` as an owned path (`Path::to_path_buf`).
pub uninterp spec fn path_owned(path: &Path) -> PathBuf;

/// Whether an owned path is empty (holds no text), as
/// `OsStr::is_empty` tells of `PathBuf::as_os_str`.
pub uninterp spec fn path_buf_empty(p: PathBuf) -> bool;

/// The owned path holding the text `s` (`PathBuf::from`).
pub uninterp spec fn path_buf_of_text(s: Seq<char>) -> PathBuf;

/// The text held by an optional string.
pub open spec fn opt_text(o: Option<String>) -> Option<Seq<char>> {
    match o {
        Some(s) => Some(s@),
        None => None,
    }
}

/// `Path::extension`, as UTF-8 text. The result is the named
/// `path_extension_text` of the path; what that is is not stated.
#[verifier::external_body]
fn path_extension(path: &Path) -> (r: Option<String>)
    ensures
        opt_text(r) == path_extension_text(path),
{
    match path.extension() {
        Some(ext) => match ext.to_str() {
            Some(s) => Some(s.to_string()),
            None => None,
        },
        None => None,
    }
}

/// `Path::file_name`, as UTF-8 text. The result is the named
/// `path_file_name_text` of the path; what that is is not stated.
#[verifier::external_body]
fn path_file_name_str(path: &Path) -> (r: Option<String>)
    ensures
        opt_text(r) == path_file_name_text(path),
{
    match path.file_name() {
        Some(name) => match name.to_str() {
            Some(s) => Some(s.to_string()),
            None => None,
        },
        None => None,
    }
}

/// `Path::file_name`, converted lossily to text. The result is the named
/// `path_file_name_lossy_text` of the path; what that is is not stated.
#[verifier::external_body]
fn path_file_name_lossy(path: &Path) -> (r: Option<String>)
    ensures
        opt_text(r) == path_file_name_lossy_text(path),
{
    match path.file_name() {
        Some(name) => Some(name.to_string_lossy().into_owned()),
        None => None,
    }
}

/// `Path::is_file`: whether the path names an existing regular file. The
/// answer depends on the file system; nothing is stated of it.
#[verifier::external_body]
fn path_is_file(path: &Path) -> bool {
    path.is_file()
}

/// `Path::parent`, as an owned path. The result is the named
/// `path_parent_buf` of the path; what that is is not stated.
#[verifier::external_body]
fn path_parent(path: &Path) -> (r: Option<PathBuf>)
    ensures
        r == path_parent_buf(path),
{
    match path.parent() {
        Some(p) => Some(p.to_path_buf()),
        None => None,
    }
}

/// `Path::to_path_buf`. The result is the named `path_owned` of the path.
#[verifier::external_body]
fn path_to_buf(path: &Path) -> (r: PathBuf)
    ensures
        r == path_owned(path),
{
    path.to_path_buf()
}

/// Every character of `s` is ASCII.
pub open spec fn is_ascii_text(s: Seq<char>) -> bool {
    forall|i: int| 0 <= i < s.len() ==> (s[i] as u32) < 128
}

/// The ASCII lowercase of an ASCII string: `A` to `Z` become `a` to `z`,
/// every other character stays.
pub open spec fn ascii_lowercase(s: Seq<char>) -> Seq<char> {
    Seq::new(
        s.len(),
        |i: int|
            if 'A' <= s[i] <= 'Z' {
                ((s[i] as u32) + 32) as char
            } else {
                s[i]
            },
    )
}

/// `PathBuf::as_os_str` then `OsStr::is_empty`: whether the path holds no
/// text. The result is the named `path_buf_empty` of the path.
#[verifier::external_body]
fn path_buf_is_empty(p: &PathBuf) -> (r: bool)
    ensures
        r == path_buf_empty(*p),
{
    p.as_os_str().is_empty()
}

/// `PathBuf::from` a string. The result is the named `path_buf_of_text` of
/// the text.
#[verifier::external_body]
fn path_buf_from_str(s: &str) -> (r: PathBuf)
    ensures
        r == path_buf_of_text(s@),
{
    PathBuf::from(s)
}

/// `str::to_lowercase`: the result is the Unicode lowercase mapping of
/// `s`, which on ASCII text is the ASCII lowercase.
#[verifier::external_body]
fn str_to_lowercase(s: &str) -> (r: String)
    ensures
        r@ == lowercase(s@),
        is_ascii_text(s@) ==> r@ == ascii_lowercase(s@),
{
    s.to_lowercase()
}

/// `natord::compare`: natural order of `a` and `b` as -1, 0 or 1. The
/// comparison is symmetric: swapping the arguments negates the result.
#[verifier::external_body]
fn natural_compare(a: &str, b: &str) -> (r: i8)
    ensures
        r == natord_order(a@, b@),
        r == -natord_order(b@, a@),
        -1 <= r <= 1,
{
    match natord::compare(a, b) {
        std::cmp::Ordering::Less => -1,
        std::cmp::Ordering::Equal => 0,
        std::cmp::Ordering::Greater => 1,
    }
}

/// Whether two strings hold the same characters.
pub fn str_eq(a: &str, b: &str) -> (r: bool)
    ensures
        r == (a@ == b@),
{
    let n = a.unicode_len();
    if n != b.unicode_len() {
        return false;
    }
    let mut i: usize = 0;
    while i < n
        invariant
            n == a@.len(),
            n == b@.len(),
            i <= n,
            forall|j: int| 0 <= j < i ==> a@[j] == b@[j],
        decreases n - i,
    {
        if a.get_char(i) != b.get_char(i) {
            return false;
        }
        i = i + 1;
    }
    assert(a@ =~= b@);
    true
}

/// The extensions (lowercase) of the supported image formats.
pub open spec fn supported_extension(ext: Seq<char>) -> bool {
    ||| ext == "jpg"@
    ||| ext == "jpeg"@
    ||| ext == "png"@
    ||| ext == "bmp"@
    ||| ext == "webp"@
    ||| ext == "gif"@
    ||| ext == "tiff"@
    ||| ext == "tif"@
    ||| ext == "qoi"@
    ||| ext == "tga"@
}

/// Whether a lowercase extension names a supported image format.
pub fn is_supported_extension(ext: &str) -> (r: bool)
    ensures
        r == supported_extension(ext@),
{
    str_eq(ext, "jpg") || str_eq(ext, "jpeg") || str_eq(ext, "png") || str_eq(ext, "bmp") || str_eq(
        ext,
        "webp",
    ) || str_eq(ext, "gif") || str_eq(ext, "tiff") || str_eq(ext, "tif") || str_eq(ext, "qoi")
        || str_eq(ext, "tga")
}

/// Whether an extension (UTF-8 text, as `Path::extension` gives it) names
/// a supported image format, compared without regard to case.
pub fn is_supported_extension_text(ext: &Option<String>) -> (r: bool)
    ensures
        r == match ext {
            Some(e) => supported_extension(lowercase(e@)),
            None => false,
        },
        match ext {
            Some(e) => is_ascii_text(e@) ==> lowercase(e@) == ascii_lowercase(e@) && r == supported_extension(
                ascii_lowercase(e@),
            ),
            None => true,
        },
{
    match ext {
        Some(e) => {
            let lower = str_to_lowercase(e.as_str());
            is_supported_extension(lower.as_str())
        },
        None => false,
    }
}

/// Whether the path has a supported image extension, compared without
/// regard to case. Which extension the path has is `Path::extension`'s
/// answer; what is made of it is `is_supported_extension_text`.
pub fn is_supported_image(path: &Path) -> (r: bool)
    ensures
        r == match path_extension_text(path) {
            Some(e) => supported_extension(lowercase(e)),
            None => false,
        },
        match path_extension_text(path) {
            Some(e) => is_ascii_text(e) ==> lowercase(e) == ascii_lowercase(e) && r == supported_extension(
                ascii_lowercase(e),
            ),
            None => true,
        },
{
    is_supported_extension_text(&path_extension(path))
}

/// Whether a file name is hidden (starts with a dot).
pub fn is_hidden_name(name: &str) -> (r: bool)
    ensures
        r == (name@.len() > 0 && name@[0] == '.'),
{
    name.unicode_len() > 0 && name.get_char(0) == '.'
}

/// A directory entry with file name `name` and extension `ext` (UTF-8
/// text, `None` when missing or not valid UTF-8) is listed as an image:
/// the name exists and is not hidden, and the extension is supported.
pub open spec fn listed(name: Option<String>, ext: Option<String>) -> bool {
    listed_text(opt_text(name), opt_text(ext))
}

/// `listed` over the texts of the name and the extension.
pub open spec fn listed_text(name: Option<Seq<char>>, ext: Option<Seq<char>>) -> bool {
    &&& match name {
        Some(n) => !(n.len() > 0 && n[0] == '.'),
        None => false,
    }
    &&& match ext {
        Some(e) => supported_extension(lowercase(e)),
        None => false,
    }
}

/// Whether a directory entry with file name `name` and extension `ext` is
/// listed as an image.
pub fn is_listed_entry(name: &Option<String>, ext: &Option<String>) -> (r: bool)
    ensures
        r == listed(*name, *ext),
{
    let not_hidden = match name {
        Some(n) => !is_hidden_name(n.as_str()),
        None => false,
    };
    not_hidden && is_supported_extension_text(ext)
}

/// Whether a directory entry is listed as an image: its file name is valid
/// UTF-8 and not hidden, and it has a supported extension (see
/// `is_listed_entry`).
pub fn is_listed_image(path: &Path) -> (r: bool)
    ensures
        r == listed_text(path_file_name_text(path), path_extension_text(path)),
{
    is_listed_entry(&path_file_name_str(path), &path_extension(path))
}

/// Picks the directory and target file of a path: a file resolves to its
/// parent directory (the path itself when it has none) and its file name;
/// anything else resolves to itself with no target.
pub fn resolve_parts(
    is_file: bool,
    whole: PathBuf,
    parent: Option<PathBuf>,
    file_name: Option<String>,
) -> (r: (PathBuf, Option<String>))
    ensures
        r == if is_file {
            (
                match parent {
                    Some(p) => p,
                    None => whole,
                },
                file_name,
            )
        } else {
            (whole, None::<String>)
        },
{
    if is_file {
        let dir = match parent {
            Some(p) => p,
            None => whole,
        };
        (dir, file_name)
    } else {
        (whole, None)
    }
}

/// The directory to list for a parent directory: an empty parent (that of
/// a bare file name) is the current directory `.`.
pub open spec fn usable_parent_spec(parent: Option<PathBuf>) -> Option<PathBuf> {
    match parent {
        Some(p) => Some(if path_buf_empty(p) { path_buf_of_text("."@) } else { p }),
        None => None,
    }
}

/// The directory to list for a parent directory: an empty parent (that of
/// a bare file name such as `a.png`) becomes the current directory `.`,
/// which can be listed.
pub fn usable_parent(parent: Option<PathBuf>) -> (r: Option<PathBuf>)
    ensures
        r == usable_parent_spec(parent),
{
    match parent {
        Some(p) => {
            if path_buf_is_empty(&p) {
                Some(path_buf_from_str("."))
            } else {
                Some(p)
            }
        },
        None => None,
    }
}

/// `r` is how `path` resolves when it is a file (`is_file`) or not: a file
/// resolves to its parent directory (the current directory `.` when the
/// parent is empty, the path itself when it has none) and its lossily
/// converted file name, anything else to itself with no target.
pub open spec fn resolved_as(path: &Path, is_file: bool, r: (PathBuf, Option<String>)) -> bool {
    &&& r.0 == if is_file {
        match usable_parent_spec(path_parent_buf(path)) {
            Some(p) => p,
            None => path_owned(path),
        }
    } else {
        path_owned(path)
    }
    &&& opt_text(r.1) == if is_file {
        path_file_name_lossy_text(path)
    } else {
        None::<Seq<char>>
    }
}

/// Resolves a path given on the command line to a directory and an
/// optional target file name: a file resolves to its parent directory (the
/// current directory for a bare file name) and its (lossily converted)
/// file name, a directory to itself.
pub fn resolve_path(path: &Path) -> (r: (PathBuf, Option<String>))
    ensures
        exists|is_file: bool| #[trigger] resolved_as(path, is_file, r),
{
    resolve_as(path, path_is_file(path))
}

/// Resolves `path` given whether the file system reports it as a regular
/// file (`is_file`): a file resolves to its parent directory (the current
/// directory for a bare file name) and its lossily converted file name,
/// anything else to itself with no target.
pub fn resolve_as(path: &Path, is_file: bool) -> (r: (PathBuf, Option<String>))
    ensures
        resolved_as(path, is_file, r),
        is_file ==> opt_text(r.1) == path_file_name_lossy_text(path),
        !is_file ==> r.0 == path_owned(path) && r.1 is None,
{
    if is_file {
        resolve_parts(true, path_to_buf(path), usable_parent(path_parent(path)), path_file_name_lossy(path))
    } else {
        resolve_parts(false, path_to_buf(path), None, None)
    }
}

/// What the listing reads of a directory entry: its file name and its
/// extension when they are valid UTF-8, and its file name converted
/// lossily (empty when it has none), by which entries are sorted.
pub struct EntryNames {
    pub name: Option<String>,
    pub ext: Option<String>,
    pub sort_name: String,
}

/// Reads the names of a directory entry (see `EntryNames`) from its path.
pub fn entry_names(path: &Path) -> (e: EntryNames)
    ensures
        opt_text(e.name) == path_file_name_text(path),
        opt_text(e.ext) == path_extension_text(path),
        e.sort_name@ == match path_file_name_lossy_text(path) {
            Some(n) => n,
            None => Seq::<char>::empty(),
        },
{
    let sort_name = match path_file_name_lossy(path) {
        Some(n) => n,
        None => String::new(),
    };
    EntryNames { name: path_file_name_str(path), ext: path_extension(path), sort_name }
}

/// `k` is the image to open first among `names`: the position of the
/// first name equal to `target`, or 0 when there is no target or no name
/// matches.
pub open spec fn is_start_index(names: Seq<String>, target: Option<String>, k: int) -> bool {
    match target {
        None => k == 0,
        Some(t) => if exists|j: int| 0 <= j < names.len() && #[trigger] names[j]@ == t@ {
            &&& 0 <= k < names.len()
            &&& names[k]@ == t@
            &&& forall|j: int| 0 <= j < k ==> #[trigger] names[j]@ != t@
        } else {
            k == 0
        },
    }
}

/// The image to open first: the position of the first of `names` equal to
/// `target`, or 0 when there is no target or no name matches.
pub fn start_index(names: &Vec<String>, target: &Option<String>) -> (k: usize)
    ensures
        is_start_index(names@, *target, k as int),
{
    match target {
        Some(t) => {
            let mut i: usize = 0;
            while i < names.len()
                invariant
                    i <= names@.len(),
                    *target == Some(*t),
                    forall|j: int| 0 <= j < i ==> #[trigger] names@[j]@ != t@,
                decreases names@.len() - i,
            {
                if str_eq(names[i].as_str(), t.as_str()) {
                    return i;
                }
                i = i + 1;
            }
            0
        },
        None => 0,
    }
}

/// `order` lists indices into `names` sorted by natural order, stably:
/// each name is not greater than the next, and neighbours that compare
/// equal keep their original order.
pub open spec fn naturally_sorted(names: Seq<Seq<char>>, order: Seq<usize>) -> bool {
    forall|k: int, l: int|
        0 <= k && l == k + 1 && l < order.len() ==> natord_order(
            names[#[trigger] order[k] as int],
            names[#[trigger] order[l] as int],
        ) <= 0 && (natord_order(names[order[k] as int], names[order[l] as int]) == 0 ==> order[k] < order[l])
}

/// The positions of `names` in natural order (a stable insertion sort
/// with `natord::compare`).
pub fn natural_order(names: &Vec<String>) -> (order: Vec<usize>)
    ensures
        order@.len() == names@.len(),
        order@.no_duplicates(),
        forall|k: int| 0 <= k < order@.len() ==> order@[k] < names@.len(),
        forall|j: usize| j < names@.len() ==> order@.contains(j),
        naturally_sorted(names@.map_values(|s: String| s@), order@),
{
    let ghost views = names@.map_values(|s: String| s@);
    let mut order: Vec<usize> = Vec::new();
    let mut i: usize = 0;
    while i < names.len()
        invariant
            i <= names@.len(),
            views == names@.map_values(|s: String| s@),
            order@.len() == i,
            order@.no_duplicates(),
            forall|k: int| 0 <= k < order@.len() ==> order@[k] < i,
            forall|m: usize| m < i ==> order@.contains(m),
            naturally_sorted(views, order@),
        decreases names@.len() - i,
    {
        let mut j: usize = order.len();
        while j > 0
            invariant_except_break
                i < names@.len(),
                j <= order@.len(),
                views == names@.map_values(|s: String| s@),
                order@.len() == i,
                order@.no_duplicates(),
                forall|k: int| 0 <= k < order@.len() ==> order@[k] < i,
                forall|m: usize| m < i ==> order@.contains(m),
                naturally_sorted(views, order@),
                j < order@.len() ==> natord_order(views[i as int], views[order@[j as int] as int])
                    == -1,
            ensures
                j <= order@.len(),
                views == names@.map_values(|s: String| s@),
                order@.len() == i,
                order@.no_duplicates(),
                forall|k: int| 0 <= k < order@.len() ==> order@[k] < i,
                forall|m: usize| m < i ==> order@.contains(m),
                naturally_sorted(views, order@),
                j < order@.len() ==> natord_order(views[i as int], views[order@[j as int] as int])
                    == -1,
                j > 0 ==> natord_order(views[order@[j - 1] as int], views[i as int]) <= 0,
            decreases j,
        {
            proof {
                assert(views[order@[j - 1] as int] == names@[order@[j - 1] as int]@);
                assert(views[i as int] == names@[i as int]@);
            }
            let c = natural_compare(names[order[j - 1]].as_str(), names[i].as_str());
            if c != 1 {
                break;
            }
            j = j - 1;
        }
        let ghost before = order@;
        order.insert(j, i);
        proof {
            let after = order@;
            assert(after == before.insert(j as int, i));
            assert forall|k: int| 0 <= k < after.len() implies after[k] < i + 1 by {
                if k < j {
                    assert(after[k] == before[k]);
                } else if k > j {
                    assert(after[k] == before[k - 1]);
                }
            }
            assert forall|m: usize| m < i + 1 implies after.contains(m) by {
                if m == i {
                    assert(after[j as int] == i);
                } else {
                    assert(before.contains(m));
                    let w = choose|w: int| 0 <= w < before.len() && before[w] == m;
                    if w < j {
                        assert(after[w] == m);
                    } else {
                        assert(after[w + 1] == m);
                    }
                }
            }
            assert(after.no_duplicates()) by {
                assert forall|a: int, b: int|
                    0 <= a < after.len() && 0 <= b < after.len() && a != b implies after[a]
                    != after[b] by {
                    let sa = if a < j { a } else { a - 1 };
                    let sb = if b < j { b } else { b - 1 };
                    if a != j as int {
                        assert(after[a] == before[sa]);
                    }
                    if b != j as int {
                        assert(after[b] == before[sb]);
                    }
                }
            }
            assert(naturally_sorted(views, after)) by {
                assert forall|k: int, l: int| 0 <= k && l == k + 1 && l < after.len() implies natord_order(
                    views[#[trigger] after[k] as int],
                    views[#[trigger] after[l] as int],
                ) <= 0 && (natord_order(views[after[k] as int], views[after[l] as int]) == 0 ==> after[k]
                    < after[l]) by {
                    if k + 1 < j {
                        assert(after[k] == before[k]);
                        assert(after[k + 1] == before[k + 1]);
                        assert(natord_order(views[before[k] as int], views[before[k + 1] as int]) <= 0);
                    } else if k + 1 == j {
                        assert(after[k] == before[k]);
                        assert(after[k + 1] == i);
                        assert(natord_order(views[before[j - 1] as int], views[i as int]) <= 0);
                        assert(before[k] < i);
                    } else if k == j {
                        assert(after[k] == i);
                        assert(after[k + 1] == before[k]);
                        assert(natord_order(views[i as int], views[before[j as int] as int]) == -1);
                    } else {
                        assert(after[k] == before[k - 1]);
                        assert(after[k + 1] == before[k]);
                        assert(natord_order(views[before[k - 1] as int], views[before[k] as int]) <= 0);
                    }
                }
            }
        }
        i = i + 1;
    }
    order
}

/// The positions of the entries listed as images (see `listed`), each
/// once, sorted by the natural order of their sort names; entries that
/// compare equal keep their order.
pub fn listed_order(entries: &Vec<EntryNames>) -> (order: Vec<usize>)
    ensures
        order@.no_duplicates(),
        forall|k: int| 0 <= k < order@.len() ==> order@[k] < entries@.len(),
        forall|k: int|
            0 <= k < order@.len() ==> listed(
                #[trigger] entries@[order@[k] as int].name,
                entries@[order@[k] as int].ext,
            ),
        forall|j: usize|
            j < entries@.len() && listed(entries@[j as int].name, entries@[j as int].ext)
                ==> order@.contains(j),
        forall|k: int, l: int|
            0 <= k && l == k + 1 && l < order@.len() ==> natord_order(
                entries@[#[trigger] order@[k] as int].sort_name@,
                entries@[#[trigger] order@[l] as int].sort_name@,
            ) <= 0 && (natord_order(entries@[order@[k] as int].sort_name@, entries@[order@[l] as int].sort_name@)
                == 0 ==> order@[k] < order@[l]),
{
    let mut kept: Vec<usize> = Vec::new();
    let mut names: Vec<String> = Vec::new();
    let mut i: usize = 0;
    while i < entries.len()
        invariant
            i <= entries@.len(),
            kept@.len() == names@.len(),
            forall|k: int| 0 <= k < kept@.len() ==> kept@[k] < i,
            forall|a: int, b: int| 0 <= a < b < kept@.len() ==> kept@[a] < kept@[b],
            forall|k: int|
                0 <= k < kept@.len() ==> listed(
                    #[trigger] entries@[kept@[k] as int].name,
                    entries@[kept@[k] as int].ext,
                ),
            forall|k: int| 0 <= k < kept@.len() ==> #[trigger] names@[k]@ == entries@[kept@[k] as int].sort_name@,
            forall|j: usize|
                j < i && listed(entries@[j as int].name, entries@[j as int].ext) ==> kept@.contains(j),
        decreases entries@.len() - i,
    {
        let e = &entries[i];
        if is_listed_entry(&e.name, &e.ext) {
            let ghost before = kept@;
            kept.push(i);
            names.push(e.sort_name.clone());
            proof {
                assert forall|j: usize|
                    j < i + 1 && listed(entries@[j as int].name, entries@[j as int].ext) implies kept@.contains(j) by {
                    if j == i {
                        assert(kept@[kept@.len() - 1] == i);
                    } else {
                        assert(before.contains(j));
                        let w = choose|w: int| 0 <= w < before.len() && before[w] == j;
                        assert(kept@[w] == j);
                    }
                }
            }
        }
        i = i + 1;
    }
    let perm = natural_order(&names);
    let ghost views = names@.map_values(|s: String| s@);
    let mut order: Vec<usize> = Vec::new();
    let mut k: usize = 0;
    while k < perm.len()
        invariant
            k <= perm@.len(),
            perm@.len() == names@.len(),
            kept@.len() == names@.len(),
            forall|q: int| 0 <= q < perm@.len() ==> perm@[q] < names@.len(),
            order@.len() == k,
            forall|q: int| 0 <= q < k ==> #[trigger] order@[q] == kept@[perm@[q] as int],
        decreases perm@.len() - k,
    {
        order.push(kept[perm[k]]);
        k = k + 1;
    }
    proof {
        assert forall|a: int, b: int| 0 <= a < order@.len() && 0 <= b < order@.len() && a != b implies order@[a]
            != order@[b] by {
            assert(perm@[a] != perm@[b]);
            if perm@[a] < perm@[b] {
                assert(kept@[perm@[a] as int] < kept@[perm@[b] as int]);
            } else {
                assert(kept@[perm@[b] as int] < kept@[perm@[a] as int]);
            }
        }
        assert forall|k: int| 0 <= k < order@.len() implies order@[k] < entries@.len() by {
            assert(order@[k] == kept@[perm@[k] as int]);
        }
        assert forall|k: int| 0 <= k < order@.len() implies listed(
            #[trigger] entries@[order@[k] as int].name,
            entries@[order@[k] as int].ext,
        ) by {
            assert(order@[k] == kept@[perm@[k] as int]);
        }
        assert forall|j: usize|
            j < entries@.len() && listed(entries@[j as int].name, entries@[j as int].ext) implies order@.contains(j) by {
            assert(kept@.contains(j));
            let m = choose|m: int| 0 <= m < kept@.len() && kept@[m] == j;
            assert(perm@.contains(m as usize));
            let q = choose|q: int| 0 <= q < perm@.len() && perm@[q] == m as usize;
            assert(order@[q] == j);
        }
        assert forall|k: int, l: int|
            0 <= k && l == k + 1 && l < order@.len() implies natord_order(
                entries@[#[trigger] order@[k] as int].sort_name@,
                entries@[#[trigger] order@[l] as int].sort_name@,
            ) <= 0 && (natord_order(entries@[order@[k] as int].sort_name@, entries@[order@[l] as int].sort_name@)
                == 0 ==> order@[k] < order@[l]) by {
            assert(perm@[k] != perm@[l]);
            if perm@[k] < perm@[l] {
                assert(kept@[perm@[k] as int] < kept@[perm@[l] as int]);
            }
            assert(order@[k] == kept@[perm@[k] as int]);
            assert(order@[l] == kept@[perm@[l] as int]);
            assert(natord_order(views[perm@[k] as int], views[perm@[l] as int]) <= 0);
            assert(views[perm@[k] as int] == names@[perm@[k] as int]@);
            assert(views[perm@[l] as int] == names@[perm@[l] as int]@);
        }
    }
    order
}

} // verus!
