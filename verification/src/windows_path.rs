//! Windows paths as text: roots, parts and sibling files.

use crate::text::{ascii_lower, chars_of, code_point, same_text, string_of};
use vstd::prelude::*;
use vstd::string::*;

verus! {

/// Whether a character separates parts.
pub open spec fn separator(c: char) -> bool {
    c == '\\' || c == '/'
}

/// Whether a character is a drive letter.
pub open spec fn drive_letter(c: char) -> bool {
    ('a' <= c && c <= 'z') || ('A' <= c && c <= 'Z')
}

/// Whether a path starts with a drive and a root.
pub open spec fn on_drive(path: Seq<char>) -> bool {
    path.len() >= 3 && drive_letter(path[0]) && path[1] == ':' && separator(path[2])
}

/// Whether a path starts with a server or a device.
pub open spec fn on_server(path: Seq<char>) -> bool {
    path.len() >= 3 && separator(path[0]) && separator(path[1]) && !separator(path[2])
}

/// Whether a path is absolute.
pub open spec fn absolute_path(path: Seq<char>) -> bool {
    on_drive(path) || on_server(path)
}

/// Whether a part names nothing.
pub open spec fn empty_part(part: Seq<char>) -> bool {
    part.len() == 0 || part == seq!['.']
}

/// The parts of a path so far, and the part that is being read.
pub open spec fn scanned(path: Seq<char>) -> (Seq<Seq<char>>, Seq<char>)
    decreases path.len(),
{
    if path.len() == 0 {
        (Seq::empty(), Seq::empty())
    } else {
        let (parts, open) = scanned(path.drop_last());
        if separator(path.last()) {
            (closed_part(parts, open), Seq::empty())
        } else {
            (parts, open.push(path.last()))
        }
    }
}

/// The parts with one more, unless it names nothing.
pub open spec fn closed_part(parts: Seq<Seq<char>>, part: Seq<char>) -> Seq<Seq<char>> {
    if empty_part(part) {
        parts
    } else {
        parts.push(part)
    }
}

/// The parts of a path.
pub open spec fn parts_of(path: Seq<char>) -> Seq<Seq<char>> {
    closed_part(scanned(path).0, scanned(path).1)
}

/// Number of parts that belong to the root.
pub open spec fn root_parts(path: Seq<char>) -> nat {
    if on_server(path) {
        2
    } else {
        1
    }
}

/// Whether a path starts with a drive after the prefix that turns normalisation
/// off.
pub open spec fn on_verbatim_drive(path: Seq<char>) -> bool {
    &&& path.len() >= 6
    &&& path[0] == '\\' && path[1] == '\\' && path[2] == '?' && path[3] == '\\'
    &&& drive_letter(path[4]) && path[5] == ':'
    &&& path.len() == 6 || separator(path[6])
}

/// A path with its drive letter, if it has one, in lower case: drives are the
/// same in either case.
pub open spec fn drive_folded(path: Seq<char>) -> Seq<char> {
    if on_drive(path) {
        path.update(0, ascii_lower(path[0]))
    } else if on_verbatim_drive(path) {
        path.update(4, ascii_lower(path[4]))
    } else {
        path
    }
}

/// The parts of the file with another name beside a path.
pub open spec fn sibling_parts(path: Seq<char>, name: Seq<char>) -> Seq<Seq<char>> {
    let parts = parts_of(drive_folded(path));
    if parts.len() > root_parts(path) && parts.last() != seq!['.', '.'] {
        parts.drop_last().push(name)
    } else {
        parts.push(name)
    }
}

/// Whether `other` is the file called `name` beside an absolute path.
pub open spec fn is_sibling(path: Seq<char>, name: Seq<char>, other: Seq<char>) -> bool {
    absolute_path(other) && on_server(path) == on_server(other) && parts_of(drive_folded(other))
        == sibling_parts(path, name)
}

/// The parts as plain values.
pub open spec fn part_views(parts: Seq<String>) -> Seq<Seq<char>> {
    parts.map_values(|p: String| p@)
}

fn is_separator(c: char) -> (b: bool)
    ensures
        b == separator(c),
{
    c == '\\' || c == '/'
}

fn is_on_drive(chars: &Vec<char>) -> (b: bool)
    ensures
        b == on_drive(chars@),
{
    chars.len() >= 3 && (('a' <= chars[0] && chars[0] <= 'z') || ('A' <= chars[0] && chars[0]
        <= 'Z')) && chars[1] == ':' && is_separator(chars[2])
}

fn is_on_server(chars: &Vec<char>) -> (b: bool)
    ensures
        b == on_server(chars@),
{
    chars.len() >= 3 && is_separator(chars[0]) && is_separator(chars[1]) && !is_separator(chars[2])
}

/// Whether a path is absolute.
pub fn is_absolute(path: &str) -> (b: bool)
    ensures
        b == absolute_path(path@),
{
    let chars = chars_of(path);
    is_on_drive(&chars) || is_on_server(&chars)
}

fn close_part(parts: &mut Vec<String>, part: &Vec<char>)
    ensures
        part_views(final(parts)@) == closed_part(part_views(old(parts)@), part@),
{
    let dot: bool = part.len() == 1 && part[0] == '.';
    assert(dot == (part@ =~= seq!['.']));
    if part.len() > 0 && !dot {
        parts.push(string_of(part));
        assert(part_views(parts@) =~= part_views(old(parts)@).push(part@));
    }
}

/// The parts of a path.
pub fn path_parts(path: &str) -> (parts: Vec<String>)
    ensures
        part_views(parts@) == parts_of(path@),
{
    let chars = chars_of(path);
    let mut parts: Vec<String> = Vec::new();
    let mut open: Vec<char> = Vec::new();
    let mut i: usize = 0;
    assert(part_views(parts@) =~= scanned(chars@.take(0)).0);
    assert(open@ =~= scanned(chars@.take(0)).1);
    while i < chars.len()
        invariant
            i <= chars@.len(),
            chars@ == path@,
            part_views(parts@) == scanned(chars@.take(i as int)).0,
            open@ == scanned(chars@.take(i as int)).1,
        decreases chars@.len() - i,
    {
        let ghost longer = chars@.take(i as int + 1);
        assert(longer.drop_last() =~= chars@.take(i as int));
        assert(longer.last() == chars@[i as int]);
        if is_separator(chars[i]) {
            close_part(&mut parts, &open);
            open = Vec::new();
        } else {
            open.push(chars[i]);
        }
        i = i + 1;
    }
    assert(chars@.take(chars@.len() as int) =~= chars@);
    close_part(&mut parts, &open);
    parts
}

fn lower_letter(c: char) -> (l: char)
    ensures
        l == ascii_lower(c),
{
    let n: u32 = code_point(c);
    if 65 <= n && n <= 90 {
        ((n + 32) as u8) as char
    } else {
        c
    }
}

fn fold_drive(path: &Vec<char>) -> (text: String)
    ensures
        text@ == drive_folded(path@),
{
    let mut chars: Vec<char> = Vec::new();
    let mut i: usize = 0;
    while i < path.len()
        invariant
            i <= path@.len(),
            chars@ == path@.take(i as int),
        decreases path@.len() - i,
    {
        chars.push(path[i]);
        assert(chars@ =~= path@.take(i as int + 1));
        i = i + 1;
    }
    assert(chars@ =~= path@);
    if is_on_drive(path) {
        let letter: char = lower_letter(path[0]);
        chars.set(0, letter);
    } else if path.len() >= 6 && path[0] == '\\' && path[1] == '\\' && path[2] == '?' && path[3]
        == '\\' && (('a' <= path[4] && path[4] <= 'z') || ('A' <= path[4] && path[4] <= 'Z'))
        && path[5] == ':' && (path.len() == 6 || is_separator(path[6])) {
        let letter: char = lower_letter(path[4]);
        chars.set(4, letter);
    }
    string_of(&chars)
}

/// Whether `other` is the file called `name` beside `path`.
pub fn is_beside(path: &str, name: &str, other: &str) -> (b: bool)
    ensures
        b == is_sibling(path@, name@, other@),
{
    let path_chars = chars_of(path);
    let other_chars = chars_of(other);
    let on_a_server: bool = is_on_server(&path_chars);
    if !is_on_drive(&other_chars) && !is_on_server(&other_chars) {
        return false;
    }
    if on_a_server != is_on_server(&other_chars) {
        return false;
    }
    let folded = fold_drive(&path_chars);
    let mut expected = path_parts(folded.as_str());
    let ghost parts = parts_of(drive_folded(path@));
    let roots: usize = if on_a_server {
        2
    } else {
        1
    };
    if expected.len() > roots && !same_text(expected[expected.len() - 1].as_str(), "..") {
        proof {
            reveal_strlit("..");
            assert(".."@ =~= seq!['.', '.']);
            assert(parts.last() == expected@[expected@.len() - 1]@);
        }
        let _last = expected.pop();
        assert(part_views(expected@) =~= parts.drop_last());
    } else {
        proof {
            reveal_strlit("..");
            assert(".."@ =~= seq!['.', '.']);
            if expected@.len() > roots {
                assert(parts.last() == expected@[expected@.len() - 1]@);
            }
        }
    }
    let ghost before = part_views(expected@);
    expected.push(name.to_owned());
    assert(part_views(expected@) =~= before.push(name@));
    assert(part_views(expected@) == sibling_parts(path@, name@));
    let other_folded = fold_drive(&other_chars);
    let found = path_parts(other_folded.as_str());
    if found.len() != expected.len() {
        assert(part_views(found@).len() != part_views(expected@).len());
        return false;
    }
    let mut i: usize = 0;
    while i < found.len()
        invariant
            i <= found@.len(),
            found@.len() == expected@.len(),
            part_views(found@) == parts_of(drive_folded(other@)),
            part_views(expected@) == sibling_parts(path@, name@),
            forall|j: int| 0 <= j < i ==> (#[trigger] found@[j])@ == expected@[j]@,
        decreases found@.len() - i,
    {
        if !same_text(found[i].as_str(), expected[i].as_str()) {
            assert(part_views(found@)[i as int] != part_views(expected@)[i as int]);
            return false;
        }
        i = i + 1;
    }
    assert(part_views(found@) =~= part_views(expected@));
    true
}

/// A drive letter in the other case names the same drive.
pub proof fn law_drive_letters_have_no_case(path: Seq<char>, name: Seq<char>, other: Seq<char>, c: char)
    requires
        on_drive(other),
        ascii_lower(c) == ascii_lower(other[0]),
        drive_letter(c),
    ensures
        is_sibling(path, name, other.update(0, c)) == is_sibling(path, name, other),
{
    assert(drive_folded(other.update(0, c)) =~= drive_folded(other));
}

proof fn lemma_scan_word(path: Seq<char>, word: Seq<char>)
    requires
        scanned(path).1.len() == 0,
        forall|i: int| 0 <= i < word.len() ==> !separator(#[trigger] word[i]),
    ensures
        scanned(path + word) == (scanned(path).0, word),
    decreases word.len(),
{
    if word.len() == 0 {
        assert(path + word =~= path);
        assert(scanned(path).1 =~= word);
    } else {
        let front = word.drop_last();
        assert forall|i: int| 0 <= i < front.len() implies !separator(#[trigger] front[i]) by {
            assert(front[i] == word[i]);
        }
        lemma_scan_word(path, front);
        assert((path + word).drop_last() =~= path + front);
        assert(!separator(word[word.len() - 1]));
        assert(front.push(word.last()) =~= word);
    }
}

/// The parts of a directory and a name behind it are those of the directory and the
/// name, whichever separator stands between them.
pub proof fn law_names_follow_their_directory(directory: Seq<char>, name: Seq<char>, c: char)
    requires
        c == '\\' || c == '/',
        name.len() > 0,
        name != seq!['.'],
        forall|i: int| 0 <= i < name.len() ==> (#[trigger] name[i]) != '\\' && name[i] != '/',
    ensures
        parts_of(directory.push(c) + name) == parts_of(directory).push(name),
        parts_of(directory.push(c)) == parts_of(directory),
{
    let closed = directory.push(c);
    assert(closed.drop_last() =~= directory);
    assert(scanned(closed).1.len() == 0);
    assert forall|i: int| 0 <= i < name.len() implies !separator(#[trigger] name[i]) by {}
    lemma_scan_word(closed, name);
}

/// A path is absolute on a drive, behind a letter and a colon, or on a server, behind two
/// separators; a path with neither is not.
pub proof fn law_absolute_paths(path: Seq<char>)
    ensures
        path.len() >= 3 && 'a' <= path[0] <= 'z' && path[1] == ':' && path[2] == '\\'
            ==> absolute_path(path),
        path.len() >= 3 && 'A' <= path[0] <= 'Z' && path[1] == ':' && path[2] == '/'
            ==> absolute_path(path),
        absolute_path(path) ==> path.len() >= 3 && (path[1] == ':' || path[0] == '\\' || path[0]
            == '/'),
        path.len() >= 3 && path[0] == '\\' && path[1] == '\\' && path[2] != '\\' && path[2] != '/'
            ==> absolute_path(path),
        path.len() >= 2 && path[1] == ':' && !('a' <= path[0] <= 'z') && !('A' <= path[0] <= 'Z')
            ==> !absolute_path(path),
{
}

/// Two names in one directory on a drive are beside each other, and a name in another
/// directory is not.
pub proof fn law_siblings_share_their_directory(
    directory: Seq<char>,
    file: Seq<char>,
    name: Seq<char>,
    other: Seq<char>,
)
    requires
        on_drive(directory),
        file.len() > 0,
        name.len() > 0,
        file != seq!['.'],
        name != seq!['.'],
        file != seq!['.', '.'],
        forall|i: int| 0 <= i < file.len() ==> (#[trigger] file[i]) != '\\' && file[i] != '/',
        forall|i: int| 0 <= i < name.len() ==> (#[trigger] name[i]) != '\\' && name[i] != '/',
        parts_of(drive_folded(directory)).len() > 0,
    ensures
        is_sibling(directory.push('\\') + file, name, directory.push('\\') + name),
        is_sibling(directory.push('\\') + file, name, other) ==> absolute_path(other) && parts_of(
            drive_folded(other),
        ) == parts_of(drive_folded(directory)).push(name),
{
    let folded = drive_folded(directory);
    let path = directory.push('\\') + file;
    let beside = directory.push('\\') + name;
    assert(on_drive(path) && on_drive(beside));
    assert(!on_server(path) && !on_server(beside));
    assert(drive_folded(path) =~= folded.push('\\') + file);
    assert(drive_folded(beside) =~= folded.push('\\') + name);
    law_names_follow_their_directory(folded, file, '\\');
    law_names_follow_their_directory(folded, name, '\\');
    assert(parts_of(folded).push(file).drop_last() =~= parts_of(folded));
}

/// A drive is the same in either case of its letter, alone or after the prefix that
/// turns normalisation off; nothing else of a path is folded, and a path without a
/// drive stays as it is.
pub proof fn law_only_drive_letters_are_folded(path: Seq<char>, i: int)
    ensures
        drive_folded(path).len() == path.len(),
        on_drive(path) ==> drive_folded(path)[0] == ascii_lower(path[0]) && drive_folded(path).skip(
            1,
        ) == path.skip(1),
        !on_drive(path) && on_verbatim_drive(path) ==> drive_folded(path)[4] == ascii_lower(
            path[4],
        ) && drive_folded(path).take(4) == path.take(4) && drive_folded(path).skip(5)
            == path.skip(5),
        !on_drive(path) && !on_verbatim_drive(path) ==> drive_folded(path) == path,
        on_verbatim_drive(path) <==> {
            &&& path.len() >= 6
            &&& path.take(4) == seq!['\\', '\\', '?', '\\']
            &&& 65 <= path[4] as int <= 90 || 97 <= path[4] as int <= 122
            &&& path[5] == ':'
            &&& path.len() > 6 ==> path[6] == '\\' || path[6] == '/'
        },
{
    if path.len() >= 6 {
        assert(path.take(4)[0] == path[0] && path.take(4)[1] == path[1] && path.take(4)[2]
            == path[2] && path.take(4)[3] == path[3]);
        if path[0] == '\\' && path[1] == '\\' && path[2] == '?' && path[3] == '\\' {
            assert(path.take(4) =~= seq!['\\', '\\', '?', '\\']);
        }
    }
    assert(on_drive(path) ==> drive_folded(path).skip(1) =~= path.skip(1));
}

/// The root of a drive has no directory above it: a file beside it stands in it. So
/// does a file beside a path that ends by going up.
pub proof fn law_roots_have_no_directory_above(path: Seq<char>, name: Seq<char>)
    requires
        parts_of(drive_folded(path)).len() <= root_parts(path) || parts_of(
            drive_folded(path),
        ).last() == seq!['.', '.'],
    ensures
        sibling_parts(path, name) == parts_of(drive_folded(path)).push(name),
        on_server(path) ==> root_parts(path) == 2,
        !on_server(path) ==> root_parts(path) == 1,
{
}

} // verus!
