//! The layout of a key directory: one file per identifier, named after the
//! identifier, holding the raw key material.

use vstd::prelude::*;
use vstd::string::*;

verus! {

/// A file of the key directory: its name within the directory and its
/// contents.
#[derive(Debug)]
pub struct KeyFile {
    pub name: String,
    pub contents: Vec<u8>,
}

/// The name of the file that holds the material of an identifier.
pub open spec fn key_file_name(identifier: Seq<char>) -> Seq<char> {
    identifier + ".key"@
}

/// The position of the last dot in a file name, or -1 where it has none.
pub open spec fn last_dot(name: Seq<char>) -> int
    decreases name.len(),
{
    if name.len() == 0 {
        -1
    } else if name.last() == '.' {
        name.len() - 1
    } else {
        last_dot(name.drop_last())
    }
}

/// The identifier that a file name stands for: the name up to its last dot.
/// A name without a dot, or whose only dot comes first, stands for itself,
/// and so does the name `..`.
pub open spec fn file_stem(name: Seq<char>) -> Seq<char> {
    let dot = last_dot(name);
    if dot <= 0 || name == ".."@ {
        name
    } else {
        name.subrange(0, dot)
    }
}

/// Where a name has a dot at `dot` and none behind it, `dot` is its last
/// dot.
pub proof fn lemma_last_dot_is(name: Seq<char>, dot: int)
    requires
        0 <= dot < name.len(),
        name[dot] == '.',
        forall|j: int| dot < j < name.len() ==> name[j] != '.',
    ensures
        last_dot(name) == dot,
    decreases name.len(),
{
    if name.last() != '.' {
        lemma_last_dot_is(name.drop_last(), dot);
    }
}

/// A name without any dot has no last dot.
pub proof fn lemma_no_dot(name: Seq<char>)
    requires
        forall|j: int| 0 <= j < name.len() ==> name[j] != '.',
    ensures
        last_dot(name) == -1,
    decreases name.len(),
{
    if name.len() > 0 {
        lemma_no_dot(name.drop_last());
    }
}

/// The file written for an identifier is read back under the same
/// identifier, provided the identifier is not empty.
pub proof fn lemma_file_name_round_trip(identifier: Seq<char>)
    requires
        identifier.len() > 0,
    ensures
        file_stem(key_file_name(identifier)) == identifier,
{
    reveal_strlit(".key");
    reveal_strlit("..");
    let name = key_file_name(identifier);
    let n = identifier.len() as int;
    assert(name.len() == n + 4);
    assert(name[n] == '.' && name[n + 1] == 'k' && name[n + 2] == 'e' && name[n + 3] == 'y');
    lemma_last_dot_is(name, n);
    assert(name.subrange(0, n) =~= identifier);
}

/// Different identifiers have different files.
pub proof fn lemma_file_names_differ(a: Seq<char>, b: Seq<char>)
    requires
        a != b,
    ensures
        key_file_name(a) != key_file_name(b),
{
    if key_file_name(a) == key_file_name(b) {
        assert(key_file_name(a).len() == a.len() + ".key"@.len());
        assert(key_file_name(b).len() == b.len() + ".key"@.len());
        assert(a =~= key_file_name(a).subrange(0, a.len() as int));
        assert(b =~= key_file_name(b).subrange(0, b.len() as int));
    }
}

/// Whether a file name stays within its directory: it is not empty, is
/// neither `.` nor `..`, and holds no path separator and no NUL.
pub open spec fn is_plain_file_name(name: Seq<char>) -> bool {
    &&& name.len() > 0
    &&& name != "."@
    &&& name != ".."@
    &&& forall|i: int|
        0 <= i < name.len() ==> #[trigger] name[i] != '/' && name[i] != '\\' && name[i] != '\0'
}

/// Whether a file name stays within its directory.
pub fn stays_in_directory(file_name: &str) -> (plain: bool)
    ensures
        plain == is_plain_file_name(file_name@),
{
    let n = file_name.unicode_len();
    if n == 0 || crate::text::str_eq(file_name, ".") || crate::text::str_eq(file_name, "..") {
        return false;
    }
    let mut i: usize = 0;
    while i < n
        invariant
            i <= n,
            n == file_name@.len(),
            forall|j: int|
                0 <= j < i ==> #[trigger] file_name@[j] != '/' && file_name@[j] != '\\'
                    && file_name@[j] != '\0',
        decreases n - i,
    {
        let c = file_name.get_char(i);
        if c == '/' || c == '\\' || c == '\0' {
            return false;
        }
        i += 1;
    }
    true
}

/// The name of the file that holds the material of an identifier.
pub fn file_name_of(identifier: &str) -> (name: String)
    ensures
        name@ == key_file_name(identifier@),
{
    let mut name = String::from_str(identifier);
    name.append(".key");
    name
}

/// The identifier that a file name of the key directory stands for.
pub fn identifier_of(file_name: &str) -> (identifier: String)
    ensures
        identifier@ == file_stem(file_name@),
{
    let n = file_name.unicode_len();
    let mut i: usize = n;
    while i > 0 && file_name.get_char(i - 1) != '.'
        invariant
            i <= n,
            n == file_name@.len(),
            forall|j: int| i <= j < n ==> file_name@[j] != '.',
        decreases i,
    {
        i -= 1;
    }
    if i == 0 {
        proof {
            lemma_no_dot(file_name@);
        }
        return String::from_str(file_name);
    }
    proof {
        lemma_last_dot_is(file_name@, i - 1);
    }
    if i == 1 || crate::text::str_eq(file_name, "..") {
        return String::from_str(file_name);
    }
    String::from_str(file_name.substring_char(0, i - 1))
}

} // verus!
