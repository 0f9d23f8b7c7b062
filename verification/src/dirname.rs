//! The names of package directories.
//!
//! The directory of an installed package is named after the package: its name, a
//! hyphen, its version, a hyphen, its release. A name may hold hyphens of its own,
//! a version and a release may not. So the last two hyphens part the three, and
//! what this library calls the version is the version with the release: `1.0-1`.

use vstd::prelude::*;
use vstd::string::*;
use crate::text::chars_of;

verus! {

/// The place of the last hyphen in `text`, if it has one.
pub open spec fn last_hyphen(text: Seq<char>) -> Option<int>
    decreases text.len(),
{
    if text.len() == 0 {
        None
    } else if text.last() == '-' {
        Some(text.len() - 1)
    } else {
        last_hyphen(text.drop_last())
    }
}

/// The place of the hyphen that ends the package name: the last hyphen but one,
/// unless the name before it would be empty.
pub open spec fn name_end(dirname: Seq<char>) -> Option<int> {
    match last_hyphen(dirname) {
        None => None,
        Some(release) => match last_hyphen(dirname.take(release)) {
            Some(version) if version > 0 => Some(version),
            _ => None,
        },
    }
}

/// The name and the version that a directory name stands for, if it is the name
/// of a package directory.
pub open spec fn split_dirname(dirname: Seq<char>) -> Option<(Seq<char>, Seq<char>)> {
    match name_end(dirname) {
        Some(at) => Some((dirname.take(at), dirname.skip(at + 1))),
        None => None,
    }
}

/// The last hyphen is a hyphen, and no hyphen follows it.
pub proof fn lemma_last_hyphen(text: Seq<char>)
    ensures
        match last_hyphen(text) {
            Some(at) => {
                &&& 0 <= at < text.len()
                &&& text[at] == '-'
                &&& forall|k: int| at < k < text.len() ==> text[k] != '-'
            },
            None => forall|k: int| 0 <= k < text.len() ==> text[k] != '-',
        },
    decreases text.len(),
{
    if text.len() > 0 && text.last() != '-' {
        let head = text.drop_last();
        lemma_last_hyphen(head);
        assert forall|k: int| 0 <= k < head.len() implies head[k] == text[k] by {}
        match last_hyphen(head) {
            Some(at) => {
                assert forall|k: int| at < k < text.len() implies text[k] != '-' by {
                    if k < head.len() {
                        assert(head[k] != '-');
                    }
                }
            },
            None => {
                assert forall|k: int| 0 <= k < text.len() implies text[k] != '-' by {
                    if k < head.len() {
                        assert(head[k] != '-');
                    }
                }
            },
        }
    }
}

/// From the name and the version the directory name is had back: they are parted
/// by one hyphen.
pub proof fn lemma_split_joins(dirname: Seq<char>)
    ensures
        match split_dirname(dirname) {
            Some((name, version)) => dirname == name + seq!['-'] + version && name.len() > 0,
            None => true,
        },
{
    match name_end(dirname) {
        Some(at) => {
            let release = last_hyphen(dirname)->0;
            lemma_last_hyphen(dirname);
            lemma_last_hyphen(dirname.take(release));
            assert(dirname.take(release)[at] == dirname[at]);
            assert(dirname =~= dirname.take(at) + seq!['-'] + dirname.skip(at + 1));
        },
        None => {},
    }
}

/// Two directory names that stand for the same name and version are the same.
pub proof fn lemma_split_injective(first: Seq<char>, second: Seq<char>)
    requires
        split_dirname(first) is Some,
        split_dirname(first) == split_dirname(second),
    ensures
        first == second,
{
    lemma_split_joins(first);
    lemma_split_joins(second);
}

/// Finds the last hyphen among the first `end` characters.
fn find_last_hyphen(chars: &Vec<char>, end: usize) -> (found: Option<usize>)
    requires
        end <= chars.len(),
    ensures
        match found {
            Some(at) => last_hyphen(chars@.take(end as int)) == Some(at as int) && at < end,
            None => last_hyphen(chars@.take(end as int)) is None,
        },
{
    let mut i: usize = end;
    while i > 0
        invariant
            i <= end <= chars.len(),
            last_hyphen(chars@.take(end as int)) == last_hyphen(chars@.take(i as int)),
        decreases i,
    {
        let ghost head = chars@.take(i as int);
        assert(head.last() == chars@[i - 1]);
        assert(head.drop_last() =~= chars@.take(i - 1));
        if chars[i - 1] == '-' {
            return Some(i - 1);
        }
        i = i - 1;
    }
    None
}

/// Parts the name of a package directory into the package's name and version.
///
/// `foo-1.0-1` stands for the package `foo` in version `1.0-1`. A name with fewer
/// than two hyphens, or with nothing before the last hyphen but one, is not the
/// name of a package directory.
pub fn split_package_dirname(dirname: &str) -> (parts: Option<(String, String)>)
    ensures
        match parts {
            Some((name, version)) => split_dirname(dirname@) == Some((name@, version@)),
            None => split_dirname(dirname@) is None,
        },
{
    let chars = chars_of(dirname);
    assert(chars@.take(chars@.len() as int) =~= chars@);
    let release = match find_last_hyphen(&chars, chars.len()) {
        Some(at) => at,
        None => {
            return None;
        },
    };
    let at = match find_last_hyphen(&chars, release) {
        Some(at) => at,
        None => {
            return None;
        },
    };
    if at == 0 {
        return None;
    }
    let name = dirname.substring_char(0, at);
    let version = dirname.substring_char(at + 1, chars.len());
    assert(dirname@.subrange(0, at as int) =~= dirname@.take(at as int));
    assert(dirname@.subrange(at + 1, chars@.len() as int) =~= dirname@.skip(at + 1));
    Some((name.to_owned(), version.to_owned()))
}

} // verus!
