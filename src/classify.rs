//! The bucket a file belongs to, from its base name.
use vstd::prelude::*;
use vstd::string::*;
use crate::text::{lower_of, upper_of, lowercase, uppercase};

verus! {

/// The position of the last `.` in `s`, or -1 where there is none.
pub open spec fn last_dot(s: Seq<char>) -> int
    decreases s.len(),
{
    if s.len() == 0 {
        -1
    } else if s.last() == '.' {
        s.len() - 1
    } else {
        last_dot(s.drop_last())
    }
}

/// The extension of a base name: what follows its last `.`. A name without a
/// dot and a name that ends in a dot have none; a name such as `.profile`
/// has the extension `profile`.
pub open spec fn extension_of(name: Seq<char>) -> Option<Seq<char>> {
    let k = last_dot(name);
    if k < 0 || k == name.len() - 1 {
        None
    } else {
        Some(name.subrange(k + 1, name.len() as int))
    }
}

/// The folder of files without an extension.
pub open spec fn no_extension_bucket() -> Seq<char> {
    "NO_EXTENSION"@
}

/// The bucket of a base name: its extension lower-cased and then upper-cased,
/// or the no-extension folder.
pub open spec fn bucket_of(name: Seq<char>) -> Seq<char> {
    match extension_of(name) {
        Some(ext) => upper_of(lower_of(ext)),
        None => no_extension_bucket(),
    }
}

proof fn lemma_last_dot_bounds(s: Seq<char>)
    ensures
        -1 <= last_dot(s) < s.len(),
        last_dot(s) >= 0 ==> s[last_dot(s)] == '.',
    decreases s.len(),
{
    if s.len() > 0 && s.last() != '.' {
        lemma_last_dot_bounds(s.drop_last());
    }
}

/// Finds the position of the last `.` in `name`.
fn find_last_dot(name: &str) -> (r: (bool, usize))
    ensures
        r.0 ==> last_dot(name@) == r.1 as int && r.1 < name@.len(),
        !r.0 ==> last_dot(name@) == -1,
{
    let len = name.unicode_len();
    let mut i: usize = len;
    assert(name@.subrange(0, len as int) =~= name@);
    while i > 0
        invariant
            i <= len == name@.len(),
            last_dot(name@) == last_dot(name@.subrange(0, i as int)),
        decreases i,
    {
        let c = name.get_char(i - 1);
        let ghost prefix = name@.subrange(0, i as int);
        assert(prefix.drop_last() =~= name@.subrange(0, i - 1));
        if c == '.' {
            return (true, i - 1);
        }
        i = i - 1;
    }
    assert(name@.subrange(0, 0) =~= Seq::<char>::empty());
    (false, 0)
}

/// The extension of `name`, where it has one.
pub fn extension(name: &str) -> (r: Option<String>)
    ensures
        r matches Some(e) ==> extension_of(name@) == Some(e@),
        r is None ==> extension_of(name@) is None,
{
    let (found, k) = find_last_dot(name);
    let len = name.unicode_len();
    if !found || k == len - 1 {
        None
    } else {
        proof {
            lemma_last_dot_bounds(name@);
        }
        let ext = name.substring_char(k + 1, len);
        Some(ext.to_owned())
    }
}

/// The name of the folder that a file with base name `name` is sorted into:
/// its extension, lower-cased and then upper-cased, or `NO_EXTENSION`.
pub fn bucket_name(name: &str) -> (r: String)
    ensures
        r@ == bucket_of(name@),
{
    match extension(name) {
        Some(ext) => {
            let lower = lowercase(ext.as_str());
            uppercase(lower.as_str())
        },
        None => String::from_str("NO_EXTENSION"),
    }
}

} // verus!
