use vstd::prelude::*;

use crate::text::{
    chars_of, compare_chars, last_index_in, last_index_of, lemma_last_index_bounds, lex_cmp, lower_of,
    to_lowercase,
};

verus! {

/// One entry of a directory listing.
#[derive(Debug, Clone)]
pub struct FileEntry {
    pub name: String,
    pub path: String,
    pub is_directory: bool,
    pub size: Option<u64>,
    pub modified: Option<String>,
}

impl FileEntry {
    pub fn new(
        name: String,
        path: String,
        is_directory: bool,
        size: Option<u64>,
        modified: Option<String>,
    ) -> (r: Self)
        ensures
            r.name == name,
            r.path == path,
            r.is_directory == is_directory,
            r.size == size,
            r.modified == modified,
    {
        Self { name, path, is_directory, size, modified }
    }
}

/// What `chrono` writes for a time `secs` seconds after the epoch, in RFC 3339 form;
/// `None` where the time is out of its range.
pub uninterp spec fn rfc3339_of(secs: i64) -> Option<Seq<char>>;

/// Relies on chrono::DateTime::from_timestamp and chrono::DateTime::to_rfc3339: the
/// RFC 3339 text of a time given in seconds after the epoch, which depends on `secs`
/// alone (the time is in UTC).
#[verifier::external_body]
fn format_rfc3339(secs: i64) -> (r: Option<String>)
    ensures
        r is Some == rfc3339_of(secs) is Some,
        r is Some ==> r->0@ == rfc3339_of(secs)->0,
{
    chrono::DateTime::from_timestamp(secs, 0).map(|dt| dt.to_rfc3339())
}

/// The modification text of a listing entry: the RFC 3339 form, or empty where the
/// time is out of range.
pub open spec fn modified_text(secs: i64) -> Seq<char> {
    match rfc3339_of(secs) {
        Some(t) => t,
        None => Seq::empty(),
    }
}

/// The listing entry of a file system object: a directory has no size; the
/// modification time, where known, is given as RFC 3339 text.
pub fn describe_entry(
    name: String,
    path: String,
    is_directory: bool,
    len: Option<u64>,
    modified_secs: Option<i64>,
) -> (r: FileEntry)
    ensures
        r.name == name,
        r.path == path,
        r.is_directory == is_directory,
        r.size == (if is_directory {
            None
        } else {
            len
        }),
        r.modified is Some == modified_secs is Some,
        r.modified is Some ==> r.modified->0@ == modified_text(modified_secs->0),
{
    let size = if is_directory {
        None
    } else {
        len
    };
    let modified = match modified_secs {
        Some(secs) => match format_rfc3339(secs) {
            Some(t) => Some(t),
            None => Some(String::new()),
        },
        None => None,
    };
    FileEntry::new(name, path, is_directory, size, modified)
}

/// What a crawl does with an entry of a directory.
#[derive(Debug, Clone, Copy, PartialEq, Eq, Structural)]
pub enum EntryAction {
    /// Walk into the directory.
    Descend,
    /// Index the file.
    Index,
    /// Leave the entry alone.
    Skip,
}

/// `name` is hidden: it starts with a dot.
pub open spec fn is_hidden(name: Seq<char>) -> bool {
    name.len() > 0 && name[0] == '.'
}

/// `name` has the extension `md`: the part after its last dot, where that dot is
/// not its first character.
pub open spec fn has_md_extension(name: Seq<char>) -> bool {
    let d = last_index_of(name, '.');
    d > 0 && name.subrange(d + 1, name.len() as int) == seq!['m', 'd']
}

pub open spec fn entry_action(name: Seq<char>, is_directory: bool) -> EntryAction {
    if is_directory {
        if is_hidden(name) {
            EntryAction::Skip
        } else {
            EntryAction::Descend
        }
    } else if has_md_extension(name) {
        EntryAction::Index
    } else {
        EntryAction::Skip
    }
}

/// What a crawl does with the entry named `name`: it walks into directories that are
/// not hidden and indexes markdown files.
pub fn classify_entry(name: &str, is_directory: bool) -> (a: EntryAction)
    ensures
        a == entry_action(name@, is_directory),
{
    let v = chars_of(name);
    if is_directory {
        if v.len() > 0 && v[0] == '.' {
            EntryAction::Skip
        } else {
            EntryAction::Descend
        }
    } else {
        let n = v.len();
        assert(v@.subrange(0, n as int) =~= v@);
        proof {
            lemma_last_index_bounds(v@, '.');
        }
        match last_index_in(&v, '.', 0, n) {
            Some(d) => {
                if d > 0 && n - d == 3 && v[d + 1] == 'm' && v[d + 2] == 'd' {
                    assert(v@.subrange(d + 1, n as int) =~= seq!['m', 'd']);
                    EntryAction::Index
                } else {
                    proof {
                        if d > 0 && v@.subrange(d + 1, n as int) == seq!['m', 'd'] {
                            assert(v@.subrange(d + 1, n as int).len() == 2);
                            assert(v@.subrange(d + 1, n as int)[0] == v@[d + 1]);
                            assert(v@.subrange(d + 1, n as int)[1] == v@[d + 2]);
                        }
                    }
                    EntryAction::Skip
                }
            },
            None => EntryAction::Skip,
        }
    }
}

/// Listing order: directories first, then by lower-cased name.
pub open spec fn listing_order(
    a_dir: bool,
    a_name: Seq<char>,
    b_dir: bool,
    b_name: Seq<char>,
) -> core::cmp::Ordering {
    if a_dir && !b_dir {
        core::cmp::Ordering::Less
    } else if !a_dir && b_dir {
        core::cmp::Ordering::Greater
    } else {
        lex_cmp(lower_of(a_name), lower_of(b_name))
    }
}

/// The order of two listing entries: directories first, then by name, ignoring case.
pub fn entry_order(a: &FileEntry, b: &FileEntry) -> (r: core::cmp::Ordering)
    ensures
        r == listing_order(a.is_directory, a.name@, b.is_directory, b.name@),
{
    if a.is_directory && !b.is_directory {
        core::cmp::Ordering::Less
    } else if !a.is_directory && b.is_directory {
        core::cmp::Ordering::Greater
    } else {
        let x = chars_of(to_lowercase(a.name.as_str()).as_str());
        let y = chars_of(to_lowercase(b.name.as_str()).as_str());
        compare_chars(&x, &y)
    }
}

} // verus!
