use vstd::prelude::*;
use core::cmp::Ordering;
use crate::order::{lex_cmp, flip, compare_str, lemma_lex_flip, lemma_lex_trans};

verus! {

/// What `str::to_lowercase` makes of a character sequence.
pub uninterp spec fn lower_of(s: Seq<char>) -> Seq<char>;

/// Relies on `str::to_lowercase`: the lower-case form depends on the
/// characters alone, and that of the empty string is empty.
#[verifier::external_body]
pub(crate) fn lowercase(s: &str) -> (r: String)
    ensures
        r@ == lower_of(s@),
        s@.len() == 0 ==> r@.len() == 0,
{
    s.to_lowercase()
}

/// A file's length in bytes.
#[derive(Clone, Copy, PartialEq, Eq, Structural, Debug)]
pub struct FileSize(pub u64);

/// A modification time: whole seconds since the Unix epoch and the
/// nanoseconds past that second.
#[derive(Clone, Copy, PartialEq, Eq, Structural, Debug)]
pub struct FileDate {
    pub secs: i64,
    pub nanos: u32,
}

/// A display name; a directory's name ends in `/`.
#[derive(Debug)]
pub struct FileName(pub String);

/// The attribute that entries are ordered by.
#[derive(Clone, Copy, PartialEq, Eq, Structural, Debug)]
pub enum FileProperty {
    Name,
    Size,
    Date,
}

/// An attribute to order by, and whether the order is ascending.
#[derive(Clone, Copy, PartialEq, Eq, Structural, Debug)]
pub struct SortOrder {
    pub fileproperty: FileProperty,
    pub ascending: bool,
}

/// One child of a directory, as read when the directory was listed.
/// `size` is absent for directories and where metadata could not be read;
/// `date` is absent where the modification time could not be read.
#[derive(Debug)]
pub struct Entry {
    pub path: String,
    pub is_dir: bool,
    pub name: FileName,
    pub size: Option<FileSize>,
    pub date: Option<FileDate>,
}

pub struct EntryView {
    pub path: Seq<char>,
    pub is_dir: bool,
    pub name: Seq<char>,
    pub size: Option<FileSize>,
    pub date: Option<FileDate>,
}

impl View for Entry {
    type V = EntryView;

    open spec fn view(&self) -> EntryView {
        EntryView {
            path: self.path@,
            is_dir: self.is_dir,
            name: self.name.0@,
            size: self.size,
            date: self.date,
        }
    }
}

impl Clone for FileName {
    fn clone(&self) -> (r: Self)
        ensures
            r.0@ == self.0@,
    {
        FileName(self.0.clone())
    }
}

impl Clone for Entry {
    fn clone(&self) -> (r: Self)
        ensures
            r@ == self@,
    {
        Entry {
            path: self.path.clone(),
            is_dir: self.is_dir,
            name: self.name.clone(),
            size: self.size,
            date: self.date,
        }
    }
}

impl Entry {
    /// The entry for a directory child called `file_name`: a directory's
    /// name gets a trailing `/` and has no size.
    pub fn new(
        path: String,
        is_dir: bool,
        file_name: String,
        size: Option<u64>,
        date: Option<FileDate>,
    ) -> (r: Entry)
        ensures
            r.path@ == path@,
            r.is_dir == is_dir,
            r.name.0@ == (if is_dir {
                file_name@.push('/')
            } else {
                file_name@
            }),
            r.size == (if is_dir {
                None
            } else {
                match size {
                    Some(n) => Some(FileSize(n)),
                    None => None,
                }
            }),
            r.date == date,
    {
        let mut name = file_name;
        let mut bytes = match size {
            Some(n) => Some(FileSize(n)),
            None => None,
        };
        if is_dir {
            crate::text::push_char(&mut name, '/');
            bytes = None;
        }
        Entry { path, is_dir, name: FileName(name), size: bytes, date }
    }
}

/// Orders two optional values of which an absent one comes first.
pub open spec fn size_cmp(a: Option<FileSize>, b: Option<FileSize>) -> Ordering {
    match (a, b) {
        (None, Some(_)) => Ordering::Less,
        (Some(_), None) => Ordering::Greater,
        (Some(x), Some(y)) => if x.0 < y.0 {
            Ordering::Less
        } else if x.0 > y.0 {
            Ordering::Greater
        } else {
            Ordering::Equal
        },
        (None, None) => Ordering::Equal,
    }
}

/// Chronological order of two instants.
pub open spec fn instant_cmp(x: FileDate, y: FileDate) -> Ordering {
    if x.secs < y.secs {
        Ordering::Less
    } else if x.secs > y.secs {
        Ordering::Greater
    } else if x.nanos < y.nanos {
        Ordering::Less
    } else if x.nanos > y.nanos {
        Ordering::Greater
    } else {
        Ordering::Equal
    }
}

/// Orders two optional dates; an absent one comes first.
pub open spec fn date_cmp(a: Option<FileDate>, b: Option<FileDate>) -> Ordering {
    match (a, b) {
        (None, Some(_)) => Ordering::Less,
        (Some(_), None) => Ordering::Greater,
        (Some(x), Some(y)) => instant_cmp(x, y),
        (None, None) => Ordering::Equal,
    }
}

/// Orders two names: case-insensitively, by code point.
pub open spec fn name_cmp(a: Seq<char>, b: Seq<char>) -> Ordering {
    lex_cmp(lower_of(a), lower_of(b))
}

/// The order of two entries by one attribute. By name, directories come
/// before files whatever their names.
pub open spec fn entry_cmp(a: EntryView, b: EntryView, p: FileProperty) -> Ordering {
    match p {
        FileProperty::Name => if a.is_dir && !b.is_dir {
            Ordering::Less
        } else if !a.is_dir && b.is_dir {
            Ordering::Greater
        } else {
            name_cmp(a.name, b.name)
        },
        FileProperty::Size => size_cmp(a.size, b.size),
        FileProperty::Date => date_cmp(a.date, b.date),
    }
}

/// `a` may stand before `b` in ascending order by `p`.
pub open spec fn entry_le(a: EntryView, b: EntryView, p: FileProperty) -> bool {
    entry_cmp(a, b, p) != Ordering::Greater
}

/// Swapping the two entries reverses their order.
pub proof fn lemma_entry_cmp_flip(a: EntryView, b: EntryView, p: FileProperty)
    ensures
        entry_cmp(b, a, p) == flip(entry_cmp(a, b, p)),
{
    lemma_lex_flip(lower_of(a.name), lower_of(b.name));
}

/// The order of entries is transitive.
pub proof fn lemma_entry_le_trans(a: EntryView, b: EntryView, c: EntryView, p: FileProperty)
    requires
        entry_le(a, b, p),
        entry_le(b, c, p),
    ensures
        entry_le(a, c, p),
{
    if p == FileProperty::Name && a.is_dir == b.is_dir && b.is_dir == c.is_dir {
        lemma_lex_trans(lower_of(a.name), lower_of(b.name), lower_of(c.name));
    }
}

impl SortOrder {
    /// Compares two entries by this order's attribute (the direction is
    /// applied to a whole sorted sequence, not here).
    pub fn compare_entries(&self, a: &Entry, b: &Entry) -> (r: Ordering)
        ensures
            r == entry_cmp(a@, b@, self.fileproperty),
    {
        match self.fileproperty {
            FileProperty::Name => {
                if a.is_dir && !b.is_dir {
                    return Ordering::Less;
                }
                if !a.is_dir && b.is_dir {
                    return Ordering::Greater;
                }
                let x = lowercase(a.name.0.as_str());
                let y = lowercase(b.name.0.as_str());
                compare_str(x.as_str(), y.as_str())
            },
            FileProperty::Size => match (a.size, b.size) {
                (None, Some(_)) => Ordering::Less,
                (Some(_), None) => Ordering::Greater,
                (Some(x), Some(y)) => if x.0 < y.0 {
                    Ordering::Less
                } else if x.0 > y.0 {
                    Ordering::Greater
                } else {
                    Ordering::Equal
                },
                (None, None) => Ordering::Equal,
            },
            FileProperty::Date => match (a.date, b.date) {
                (None, Some(_)) => Ordering::Less,
                (Some(_), None) => Ordering::Greater,
                (Some(x), Some(y)) => if x.secs < y.secs {
                    Ordering::Less
                } else if x.secs > y.secs {
                    Ordering::Greater
                } else if x.nanos < y.nanos {
                    Ordering::Less
                } else if x.nanos > y.nanos {
                    Ordering::Greater
                } else {
                    Ordering::Equal
                },
                (None, None) => Ordering::Equal,
            },
        }
    }
}

} // verus!
