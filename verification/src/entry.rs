//! Manifest entries: one managed file each, with its category, its source
//! and an optional expected digest.

use crate::text::{eq_ignore_ascii_case, str_eq_ignore_ascii_case};
use vstd::prelude::*;
use vstd::string::*;

verus! {

/// One entry of a manifest. An entry is never changed once it is made.
#[derive(Debug, PartialEq, Eq)]
pub struct ModEntry {
    /// Name of the file inside the managed folder.
    pub filename: String,
    /// Where the file is fetched from; not used when the entry asks for removal.
    pub url: String,
    /// Expected SHA-256 digest in hexadecimal, in either case.
    pub sha256: Option<String>,
    /// Free-form label. `REQUIRED` and `REMOVE` are reserved, in any case.
    pub category: String,
}

/// Mathematical value of a `ModEntry`.
pub struct ModEntryView {
    pub filename: Seq<char>,
    pub url: Seq<char>,
    pub sha256: Option<Seq<char>>,
    pub category: Seq<char>,
}

impl View for ModEntry {
    type V = ModEntryView;

    open spec fn view(&self) -> ModEntryView {
        ModEntryView {
            filename: self.filename@,
            url: self.url@,
            sha256: match self.sha256 {
                Some(d) => Some(d@),
                None => None,
            },
            category: self.category@,
        }
    }
}

impl ModEntryView {
    /// The category is the reserved `REQUIRED`, in any case.
    pub open spec fn is_required(self) -> bool {
        eq_ignore_ascii_case(self.category, "REQUIRED"@)
    }

    /// The category is the reserved `REMOVE`, in any case: the file is to be absent.
    pub open spec fn is_remove(self) -> bool {
        eq_ignore_ascii_case(self.category, "REMOVE"@)
    }
}

/// Name of the folder, directly under the target directory, that holds every
/// managed file.
pub const MODS_FOLDER: &'static str = "mods";

/// Name of the managed folder, as a sequence of characters.
pub open spec fn mods_folder() -> Seq<char> {
    MODS_FOLDER@
}

/// The views of a sequence of entries, in order.
pub open spec fn entry_views(entries: Seq<ModEntry>) -> Seq<ModEntryView> {
    Seq::new(entries.len(), |i: int| entries[i]@)
}

impl Clone for ModEntry {
    fn clone(&self) -> (r: Self)
        ensures
            r == *self,
    {
        ModEntry {
            filename: self.filename.clone(),
            url: self.url.clone(),
            sha256: match &self.sha256 {
                Some(d) => Some(d.clone()),
                None => None,
            },
            category: self.category.clone(),
        }
    }
}

impl ModEntry {
    /// Whether this entry is in the reserved `REQUIRED` category.
    pub fn is_required(&self) -> (r: bool)
        ensures
            r == self@.is_required(),
    {
        str_eq_ignore_ascii_case(self.category.as_str(), "REQUIRED")
    }

    /// Whether this entry asks for its file to be removed.
    pub fn is_remove(&self) -> (r: bool)
        ensures
            r == self@.is_remove(),
    {
        str_eq_ignore_ascii_case(self.category.as_str(), "REMOVE")
    }

    /// Where the entry's file lives, as the path components below the target
    /// directory: the managed folder, then the file's name.
    pub fn local_path(&self) -> (parts: Vec<String>)
        ensures
            parts@.len() == 2,
            parts@[0]@ == mods_folder(),
            parts@[1]@ == self.filename@,
    {
        let mut parts: Vec<String> = Vec::new();
        parts.push(MODS_FOLDER.to_owned());
        parts.push(self.filename.clone());
        parts
    }
}

} // verus!
