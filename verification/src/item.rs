//! A named, toggleable reference to a file or directory: the common part of
//! natives, packages and profile dependencies.
use vstd::prelude::*;

use crate::text::{
    chars_of, fnv1a, hex_lower, path_file_stem, path_is_relative, path_join, spec_file_stem,
    spec_fnv1a, spec_hex_lower, spec_path_is_relative, spec_path_join, spec_to_lowercase,
    string_of, to_lowercase,
};

verus! {

/// Access to the [`Item`] that a profile entry wraps.
pub trait AsItem {
    /// The wrapped item.
    spec fn spec_item(&self) -> Item;

    fn item(&self) -> (r: &Item)
        ensures
            *r == self.spec_item(),
    ;

    fn item_mut(&mut self) -> (r: &mut Item)
        ensures
            *r == old(self).spec_item(),
            final(self).spec_item() == *final(r),
    ;
}

/// A path-bearing entry of a mod profile.
#[derive(Clone, Debug)]
pub struct Item {
    /// Name associated with this item.
    pub name: String,
    /// A path to the source of this item.
    pub path: String,
    /// Does this item participate in dependency resolution?
    pub enabled: bool,
    /// Should failing to find this item result in a hard error?
    pub optional: bool,
}

/// The file stem of a path, or the empty text when the path has none.
pub open spec fn stem_or_empty(path: Seq<char>) -> Seq<char> {
    match spec_file_stem(path) {
        Some(stem) => stem,
        None => Seq::empty(),
    }
}

/// The name given to an item made from a path: the lower-cased file stem, a
/// dash, and the FNV-1a hash of the path's UTF-8 bytes in lower-case hex.
pub open spec fn spec_item_name(path: Seq<char>) -> Seq<char> {
    spec_to_lowercase(stem_or_empty(path)) + seq!['-'] + spec_hex_lower(
        spec_fnv1a(vstd::utf8::encode_utf8(path)) as nat,
    )
}

/// An item made from `path` carries the derived name and the default flags.
pub open spec fn is_item_for_path(item: Item, path: Seq<char>) -> bool {
    &&& item.name@ == spec_item_name(path)
    &&& item.path@ == path
    &&& item.enabled
    &&& !item.optional
}

fn item_name(path: &str) -> (name: String)
    ensures
        name@ == spec_item_name(path@),
{
    let stem = match path_file_stem(path) {
        Some(stem) => stem,
        None => String::new(),
    };
    let lower = to_lowercase(stem.as_str());
    let mut chars = chars_of(lower.as_str());
    chars.push('-');
    let hash: u32 = fnv1a(path.as_bytes());
    let mut digits = hex_lower(hash);
    chars.append(&mut digits);
    let name = string_of(&chars);
    assert(name@ =~= spec_item_name(path@));
    name
}

impl Item {
    /// The item for `path`, named after its file stem and hash.
    pub fn new(path: &str) -> (item: Item)
        ensures
            is_item_for_path(item, path@),
    {
        Item::from_path(path.to_owned())
    }

    /// The item for an owned path, named after its file stem and hash.
    pub fn from_path(path: String) -> (item: Item)
        ensures
            is_item_for_path(item, path@),
    {
        let name = item_name(path.as_str());
        Item { name, path, enabled: Item::enabled_default(), optional: Item::optional_default() }
    }

    /// Whether the item's path is relative.
    pub fn is_relative(&self) -> (r: bool)
        ensures
            r == spec_path_is_relative(self.path@),
    {
        path_is_relative(self.path.as_str())
    }

    /// Resolves a relative path against `base`; an absolute path is kept.
    pub fn make_absolute(&mut self, base: &str)
        ensures
            final(self).name == old(self).name,
            final(self).enabled == old(self).enabled,
            final(self).optional == old(self).optional,
            spec_path_is_relative(old(self).path@) ==> final(self).path@ == spec_path_join(
                base@,
                old(self).path@,
            ),
            !spec_path_is_relative(old(self).path@) ==> final(self).path == old(self).path,
    {
        if path_is_relative(self.path.as_str()) {
            self.path = path_join(base, self.path.as_str());
        }
    }

    /// Whether both flags are at their defaults (enabled, not optional).
    pub fn is_default(&self) -> (r: bool)
        ensures
            r == (self.enabled && !self.optional),
    {
        Item::enabled_skip_if_default(&self.enabled) && Item::optional_skip_if_default(
            &self.optional,
        )
    }

    /// The default of `enabled`.
    pub fn enabled_default() -> (r: bool)
        ensures
            r,
    {
        true
    }

    /// Whether `enabled` holds its default and can be left out when written.
    pub fn enabled_skip_if_default(enabled: &bool) -> (r: bool)
        ensures
            r == *enabled,
    {
        *enabled == Item::enabled_default()
    }

    /// The default of `optional`.
    pub fn optional_default() -> (r: bool)
        ensures
            !r,
    {
        false
    }

    /// Whether `optional` holds its default and can be left out when written.
    pub fn optional_skip_if_default(optional: &bool) -> (r: bool)
        ensures
            r == !*optional,
    {
        *optional == Item::optional_default()
    }

    /// The item's path.
    pub fn as_path(&self) -> (r: &str)
        ensures
            r@ == self.path@,
    {
        self.path.as_str()
    }
}

impl AsItem for Item {
    open spec fn spec_item(&self) -> Item {
        *self
    }

    fn item(&self) -> (r: &Item) {
        self
    }

    fn item_mut(&mut self) -> (r: &mut Item) {
        self
    }
}

/// The name of an item made from a path ends with a dash and the 32-bit
/// FNV-1a hash of the path's UTF-8 encoding (the bytes that `str::as_bytes`
/// gives) in lower-case hex, after the lower-cased file stem; so two paths
/// whose encodings hash differently give names that differ.
pub proof fn law_item_name_hashes_utf8_path(item: Item, path: Seq<char>)
    requires
        is_item_for_path(item, path),
    ensures
        item.name@ == spec_to_lowercase(stem_or_empty(path)) + seq!['-']
            + spec_hex_lower(spec_fnv1a(vstd::utf8::encode_utf8(path)) as nat),
        item.name@.len() > spec_to_lowercase(stem_or_empty(path)).len(),
        item.name@[spec_to_lowercase(stem_or_empty(path)).len() as int] == '-',
        item.name@.skip(spec_to_lowercase(stem_or_empty(path)).len() as int + 1)
            == spec_hex_lower(spec_fnv1a(vstd::utf8::encode_utf8(path)) as nat),
        item.path@ == path,
{
    let stem = spec_to_lowercase(stem_or_empty(path));
    let hash = spec_fnv1a(vstd::utf8::encode_utf8(path));
    let hex = spec_hex_lower(hash as nat);
    assert(item.name@ == spec_item_name(path));
    assert(spec_item_name(path) == stem + seq!['-'] + hex);
    assert((stem + seq!['-'] + hex).skip(stem.len() as int + 1) =~= hex);
}

} // verus!
