//! Character, byte and path helpers shared by the profile types.
//!
//! Paths are held as `String`s: profiles are read from UTF-8 text, so every
//! path a profile names is valid UTF-8, and the path operations of std are
//! reached through the wrappers at the end of this file.
use vstd::prelude::*;

verus! {

/// The FNV-1a 32-bit offset basis.
pub const FNV1A_OFFSET_BASIS: u32 = 0x811c9dc5u32;

/// The FNV-1a 32-bit prime.
pub const FNV1A_PRIME: u32 = 0x01000193u32;

/// One round of FNV-1a: xor the byte in, then multiply modulo 2^32.
pub open spec fn fnv1a_step(hash: u32, byte: u8) -> u32 {
    vstd::wrapping::u32_specs::wrapping_mul(hash ^ (byte as u32), FNV1A_PRIME)
}

/// The 32-bit FNV-1a hash of a byte sequence.
pub open spec fn spec_fnv1a(bytes: Seq<u8>) -> u32
    decreases bytes.len(),
{
    if bytes.len() == 0 {
        FNV1A_OFFSET_BASIS
    } else {
        fnv1a_step(spec_fnv1a(bytes.drop_last()), bytes.last())
    }
}

/// Hashes `bytes` with 32-bit FNV-1a.
pub fn fnv1a(bytes: &[u8]) -> (hash: u32)
    ensures
        hash == spec_fnv1a(bytes@),
{
    let mut hash: u32 = FNV1A_OFFSET_BASIS;
    let n: usize = bytes.len();
    for i in 0..n
        invariant
            n == bytes@.len(),
            hash == spec_fnv1a(bytes@.take(i as int)),
    {
        assert(bytes@.take(i + 1).drop_last() =~= bytes@.take(i as int));
        hash = (hash ^ (bytes[i] as u32)).wrapping_mul(FNV1A_PRIME);
    }
    assert(bytes@.take(n as int) =~= bytes@);
    hash
}

/// The lower-case hexadecimal digit for a value below 16.
pub open spec fn hex_digit(d: nat) -> char {
    if d < 10 {
        ((d + 48) as u8) as char
    } else {
        ((d + 87) as u8) as char
    }
}

/// The lower-case hexadecimal spelling of `n`, without leading zeros
/// (`0` is spelled "0").
pub open spec fn spec_hex_lower(n: nat) -> Seq<char>
    decreases n,
{
    if n < 16 {
        seq![hex_digit(n)]
    } else {
        spec_hex_lower(n / 16).push(hex_digit(n % 16))
    }
}

fn hex_digit_exec(d: u32) -> (c: char)
    requires
        d < 16,
    ensures
        c == hex_digit(d as nat),
{
    if d < 10 {
        ((d + 48) as u8) as char
    } else {
        ((d + 87) as u8) as char
    }
}

/// Spells `n` in lower-case hexadecimal, as `{:x}` does.
pub fn hex_lower(n: u32) -> (digits: Vec<char>)
    ensures
        digits@ == spec_hex_lower(n as nat),
    decreases n,
{
    if n < 16 {
        let mut v: Vec<char> = Vec::new();
        v.push(hex_digit_exec(n));
        assert(v@ =~= seq![hex_digit(n as nat)]);
        v
    } else {
        let mut v = hex_lower(n / 16);
        v.push(hex_digit_exec(n % 16));
        v
    }
}

/// ASCII lower-casing of one character: `A`..=`Z` move to `a`..=`z`,
/// everything else is kept.
pub open spec fn ascii_lower_char(c: char) -> char {
    if 'A' <= c && c <= 'Z' {
        ((c as u32 + 32) as u8) as char
    } else {
        c
    }
}

/// ASCII lower-casing of a character sequence.
pub open spec fn spec_ascii_lower(s: Seq<char>) -> Seq<char> {
    s.map_values(|c: char| ascii_lower_char(c))
}

/// Lower-cases the ASCII letters of `s`, as `str::to_ascii_lowercase` does.
pub fn ascii_lowercase(s: &Vec<char>) -> (r: Vec<char>)
    ensures
        r@ == spec_ascii_lower(s@),
{
    let mut r: Vec<char> = Vec::new();
    let n: usize = s.len();
    for i in 0..n
        invariant
            n == s@.len(),
            r@ == spec_ascii_lower(s@.take(i as int)),
    {
        let c: char = s[i];
        let lc: char = if 'A' <= c && c <= 'Z' {
            ((c as u8) + 32) as char
        } else {
            c
        };
        r.push(lc);
        assert(spec_ascii_lower(s@.take(i + 1)) =~= spec_ascii_lower(s@.take(i as int)).push(lc));
    }
    assert(s@.take(n as int) =~= s@);
    r
}

/// Whether `s` ends with `suffix`.
pub open spec fn spec_ends_with(s: Seq<char>, suffix: Seq<char>) -> bool {
    suffix.len() <= s.len() && s.subrange(s.len() - suffix.len(), s.len() as int) == suffix
}

/// Tests whether `s` ends with `suffix`.
pub fn ends_with(s: &Vec<char>, suffix: &Vec<char>) -> (r: bool)
    ensures
        r == spec_ends_with(s@, suffix@),
{
    let n: usize = s.len();
    let m: usize = suffix.len();
    if m > n {
        return false;
    }
    let off: usize = n - m;
    for i in 0..m
        invariant
            n == s@.len(),
            m == suffix@.len(),
            off == n - m,
            forall|j: int| 0 <= j < i ==> s@[off + j] == suffix@[j],
    {
        if s[off + i] != suffix[i] {
            assert(s@.subrange(off as int, n as int)[i as int] != suffix@[i as int]);
            return false;
        }
    }
    assert(s@.subrange(off as int, n as int) =~= suffix@);
    true
}

/// The characters of a string slice, in order.
pub(crate) fn chars_of(s: &str) -> (r: Vec<char>)
    ensures
        r@ == s@,
{
    broadcast use vstd::string::axiom_spec_iter, vstd::string::next_postcondition;

    let mut chars = s.chars();
    let mut r: Vec<char> = Vec::new();
    loop
        invariant
            r@ + vstd::std_specs::iter::IteratorSpec::remaining(&chars) == s@,
            vstd::std_specs::iter::IteratorSpec::decrease(&chars) is Some,
        decreases vstd::std_specs::iter::IteratorSpec::decrease(&chars)->0,
    {
        match chars.next() {
            Some(c) => {
                r.push(c);
            },
            None => {
                return r;
            },
        }
    }
}

/// Collects characters into a `String`.
#[verifier::external_body]
pub(crate) fn string_of(chars: &Vec<char>) -> (r: String)
    ensures
        r@ == chars@,
{
    chars.iter().collect()
}

/// What `str::to_lowercase` (full Unicode lower-casing) returns for a string.
pub uninterp spec fn spec_to_lowercase(s: Seq<char>) -> Seq<char>;

/// What `Path::file_stem` returns for a path given as text.
pub uninterp spec fn spec_file_stem(path: Seq<char>) -> Option<Seq<char>>;

/// What `Path::file_name` returns for a path given as text.
pub uninterp spec fn spec_file_name(path: Seq<char>) -> Option<Seq<char>>;

/// What `Path::is_relative` returns for a path given as text, under the path
/// rules of the target that this crate is built for.
pub uninterp spec fn spec_path_is_relative(path: Seq<char>) -> bool;

/// What `Path::join` returns for two paths given as text, under the path rules
/// of the target that this crate is built for.
pub uninterp spec fn spec_path_join(base: Seq<char>, path: Seq<char>) -> Seq<char>;

/// Calls `str::to_lowercase`; the contract only names its result.
#[verifier::external_body]
pub(crate) fn to_lowercase(s: &str) -> (r: String)
    ensures
        r@ == spec_to_lowercase(s@),
{
    s.to_lowercase()
}

/// Calls `Path::file_stem` on `path`. A component of a UTF-8 path is UTF-8,
/// so converting it back to text loses nothing. The contract only names the
/// result.
#[verifier::external_body]
pub(crate) fn path_file_stem(path: &str) -> (r: Option<String>)
    ensures
        match r {
            Some(stem) => spec_file_stem(path@) == Some(stem@),
            None => spec_file_stem(path@) is None,
        },
{
    std::path::Path::new(path).file_stem().map(|s| s.to_string_lossy().into_owned())
}

/// Calls `Path::file_name` on `path`; the contract only names the result.
#[verifier::external_body]
pub(crate) fn path_file_name(path: &str) -> (r: Option<String>)
    ensures
        match r {
            Some(name) => spec_file_name(path@) == Some(name@),
            None => spec_file_name(path@) is None,
        },
{
    std::path::Path::new(path).file_name().map(|s| s.to_string_lossy().into_owned())
}

/// Calls `Path::is_relative` on `path`; the contract only names the result.
#[verifier::external_body]
pub(crate) fn path_is_relative(path: &str) -> (r: bool)
    ensures
        r == spec_path_is_relative(path@),
{
    std::path::Path::new(path).is_relative()
}

/// Calls `Path::join`; the joined path of two UTF-8 paths is UTF-8. The
/// contract only names the result.
#[verifier::external_body]
pub(crate) fn path_join(base: &str, path: &str) -> (r: String)
    ensures
        r@ == spec_path_join(base@, path@),
{
    std::path::Path::new(base).join(path).to_string_lossy().into_owned()
}

} // verus!
