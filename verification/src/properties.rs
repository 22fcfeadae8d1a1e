//! Boolean game property overrides.
//!
//! The host can force boolean game properties (such as
//! `Game.Debug.EnableRegulationFile`) to a value. Overrides are keyed by the
//! UTF-16 text of the property name, which is how the game's getter receives
//! it; the getter itself is found by the call sites that a byte pattern
//! matches in the game's code, taking the most called target.
use vstd::prelude::*;

use crate::game::Game;
use crate::text::chars_of;

verus! {

/// The UTF-16 code units of one character.
pub open spec fn utf16_of_char(c: char) -> Seq<u16> {
    let v = c as u32;
    if v < 0x10000 {
        seq![v as u16]
    } else {
        seq![(0xD800 + (v - 0x10000) / 1024) as u16, (0xDC00 + (v - 0x10000) % 1024) as u16]
    }
}

/// The UTF-16 encoding of a character sequence.
pub open spec fn spec_encode_utf16(s: Seq<char>) -> Seq<u16>
    decreases s.len(),
{
    if s.len() == 0 {
        Seq::empty()
    } else {
        spec_encode_utf16(s.drop_last()) + utf16_of_char(s.last())
    }
}

/// Encodes text as UTF-16, as `str::encode_utf16` does.
pub fn encode_utf16(s: &str) -> (r: Vec<u16>)
    ensures
        r@ == spec_encode_utf16(s@),
{
    let chars = chars_of(s);
    let n: usize = chars.len();
    let mut r: Vec<u16> = Vec::new();
    for i in 0..n
        invariant
            n == chars@.len(),
            chars@ == s@,
            r@ == spec_encode_utf16(chars@.take(i as int)),
    {
        let c: char = chars[i];
        let v: u32 = c as u32;
        assert(chars@.take(i + 1).drop_last() =~= chars@.take(i as int));
        let ghost before = r@;
        if v < 0x10000 {
            r.push(v as u16);
            assert(r@ =~= before + utf16_of_char(c));
        } else {
            r.push((0xD800 + (v - 0x10000) / 1024) as u16);
            r.push((0xDC00 + (v - 0x10000) % 1024) as u16);
            assert(r@ =~= before + utf16_of_char(c));
        }
    }
    assert(chars@.take(n as int) =~= chars@);
    r
}

/// Forced values of boolean game properties, keyed by property name.
///
/// The names are UTF-16 texts. They are kept in a vector of pairs with
/// distinct names, searched in order, rather than in a `HashMap`: vstd's
/// specification of `HashMap` fixes its contents only for keys whose
/// hashing and equality it models, which a `Vec<u16>` key is not, while a
/// vector's contents are fully specified. The table holds a handful of
/// properties, so the linear search costs nothing noticeable.
pub struct PropertyOverrides {
    entries: Vec<(Vec<u16>, bool)>,
}

/// The overrides as a map from property name to forced value.
pub open spec fn overrides_map(entries: Seq<(Vec<u16>, bool)>) -> Map<Seq<u16>, bool> {
    Map::new(
        |k: Seq<u16>| exists|i: int| 0 <= i < entries.len() && entries[i].0@ == k,
        |k: Seq<u16>| entries[choose|i: int| 0 <= i < entries.len() && entries[i].0@ == k].1,
    )
}

/// No name is overridden twice.
pub open spec fn keys_distinct(entries: Seq<(Vec<u16>, bool)>) -> bool {
    forall|i: int, j: int|
        0 <= i < entries.len() && 0 <= j < entries.len() && i != j ==> #[trigger] entries[i].0@
            != #[trigger] entries[j].0@
}

impl View for PropertyOverrides {
    type V = Map<Seq<u16>, bool>;

    closed spec fn view(&self) -> Map<Seq<u16>, bool> {
        overrides_map(self.entries@)
    }
}

impl PropertyOverrides {
    #[verifier::type_invariant]
    closed spec fn keys_are_distinct(self) -> bool {
        keys_distinct(self.entries@)
    }

    /// No overrides.
    pub fn new() -> (r: PropertyOverrides)
        ensures
            r@ == Map::<Seq<u16>, bool>::empty(),
    {
        let r = PropertyOverrides { entries: Vec::new() };
        assert(r@ =~= Map::<Seq<u16>, bool>::empty());
        r
    }

    fn find(&self, name: &[u16]) -> (r: Option<usize>)
        ensures
            match r {
                Some(i) => i < self.entries@.len() && self.entries@[i as int].0@ == name@,
                None => forall|i: int|
                    0 <= i < self.entries@.len() ==> self.entries@[i].0@ != name@,
            },
    {
        let n: usize = self.entries.len();
        let mut i: usize = 0;
        while i < n
            invariant
                n == self.entries@.len(),
                i <= n,
                forall|j: int| 0 <= j < i ==> self.entries@[j].0@ != name@,
            decreases n - i,
        {
            if crate::lex::compare_text(self.entries[i].0.as_slice(), name) == 0 {
                return Some(i);
            }
            i = i + 1;
        }
        None
    }

    /// The forced value of a property, if it is overridden.
    pub fn get(&self, name: &[u16]) -> (r: Option<bool>)
        ensures
            r == (if self@.contains_key(name@) {
                Some(self@[name@])
            } else {
                None
            }),
    {
        proof {
            use_type_invariant(self);
        }
        match self.find(name) {
            Some(i) => {
                proof {
                    let es = self.entries@;
                    assert(self@.contains_key(name@));
                    let j = choose|j: int| 0 <= j < es.len() && es[j].0@ == name@;
                    assert(j == i as int);
                }
                Some(self.entries[i].1)
            },
            None => None,
        }
    }

    /// Forces the property named by the UTF-16 text `name` to `state`.
    pub fn insert(&mut self, name: Vec<u16>, state: bool)
        ensures
            final(self)@ == old(self)@.insert(name@, state),
    {
        proof {
            use_type_invariant(&*self);
        }
        let ghost before = self.entries@;
        let ghost key = name@;
        match self.find(name.as_slice()) {
            Some(i) => {
                let mut entries: Vec<(Vec<u16>, bool)> = Vec::new();
                std::mem::swap(&mut entries, &mut self.entries);
                entries.set(i, (name, state));
                proof {
                    let es = entries@;
                    assert(es =~= before.update(i as int, es[i as int]));
                    assert(keys_distinct(es)) by {
                        assert forall|a: int, b: int|
                            0 <= a < es.len() && 0 <= b < es.len() && a != b implies #[trigger] es[a].0@
                            != #[trigger] es[b].0@ by {
                            if a != i && b != i {
                                assert(es[a] == before[a] && es[b] == before[b]);
                            } else if a == i {
                                assert(es[b] == before[b]);
                                assert(before[i as int].0@ == key);
                            } else {
                                assert(es[a] == before[a]);
                                assert(before[i as int].0@ == key);
                            }
                        }
                    }
                    assert forall|k: Seq<u16>| #[trigger] overrides_map(es).contains_key(k)
                        == overrides_map(before).insert(key, state).contains_key(k) by {
                        if k == key {
                            assert(es[i as int].0@ == key);
                        } else if overrides_map(before).contains_key(k) {
                            let j = choose|j: int| 0 <= j < before.len() && before[j].0@ == k;
                            assert(es[j] == before[j]);
                        } else if overrides_map(es).contains_key(k) {
                            let j = choose|j: int| 0 <= j < es.len() && es[j].0@ == k;
                            assert(j != i);
                            assert(es[j] == before[j]);
                        }
                    }
                    assert forall|k: Seq<u16>| #[trigger] overrides_map(es).contains_key(k)
                        implies overrides_map(es)[k] == overrides_map(before).insert(
                        key,
                        state,
                    )[k] by {
                        let j = choose|j: int| 0 <= j < es.len() && es[j].0@ == k;
                        if k == key {
                            assert(j == i as int);
                        } else {
                            assert(j != i);
                            assert(es[j] == before[j]);
                            let j2 = choose|j2: int| 0 <= j2 < before.len() && before[j2].0@ == k;
                            assert(j2 == j);
                        }
                    }
                    assert(overrides_map(es) =~= overrides_map(before).insert(key, state));
                }
                self.entries = entries;
            },
            None => {
                let mut entries: Vec<(Vec<u16>, bool)> = Vec::new();
                std::mem::swap(&mut entries, &mut self.entries);
                entries.push((name, state));
                proof {
                    let es = entries@;
                    let last = before.len() as int;
                    assert(es =~= before.push(es[last]));
                    assert(keys_distinct(es)) by {
                        assert forall|a: int, b: int|
                            0 <= a < es.len() && 0 <= b < es.len() && a != b implies #[trigger] es[a].0@
                            != #[trigger] es[b].0@ by {
                            if a != last && b != last {
                                assert(es[a] == before[a] && es[b] == before[b]);
                            } else if a == last {
                                assert(es[b] == before[b]);
                            } else {
                                assert(es[a] == before[a]);
                            }
                        }
                    }
                    assert forall|k: Seq<u16>| #[trigger] overrides_map(es).contains_key(k)
                        == overrides_map(before).insert(key, state).contains_key(k) by {
                        if k == key {
                            assert(es[last].0@ == key);
                        } else if overrides_map(before).contains_key(k) {
                            let j = choose|j: int| 0 <= j < before.len() && before[j].0@ == k;
                            assert(es[j] == before[j]);
                        } else if overrides_map(es).contains_key(k) {
                            let j = choose|j: int| 0 <= j < es.len() && es[j].0@ == k;
                            assert(j != last);
                            assert(es[j] == before[j]);
                        }
                    }
                    assert forall|k: Seq<u16>| #[trigger] overrides_map(es).contains_key(k)
                        implies overrides_map(es)[k] == overrides_map(before).insert(
                        key,
                        state,
                    )[k] by {
                        let j = choose|j: int| 0 <= j < es.len() && es[j].0@ == k;
                        if k == key {
                            assert(j == last);
                        } else {
                            assert(j != last);
                            assert(es[j] == before[j]);
                            let j2 = choose|j2: int| 0 <= j2 < before.len() && before[j2].0@ == k;
                            assert(j2 == j);
                        }
                    }
                    assert(overrides_map(es) =~= overrides_map(before).insert(key, state));
                }
                self.entries = entries;
            },
        }
    }

    /// Forces the boolean game property `property` to `state`; the name is
    /// keyed by its UTF-16 encoding.
    pub fn override_game_property(&mut self, property: &str, state: bool)
        ensures
            final(self)@ == old(self)@.insert(spec_encode_utf16(property@), state),
    {
        let name = encode_utf16(property);
        self.insert(name, state);
    }
}

/// Reading a property right after forcing it gives the forced value, and
/// forcing one property leaves every other property as it was.
pub proof fn law_override_then_get(
    overrides: Map<Seq<u16>, bool>,
    name: Seq<u16>,
    state: bool,
    other: Seq<u16>,
)
    requires
        other != name,
    ensures
        overrides.insert(name, state).contains_key(name),
        overrides.insert(name, state)[name] == state,
        overrides.insert(name, state).contains_key(other) == overrides.contains_key(other),
        overrides.contains_key(other) ==> overrides.insert(name, state)[other] == overrides[other],
{
}

/// The call-site pattern for a game's container layout.
pub open spec fn spec_getter_pattern(game: Game) -> Seq<char> {
    if game == Game::DarkSouls3 {
        spec_pattern_msvc2012()
    } else {
        spec_pattern_later()
    }
}

/// The byte pattern of the calls that pass a property name to the boolean
/// property getter. The two games' patterns differ only in the stack offset
/// of the name string's capacity, which the container layout moves.
pub fn property_getter_pattern(game: Game) -> (r: &'static str)
    ensures
        r@ == spec_getter_pattern(game),
{
    if game.uses_msvc2012_layout() {
        "(?s-u)(?:\\x48\\x8d\\x54\\x24\\x30\\x48\\x8b\\x0d....\\xe8(....)\\x88\\x05....\\x48\\x83\\x7c\\x24\\x48\\x08\\x72.)|(?:\\x48\\x8d\\x54\\x24\\x30\\x48\\x8b\\x0d....\\xe8(....)\\x0f\\xb6\\xd8\\x48\\x83\\x7c\\x24\\x48\\x08\\x72.)"
    } else {
        "(?s-u)(?:\\x48\\x8d\\x54\\x24\\x30\\x48\\x8b\\x0d....\\xe8(....)\\x88\\x05....\\x48\\x83\\x7c\\x24\\x50\\x08\\x72.)|(?:\\x48\\x8d\\x54\\x24\\x30\\x48\\x8b\\x0d....\\xe8(....)\\x0f\\xb6\\xd8\\x48\\x83\\x7c\\x24\\x50\\x08\\x72.)"
    }
}

/// The call-site pattern for the MSVC 2012 container layout.
pub open spec fn spec_pattern_msvc2012() -> Seq<char> {
    "(?s-u)(?:\\x48\\x8d\\x54\\x24\\x30\\x48\\x8b\\x0d....\\xe8(....)\\x88\\x05....\\x48\\x83\\x7c\\x24\\x48\\x08\\x72.)|(?:\\x48\\x8d\\x54\\x24\\x30\\x48\\x8b\\x0d....\\xe8(....)\\x0f\\xb6\\xd8\\x48\\x83\\x7c\\x24\\x48\\x08\\x72.)"@
}

/// The call-site pattern for the later container layouts.
pub open spec fn spec_pattern_later() -> Seq<char> {
    "(?s-u)(?:\\x48\\x8d\\x54\\x24\\x30\\x48\\x8b\\x0d....\\xe8(....)\\x88\\x05....\\x48\\x83\\x7c\\x24\\x50\\x08\\x72.)|(?:\\x48\\x8d\\x54\\x24\\x30\\x48\\x8b\\x0d....\\xe8(....)\\x0f\\xb6\\xd8\\x48\\x83\\x7c\\x24\\x50\\x08\\x72.)"@
}

#[verifier::external_type_specification]
#[verifier::external_body]
pub struct ExRegexError(regex::Error);

/// What `regex::bytes::Regex::captures_iter` yields for a pattern on a
/// haystack: for each match, in order, the byte span of every capture group
/// (group 0 being the whole match), `None` for a group that did not take part.
pub uninterp spec fn spec_regex_captures(pattern: Seq<char>, text: Seq<u8>) -> Seq<
    Seq<Option<(usize, usize)>>,
>;

/// The views of the captures that the regex wrapper hands back.
pub open spec fn captures_view(c: Seq<Vec<Option<(usize, usize)>>>) -> Seq<
    Seq<Option<(usize, usize)>>,
> {
    c.map_values(|m: Vec<Option<(usize, usize)>>| m@)
}

/// Every span lies inside the text.
pub open spec fn spans_in_text(c: Seq<Seq<Option<(usize, usize)>>>, len: nat) -> bool {
    forall|i: int, j: int|
        0 <= i < c.len() && 0 <= j < c[i].len() ==> match #[trigger] c[i][j] {
            Some((s, e)) => s <= e <= len,
            None => true,
        }
}

/// Whether `regex::bytes::Regex::new` accepts a pattern: its result depends
/// on the pattern alone.
pub uninterp spec fn spec_regex_compiles(pattern: Seq<char>) -> bool;

/// Compiles `pattern` with `regex::bytes::Regex::new` and collects the
/// capture spans of every match in `text`, via `captures_iter`. The call
/// succeeds exactly when the pattern compiles (a named result); the spans
/// are then the named result of the search, and as match offsets are byte
/// offsets into the haystack, each span lies inside `text`. Which error a
/// failed compilation reports is not stated.
#[verifier::external_body]
fn regex_captures(pattern: &str, text: &[u8]) -> (r: Result<
    Vec<Vec<Option<(usize, usize)>>>,
    regex::Error,
>)
    ensures
        r is Ok <==> spec_regex_compiles(pattern@),
        r matches Ok(c) ==> captures_view(c@) == spec_regex_captures(pattern@, text@)
            && spans_in_text(captures_view(c@), text@.len()),
{
    let re = regex::bytes::Regex::new(pattern)?;
    Ok(
        re.captures_iter(text).map(
            |c| c.iter().map(|m| m.map(|m| (m.start(), m.end()))).collect(),
        ).collect(),
    )
}

/// A 32-bit little-endian two's complement displacement.
pub open spec fn le_i32(b0: u8, b1: u8, b2: u8, b3: u8) -> int {
    let u = b0 + 256 * b1 + 65536 * b2 + 16777216 * b3;
    if u >= 0x8000_0000 {
        u - 0x1_0000_0000
    } else {
        u
    }
}

/// The first capture group after the whole match that took part in it.
pub open spec fn first_group_from(m: Seq<Option<(usize, usize)>>, g: int) -> Option<(usize, usize)>
    decreases m.len() - g,
{
    if g < 1 || g >= m.len() {
        None
    } else if m[g] is Some {
        m[g]
    } else {
        first_group_from(m, g + 1)
    }
}

/// The call target of one match: the four displacement bytes captured by
/// the pattern are relative to the end of the call instruction, which is
/// where they end. `None` when no group of four bytes took part.
pub open spec fn spec_call_target(m: Seq<Option<(usize, usize)>>, text: Seq<u8>, base: u64) -> Option<
    u64,
> {
    match first_group_from(m, 1) {
        Some((s, e)) => if e == s + 4 && e <= text.len() {
            Some(
                ((base + e + le_i32(text[e - 4], text[e - 3], text[e - 2], text[e - 1]))
                    % 0x1_0000_0000_0000_0000) as u64,
            )
        } else {
            None
        },
        None => None,
    }
}

/// The call targets of all matches, in order.
pub open spec fn spec_call_targets(c: Seq<Seq<Option<(usize, usize)>>>, text: Seq<u8>, base: u64) -> Seq<
    u64,
>
    decreases c.len(),
{
    if c.len() == 0 {
        Seq::empty()
    } else {
        match spec_call_target(c.last(), text, base) {
            Some(t) => spec_call_targets(c.drop_last(), text, base).push(t),
            None => spec_call_targets(c.drop_last(), text, base),
        }
    }
}

/// How often `x` occurs in `s`.
pub open spec fn count_of(s: Seq<u64>, x: u64) -> nat
    decreases s.len(),
{
    if s.len() == 0 {
        0
    } else {
        count_of(s.drop_last(), x) + if s.last() == x {
            1nat
        } else {
            0nat
        }
    }
}

/// `t` occurs in `s` at least as often as any other value.
pub open spec fn is_most_frequent(s: Seq<u64>, t: u64) -> bool {
    &&& s.contains(t)
    &&& forall|i: int| 0 <= i < s.len() ==> count_of(s, #[trigger] s[i]) <= count_of(s, t)
}

fn count_in(s: &Vec<u64>, x: u64) -> (r: usize)
    ensures
        r == count_of(s@, x),
{
    let n: usize = s.len();
    let mut c: usize = 0;
    for i in 0..n
        invariant
            n == s@.len(),
            c == count_of(s@.take(i as int), x),
            c <= i,
    {
        assert(s@.take(i + 1).drop_last() =~= s@.take(i as int));
        if s[i] == x {
            c = c + 1;
        }
    }
    assert(s@.take(n as int) =~= s@);
    c
}

/// The value that occurs most often in `targets`; `None` when it is empty.
/// Among equally frequent values, any may be the answer.
///
/// Occurrences are counted by scanning the list once per entry instead of
/// folding into a `HashMap` of counts: a `HashMap` is walked in an order
/// that its hasher seeds anew in each process, so which of two equally
/// frequent targets wins would be left to chance, and the lists are only
/// the few dozen call sites of one pattern.
pub fn most_frequent(targets: &Vec<u64>) -> (r: Option<u64>)
    ensures
        r is None <==> targets@.len() == 0,
        r matches Some(t) ==> is_most_frequent(targets@, t),
{
    let n: usize = targets.len();
    if n == 0 {
        return None;
    }
    let mut best: u64 = targets[0];
    let mut best_count: usize = count_in(targets, best);
    for i in 1..n
        invariant
            n == targets@.len(),
            n > 0,
            targets@.contains(best),
            best_count == count_of(targets@, best),
            forall|j: int| 0 <= j < i ==> count_of(targets@, #[trigger] targets@[j]) <= best_count,
    {
        let c = count_in(targets, targets[i]);
        if c > best_count {
            best = targets[i];
            best_count = c;
        }
    }
    Some(best)
}

fn first_group(m: &Vec<Option<(usize, usize)>>) -> (r: Option<(usize, usize)>)
    ensures
        r == first_group_from(m@, 1),
{
    let n: usize = m.len();
    let mut g: usize = 1;
    while g < n
        invariant
            n == m@.len(),
            1 <= g,
            first_group_from(m@, 1) == first_group_from(m@, g as int),
        decreases n - g,
    {
        if m[g].is_some() {
            return m[g];
        }
        g = g + 1;
    }
    None
}

fn call_target(m: &Vec<Option<(usize, usize)>>, text: &[u8], base: u64) -> (r: Option<u64>)
    ensures
        r == spec_call_target(m@, text@, base),
{
    let (s, e) = match first_group(m) {
        Some(span) => span,
        None => return None,
    };
    if s > e || e - s != 4 || e > text.len() {
        return None;
    }
    let b0 = text[e - 4];
    let b1 = text[e - 3];
    let b2 = text[e - 2];
    let b3 = text[e - 1];
    let u: u64 = (b0 as u64) + (b1 as u64) * 256 + (b2 as u64) * 65536 + (b3 as u64) * 16777216;
    let disp: u64 = if u >= 0x8000_0000 {
        u + 0xFFFF_FFFF_0000_0000
    } else {
        u
    };
    let t = base.wrapping_add(e as u64).wrapping_add(disp);
    proof {
        let d = le_i32(b0, b1, b2, b3);
        let m: int = 0x1_0000_0000_0000_0000;
        assert(disp as int == (d % m)) by {
            if u >= 0x8000_0000 {
                assert(d == u - 0x1_0000_0000);
                assert((u - 0x1_0000_0000) % m == u - 0x1_0000_0000 + m);
            }
        }
        let t1 = vstd::wrapping::u64_specs::wrapping_add(base, e as u64);
        assert(t1 as int == (base + e) % m);
        assert(t as int == (t1 + disp) % m);
        vstd::arithmetic::div_mod::lemma_add_mod_noop(base + e, d, m);
    }
    Some(t)
}

/// The call targets of the matched call sites, where `text` is the code
/// section and `base` its address.
pub fn call_targets(captures: &Vec<Vec<Option<(usize, usize)>>>, text: &[u8], base: u64) -> (r: Vec<u64>)
    ensures
        r@ == spec_call_targets(captures_view(captures@), text@, base),
{
    let ghost c = captures_view(captures@);
    let n: usize = captures.len();
    let mut r: Vec<u64> = Vec::new();
    for i in 0..n
        invariant
            n == captures@.len(),
            c == captures_view(captures@),
            r@ == spec_call_targets(c.take(i as int), text@, base),
    {
        assert(c.take(i + 1).drop_last() =~= c.take(i as int));
        assert(c.take(i + 1).last() == captures@[i as int]@);
        match call_target(&captures[i], text, base) {
            Some(t) => r.push(t),
            None => {},
        }
    }
    assert(c.take(n as int) =~= c);
    r
}

/// Why the boolean property getter was not found.
#[derive(Clone, Copy, Debug, PartialEq, Eq, Structural)]
pub enum PropertyGetterError {
    /// The call-site pattern did not compile.
    Pattern,
    /// The pattern matched no call site.
    NoMatches,
}

/// The target that the matched call sites call most often, when the capture
/// spans of the pattern's matches are given: the address of the getter.
pub fn most_called_target(captures: &Vec<Vec<Option<(usize, usize)>>>, text: &[u8], base: u64) -> (r:
    Result<u64, PropertyGetterError>)
    ensures
        match r {
            Ok(t) => is_most_frequent(
                spec_call_targets(captures_view(captures@), text@, base),
                t,
            ),
            Err(e) => e == PropertyGetterError::NoMatches && spec_call_targets(
                captures_view(captures@),
                text@,
                base,
            ).len() == 0,
        },
{
    let targets = call_targets(captures, text, base);
    match most_frequent(&targets) {
        Some(t) => Ok(t),
        None => Err(PropertyGetterError::NoMatches),
    }
}

/// Finds the boolean property getter of `game` in its code section `text`,
/// loaded at `base`: the pattern for the game's container layout is matched
/// against the code, and the most called target wins.
pub fn bool_property_getter(game: Game, text: &[u8], base: u64) -> (r: Result<
    u64,
    PropertyGetterError,
>)
    ensures
        match r {
            Ok(t) => is_most_frequent(
                spec_call_targets(
                    spec_regex_captures(
                        spec_getter_pattern(game),
                        text@,
                    ),
                    text@,
                    base,
                ),
                t,
            ),
            Err(PropertyGetterError::NoMatches) => spec_call_targets(
                spec_regex_captures(
                    spec_getter_pattern(game),
                    text@,
                ),
                text@,
                base,
            ).len() == 0,
            Err(PropertyGetterError::Pattern) => !spec_regex_compiles(spec_getter_pattern(game)),
        },
        r == Err::<u64, PropertyGetterError>(PropertyGetterError::Pattern) <==> !spec_regex_compiles(
            spec_getter_pattern(game),
        ),
{
    let pattern = property_getter_pattern(game);
    match regex_captures(pattern, text) {
        Ok(captures) => most_called_target(&captures, text, base),
        Err(_) => Err(PropertyGetterError::Pattern),
    }
}

/// The call-site pattern is the MSVC 2012 one exactly for Dark Souls 3: every
/// other game gets the pattern whose name-string capacity sits at stack
/// offset 0x50, and only Dark Souls 3 gets the one with offset 0x48. The two
/// patterns differ, at the digit after `\x` of that offset.
pub proof fn law_getter_pattern_per_game(game: Game)
    ensures
        (spec_getter_pattern(game) == spec_pattern_msvc2012()) <==> (game == Game::DarkSouls3),
        (spec_getter_pattern(game) == spec_pattern_later()) <==> (game != Game::DarkSouls3),
        spec_getter_pattern(game).len() > 85,
        (spec_getter_pattern(game)[85] == '4') <==> (game == Game::DarkSouls3),
        (spec_getter_pattern(game)[85] == '5') <==> (game != Game::DarkSouls3),
{
    reveal_strlit("(?s-u)(?:\\x48\\x8d\\x54\\x24\\x30\\x48\\x8b\\x0d....\\xe8(....)\\x88\\x05....\\x48\\x83\\x7c\\x24\\x48\\x08\\x72.)|(?:\\x48\\x8d\\x54\\x24\\x30\\x48\\x8b\\x0d....\\xe8(....)\\x0f\\xb6\\xd8\\x48\\x83\\x7c\\x24\\x48\\x08\\x72.)");
    reveal_strlit("(?s-u)(?:\\x48\\x8d\\x54\\x24\\x30\\x48\\x8b\\x0d....\\xe8(....)\\x88\\x05....\\x48\\x83\\x7c\\x24\\x50\\x08\\x72.)|(?:\\x48\\x8d\\x54\\x24\\x30\\x48\\x8b\\x0d....\\xe8(....)\\x0f\\xb6\\xd8\\x48\\x83\\x7c\\x24\\x50\\x08\\x72.)");
    assert(spec_pattern_msvc2012()[85] == '4');
    assert(spec_pattern_later()[85] == '5');
}

} // verus!
