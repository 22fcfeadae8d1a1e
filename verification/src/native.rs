//! Native modules (DLLs) that a profile asks the host to load.
use vstd::prelude::*;

use crate::item::{is_item_for_path, AsItem, Item};

verus! {

/// Wait this long before loading the native.
#[derive(Clone, Debug)]
pub struct NativeInitializerDelay {
    pub ms: usize,
}

/// When a native is loaded and which of its symbols is called afterwards.
#[derive(Clone, Debug)]
pub struct NativeInitializerCondition {
    pub delay: Option<NativeInitializerDelay>,
    pub function: Option<String>,
}

/// A native module of a profile.
#[derive(Clone, Debug)]
pub struct Native {
    pub inner: Item,
    /// An optional symbol to be called after this native successfully loads.
    pub initializer: Option<NativeInitializerCondition>,
}

/// How the host loads a native, decided from its initializer condition.
#[derive(Clone, Debug)]
pub struct NativeLoadPlan {
    /// Load on a separate thread after this many milliseconds.
    pub delay_ms: Option<usize>,
    /// Call this symbol once loaded; a `false` return is an error.
    pub initializer_symbol: Option<String>,
    /// Look for and call the Mod Engine 2 extension initializer.
    pub modengine_fallback: bool,
}

/// Why a native could not be prepared for loading.
#[derive(Clone, Copy, Debug, PartialEq, Eq, Structural)]
pub enum NativeLoadError {
    /// The initializer symbol holds a NUL byte at this position.
    NulInSymbol(usize),
}

/// The NUL-terminated bytes of a symbol name, or the position of the first
/// NUL byte in it: what `CString::new` followed by `as_bytes_with_nul` gives.
pub open spec fn spec_symbol_cstring(bytes: Seq<u8>) -> Result<Seq<u8>, NativeLoadError> {
    if exists|i: int| 0 <= i < bytes.len() && bytes[i] == 0 {
        let i = choose|i: int|
            0 <= i < bytes.len() && bytes[i] == 0 && forall|j: int| 0 <= j < i ==> bytes[j] != 0;
        Err(NativeLoadError::NulInSymbol(i as usize))
    } else {
        Ok(bytes.push(0u8))
    }
}

/// Encodes an initializer symbol name as a C string.
pub fn initializer_symbol_cstring(symbol: &str) -> (r: Result<Vec<u8>, NativeLoadError>)
    ensures
        match r {
            Ok(bytes) => !(exists|i: int|
                0 <= i < vstd::utf8::encode_utf8(symbol@).len() && vstd::utf8::encode_utf8(symbol@)[i] == 0)
                && bytes@ == vstd::utf8::encode_utf8(symbol@).push(0u8),
            Err(NativeLoadError::NulInSymbol(p)) => p < vstd::utf8::encode_utf8(symbol@).len()
                && vstd::utf8::encode_utf8(symbol@)[p as int] == 0 && forall|j: int|
                0 <= j < p ==> vstd::utf8::encode_utf8(symbol@)[j] != 0,
        },
{
    let bytes = symbol.as_bytes();
    let n: usize = bytes.len();
    let mut out: Vec<u8> = Vec::new();
    for i in 0..n
        invariant
            n == bytes@.len(),
            bytes@ == vstd::utf8::encode_utf8(symbol@),
            out@ == bytes@.take(i as int),
            forall|j: int| 0 <= j < i ==> bytes@[j] != 0,
    {
        if bytes[i] == 0 {
            return Err(NativeLoadError::NulInSymbol(i));
        }
        out.push(bytes[i]);
        assert(out@ =~= bytes@.take(i + 1));
    }
    assert(bytes@.take(n as int) =~= bytes@);
    out.push(0u8);
    Ok(out)
}

/// The load plan that an initializer condition calls for.
pub open spec fn spec_load_plan(initializer: Option<NativeInitializerCondition>) -> (
    Option<usize>,
    Option<Seq<char>>,
    bool,
) {
    match initializer {
        Some(cond) => (
            match cond.delay {
                Some(d) => Some(d.ms),
                None => None,
            },
            match cond.function {
                Some(f) => Some(f@),
                None => None,
            },
            false,
        ),
        None => (None, None, true),
    }
}

impl Native {
    /// The native for `path`, with no initializer.
    pub fn new(path: &str) -> (native: Native)
        ensures
            is_item_for_path(native.inner, path@),
            native.initializer is None,
    {
        Native::from(Item::new(path))
    }

    /// The native for an owned path, with no initializer.
    pub fn from_path(path: String) -> (native: Native)
        ensures
            is_item_for_path(native.inner, path@),
            native.initializer is None,
    {
        Native::from(Item::from_path(path))
    }

    /// Whether the native carries nothing but its path and name: default
    /// flags and no initializer.
    pub fn is_default(&self) -> (r: bool)
        ensures
            r == (self.inner.enabled && !self.inner.optional && self.initializer is None),
    {
        self.inner.is_default() && self.initializer.is_none()
    }

    /// Decides how the host loads this native: a delay puts the load on a
    /// thread of its own, a function names the symbol to call after loading,
    /// and a native without any initializer gets the Mod Engine 2 fallback.
    pub fn load_plan(&self) -> (plan: NativeLoadPlan)
        ensures
            spec_load_plan(self.initializer) == (
                plan.delay_ms,
                match plan.initializer_symbol {
                    Some(s) => Some(s@),
                    None => None,
                },
                plan.modengine_fallback,
            ),
    {
        match &self.initializer {
            Some(cond) => {
                let delay_ms = match &cond.delay {
                    Some(d) => Some(d.ms),
                    None => None,
                };
                let initializer_symbol = match &cond.function {
                    Some(f) => Some(f.clone()),
                    None => None,
                };
                NativeLoadPlan { delay_ms, initializer_symbol, modengine_fallback: false }
            },
            None => NativeLoadPlan {
                delay_ms: None,
                initializer_symbol: None,
                modengine_fallback: true,
            },
        }
    }
}

impl AsItem for Native {
    open spec fn spec_item(&self) -> Item {
        self.inner
    }

    fn item(&self) -> (r: &Item) {
        &self.inner
    }

    fn item_mut(&mut self) -> (r: &mut Item)
        ensures
            final(self).initializer == old(self).initializer,
    {
        &mut self.inner
    }
}

impl From<Item> for Native {
    fn from(item: Item) -> (r: Native) {
        Native { inner: item, initializer: None }
    }
}

impl vstd::std_specs::convert::FromSpecImpl<Item> for Native {
    open spec fn obeys_from_spec() -> bool {
        true
    }

    open spec fn from_spec(item: Item) -> Native {
        Native { inner: item, initializer: None }
    }
}

/// The view of an optional name.
pub open spec fn opt_text(s: Option<String>) -> Option<Seq<char>> {
    match s {
        Some(t) => Some(t@),
        None => None,
    }
}

/// What a load plan does, for every native: a native with an initializer
/// condition waits for the condition's delay (if any) and calls the
/// condition's function (if any), the two independently of each other, and
/// gets no Mod Engine 2 fallback; a native without one is loaded at once,
/// calls nothing, and gets the fallback. The plan is any value that the
/// contract of [`Native::load_plan`] allows for the native.
pub proof fn law_load_plan_follows_condition(native: Native, plan: NativeLoadPlan)
    requires
        spec_load_plan(native.initializer) == (
            plan.delay_ms,
            opt_text(plan.initializer_symbol),
            plan.modengine_fallback,
        ),
    ensures
        native.initializer matches Some(cond) ==> {
            &&& opt_text(plan.initializer_symbol) == opt_text(cond.function)
            &&& plan.delay_ms == (match cond.delay {
                Some(d) => Some(d.ms),
                None => None,
            })
            &&& !plan.modengine_fallback
        },
        native.initializer is None ==> {
            &&& plan.initializer_symbol is None
            &&& plan.delay_ms is None
            &&& plan.modengine_fallback
        },
{
}

} // verus!
