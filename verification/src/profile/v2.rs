//! Version 2 of the mod profile format.
//!
//! On disk a profile is a flat list of dependencies; in memory each
//! dependency is sorted by its file name into natives, nested profiles and
//! packages.
use vstd::prelude::*;

use crate::game::Game;
use crate::item::Item;
use crate::native::{Native, NativeInitializerCondition};
use crate::package::Package;
use crate::text::{ascii_lowercase, chars_of, ends_with, path_file_name, spec_ascii_lower,
    spec_ends_with, spec_file_name,
};

verus! {

/// A mod profile, with its dependencies sorted by kind.
pub struct ModProfileV2 {
    /// The game that this profile supports.
    pub supports: Option<Game>,
    /// Native modules (DLLs) that will be loaded.
    pub natives: Vec<Native>,
    /// A collection of packages containing assets to be added to the virtual
    /// file system.
    pub packages: Vec<Package>,
    /// Other profiles listed as dependencies by this profile.
    pub profiles: Vec<Item>,
    /// Name of an alternative savefile to use (in the default savefile
    /// directory).
    pub savefile: Option<String>,
    /// Starts the game with multiplayer server connectivity enabled.
    pub start_online: Option<bool>,
    /// Try to neutralize Arxan GuardIT code protection to improve mod
    /// stability.
    pub disable_arxan: Option<bool>,
}

/// The `[game]` table of the on-disk layout.
pub struct ProfileGame {
    pub launch: Option<Game>,
    pub savefile: Option<String>,
    pub start_online: Option<bool>,
    pub disable_arxan: Option<bool>,
}

/// The on-disk layout of a profile: the game table and a flat dependency list.
pub struct ModProfileV2Layout {
    pub game: ProfileGame,
    pub dependencies: Vec<ProfileDependency>,
}

/// One entry of the on-disk dependency list.
#[derive(Clone)]
pub struct ProfileDependency {
    pub inner: Item,
    pub initializer: Option<NativeInitializerCondition>,
}

/// What a dependency turns into once the profile is read.
#[derive(Clone, Copy, Debug, PartialEq, Eq, Structural)]
pub enum DependencyKind {
    Native,
    Profile,
    Package,
}

/// The file name of a path, or the empty text when it has none.
pub open spec fn file_name_or_empty(path: Seq<char>) -> Seq<char> {
    match spec_file_name(path) {
        Some(name) => name,
        None => Seq::empty(),
    }
}

/// Sorts a dependency by its ASCII-lower-cased file name: `.dll` files are
/// natives; `.me3`, `.me3.toml` and `.me3.json` files are profiles; anything
/// else is a package.
pub open spec fn spec_dependency_kind(path: Seq<char>) -> DependencyKind {
    let name = spec_ascii_lower(file_name_or_empty(path));
    if spec_ends_with(name, seq!['.', 'd', 'l', 'l']) {
        DependencyKind::Native
    } else if spec_ends_with(name, seq!['.', 'm', 'e', '3']) || spec_ends_with(
        name,
        seq!['.', 'm', 'e', '3', '.', 't', 'o', 'm', 'l'],
    ) || spec_ends_with(name, seq!['.', 'm', 'e', '3', '.', 'j', 's', 'o', 'n']) {
        DependencyKind::Profile
    } else {
        DependencyKind::Package
    }
}

/// The kind of a dependency.
pub open spec fn kind_of(dep: ProfileDependency) -> DependencyKind {
    spec_dependency_kind(dep.inner.path@)
}

/// A dependency read as a native: its item and initializer are kept.
pub open spec fn dep_to_native(dep: ProfileDependency) -> Native {
    Native { inner: dep.inner, initializer: dep.initializer }
}

/// A dependency read as a package: only its item is kept.
pub open spec fn dep_to_package(dep: ProfileDependency) -> Package {
    Package(dep.inner)
}

/// A native written as a dependency.
pub open spec fn native_to_dep(native: Native) -> ProfileDependency {
    ProfileDependency { inner: native.inner, initializer: native.initializer }
}

/// A package written as a dependency.
pub open spec fn package_to_dep(package: Package) -> ProfileDependency {
    ProfileDependency { inner: package.0, initializer: None }
}

/// A nested profile written as a dependency.
pub open spec fn item_to_dep(item: Item) -> ProfileDependency {
    ProfileDependency { inner: item, initializer: None }
}

/// The natives that a dependency list yields, in list order.
pub open spec fn natives_of(deps: Seq<ProfileDependency>) -> Seq<Native>
    decreases deps.len(),
{
    if deps.len() == 0 {
        Seq::empty()
    } else if kind_of(deps.last()) == DependencyKind::Native {
        natives_of(deps.drop_last()).push(dep_to_native(deps.last()))
    } else {
        natives_of(deps.drop_last())
    }
}

/// The packages that a dependency list yields, in list order.
pub open spec fn packages_of(deps: Seq<ProfileDependency>) -> Seq<Package>
    decreases deps.len(),
{
    if deps.len() == 0 {
        Seq::empty()
    } else if kind_of(deps.last()) == DependencyKind::Package {
        packages_of(deps.drop_last()).push(dep_to_package(deps.last()))
    } else {
        packages_of(deps.drop_last())
    }
}

/// The nested profiles that a dependency list yields, in list order.
pub open spec fn profiles_of(deps: Seq<ProfileDependency>) -> Seq<Item>
    decreases deps.len(),
{
    if deps.len() == 0 {
        Seq::empty()
    } else if kind_of(deps.last()) == DependencyKind::Profile {
        profiles_of(deps.drop_last()).push(deps.last().inner)
    } else {
        profiles_of(deps.drop_last())
    }
}

/// The dependency list that a profile is written as: natives, then packages,
/// then nested profiles.
pub open spec fn dependencies_of(profile: ModProfileV2) -> Seq<ProfileDependency> {
    profile.natives@.map_values(|n: Native| native_to_dep(n)) + profile.packages@.map_values(
        |p: Package| package_to_dep(p),
    ) + profile.profiles@.map_values(|i: Item| item_to_dep(i))
}

/// Every entry of the profile sits in the list its file name sorts it into.
pub open spec fn is_well_sorted(profile: ModProfileV2) -> bool {
    &&& forall|i: int|
        0 <= i < profile.natives@.len() ==> spec_dependency_kind(
            #[trigger] profile.natives@[i].inner.path@,
        ) == DependencyKind::Native
    &&& forall|i: int|
        0 <= i < profile.packages@.len() ==> spec_dependency_kind(
            #[trigger] profile.packages@[i].0.path@,
        ) == DependencyKind::Package
    &&& forall|i: int|
        0 <= i < profile.profiles@.len() ==> spec_dependency_kind(
            #[trigger] profile.profiles@[i].path@,
        ) == DependencyKind::Profile
}

/// Sorts the dependency at `path` by its file name.
pub fn dependency_kind(path: &str) -> (kind: DependencyKind)
    ensures
        kind == spec_dependency_kind(path@),
{
    let name = match path_file_name(path) {
        Some(name) => name,
        None => String::new(),
    };
    let chars = chars_of(name.as_str());
    let lower = ascii_lowercase(&chars);
    assert(lower@ == spec_ascii_lower(file_name_or_empty(path@)));
    if ends_with(&lower, &vec!['.', 'd', 'l', 'l']) {
        DependencyKind::Native
    } else if ends_with(&lower, &vec!['.', 'm', 'e', '3']) || ends_with(
        &lower,
        &vec!['.', 'm', 'e', '3', '.', 't', 'o', 'm', 'l'],
    ) || ends_with(&lower, &vec!['.', 'm', 'e', '3', '.', 'j', 's', 'o', 'n']) {
        DependencyKind::Profile
    } else {
        DependencyKind::Package
    }
}

impl ModProfileV2 {
    /// An empty profile: no game, no dependencies, no options.
    pub fn empty() -> (profile: ModProfileV2)
        ensures
            profile.supports is None,
            profile.natives@.len() == 0,
            profile.packages@.len() == 0,
            profile.profiles@.len() == 0,
            profile.savefile is None,
            profile.start_online is None,
            profile.disable_arxan is None,
    {
        ModProfileV2 {
            supports: None,
            natives: Vec::new(),
            packages: Vec::new(),
            profiles: Vec::new(),
            savefile: None,
            start_online: None,
            disable_arxan: None,
        }
    }

    /// Adds one dependency to the list that its file name sorts it into.
    pub fn push_dependency(&mut self, uses: ProfileDependency)
        ensures
            final(self).supports == old(self).supports,
            final(self).savefile == old(self).savefile,
            final(self).start_online == old(self).start_online,
            final(self).disable_arxan == old(self).disable_arxan,
            final(self).natives@ == (if kind_of(uses) == DependencyKind::Native {
                old(self).natives@.push(dep_to_native(uses))
            } else {
                old(self).natives@
            }),
            final(self).packages@ == (if kind_of(uses) == DependencyKind::Package {
                old(self).packages@.push(dep_to_package(uses))
            } else {
                old(self).packages@
            }),
            final(self).profiles@ == (if kind_of(uses) == DependencyKind::Profile {
                old(self).profiles@.push(uses.inner)
            } else {
                old(self).profiles@
            }),
    {
        let kind = dependency_kind(uses.inner.path.as_str());
        match kind {
            DependencyKind::Native => self.natives.push(Native::from(uses)),
            DependencyKind::Profile => self.profiles.push(Item::from(uses)),
            DependencyKind::Package => self.packages.push(Package::from(uses)),
        }
    }

    /// Reads a profile from its on-disk layout: the game table is copied and
    /// each dependency is sorted into natives, packages or nested profiles,
    /// keeping list order within each.
    pub fn from_layout(layout: ModProfileV2Layout) -> (profile: ModProfileV2)
        ensures
            profile.supports == layout.game.launch,
            profile.savefile == layout.game.savefile,
            profile.start_online == layout.game.start_online,
            profile.disable_arxan == layout.game.disable_arxan,
            profile.natives@ == natives_of(layout.dependencies@),
            profile.packages@ == packages_of(layout.dependencies@),
            profile.profiles@ == profiles_of(layout.dependencies@),
    {
        let ModProfileV2Layout { game, dependencies } = layout;
        let ghost all = dependencies@;
        let mut deps = dependencies;
        let mut profile = ModProfileV2::empty();
        profile.supports = game.launch;
        profile.savefile = game.savefile;
        profile.start_online = game.start_online;
        profile.disable_arxan = game.disable_arxan;
        assert(all.take(0) =~= Seq::<ProfileDependency>::empty());
        while deps.len() > 0
            invariant
                all.len() == deps@.len() + (all.len() - deps@.len()),
                deps@.len() <= all.len(),
                deps@ == all.skip(all.len() - deps@.len()),
                profile.supports == layout.game.launch,
                profile.savefile == layout.game.savefile,
                profile.start_online == layout.game.start_online,
                profile.disable_arxan == layout.game.disable_arxan,
                profile.natives@ == natives_of(all.take(all.len() - deps@.len())),
                profile.packages@ == packages_of(all.take(all.len() - deps@.len())),
                profile.profiles@ == profiles_of(all.take(all.len() - deps@.len())),
            decreases deps@.len(),
        {
            let ghost k = all.len() - deps@.len();
            let dep = deps.remove(0);
            assert(dep == all[k]);
            assert(all.take(k + 1).drop_last() =~= all.take(k));
            assert(deps@ =~= all.skip(k + 1));
            profile.push_dependency(dep);
        }
        assert(all.take(all.len() as int) =~= all);
        profile
    }
}

impl Default for ModProfileV2 {
    fn default() -> (profile: ModProfileV2)
        ensures
            profile.supports is None,
            profile.natives@.len() == 0,
            profile.packages@.len() == 0,
            profile.profiles@.len() == 0,
            profile.savefile is None,
            profile.start_online is None,
            profile.disable_arxan is None,
    {
        ModProfileV2::empty()
    }
}

impl ModProfileV2Layout {
    /// Writes a profile in its on-disk layout: the options go to the game
    /// table, and the dependency list holds the natives, then the packages,
    /// then the nested profiles.
    pub fn from_profile(profile: ModProfileV2) -> (layout: ModProfileV2Layout)
        ensures
            layout.game.launch == profile.supports,
            layout.game.savefile == profile.savefile,
            layout.game.start_online == profile.start_online,
            layout.game.disable_arxan == profile.disable_arxan,
            layout.dependencies@ == dependencies_of(profile),
    {
        let ghost p = profile;
        let ModProfileV2 {
            supports,
            natives,
            packages,
            profiles,
            savefile,
            start_online,
            disable_arxan,
        } = profile;
        let mut dependencies: Vec<ProfileDependency> = Vec::new();

        let mut natives = natives;
        let ghost ns = natives@;
        while natives.len() > 0
            invariant
                natives@.len() <= ns.len(),
                natives@ == ns.skip(ns.len() - natives@.len()),
                dependencies@ == ns.take(ns.len() - natives@.len()).map_values(
                    |n: Native| native_to_dep(n),
                ),
            decreases natives@.len(),
        {
            let ghost k = ns.len() - natives@.len();
            let n = natives.remove(0);
            assert(n == ns[k]);
            dependencies.push(ProfileDependency::from(n));
            assert(natives@ =~= ns.skip(k + 1));
            assert(dependencies@ =~= ns.take(k + 1).map_values(|n: Native| native_to_dep(n)));
        }
        assert(ns.take(ns.len() as int) =~= ns);
        let ghost after_natives = dependencies@;

        let mut packages = packages;
        let ghost ps = packages@;
        while packages.len() > 0
            invariant
                packages@.len() <= ps.len(),
                packages@ == ps.skip(ps.len() - packages@.len()),
                dependencies@ == after_natives + ps.take(ps.len() - packages@.len()).map_values(
                    |q: Package| package_to_dep(q),
                ),
            decreases packages@.len(),
        {
            let ghost k = ps.len() - packages@.len();
            let q = packages.remove(0);
            assert(q == ps[k]);
            dependencies.push(ProfileDependency::from(q));
            assert(packages@ =~= ps.skip(k + 1));
            assert(dependencies@ =~= after_natives + ps.take(k + 1).map_values(
                |q: Package| package_to_dep(q),
            ));
        }
        assert(ps.take(ps.len() as int) =~= ps);
        let ghost after_packages = dependencies@;

        let mut profiles = profiles;
        let ghost is = profiles@;
        while profiles.len() > 0
            invariant
                profiles@.len() <= is.len(),
                profiles@ == is.skip(is.len() - profiles@.len()),
                dependencies@ == after_packages + is.take(is.len() - profiles@.len()).map_values(
                    |i: Item| item_to_dep(i),
                ),
            decreases profiles@.len(),
        {
            let ghost k = is.len() - profiles@.len();
            let i = profiles.remove(0);
            assert(i == is[k]);
            dependencies.push(ProfileDependency::from(i));
            assert(profiles@ =~= is.skip(k + 1));
            assert(dependencies@ =~= after_packages + is.take(k + 1).map_values(
                |i: Item| item_to_dep(i),
            ));
        }
        assert(is.take(is.len() as int) =~= is);
        assert(dependencies@ =~= dependencies_of(p));

        ModProfileV2Layout {
            game: ProfileGame { launch: supports, savefile, start_online, disable_arxan },
            dependencies,
        }
    }
}

impl From<ProfileDependency> for Native {
    fn from(uses: ProfileDependency) -> (r: Native) {
        Native { inner: uses.inner, initializer: uses.initializer }
    }
}

impl vstd::std_specs::convert::FromSpecImpl<ProfileDependency> for Native {
    open spec fn obeys_from_spec() -> bool {
        true
    }

    open spec fn from_spec(uses: ProfileDependency) -> Native {
        dep_to_native(uses)
    }
}

impl From<Native> for ProfileDependency {
    fn from(native: Native) -> (r: ProfileDependency) {
        ProfileDependency { inner: native.inner, initializer: native.initializer }
    }
}

impl vstd::std_specs::convert::FromSpecImpl<Native> for ProfileDependency {
    open spec fn obeys_from_spec() -> bool {
        true
    }

    open spec fn from_spec(native: Native) -> ProfileDependency {
        native_to_dep(native)
    }
}

impl From<ProfileDependency> for Package {
    fn from(uses: ProfileDependency) -> (r: Package) {
        Package(uses.inner)
    }
}

impl vstd::std_specs::convert::FromSpecImpl<ProfileDependency> for Package {
    open spec fn obeys_from_spec() -> bool {
        true
    }

    open spec fn from_spec(uses: ProfileDependency) -> Package {
        dep_to_package(uses)
    }
}

impl From<Package> for ProfileDependency {
    fn from(package: Package) -> (r: ProfileDependency) {
        ProfileDependency { inner: package.0, initializer: None }
    }
}

impl vstd::std_specs::convert::FromSpecImpl<Package> for ProfileDependency {
    open spec fn obeys_from_spec() -> bool {
        true
    }

    open spec fn from_spec(package: Package) -> ProfileDependency {
        package_to_dep(package)
    }
}

impl From<ProfileDependency> for Item {
    fn from(uses: ProfileDependency) -> (r: Item) {
        uses.inner
    }
}

impl vstd::std_specs::convert::FromSpecImpl<ProfileDependency> for Item {
    open spec fn obeys_from_spec() -> bool {
        true
    }

    open spec fn from_spec(uses: ProfileDependency) -> Item {
        uses.inner
    }
}

impl From<Item> for ProfileDependency {
    fn from(item: Item) -> (r: ProfileDependency) {
        ProfileDependency { inner: item, initializer: None }
    }
}

impl vstd::std_specs::convert::FromSpecImpl<Item> for ProfileDependency {
    open spec fn obeys_from_spec() -> bool {
        true
    }

    open spec fn from_spec(item: Item) -> ProfileDependency {
        item_to_dep(item)
    }
}

proof fn lemma_concat_drop_last<A>(a: Seq<A>, b: Seq<A>)
    requires
        b.len() > 0,
    ensures
        (a + b).drop_last() == a + b.drop_last(),
        (a + b).last() == b.last(),
{
    assert((a + b).drop_last() =~= a + b.drop_last());
}

proof fn lemma_lists_of_concat(a: Seq<ProfileDependency>, b: Seq<ProfileDependency>)
    ensures
        natives_of(a + b) == natives_of(a) + natives_of(b),
        packages_of(a + b) == packages_of(a) + packages_of(b),
        profiles_of(a + b) == profiles_of(a) + profiles_of(b),
    decreases b.len(),
{
    if b.len() == 0 {
        assert(a + b =~= a);
        assert(natives_of(a) + natives_of(b) =~= natives_of(a));
        assert(packages_of(a) + packages_of(b) =~= packages_of(a));
        assert(profiles_of(a) + profiles_of(b) =~= profiles_of(a));
    } else {
        lemma_concat_drop_last(a, b);
        lemma_lists_of_concat(a, b.drop_last());
        assert(natives_of(a) + natives_of(b.drop_last()).push(dep_to_native(b.last()))
            =~= (natives_of(a) + natives_of(b.drop_last())).push(dep_to_native(b.last())));
        assert(packages_of(a) + packages_of(b.drop_last()).push(dep_to_package(b.last()))
            =~= (packages_of(a) + packages_of(b.drop_last())).push(dep_to_package(b.last())));
        assert(profiles_of(a) + profiles_of(b.drop_last()).push(b.last().inner)
            =~= (profiles_of(a) + profiles_of(b.drop_last())).push(b.last().inner));
    }
}

proof fn lemma_lists_of_uniform(deps: Seq<ProfileDependency>, kind: DependencyKind)
    requires
        forall|i: int| 0 <= i < deps.len() ==> kind_of(#[trigger] deps[i]) == kind,
    ensures
        kind != DependencyKind::Native ==> natives_of(deps).len() == 0,
        kind != DependencyKind::Package ==> packages_of(deps).len() == 0,
        kind != DependencyKind::Profile ==> profiles_of(deps).len() == 0,
        kind == DependencyKind::Native ==> natives_of(deps) == deps.map_values(
            |d: ProfileDependency| dep_to_native(d),
        ),
        kind == DependencyKind::Package ==> packages_of(deps) == deps.map_values(
            |d: ProfileDependency| dep_to_package(d),
        ),
        kind == DependencyKind::Profile ==> profiles_of(deps) == deps.map_values(
            |d: ProfileDependency| d.inner,
        ),
    decreases deps.len(),
{
    if deps.len() > 0 {
        let rest = deps.drop_last();
        assert(kind_of(deps[deps.len() - 1]) == kind);
        lemma_lists_of_uniform(rest, kind);
        assert(deps.map_values(|d: ProfileDependency| dep_to_native(d)) =~= rest.map_values(
            |d: ProfileDependency| dep_to_native(d),
        ).push(dep_to_native(deps.last())));
        assert(deps.map_values(|d: ProfileDependency| dep_to_package(d)) =~= rest.map_values(
            |d: ProfileDependency| dep_to_package(d),
        ).push(dep_to_package(deps.last())));
        assert(deps.map_values(|d: ProfileDependency| d.inner) =~= rest.map_values(
            |d: ProfileDependency| d.inner,
        ).push(deps.last().inner));
    }
}

/// Every dependency of a list lands in exactly one of the three lists, so
/// reading a profile loses and duplicates nothing.
pub proof fn law_dependencies_partitioned(deps: Seq<ProfileDependency>)
    ensures
        natives_of(deps).len() + packages_of(deps).len() + profiles_of(deps).len() == deps.len(),
    decreases deps.len(),
{
    if deps.len() > 0 {
        law_dependencies_partitioned(deps.drop_last());
    }
}

/// Writing a profile whose entries are each in the list that their file name
/// sorts them into, and reading it back, gives back the same natives (with
/// their initializers), packages and nested profiles, in the same order: by
/// the contracts of the two conversions, `ModProfileV2::from_layout` applied
/// to `ModProfileV2Layout::from_profile(p)` has these lists, and the game
/// table (supports, savefile, start_online, disable_arxan) is copied both
/// ways.
pub proof fn law_from_layout_of_from_profile(profile: ModProfileV2)
    requires
        is_well_sorted(profile),
    ensures
        natives_of(dependencies_of(profile)) == profile.natives@,
        packages_of(dependencies_of(profile)) == profile.packages@,
        profiles_of(dependencies_of(profile)) == profile.profiles@,
{
    let ns = profile.natives@.map_values(|n: Native| native_to_dep(n));
    let ps = profile.packages@.map_values(|p: Package| package_to_dep(p));
    let is = profile.profiles@.map_values(|i: Item| item_to_dep(i));
    assert(forall|i: int| 0 <= i < ns.len() ==> kind_of(#[trigger] ns[i]) == DependencyKind::Native) by {
        assert forall|i: int| 0 <= i < ns.len() implies kind_of(#[trigger] ns[i]) == DependencyKind::Native by {
            assert(ns[i].inner == profile.natives@[i].inner);
        }
    }
    assert(forall|i: int| 0 <= i < ps.len() ==> kind_of(#[trigger] ps[i]) == DependencyKind::Package) by {
        assert forall|i: int| 0 <= i < ps.len() implies kind_of(#[trigger] ps[i]) == DependencyKind::Package by {
            assert(ps[i].inner == profile.packages@[i].0);
        }
    }
    assert(forall|i: int| 0 <= i < is.len() ==> kind_of(#[trigger] is[i]) == DependencyKind::Profile) by {
        assert forall|i: int| 0 <= i < is.len() implies kind_of(#[trigger] is[i]) == DependencyKind::Profile by {
            assert(is[i].inner == profile.profiles@[i]);
        }
    }
    lemma_lists_of_uniform(ns, DependencyKind::Native);
    lemma_lists_of_uniform(ps, DependencyKind::Package);
    lemma_lists_of_uniform(is, DependencyKind::Profile);
    lemma_lists_of_concat(ns, ps);
    lemma_lists_of_concat(ns + ps, is);
    assert(ns.map_values(|d: ProfileDependency| dep_to_native(d)) =~= profile.natives@);
    assert(ps.map_values(|d: ProfileDependency| dep_to_package(d)) =~= profile.packages@);
    assert(is.map_values(|d: ProfileDependency| d.inner) =~= profile.profiles@);
    assert(natives_of(dependencies_of(profile)) =~= profile.natives@);
    assert(packages_of(dependencies_of(profile)) =~= profile.packages@);
    assert(profiles_of(dependencies_of(profile)) =~= profile.profiles@);
}

} // verus!
