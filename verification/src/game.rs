//! The supported games and the per-game decisions the mod host makes.
use vstd::prelude::*;

verus! {

/// The games that a mod profile can target, in release order.
#[derive(Clone, Copy, Debug, PartialEq, Eq, Structural)]
pub enum Game {
    DarkSouls3,
    Sekiro,
    EldenRing,
    ArmoredCore6,
    Nightreign,
}

impl Game {
    /// Position of the game in release order.
    pub open spec fn spec_rank(self) -> nat {
        match self {
            Game::DarkSouls3 => 0,
            Game::Sekiro => 1,
            Game::EldenRing => 2,
            Game::ArmoredCore6 => 3,
            Game::Nightreign => 4,
        }
    }

    /// Position of the game in release order; games compare by it.
    pub fn rank(self) -> (r: u8)
        ensures
            r == self.spec_rank(),
    {
        match self {
            Game::DarkSouls3 => 0,
            Game::Sekiro => 1,
            Game::EldenRing => 2,
            Game::ArmoredCore6 => 3,
            Game::Nightreign => 4,
        }
    }

    /// Whether the game was released before `other`.
    pub fn is_before(self, other: Game) -> (r: bool)
        ensures
            r == (self.spec_rank() < other.spec_rank()),
    {
        self.rank() < other.rank()
    }

    /// Games from Elden Ring on load sound banks through Wwise, whose file
    /// resolver needs a hook of its own.
    pub fn has_wwise(self) -> (r: bool)
        ensures
            r == !(self.spec_rank() < Game::EldenRing.spec_rank()),
    {
        !self.is_before(Game::EldenRing)
    }

    /// Dark Souls 3 was built with the MSVC 2012 container layouts; the other
    /// games use the later ones.
    pub fn uses_msvc2012_layout(self) -> (r: bool)
        ensures
            r == (self == Game::DarkSouls3),
    {
        self == Game::DarkSouls3
    }

    /// Games whose DLC archives are mounted after start-up, after a licence
    /// check, and so need the DLC mount hook.
    pub fn has_dlc_mounts(self) -> (r: bool)
        ensures
            r == (self == Game::DarkSouls3 || self == Game::EldenRing || self == Game::Nightreign),
    {
        self == Game::DarkSouls3 || self == Game::EldenRing || self == Game::Nightreign
    }

    /// Games before Armored Core 6 read their boolean game properties through
    /// a getter that the host hooks to apply property overrides.
    pub fn overrides_bool_properties(self) -> (r: bool)
        ensures
            r == (self.spec_rank() < Game::ArmoredCore6.spec_rank()),
    {
        self.is_before(Game::ArmoredCore6)
    }

    /// Dark Souls 3 mods may ship "loose" param files in place of the
    /// regulation file; only that game honours them.
    pub fn supports_loose_params(self) -> (r: bool)
        ensures
            r == (self == Game::DarkSouls3),
    {
        self == Game::DarkSouls3
    }
}

/// The virtual paths of the regulation params that Dark Souls 3 mods may
/// ship as loose files; overriding any of them turns the regulation file off.
pub fn loose_param_files() -> (r: Vec<&'static str>)
    ensures
        r@.len() == 3,
        r@[0]@ == "data1:/param/gameparam/gameparam.parambnd.dcx"@,
        r@[1]@ == "data1:/param/gameparam/gameparam_dlc1.parambnd.dcx"@,
        r@[2]@ == "data1:/param/gameparam/gameparam_dlc2.parambnd.dcx"@,
{
    let mut r: Vec<&'static str> = Vec::new();
    r.push("data1:/param/gameparam/gameparam.parambnd.dcx");
    r.push("data1:/param/gameparam/gameparam_dlc1.parambnd.dcx");
    r.push("data1:/param/gameparam/gameparam_dlc2.parambnd.dcx");
    r
}

/// The game property that the loose param files replace.
pub fn regulation_file_property() -> (r: &'static str)
    ensures
        r@ == "Game.Debug.EnableRegulationFile"@,
{
    "Game.Debug.EnableRegulationFile"
}

/// Whether the host should try to neutralize Arxan code protection: when the
/// launch configuration asks for it, and always for Dark Souls 3.
pub fn should_disable_arxan(disable_arxan: bool, game: Game) -> (r: bool)
    ensures
        r == (disable_arxan || game == Game::DarkSouls3),
{
    disable_arxan || game == Game::DarkSouls3
}

} // verus!
