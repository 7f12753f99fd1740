use vstd::prelude::*;
use vstd::string::StrSliceExecFns;

verus! {

/// Number of playable factions; every scenario holds one count per faction.
pub const NATION_COUNT: usize = 25;

/// The ways the scoring pipeline can refuse its input.
#[derive(Debug, Clone, Copy, PartialEq, Eq, Structural)]
pub enum ScoringError {
    /// A starting territory count outside the victory table.
    InvalidStartingCount,
    /// A name that is no alias of any faction.
    UnknownFaction,
    /// A scenario that does not hold exactly one usable count per faction.
    MalformedScenario,
    /// A scenario in which the scores cannot be normalized (nothing to divide by).
    DegenerateScenario,
}

/// The 25 factions, in the order in which scenario records list their counts.
#[derive(Debug, Clone, Copy, PartialEq, Eq, PartialOrd, Ord, Hash, Structural)]
pub enum Nation {
    Portugal,
    Spain,
    Netherlands,
    England,
    France,
    Ottoman,
    Russia,
    Poland,
    Inuit,
    Ming,
    Mughal,
    Qing,
    Safavid,
    UteShoshone,
    Abyssinia,
    Ajuuraan,
    Athapasca,
    Austria,
    Aymara,
    Ayutthaya,
    Kongo,
    Mali,
    Mapuche,
    Sweden,
    Tokugawa,
}

/// Victory threshold for a starting count, or `None` off the table.
pub open spec fn victory_threshold_spec(start: u64) -> Option<u64> {
    if start == 4 {
        Some(32)
    } else if start == 5 {
        Some(36)
    } else if start == 7 {
        Some(42)
    } else if start == 10 {
        Some(48)
    } else if start == 14 {
        Some(56)
    } else if start == 16 {
        Some(64)
    } else {
        None
    }
}

/// Looks up the territory count at which a faction with `starting_scs`
/// starting territories reaches victory.
pub fn starting_scs_to_vscc(starting_scs: u64) -> (r: Result<u64, ScoringError>)
    ensures
        victory_threshold_spec(starting_scs) matches Some(t) ==> r == Ok::<u64, ScoringError>(t),
        victory_threshold_spec(starting_scs) is None ==> r == Err::<u64, ScoringError>(
            ScoringError::InvalidStartingCount,
        ),
{
    match starting_scs {
        4 => Ok(32),
        5 => Ok(36),
        7 => Ok(42),
        10 => Ok(48),
        14 => Ok(56),
        16 => Ok(64),
        _ => Err(ScoringError::InvalidStartingCount),
    }
}

impl Nation {
    /// Position of the faction in scenario records.
    pub open spec fn index_spec(self) -> nat {
        match self {
            Nation::Portugal => 0,
            Nation::Spain => 1,
            Nation::Netherlands => 2,
            Nation::England => 3,
            Nation::France => 4,
            Nation::Ottoman => 5,
            Nation::Russia => 6,
            Nation::Poland => 7,
            Nation::Inuit => 8,
            Nation::Ming => 9,
            Nation::Mughal => 10,
            Nation::Qing => 11,
            Nation::Safavid => 12,
            Nation::UteShoshone => 13,
            Nation::Abyssinia => 14,
            Nation::Ajuuraan => 15,
            Nation::Athapasca => 16,
            Nation::Austria => 17,
            Nation::Aymara => 18,
            Nation::Ayutthaya => 19,
            Nation::Kongo => 20,
            Nation::Mali => 21,
            Nation::Mapuche => 22,
            Nation::Sweden => 23,
            Nation::Tokugawa => 24,
        }
    }

    /// Starting territory count of the faction.
    pub open spec fn start_spec(self) -> u64 {
        match self {
            Nation::Portugal | Nation::Spain => 16,
            Nation::Netherlands | Nation::England | Nation::France => 14,
            Nation::Ottoman | Nation::Russia => 10,
            Nation::Poland => 7,
            Nation::Inuit | Nation::Ming | Nation::Mughal | Nation::Qing | Nation::Safavid
            | Nation::UteShoshone => 5,
            _ => 4,
        }
    }

    /// Victory threshold of the faction: the table entry for its starting count.
    pub open spec fn threshold_spec(self) -> u64 {
        victory_threshold_spec(self.start_spec())->Some_0
    }

    /// Every faction's starting count is in the victory table.
    pub proof fn lemma_start_in_table(self)
        ensures
            victory_threshold_spec(self.start_spec()) is Some,
            self.start_spec() < self.threshold_spec(),
            4 <= self.start_spec() <= 16,
            32 <= self.threshold_spec() <= 64,
    {
    }

    /// Position of the faction in scenario records.
    pub fn index(&self) -> (r: usize)
        ensures
            r == self.index_spec(),
            r < NATION_COUNT,
    {
        match self {
            Nation::Portugal => 0,
            Nation::Spain => 1,
            Nation::Netherlands => 2,
            Nation::England => 3,
            Nation::France => 4,
            Nation::Ottoman => 5,
            Nation::Russia => 6,
            Nation::Poland => 7,
            Nation::Inuit => 8,
            Nation::Ming => 9,
            Nation::Mughal => 10,
            Nation::Qing => 11,
            Nation::Safavid => 12,
            Nation::UteShoshone => 13,
            Nation::Abyssinia => 14,
            Nation::Ajuuraan => 15,
            Nation::Athapasca => 16,
            Nation::Austria => 17,
            Nation::Aymara => 18,
            Nation::Ayutthaya => 19,
            Nation::Kongo => 20,
            Nation::Mali => 21,
            Nation::Mapuche => 22,
            Nation::Sweden => 23,
            Nation::Tokugawa => 24,
        }
    }

    /// The faction at position `i` of scenario records, if there is one.
    pub fn from_index(i: u8) -> (r: Option<Nation>)
        ensures
            r matches Some(n) ==> n.index_spec() == i,
            r is None <==> i as usize >= NATION_COUNT,
    {
        match i {
            0 => Some(Nation::Portugal),
            1 => Some(Nation::Spain),
            2 => Some(Nation::Netherlands),
            3 => Some(Nation::England),
            4 => Some(Nation::France),
            5 => Some(Nation::Ottoman),
            6 => Some(Nation::Russia),
            7 => Some(Nation::Poland),
            8 => Some(Nation::Inuit),
            9 => Some(Nation::Ming),
            10 => Some(Nation::Mughal),
            11 => Some(Nation::Qing),
            12 => Some(Nation::Safavid),
            13 => Some(Nation::UteShoshone),
            14 => Some(Nation::Abyssinia),
            15 => Some(Nation::Ajuuraan),
            16 => Some(Nation::Athapasca),
            17 => Some(Nation::Austria),
            18 => Some(Nation::Aymara),
            19 => Some(Nation::Ayutthaya),
            20 => Some(Nation::Kongo),
            21 => Some(Nation::Mali),
            22 => Some(Nation::Mapuche),
            23 => Some(Nation::Sweden),
            24 => Some(Nation::Tokugawa),
            _ => None,
        }
    }

    /// Starting territory count of the faction.
    pub fn starting_sc_count(&self) -> (r: u64)
        ensures
            r == self.start_spec(),
    {
        match self {
            Nation::Portugal => 16,
            Nation::Spain => 16,
            Nation::Netherlands => 14,
            Nation::England => 14,
            Nation::France => 14,
            Nation::Ottoman => 10,
            Nation::Russia => 10,
            Nation::Poland => 7,
            Nation::Inuit => 5,
            Nation::Ming => 5,
            Nation::Mughal => 5,
            Nation::Qing => 5,
            Nation::Safavid => 5,
            Nation::UteShoshone => 5,
            Nation::Abyssinia => 4,
            Nation::Ajuuraan => 4,
            Nation::Athapasca => 4,
            Nation::Austria => 4,
            Nation::Aymara => 4,
            Nation::Ayutthaya => 4,
            Nation::Kongo => 4,
            Nation::Mali => 4,
            Nation::Mapuche => 4,
            Nation::Sweden => 4,
            Nation::Tokugawa => 4,
        }
    }
}

} // verus!

verus! {

/// Does the character `c` equal the lowercase character `a` once ASCII
/// letters are folded to lowercase?
pub open spec fn char_folds_to(c: char, a: char) -> bool {
    c == a || ('A' <= c && c <= 'Z' && c as u32 + 32 == a as u32)
}

/// Does `s` equal the lowercase alias `alias`, ignoring ASCII case?
pub open spec fn folds_to(s: Seq<char>, alias: Seq<char>) -> bool {
    s.len() == alias.len() && forall|i: int| 0 <= i < s.len() ==> #[trigger] char_folds_to(s[i], alias[i])
}

/// Compares `s` with a lowercase alias, ignoring ASCII case.
fn matches_alias(s: &str, alias: &str) -> (r: bool)
    ensures
        r == folds_to(s@, alias@),
{
    let n = s.unicode_len();
    if n != alias.unicode_len() {
        return false;
    }
    let mut i: usize = 0;
    while i < n
        invariant
            n == s@.len(),
            n == alias@.len(),
            i <= n,
            forall|j: int| 0 <= j < i ==> #[trigger] char_folds_to(s@[j], alias@[j]),
        decreases n - i,
    {
        let c = s.get_char(i);
        let a = alias.get_char(i);
        if !(c == a || ('A' <= c && c <= 'Z' && c as u32 + 32 == a as u32)) {
            assert(!char_folds_to(s@[i as int], alias@[i as int]));
            return false;
        }
        i = i + 1;
    }
    true
}

/// The faction that `s` names, ignoring ASCII case, if any.
pub open spec fn alias_spec(s: Seq<char>) -> Option<Nation> {
    if folds_to(s, "portugal"@) || folds_to(s, "por"@) {
        Some(Nation::Portugal)
    } else if folds_to(s, "spain"@) {
        Some(Nation::Spain)
    } else if folds_to(s, "netherlands"@) || folds_to(s, "dutch"@) {
        Some(Nation::Netherlands)
    } else if folds_to(s, "england"@) || folds_to(s, "eng"@) {
        Some(Nation::England)
    } else if folds_to(s, "france"@) {
        Some(Nation::France)
    } else if folds_to(s, "ottoman"@) || folds_to(s, "ottomans"@) {
        Some(Nation::Ottoman)
    } else if folds_to(s, "russia"@) {
        Some(Nation::Russia)
    } else if folds_to(s, "poland"@) || folds_to(s, "poland-lithuania"@) {
        Some(Nation::Poland)
    } else if folds_to(s, "inuit"@) {
        Some(Nation::Inuit)
    } else if folds_to(s, "ming"@) {
        Some(Nation::Ming)
    } else if folds_to(s, "mughal"@) {
        Some(Nation::Mughal)
    } else if folds_to(s, "qing"@) {
        Some(Nation::Qing)
    } else if folds_to(s, "safavid"@) {
        Some(Nation::Safavid)
    } else if folds_to(s, "ute-shoshone"@) || folds_to(s, "ute"@) || folds_to(s, "shoshone"@) {
        Some(Nation::UteShoshone)
    } else if folds_to(s, "abyssinia"@) || folds_to(s, "aby"@) {
        Some(Nation::Abyssinia)
    } else if folds_to(s, "ajuuraan"@) || folds_to(s, "aju"@) {
        Some(Nation::Ajuuraan)
    } else if folds_to(s, "athapasca"@) || folds_to(s, "atha"@) {
        Some(Nation::Athapasca)
    } else if folds_to(s, "austria"@) {
        Some(Nation::Austria)
    } else if folds_to(s, "aymara"@) {
        Some(Nation::Aymara)
    } else if folds_to(s, "ayutthaya"@) || folds_to(s, "ayu"@) {
        Some(Nation::Ayutthaya)
    } else if folds_to(s, "kongo"@) {
        Some(Nation::Kongo)
    } else if folds_to(s, "mali"@) {
        Some(Nation::Mali)
    } else if folds_to(s, "mapuche"@) {
        Some(Nation::Mapuche)
    } else if folds_to(s, "sweden"@) {
        Some(Nation::Sweden)
    } else if folds_to(s, "tokugawa"@) || folds_to(s, "toku"@) {
        Some(Nation::Tokugawa)
    } else {
        None
    }
}

impl Nation {
    /// Resolves a faction from one of its aliases, ignoring ASCII case.
    pub fn try_from(s: &str) -> (r: Result<Nation, ScoringError>)
        ensures
            alias_spec(s@) matches Some(n) ==> r == Ok::<Nation, ScoringError>(n),
            alias_spec(s@) is None ==> r == Err::<Nation, ScoringError>(ScoringError::UnknownFaction),
    {
        if matches_alias(s, "portugal") || matches_alias(s, "por") {
            return Ok(Nation::Portugal);
        }
        if matches_alias(s, "spain") {
            return Ok(Nation::Spain);
        }
        if matches_alias(s, "netherlands") || matches_alias(s, "dutch") {
            return Ok(Nation::Netherlands);
        }
        if matches_alias(s, "england") || matches_alias(s, "eng") {
            return Ok(Nation::England);
        }
        if matches_alias(s, "france") {
            return Ok(Nation::France);
        }
        if matches_alias(s, "ottoman") || matches_alias(s, "ottomans") {
            return Ok(Nation::Ottoman);
        }
        if matches_alias(s, "russia") {
            return Ok(Nation::Russia);
        }
        if matches_alias(s, "poland") || matches_alias(s, "poland-lithuania") {
            return Ok(Nation::Poland);
        }
        if matches_alias(s, "inuit") {
            return Ok(Nation::Inuit);
        }
        if matches_alias(s, "ming") {
            return Ok(Nation::Ming);
        }
        if matches_alias(s, "mughal") {
            return Ok(Nation::Mughal);
        }
        if matches_alias(s, "qing") {
            return Ok(Nation::Qing);
        }
        if matches_alias(s, "safavid") {
            return Ok(Nation::Safavid);
        }
        if matches_alias(s, "ute-shoshone") || matches_alias(s, "ute") || matches_alias(s, "shoshone") {
            return Ok(Nation::UteShoshone);
        }
        if matches_alias(s, "abyssinia") || matches_alias(s, "aby") {
            return Ok(Nation::Abyssinia);
        }
        if matches_alias(s, "ajuuraan") || matches_alias(s, "aju") {
            return Ok(Nation::Ajuuraan);
        }
        if matches_alias(s, "athapasca") || matches_alias(s, "atha") {
            return Ok(Nation::Athapasca);
        }
        if matches_alias(s, "austria") {
            return Ok(Nation::Austria);
        }
        if matches_alias(s, "aymara") {
            return Ok(Nation::Aymara);
        }
        if matches_alias(s, "ayutthaya") || matches_alias(s, "ayu") {
            return Ok(Nation::Ayutthaya);
        }
        if matches_alias(s, "kongo") {
            return Ok(Nation::Kongo);
        }
        if matches_alias(s, "mali") {
            return Ok(Nation::Mali);
        }
        if matches_alias(s, "mapuche") {
            return Ok(Nation::Mapuche);
        }
        if matches_alias(s, "sweden") {
            return Ok(Nation::Sweden);
        }
        if matches_alias(s, "tokugawa") || matches_alias(s, "toku") {
            return Ok(Nation::Tokugawa);
        }
        Err(ScoringError::UnknownFaction)
    }

    /// Canonical display name of the faction.
    pub open spec fn name_spec(self) -> Seq<char> {
        match self {
            Nation::Portugal => "portugal"@,
            Nation::Spain => "spain"@,
            Nation::Netherlands => "netherlands"@,
            Nation::England => "england"@,
            Nation::France => "france"@,
            Nation::Ottoman => "ottoman"@,
            Nation::Russia => "russia"@,
            Nation::Poland => "poland"@,
            Nation::Inuit => "inuit"@,
            Nation::Ming => "ming"@,
            Nation::Mughal => "mughal"@,
            Nation::Qing => "qing"@,
            Nation::Safavid => "safavid"@,
            Nation::UteShoshone => "ute-shoshone"@,
            Nation::Abyssinia => "abyssinia"@,
            Nation::Ajuuraan => "ajuuraan"@,
            Nation::Athapasca => "athapasca"@,
            Nation::Austria => "austria"@,
            Nation::Aymara => "aymara"@,
            Nation::Ayutthaya => "ayutthaya"@,
            Nation::Kongo => "kongo"@,
            Nation::Mali => "mali"@,
            Nation::Mapuche => "mapuche"@,
            Nation::Sweden => "sweden"@,
            Nation::Tokugawa => "tokugawa"@,
        }
    }

    /// Canonical display name of the faction.
    pub fn name(&self) -> (r: &'static str)
        ensures
            r@ == self.name_spec(),
    {
        match self {
            Nation::Portugal => "portugal",
            Nation::Spain => "spain",
            Nation::Netherlands => "netherlands",
            Nation::England => "england",
            Nation::France => "france",
            Nation::Ottoman => "ottoman",
            Nation::Russia => "russia",
            Nation::Poland => "poland",
            Nation::Inuit => "inuit",
            Nation::Ming => "ming",
            Nation::Mughal => "mughal",
            Nation::Qing => "qing",
            Nation::Safavid => "safavid",
            Nation::UteShoshone => "ute-shoshone",
            Nation::Abyssinia => "abyssinia",
            Nation::Ajuuraan => "ajuuraan",
            Nation::Athapasca => "athapasca",
            Nation::Austria => "austria",
            Nation::Aymara => "aymara",
            Nation::Ayutthaya => "ayutthaya",
            Nation::Kongo => "kongo",
            Nation::Mali => "mali",
            Nation::Mapuche => "mapuche",
            Nation::Sweden => "sweden",
            Nation::Tokugawa => "tokugawa",
        }
    }
}

} // verus!
