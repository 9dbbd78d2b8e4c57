//! Cities, their governors and markets, and the clans that rule them.

use std::collections::HashMap;
use vstd::prelude::*;
use crate::equipment::ItemMaterial;
use crate::editor::same_text;

verus! {

broadcast use vstd::std_specs::hash::group_hash_axioms;

/// A sum of coins.
#[derive(Clone, Copy, Debug, PartialEq, Eq, Structural)]
pub struct Money(pub u64);

/// How freely goods move between two clans' lands.
#[derive(Clone, Copy, Debug, PartialEq, Eq, Structural)]
pub enum TradeAccess {
    Open,
    Taxed,
    Blockaded,
}

/// The size class of a settlement.
#[derive(Clone, Copy, Debug, PartialEq, Eq, Structural)]
pub enum SettlementTier {
    Hamlet,
    Village,
    Town,
    CastleTown,
    GreatCity,
}

impl SettlementTier {
    /// The tier's display name.
    pub fn label(self) -> (r: &'static str)
        ensures
            r@ == match self {
                SettlementTier::Hamlet => "Hamlet"@,
                SettlementTier::Village => "Village"@,
                SettlementTier::Town => "Town"@,
                SettlementTier::CastleTown => "Castle Town"@,
                SettlementTier::GreatCity => "Great City"@,
            },
    {
        match self {
            SettlementTier::Hamlet => "Hamlet",
            SettlementTier::Village => "Village",
            SettlementTier::Town => "Town",
            SettlementTier::CastleTown => "Castle Town",
            SettlementTier::GreatCity => "Great City",
        }
    }
}

/// Who governs a city.
#[derive(Clone, Copy, Debug, PartialEq, Eq, Structural)]
pub enum GovernanceType {
    ClanEstate,
    TempleDomain,
    ShogunateSeat,
}

impl GovernanceType {
    /// The governance's display name.
    pub fn label(self) -> (r: &'static str)
        ensures
            r@ == match self {
                GovernanceType::ClanEstate => "Clan Estate"@,
                GovernanceType::TempleDomain => "Temple Domain"@,
                GovernanceType::ShogunateSeat => "Shogunate Seat"@,
            },
    {
        match self {
            GovernanceType::ClanEstate => "Clan Estate",
            GovernanceType::TempleDomain => "Temple Domain",
            GovernanceType::ShogunateSeat => "Shogunate Seat",
        }
    }
}

/// The state of a city's government.
#[derive(Clone, Copy, Debug, PartialEq, Eq, Structural)]
pub enum CityAuthorityState {
    Stable,
    /// Stored as `UnderSiege` in data files.
    LegacyUnderSiege,
    Interregnum,
    SuccessorInstalled,
    MartialLaw,
    CollapsedAuthority,
}

impl CityAuthorityState {
    /// The state's display name.
    pub fn label(self) -> (r: &'static str)
        ensures
            r@ == match self {
                CityAuthorityState::Stable => "Stable"@,
                CityAuthorityState::LegacyUnderSiege => "Under Siege (Legacy)"@,
                CityAuthorityState::Interregnum => "Interregnum"@,
                CityAuthorityState::SuccessorInstalled => "Successor Installed"@,
                CityAuthorityState::MartialLaw => "Martial Law"@,
                CityAuthorityState::CollapsedAuthority => "Collapsed Authority"@,
            },
    {
        match self {
            CityAuthorityState::Stable => "Stable",
            CityAuthorityState::LegacyUnderSiege => "Under Siege (Legacy)",
            CityAuthorityState::Interregnum => "Interregnum",
            CityAuthorityState::SuccessorInstalled => "Successor Installed",
            CityAuthorityState::MartialLaw => "Martial Law",
            CityAuthorityState::CollapsedAuthority => "Collapsed Authority",
        }
    }
}

impl Default for CityAuthorityState {
    /// A city starts out stable.
    fn default() -> (r: Self)
        ensures
            r == CityAuthorityState::Stable,
    {
        CityAuthorityState::Stable
    }
}

/// Where a new governor may come from.
#[derive(Clone, Copy, Debug, PartialEq, Eq, Structural)]
pub enum SuccessionSource {
    NamedHeir,
    ClanElder,
    OverlordAppointee,
    TempleRegent,
    MilitaryCommander,
}

/// Someone who could take over a city; `legitimacy` runs from 0 to 1000.
#[derive(Clone, Debug)]
pub struct SuccessorCandidate {
    pub id: u32,
    pub name: String,
    pub title: String,
    pub clan_name: String,
    pub legitimacy: u16,
    pub alive: bool,
}

/// How a city picks its next governor.
#[derive(Clone, Debug)]
pub struct SuccessionRule {
    pub source_order: Vec<SuccessionSource>,
    pub interregnum_ticks: u16,
    pub leadership_immunity_ticks: u16,
}

/// The customary order of succession: heir, elder, overlord's appointee,
/// temple regent, military commander.
pub open spec fn spec_succession_order() -> Seq<SuccessionSource> {
    seq![
        SuccessionSource::NamedHeir,
        SuccessionSource::ClanElder,
        SuccessionSource::OverlordAppointee,
        SuccessionSource::TempleRegent,
        SuccessionSource::MilitaryCommander,
    ]
}

/// The customary order of succession.
pub fn default_succession_order() -> (r: Vec<SuccessionSource>)
    ensures
        r@ == spec_succession_order(),
{
    let r = vec![
        SuccessionSource::NamedHeir,
        SuccessionSource::ClanElder,
        SuccessionSource::OverlordAppointee,
        SuccessionSource::TempleRegent,
        SuccessionSource::MilitaryCommander,
    ];
    proof {
        assert(r@ =~= spec_succession_order());
    }
    r
}

/// Ticks a city goes without a governor before a successor is installed.
pub fn default_interregnum_ticks() -> (r: u16)
    ensures
        r == 8,
{
    8
}

/// Ticks a newly installed governor is safe from another crisis.
pub fn default_leadership_immunity_ticks() -> (r: u16)
    ensures
        r == 6,
{
    6
}

/// The customary succession rule.
pub open spec fn is_default_rule(r: SuccessionRule) -> bool {
    &&& r.source_order@ == spec_succession_order()
    &&& r.interregnum_ticks == 8
    &&& r.leadership_immunity_ticks == 6
}

impl Default for SuccessionRule {
    /// The customary order of succession, 8 ticks of interregnum, 6 of
    /// immunity.
    fn default() -> (r: Self)
        ensures
            is_default_rule(r),
    {
        SuccessionRule {
            source_order: default_succession_order(),
            interregnum_ticks: default_interregnum_ticks(),
            leadership_immunity_ticks: default_leadership_immunity_ticks(),
        }
    }
}

/// The state of a city's government; pressures in basis points.
#[derive(Clone, Debug)]
pub struct CityAuthorityData {
    pub state: CityAuthorityState,
    pub under_siege: bool,
    pub siege_pressure_bps: u16,
    pub succession_crisis_level: u8,
    pub governor_deaths_total: u16,
    pub leadership_immunity_remaining_ticks: u16,
    pub current_governor_alive: bool,
    pub active_successor: Option<SuccessorCandidate>,
    pub successor_candidates: Vec<SuccessorCandidate>,
    pub succession_rule: SuccessionRule,
}

/// A stable, peaceful government with a living governor, waiting on the
/// given successors.
pub open spec fn is_calm_authority(a: CityAuthorityData) -> bool {
    &&& a.state == CityAuthorityState::Stable
    &&& !a.under_siege
    &&& a.siege_pressure_bps == 0
    &&& a.succession_crisis_level == 0
    &&& a.governor_deaths_total == 0
    &&& a.leadership_immunity_remaining_ticks == 0
    &&& a.current_governor_alive
    &&& a.active_successor is None
    &&& is_default_rule(a.succession_rule)
}

impl Default for CityAuthorityData {
    /// A calm government with no successors lined up.
    fn default() -> (r: Self)
        ensures
            is_calm_authority(r),
            r.successor_candidates@.len() == 0,
    {
        CityAuthorityData {
            state: CityAuthorityState::Stable,
            under_siege: false,
            siege_pressure_bps: 0,
            succession_crisis_level: 0,
            governor_deaths_total: 0,
            leadership_immunity_remaining_ticks: 0,
            current_governor_alive: true,
            active_successor: None,
            successor_candidates: Vec::new(),
            succession_rule: SuccessionRule::default(),
        }
    }
}

/// A passing shift in a material's market.
#[derive(Clone, Debug)]
pub struct MaterialMarketEffect {
    pub material: ItemMaterial,
    pub supply_delta: i16,
    pub demand_delta: i16,
    pub remaining_ticks: u16,
    pub reason: String,
}

/// A passing shift in an item's market.
#[derive(Clone, Debug)]
pub struct ItemMarketEffect {
    pub item_id: u16,
    pub supply_delta: i16,
    pub demand_delta: i16,
    pub remaining_ticks: u16,
    pub reason: String,
}

/// A governor's standing orders, in basis points.
#[derive(Clone, Debug)]
pub struct GovernorPolicy {
    pub import_tariff_bps: u16,
    pub market_subsidy_bps: u16,
    pub war_levy_bps: u16,
    pub rationing_bps: u16,
    pub export_ban_materials: Vec<ItemMaterial>,
}

impl Default for GovernorPolicy {
    /// No tariff, subsidy, levy, rationing or export ban.
    fn default() -> (r: Self)
        ensures
            r.import_tariff_bps == 0,
            r.market_subsidy_bps == 0,
            r.war_levy_bps == 0,
            r.rationing_bps == 0,
            r.export_ban_materials@.len() == 0,
    {
        GovernorPolicy {
            import_tariff_bps: 0,
            market_subsidy_bps: 0,
            war_levy_bps: 0,
            rationing_bps: 0,
            export_ban_materials: Vec::new(),
        }
    }
}

/// A city. `prosperity`, `security` and `stability` run from 0 to 1000;
/// rates are in basis points. The material tables pair a material with an
/// amount.
#[derive(Clone, Debug)]
pub struct City {
    pub id: u16,
    pub name: String,
    pub settlement_tier: SettlementTier,
    pub governance_type: GovernanceType,
    pub governor_name: String,
    pub governor_title: String,
    pub clan_name: String,
    pub overlord_clan_name: Option<String>,
    pub region_ids: Vec<u16>,
    pub trade_route_city_ids: Vec<u16>,
    pub trade_distance_by_city_id: HashMap<u16, u16>,
    pub population: u32,
    pub prosperity: u16,
    pub security: u16,
    pub stability: u16,
    pub tax_rate_bps: u16,
    pub treasury_coins: Money,
    pub garrison_strength: u16,
    pub primary_material_outputs: Vec<(ItemMaterial, u16)>,
    pub crafted_item_outputs: HashMap<u16, u16>,
    pub import_material_priority: Vec<(ItemMaterial, u16)>,
    pub material_stockpile: Vec<(ItemMaterial, u32)>,
    pub market_fee_bps: u16,
    pub unrest_risk_bps: u16,
    pub governor_policy: GovernorPolicy,
    pub authority: CityAuthorityData,
    pub notable_landmarks: Vec<String>,
    pub active_material_market_effects: Vec<MaterialMarketEffect>,
    pub active_item_market_effects: Vec<ItemMarketEffect>,
}

/// A successor candidate with the given particulars, alive.
pub open spec fn is_candidate(
    c: SuccessorCandidate,
    id: u32,
    name: Seq<char>,
    title: Seq<char>,
    clan: Seq<char>,
    legitimacy: u16,
) -> bool {
    &&& c.id == id
    &&& c.name@ == name
    &&& c.title@ == title
    &&& c.clan_name@ == clan
    &&& c.legitimacy == legitimacy
    &&& c.alive
}

/// The built-in village of Greenford, a Mizuno estate under Takeda.
pub open spec fn is_greenford(c: City) -> bool {
    &&& c.id == 100
    &&& c.name@ == "Greenford"@
    &&& c.settlement_tier == SettlementTier::Village
    &&& c.governance_type == GovernanceType::ClanEstate
    &&& c.governor_name@ == "Mizuno Aoi"@
    &&& c.governor_title@ == "Jito"@
    &&& c.clan_name@ == "Mizuno"@
    &&& c.overlord_clan_name is Some
    &&& c.overlord_clan_name->0@ == "Takeda"@
    &&& c.region_ids@ == seq![0u16]
    &&& c.trade_route_city_ids@ == seq![200u16]
    &&& c.trade_distance_by_city_id@ == map![200u16 => 320u16]
    &&& c.population == 2400
    &&& c.prosperity == 540
    &&& c.security == 620
    &&& c.stability == 710
    &&& c.tax_rate_bps == 850
    &&& c.treasury_coins == Money(180000)
    &&& c.garrison_strength == 160
    &&& c.primary_material_outputs@ == seq![(ItemMaterial::OakWood, 140u16), (ItemMaterial::Leather, 90u16)]
    &&& c.crafted_item_outputs@ == map![5003u16 => 30u16, 5005u16 => 18u16]
    &&& c.import_material_priority@ == seq![(ItemMaterial::SilverSteelIngot, 100u16), (ItemMaterial::CrystalDust, 120u16)]
    &&& c.material_stockpile@ == seq![(ItemMaterial::OakWood, 4800u32), (ItemMaterial::Leather, 3100u32)]
    &&& c.market_fee_bps == 180
    &&& c.unrest_risk_bps == 120
    &&& c.governor_policy.import_tariff_bps == 60
    &&& c.governor_policy.market_subsidy_bps == 0
    &&& c.governor_policy.war_levy_bps == 0
    &&& c.governor_policy.rationing_bps == 0
    &&& c.governor_policy.export_ban_materials@.len() == 0
    &&& is_calm_authority(c.authority)
    &&& c.authority.successor_candidates@.len() == 2
    &&& is_candidate(c.authority.successor_candidates@[0], 1001, "Mizuno Kenta"@, "Heir Steward"@, "Mizuno"@, 820)
    &&& is_candidate(c.authority.successor_candidates@[1], 1002, "Sayo of the Reed Shrine"@, "Temple Regent"@, "Mizuno"@, 620)
    &&& c.notable_landmarks@.len() == 2
    &&& c.notable_landmarks@[0]@ == "Moon-Reed Rice Terraces"@
    &&& c.notable_landmarks@[1]@ == "Shrine of the Wind Bell"@
    &&& c.active_material_market_effects@.len() == 0
    &&& c.active_item_market_effects@.len() == 0
}

/// The built-in castle town of Ironpass, seat of the Takeda.
pub open spec fn is_ironpass(c: City) -> bool {
    &&& c.id == 200
    &&& c.name@ == "Ironpass"@
    &&& c.settlement_tier == SettlementTier::CastleTown
    &&& c.governance_type == GovernanceType::ShogunateSeat
    &&& c.governor_name@ == "Takeda Ren"@
    &&& c.governor_title@ == "Daimyo"@
    &&& c.clan_name@ == "Takeda"@
    &&& c.overlord_clan_name is None
    &&& c.region_ids@ == seq![1u16]
    &&& c.trade_route_city_ids@ == seq![100u16]
    &&& c.trade_distance_by_city_id@ == map![100u16 => 320u16]
    &&& c.population == 11500
    &&& c.prosperity == 760
    &&& c.security == 790
    &&& c.stability == 680
    &&& c.tax_rate_bps == 1120
    &&& c.treasury_coins == Money(640000)
    &&& c.garrison_strength == 510
    &&& c.primary_material_outputs@ == seq![(ItemMaterial::SilverSteelIngot, 170u16), (ItemMaterial::CrystalDust, 140u16)]
    &&& c.crafted_item_outputs@ == map![5001u16 => 42u16, 5004u16 => 36u16]
    &&& c.import_material_priority@ == seq![(ItemMaterial::OakWood, 110u16), (ItemMaterial::Cloth, 90u16)]
    &&& c.material_stockpile@ == seq![(ItemMaterial::SilverSteelIngot, 7200u32), (ItemMaterial::CrystalDust, 5600u32)]
    &&& c.market_fee_bps == 260
    &&& c.unrest_risk_bps == 180
    &&& c.governor_policy.import_tariff_bps == 140
    &&& c.governor_policy.market_subsidy_bps == 0
    &&& c.governor_policy.war_levy_bps == 90
    &&& c.governor_policy.rationing_bps == 80
    &&& c.governor_policy.export_ban_materials@ == seq![ItemMaterial::SilverSteelIngot]
    &&& is_calm_authority(c.authority)
    &&& c.authority.successor_candidates@.len() == 2
    &&& is_candidate(c.authority.successor_candidates@[0], 2001, "Takeda Masaru"@, "Karo"@, "Takeda"@, 880)
    &&& is_candidate(c.authority.successor_candidates@[1], 2002, "Hoshina Reiko"@, "Castle Castellan"@, "Takeda"@, 700)
    &&& c.notable_landmarks@.len() == 2
    &&& c.notable_landmarks@[0]@ == "Kurogane Gate Keep"@
    &&& c.notable_landmarks@[1]@ == "Foundry of Five Fires"@
    &&& c.active_material_market_effects@.len() == 0
    &&& c.active_item_market_effects@.len() == 0
}

/// The built-in cities, by id: Greenford (100) and Ironpass (200).
pub open spec fn is_default_city_map(m: Map<u16, City>) -> bool {
    &&& m.dom() == set![100u16, 200u16]
    &&& is_greenford(m[100])
    &&& is_ironpass(m[200])
}

fn successor(id: u32, name: &str, title: &str, clan: &str, legitimacy: u16) -> (r: SuccessorCandidate)
    ensures
        is_candidate(r, id, name@, title@, clan@, legitimacy),
{
    SuccessorCandidate {
        id,
        name: String::from_str(name),
        title: String::from_str(title),
        clan_name: String::from_str(clan),
        legitimacy,
        alive: true,
    }
}

fn calm_authority(successor_candidates: Vec<SuccessorCandidate>) -> (r: CityAuthorityData)
    ensures
        is_calm_authority(r),
        r.successor_candidates == successor_candidates,
{
    CityAuthorityData {
        state: CityAuthorityState::Stable,
        under_siege: false,
        siege_pressure_bps: 0,
        succession_crisis_level: 0,
        governor_deaths_total: 0,
        leadership_immunity_remaining_ticks: 0,
        current_governor_alive: true,
        active_successor: None,
        successor_candidates,
        succession_rule: SuccessionRule::default(),
    }
}

fn greenford() -> (c: City)
    ensures
        is_greenford(c),
{
    let mut distances: HashMap<u16, u16> = HashMap::new();
    distances.insert(200, 320);
    let mut crafted: HashMap<u16, u16> = HashMap::new();
    crafted.insert(5003, 30);
    crafted.insert(5005, 18);
    let successors = vec![
        successor(1001, "Mizuno Kenta", "Heir Steward", "Mizuno", 820),
        successor(1002, "Sayo of the Reed Shrine", "Temple Regent", "Mizuno", 620),
    ];
    let landmarks = vec![
        String::from_str("Moon-Reed Rice Terraces"),
        String::from_str("Shrine of the Wind Bell"),
    ];
    let c = City {
        id: 100,
        name: String::from_str("Greenford"),
        settlement_tier: SettlementTier::Village,
        governance_type: GovernanceType::ClanEstate,
        governor_name: String::from_str("Mizuno Aoi"),
        governor_title: String::from_str("Jito"),
        clan_name: String::from_str("Mizuno"),
        overlord_clan_name: Some(String::from_str("Takeda")),
        region_ids: vec![0],
        trade_route_city_ids: vec![200],
        trade_distance_by_city_id: distances,
        population: 2400,
        prosperity: 540,
        security: 620,
        stability: 710,
        tax_rate_bps: 850,
        treasury_coins: Money(180000),
        garrison_strength: 160,
        primary_material_outputs: vec![(ItemMaterial::OakWood, 140), (ItemMaterial::Leather, 90)],
        crafted_item_outputs: crafted,
        import_material_priority: vec![(ItemMaterial::SilverSteelIngot, 100), (ItemMaterial::CrystalDust, 120)],
        material_stockpile: vec![(ItemMaterial::OakWood, 4800), (ItemMaterial::Leather, 3100)],
        market_fee_bps: 180,
        unrest_risk_bps: 120,
        governor_policy: GovernorPolicy {
            import_tariff_bps: 60,
            market_subsidy_bps: 0,
            war_levy_bps: 0,
            rationing_bps: 0,
            export_ban_materials: Vec::new(),
        },
        authority: calm_authority(successors),
        notable_landmarks: landmarks,
        active_material_market_effects: Vec::new(),
        active_item_market_effects: Vec::new(),
    };
    proof {
        assert(c.trade_distance_by_city_id@ =~= map![200u16 => 320u16]);
        assert(c.crafted_item_outputs@ =~= map![5003u16 => 30u16, 5005u16 => 18u16]);
        assert(c.region_ids@ =~= seq![0u16]);
        assert(c.trade_route_city_ids@ =~= seq![200u16]);
        assert(c.primary_material_outputs@ =~= seq![(ItemMaterial::OakWood, 140u16), (ItemMaterial::Leather, 90u16)]);
        assert(c.import_material_priority@ =~= seq![(ItemMaterial::SilverSteelIngot, 100u16), (ItemMaterial::CrystalDust, 120u16)]);
        assert(c.material_stockpile@ =~= seq![(ItemMaterial::OakWood, 4800u32), (ItemMaterial::Leather, 3100u32)]);
    }
    c
}

fn ironpass() -> (c: City)
    ensures
        is_ironpass(c),
{
    let mut distances: HashMap<u16, u16> = HashMap::new();
    distances.insert(100, 320);
    let mut crafted: HashMap<u16, u16> = HashMap::new();
    crafted.insert(5001, 42);
    crafted.insert(5004, 36);
    let successors = vec![
        successor(2001, "Takeda Masaru", "Karo", "Takeda", 880),
        successor(2002, "Hoshina Reiko", "Castle Castellan", "Takeda", 700),
    ];
    let landmarks = vec![
        String::from_str("Kurogane Gate Keep"),
        String::from_str("Foundry of Five Fires"),
    ];
    let c = City {
        id: 200,
        name: String::from_str("Ironpass"),
        settlement_tier: SettlementTier::CastleTown,
        governance_type: GovernanceType::ShogunateSeat,
        governor_name: String::from_str("Takeda Ren"),
        governor_title: String::from_str("Daimyo"),
        clan_name: String::from_str("Takeda"),
        overlord_clan_name: None,
        region_ids: vec![1],
        trade_route_city_ids: vec![100],
        trade_distance_by_city_id: distances,
        population: 11500,
        prosperity: 760,
        security: 790,
        stability: 680,
        tax_rate_bps: 1120,
        treasury_coins: Money(640000),
        garrison_strength: 510,
        primary_material_outputs: vec![(ItemMaterial::SilverSteelIngot, 170), (ItemMaterial::CrystalDust, 140)],
        crafted_item_outputs: crafted,
        import_material_priority: vec![(ItemMaterial::OakWood, 110), (ItemMaterial::Cloth, 90)],
        material_stockpile: vec![(ItemMaterial::SilverSteelIngot, 7200), (ItemMaterial::CrystalDust, 5600)],
        market_fee_bps: 260,
        unrest_risk_bps: 180,
        governor_policy: GovernorPolicy {
            import_tariff_bps: 140,
            market_subsidy_bps: 0,
            war_levy_bps: 90,
            rationing_bps: 80,
            export_ban_materials: vec![ItemMaterial::SilverSteelIngot],
        },
        authority: calm_authority(successors),
        notable_landmarks: landmarks,
        active_material_market_effects: Vec::new(),
        active_item_market_effects: Vec::new(),
    };
    proof {
        assert(c.trade_distance_by_city_id@ =~= map![100u16 => 320u16]);
        assert(c.crafted_item_outputs@ =~= map![5001u16 => 42u16, 5004u16 => 36u16]);
        assert(c.region_ids@ =~= seq![1u16]);
        assert(c.trade_route_city_ids@ =~= seq![100u16]);
        assert(c.primary_material_outputs@ =~= seq![(ItemMaterial::SilverSteelIngot, 170u16), (ItemMaterial::CrystalDust, 140u16)]);
        assert(c.import_material_priority@ =~= seq![(ItemMaterial::OakWood, 110u16), (ItemMaterial::Cloth, 90u16)]);
        assert(c.material_stockpile@ =~= seq![(ItemMaterial::SilverSteelIngot, 7200u32), (ItemMaterial::CrystalDust, 5600u32)]);
        assert(c.governor_policy.export_ban_materials@ =~= seq![ItemMaterial::SilverSteelIngot]);
    }
    c
}

/// The built-in cities, used when no city data could be loaded.
pub fn seed_default_cities() -> (r: HashMap<u16, City>)
    ensures
        is_default_city_map(r@),
{
    let mut cities: HashMap<u16, City> = HashMap::new();
    cities.insert(100, greenford());
    cities.insert(200, ironpass());
    proof {
        assert(cities@.dom() =~= set![100u16, 200u16]);
    }
    cities
}

/// The cities of the world, by id.
#[derive(Clone, Debug)]
pub struct CityCatalog(pub HashMap<u16, City>);

/// Cities keyed by id, each id taking the last city listed with it.
pub open spec fn cities_by_id(s: Seq<City>) -> Map<u16, City>
    decreases s.len(),
{
    if s.len() == 0 {
        Map::empty()
    } else {
        cities_by_id(s.drop_last()).insert(s.last().id, s.last())
    }
}

impl CityCatalog {
    /// The catalog from the cities a data file listed: keyed by id, a later
    /// city replacing an earlier one with the same id. Where no file could be
    /// read (`None`) or it listed no city, the built-in cities.
    pub fn from_loaded(loaded: Option<Vec<City>>) -> (r: CityCatalog)
        ensures
            match loaded {
                Some(v) if v@.len() > 0 => r.0@ == cities_by_id(v@),
                _ => is_default_city_map(r.0@),
            },
    {
        match loaded {
            Some(mut v) => {
                if v.len() == 0 {
                    return CityCatalog(seed_default_cities());
                }
                let ghost all = v@;
                let mut cities: HashMap<u16, City> = HashMap::new();
                let mut k: usize = 0;
                let n = v.len();
                while v.len() > 0
                    invariant
                        n == all.len(),
                        k + v@.len() == n,
                        v@ == all.subrange(k as int, n as int),
                        cities@ == cities_by_id(all.subrange(0, k as int)),
                    decreases v@.len(),
                {
                    let city = v.remove(0);
                    proof {
                        assert(all.subrange(0, k as int + 1).drop_last() =~= all.subrange(0, k as int));
                        assert(v@ =~= all.subrange(k as int + 1, n as int));
                    }
                    cities.insert(city.id, city);
                    k = k + 1;
                }
                proof {
                    assert(all.subrange(0, n as int) =~= all);
                }
                CityCatalog(cities)
            },
            None => CityCatalog(seed_default_cities()),
        }
    }
}

/// How one clan stands toward another.
#[derive(Clone, Copy, Debug, PartialEq, Eq, Structural)]
pub enum ClanRelationStatus {
    Allied,
    Neutral,
    Rival,
    War,
}

impl ClanRelationStatus {
    /// What the relation means for trade: allies and neutrals trade
    /// openly, rivals pay duties, clans at war blockade each other.
    pub fn trade_access(self) -> (r: TradeAccess)
        ensures
            r == match self {
                ClanRelationStatus::Allied | ClanRelationStatus::Neutral => TradeAccess::Open,
                ClanRelationStatus::Rival => TradeAccess::Taxed,
                ClanRelationStatus::War => TradeAccess::Blockaded,
            },
    {
        match self {
            ClanRelationStatus::Allied | ClanRelationStatus::Neutral => TradeAccess::Open,
            ClanRelationStatus::Rival => TradeAccess::Taxed,
            ClanRelationStatus::War => TradeAccess::Blockaded,
        }
    }
}

/// A clan. `war_weariness` runs from 0 to 1000; `relation_by_clan` pairs
/// another clan's name with how this clan stands toward it.
#[derive(Clone, Debug)]
pub struct ClanProfile {
    pub name: String,
    pub mon: String,
    pub ruler_name: String,
    pub ruler_title: String,
    pub military_strength: u16,
    pub war_weariness: u16,
    pub relation_by_clan: Vec<(String, ClanRelationStatus)>,
}

/// A clan with the given particulars that names one other clan.
pub open spec fn is_clan(
    p: ClanProfile,
    name: Seq<char>,
    mon: Seq<char>,
    ruler: Seq<char>,
    title: Seq<char>,
    strength: u16,
    weariness: u16,
    other: Seq<char>,
    relation: ClanRelationStatus,
) -> bool {
    &&& p.name@ == name
    &&& p.mon@ == mon
    &&& p.ruler_name@ == ruler
    &&& p.ruler_title@ == title
    &&& p.military_strength == strength
    &&& p.war_weariness == weariness
    &&& p.relation_by_clan@.len() == 1
    &&& p.relation_by_clan@[0].0@ == other
    &&& p.relation_by_clan@[0].1 == relation
}

/// The built-in clans: the Mizuno and the Takeda, rivals of each other.
pub open spec fn is_default_clan_list(s: Seq<ClanProfile>) -> bool {
    &&& s.len() == 2
    &&& is_clan(s[0], "Mizuno"@, "three_streams"@, "Mizuno Aoi"@, "Jito"@, 420, 210, "Takeda"@, ClanRelationStatus::Rival)
    &&& is_clan(s[1], "Takeda"@, "mountain_hawk"@, "Takeda Ren"@, "Daimyo"@, 860, 140, "Mizuno"@, ClanRelationStatus::Rival)
}

fn clan(
    name: &str,
    mon: &str,
    ruler: &str,
    title: &str,
    strength: u16,
    weariness: u16,
    other: &str,
    relation: ClanRelationStatus,
) -> (p: ClanProfile)
    ensures
        is_clan(p, name@, mon@, ruler@, title@, strength, weariness, other@, relation),
{
    ClanProfile {
        name: String::from_str(name),
        mon: String::from_str(mon),
        ruler_name: String::from_str(ruler),
        ruler_title: String::from_str(title),
        military_strength: strength,
        war_weariness: weariness,
        relation_by_clan: vec![(String::from_str(other), relation)],
    }
}

/// The built-in clans, used when no clan data could be loaded.
pub fn seed_default_clans() -> (r: Vec<ClanProfile>)
    ensures
        is_default_clan_list(r@),
{
    vec![
        clan("Mizuno", "three_streams", "Mizuno Aoi", "Jito", 420, 210, "Takeda", ClanRelationStatus::Rival),
        clan("Takeda", "mountain_hawk", "Takeda Ren", "Daimyo", 860, 140, "Mizuno", ClanRelationStatus::Rival),
    ]
}

/// The clans of the world.
#[derive(Clone, Debug)]
pub struct ClanCatalog(pub Vec<ClanProfile>);

/// The first position in `s` of a clan named `name`, or `s.len()`.
pub open spec fn clan_index(s: Seq<ClanProfile>, name: Seq<char>) -> int
    decreases s.len(),
{
    if s.len() == 0 {
        0
    } else if s[0].name@ == name {
        0
    } else {
        1 + clan_index(s.drop_first(), name)
    }
}

/// `s` with `p` put in the place of the clan of the same name, or added at
/// the end.
pub open spec fn upsert_clan(s: Seq<ClanProfile>, p: ClanProfile) -> Seq<ClanProfile> {
    let i = clan_index(s, p.name@);
    if i < s.len() {
        s.update(i, p)
    } else {
        s.push(p)
    }
}

/// Clans keyed by name, each name taking the last clan listed with it.
pub open spec fn clans_by_name(s: Seq<ClanProfile>) -> Seq<ClanProfile>
    decreases s.len(),
{
    if s.len() == 0 {
        Seq::empty()
    } else {
        upsert_clan(clans_by_name(s.drop_last()), s.last())
    }
}

proof fn lemma_clan_index(s: Seq<ClanProfile>, name: Seq<char>)
    ensures
        0 <= clan_index(s, name) <= s.len(),
        clan_index(s, name) < s.len() ==> s[clan_index(s, name)].name@ == name,
        forall|j: int| 0 <= j < clan_index(s, name) ==> s[j].name@ != name,
    decreases s.len(),
{
    if s.len() > 0 && s[0].name@ != name {
        lemma_clan_index(s.drop_first(), name);
        assert forall|j: int| 0 <= j < clan_index(s, name) implies s[j].name@ != name by {
            if j > 0 {
                assert(s[j] == s.drop_first()[j - 1]);
            }
        }
    }
}

fn find_clan(s: &Vec<ClanProfile>, name: &str) -> (r: usize)
    ensures
        r == clan_index(s@, name@),
{
    proof {
        lemma_clan_index(s@, name@);
    }
    let mut i: usize = 0;
    while i < s.len()
        invariant
            i <= s@.len(),
            0 <= clan_index(s@, name@) <= s@.len(),
            clan_index(s@, name@) < s@.len() ==> s@[clan_index(s@, name@)].name@ == name@,
            forall|j: int| 0 <= j < clan_index(s@, name@) ==> s@[j].name@ != name@,
            forall|j: int| 0 <= j < i ==> s@[j].name@ != name@,
        decreases s@.len() - i,
    {
        if same_text(s[i].name.as_str(), name) {
            return i;
        }
        i = i + 1;
    }
    i
}

impl ClanCatalog {
    /// The catalog from the clans a data file listed: keyed by name, a later
    /// clan replacing an earlier one with the same name. Where no file could
    /// be read (`None`) or it listed no clan, the built-in clans.
    pub fn from_loaded(loaded: Option<Vec<ClanProfile>>) -> (r: ClanCatalog)
        ensures
            match loaded {
                Some(v) if v@.len() > 0 => r.0@ == clans_by_name(v@),
                _ => is_default_clan_list(r.0@),
            },
    {
        match loaded {
            Some(mut v) => {
                if v.len() == 0 {
                    return ClanCatalog(seed_default_clans());
                }
                let ghost all = v@;
                let mut clans: Vec<ClanProfile> = Vec::new();
                let mut k: usize = 0;
                let n = v.len();
                while v.len() > 0
                    invariant
                        n == all.len(),
                        k + v@.len() == n,
                        v@ == all.subrange(k as int, n as int),
                        clans@ == clans_by_name(all.subrange(0, k as int)),
                    decreases v@.len(),
                {
                    let p = v.remove(0);
                    proof {
                        assert(all.subrange(0, k as int + 1).drop_last() =~= all.subrange(0, k as int));
                        assert(v@ =~= all.subrange(k as int + 1, n as int));
                    }
                    let i = find_clan(&clans, p.name.as_str());
                    if i < clans.len() {
                        clans.set(i, p);
                    } else {
                        clans.push(p);
                    }
                    k = k + 1;
                }
                proof {
                    assert(all.subrange(0, n as int) =~= all);
                }
                ClanCatalog(clans)
            },
            None => ClanCatalog(seed_default_clans()),
        }
    }
}

/// Every city in a catalog built from a list sits under its own id, and
/// every id under which a city sits is one the list gave.
pub proof fn lemma_cities_keyed_by_own_id(s: Seq<City>)
    ensures
        forall|id: u16| #[trigger] cities_by_id(s).contains_key(id) ==> cities_by_id(s)[id].id == id,
        forall|id: u16| #[trigger] cities_by_id(s).contains_key(id) ==> exists|j: int| 0 <= j < s.len() && s[j].id == id,
    decreases s.len(),
{
    if s.len() > 0 {
        lemma_cities_keyed_by_own_id(s.drop_last());
        assert forall|id: u16| #[trigger] cities_by_id(s).contains_key(id) implies exists|j: int| 0 <= j < s.len() && s[j].id == id by {
            if id == s.last().id {
                assert(s[s.len() - 1].id == id);
            } else {
                let j = choose|j: int| 0 <= j < s.drop_last().len() && s.drop_last()[j].id == id;
                assert(s[j].id == id);
            }
        }
    }
}

/// A clan catalog built from a list names each clan once.
pub proof fn lemma_clan_names_distinct(s: Seq<ClanProfile>)
    ensures
        forall|i: int, j: int|
            0 <= i < j < clans_by_name(s).len() ==> #[trigger] clans_by_name(s)[i].name@ != #[trigger] clans_by_name(s)[j].name@,
    decreases s.len(),
{
    if s.len() > 0 {
        lemma_clan_names_distinct(s.drop_last());
        let prev = clans_by_name(s.drop_last());
        let p = s.last();
        lemma_clan_index(prev, p.name@);
        let cur = clans_by_name(s);
        assert(cur == upsert_clan(prev, p));
        assert forall|i: int, j: int| 0 <= i < j < cur.len() implies #[trigger] cur[i].name@ != #[trigger] cur[j].name@ by {
            let k = clan_index(prev, p.name@);
            if k < prev.len() {
                assert(cur[i].name@ == prev[i].name@);
                assert(cur[j].name@ == prev[j].name@);
            } else if j == prev.len() {
                assert(cur[i] == prev[i]);
            } else {
                assert(cur[i] == prev[i]);
                assert(cur[j] == prev[j]);
            }
        }
    }
}

} // verus!
