use bevy_game::cities::{
    default_interregnum_ticks, default_leadership_immunity_ticks, default_succession_order, seed_default_cities,
    seed_default_clans, CityAuthorityData, CityAuthorityState, CityCatalog, ClanCatalog, ClanProfile,
    ClanRelationStatus, GovernanceType, GovernorPolicy, Money, SettlementTier, SuccessionRule, SuccessionSource,
    TradeAccess,
};

fn clan(name: &str, strength: u16) -> ClanProfile {
    ClanProfile {
        name: name.to_string(),
        mon: String::new(),
        ruler_name: String::new(),
        ruler_title: String::new(),
        military_strength: strength,
        war_weariness: 0,
        relation_by_clan: vec![],
    }
}

#[test]
fn built_in_cities_are_greenford_and_ironpass() {
    let cities = seed_default_cities();
    assert_eq!(cities.len(), 2);
    let g = &cities[&100];
    assert_eq!(g.name, "Greenford");
    assert_eq!(g.settlement_tier, SettlementTier::Village);
    assert_eq!(g.treasury_coins, Money(180000));
    assert_eq!(g.trade_distance_by_city_id.get(&200), Some(&320));
    assert_eq!(g.authority.successor_candidates.len(), 2);
    let i = &cities[&200];
    assert_eq!(i.name, "Ironpass");
    assert_eq!(i.governance_type, GovernanceType::ShogunateSeat);
    assert_eq!(i.population, 11500);
    assert_eq!(i.crafted_item_outputs.get(&5004), Some(&36));
}

#[test]
fn loaded_cities_are_keyed_by_id_last_one_wins() {
    let base = seed_default_cities();
    let mut first = base[&100].clone();
    first.population = 1;
    let mut second = base[&100].clone();
    second.population = 2;
    let other = base[&200].clone();
    let cat = CityCatalog::from_loaded(Some(vec![first, other, second]));
    assert_eq!(cat.0.len(), 2);
    assert_eq!(cat.0[&100].population, 2);
    assert_eq!(cat.0[&200].name, "Ironpass");
    assert_eq!(CityCatalog::from_loaded(None).0.len(), 2);
    assert_eq!(CityCatalog::from_loaded(Some(vec![])).0.len(), 2);
}

#[test]
fn built_in_clans_are_rivals() {
    let clans = seed_default_clans();
    assert_eq!(clans.len(), 2);
    assert_eq!(clans[0].name, "Mizuno");
    assert_eq!(clans[1].ruler_title, "Daimyo");
    assert_eq!(clans[0].relation_by_clan, vec![("Takeda".to_string(), ClanRelationStatus::Rival)]);
}

#[test]
fn loaded_clans_are_keyed_by_name_in_first_seen_order() {
    let cat = ClanCatalog::from_loaded(Some(vec![clan("A", 1), clan("B", 2), clan("A", 3)]));
    assert_eq!(cat.0.len(), 2);
    assert_eq!(cat.0[0].name, "A");
    assert_eq!(cat.0[0].military_strength, 3);
    assert_eq!(cat.0[1].name, "B");
    assert_eq!(ClanCatalog::from_loaded(None).0.len(), 2);
    assert_eq!(ClanCatalog::from_loaded(Some(vec![])).0[0].name, "Mizuno");
}

#[test]
fn relations_decide_trade_access() {
    assert_eq!(ClanRelationStatus::Allied.trade_access(), TradeAccess::Open);
    assert_eq!(ClanRelationStatus::Neutral.trade_access(), TradeAccess::Open);
    assert_eq!(ClanRelationStatus::Rival.trade_access(), TradeAccess::Taxed);
    assert_eq!(ClanRelationStatus::War.trade_access(), TradeAccess::Blockaded);
}

#[test]
fn labels_and_defaults() {
    assert_eq!(SettlementTier::CastleTown.label(), "Castle Town");
    assert_eq!(GovernanceType::TempleDomain.label(), "Temple Domain");
    assert_eq!(CityAuthorityState::LegacyUnderSiege.label(), "Under Siege (Legacy)");
    assert_eq!(CityAuthorityState::default(), CityAuthorityState::Stable);
    assert_eq!(default_interregnum_ticks(), 8);
    assert_eq!(default_leadership_immunity_ticks(), 6);
    assert_eq!(default_succession_order()[0], SuccessionSource::NamedHeir);
    assert_eq!(default_succession_order().len(), 5);
    let rule = SuccessionRule::default();
    assert_eq!(rule.interregnum_ticks, 8);
    let calm = CityAuthorityData::default();
    assert!(calm.current_governor_alive);
    assert!(calm.successor_candidates.is_empty());
    assert_eq!(GovernorPolicy::default().import_tariff_bps, 0);
}
