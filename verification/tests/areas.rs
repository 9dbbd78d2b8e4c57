use bevy_game::areas::{
    add_link, area_terrain_label, block_anchor, current_area_node, fill_world_grid, format_clock, format_duration,
    generated_area, generated_name, generated_terrain, grid_extent, initial_info_text, plan_travel,
    route_info_text, route_region_names, seed_default_areas, stamp_areas_onto_map, terrain_leg_cost, travel_hours,
    AreaCatalog, AreaDef, AreaLink, MapTile, MapTiles,
};
use bevy_game::position::Position;

fn area(id: u16, links: Vec<(u16, u32)>) -> AreaDef {
    AreaDef {
        id,
        name: format!("Area {id}"),
        description: String::new(),
        anchor: Position { x: 0, y: 0 },
        terrain: 1,
        ui_x: 0,
        ui_y: 0,
        connections: links.into_iter().map(|(to, hours)| AreaLink { to, hours }).collect(),
    }
}

#[test]
fn terrain_costs_and_leg_hours() {
    assert_eq!(terrain_leg_cost(0), 1);
    assert_eq!(terrain_leg_cost(3), 4);
    assert_eq!(terrain_leg_cost(9), 3);
    assert_eq!(travel_hours(1, 3), 6);
    assert_eq!(travel_hours(0, 0), 2);
}

#[test]
fn generated_blocks_are_deterministic() {
    assert_eq!(generated_terrain(0, 0), 0);
    assert_eq!(generated_terrain(1, 0), 2);
    assert_eq!(generated_terrain(4, 0), 3);
    assert_eq!(generated_name(4, 3), "Twin Heights");
    assert_eq!(block_anchor(2, 3), Position { x: 20, y: 28 });
    let a = generated_area(12, 4, 1);
    assert_eq!(a.id, 12);
    assert_eq!(a.anchor, Position { x: 36, y: 12 });
    assert_eq!(a.ui_x, 571);
    assert!(a.connections.is_empty());
}

#[test]
fn links_are_not_duplicated() {
    let mut a = area(1, vec![(2, 5)]);
    add_link(&mut a, 2, 9);
    assert_eq!(a.connections, vec![AreaLink { to: 2, hours: 5 }]);
    add_link(&mut a, 3, 9);
    assert_eq!(a.connections.len(), 2);
}

#[test]
fn cheapest_route_goes_round_the_long_edge() {
    let cat = AreaCatalog::from_areas(vec![area(0, vec![(1, 4), (2, 10)]), area(1, vec![(2, 1)]), area(2, vec![])]);
    assert_eq!(plan_travel(&cat, 0, 2), Some((5, vec![0, 1, 2])));
    // Links join both ways.
    assert_eq!(plan_travel(&cat, 2, 0), Some((5, vec![2, 1, 0])));
    assert_eq!(plan_travel(&cat, 1, 1), Some((0, vec![1])));
    assert_eq!(plan_travel(&cat, 0, 7), None);
    // A zero-hour link still costs an hour.
    let cat = AreaCatalog::from_areas(vec![area(0, vec![(1, 0)]), area(1, vec![])]);
    assert_eq!(plan_travel(&cat, 0, 1), Some((1, vec![0, 1])));
}

#[test]
fn duplicate_links_keep_the_cheapest_hours() {
    let cat = AreaCatalog::from_areas(vec![area(0, vec![(1, 7)]), area(1, vec![(0, 3)])]);
    let n = cat.neighbors(0);
    assert_eq!(n, vec![AreaLink { to: 1, hours: 3 }]);
    assert_eq!(cat.name_of(1), "Area 1");
    assert_eq!(cat.name_of(99), "Region 99");
    assert!(cat.get(5).is_none());
}

#[test]
fn the_default_world_fills_the_grid() {
    let cat = AreaCatalog::from_loaded(None);
    assert_eq!(cat.areas.len(), 64);
    assert_eq!(cat.name_of(0), "Greenford Village");
    assert_eq!(cat.name_of(19), "Lantern Bay");
    assert_eq!(grid_extent(&cat), (8, 8));
    assert_eq!(plan_travel(&cat, 0, 1), Some((5, vec![0, 1])));
    assert_eq!(plan_travel(&cat, 0, 9), Some((5, vec![0, 8, 9])));
    // An empty file falls back to the built-in areas too.
    let again = AreaCatalog::from_loaded(Some(vec![]));
    assert_eq!(again.name_of(3), "Tideport Harbor");
}

#[test]
fn loaded_areas_replace_the_built_in_ones() {
    let cat = AreaCatalog::from_loaded(Some(vec![area(0, vec![])]));
    assert_eq!(cat.name_of(0), "Area 0");
    assert_eq!(cat.areas.len(), 64);
    // Block 1 is generated.
    assert_eq!(cat.areas[1].terrain, generated_terrain(1, 0));
}

#[test]
fn seed_areas_are_twelve() {
    let s = seed_default_areas();
    assert_eq!(s.len(), 12);
    assert_eq!(s[0].name, "Greenford Village");
    assert_eq!(s[0].connections, vec![AreaLink { to: 1, hours: 5 }, AreaLink { to: 8, hours: 3 }]);
    assert_eq!(s[11].id, 19);
    assert_eq!(s[6].name, "Oni's Hollow");
}

#[test]
fn grid_fill_links_right_and_down() {
    let grid = fill_world_grid(vec![]);
    assert_eq!(grid.len(), 64);
    let h = travel_hours(grid[0].terrain, grid[1].terrain);
    let v = travel_hours(grid[0].terrain, grid[8].terrain);
    assert_eq!(grid[0].connections, vec![AreaLink { to: 1, hours: h }, AreaLink { to: 8, hours: v }]);
    assert!(grid[63].connections.is_empty());
}

#[test]
fn the_party_area_falls_back_to_its_block() {
    let cat = AreaCatalog::from_loaded(None);
    assert_eq!(current_area_node(&cat, 3, Position { x: 0, y: 0 }), 3);
    assert_eq!(current_area_node(&cat, 99, Position { x: 12, y: 3 }), 1);
    let small = AreaCatalog::from_areas(vec![area(40, vec![])]);
    assert_eq!(current_area_node(&small, 99, Position { x: -5, y: 0 }), 40);
}

#[test]
fn clock_and_duration_text() {
    assert_eq!(format_clock(555, 10), "Day 3 · 07:30");
    assert_eq!(format_clock(0, 10), "Day 1 · 00:00");
    assert_eq!(format_duration(75, 120), "2h 30m");
    assert_eq!(format_duration(5, 120), "10m");
    assert_eq!(format_duration(31, 120), "1h 02m");
}

#[test]
fn terrain_labels() {
    assert_eq!(area_terrain_label(0), "Road");
    assert_eq!(area_terrain_label(3), "Mountains");
    assert_eq!(area_terrain_label(7), "Wilds");
}

#[test]
fn world_map_texts() {
    let cat = AreaCatalog::from_loaded(None);
    assert_eq!(
        initial_info_text(&cat, 0),
        "You are in Greenford Village.\n\nTerraced rice paddies under the Mizuno banner; the road home.\n\nHover a region to see the route and arrival time."
    );
    let names = route_region_names(&cat, &vec![Some(0), Some(0), None, Some(1), Some(1)]);
    assert_eq!(names, vec!["Greenford Village".to_string(), "Ironpass Castle Town".to_string()]);
    let text = route_info_text(&cat, 0, 1, Some((30, vec![Some(0), Some(1)])), 0, 10, 120);
    assert_eq!(
        text,
        "Ironpass Castle Town\n\nA Takeda stronghold of forges and gates guarding the mountain pass.\n\nTravel time: 1h 00m\nArrive: Day 1 · 03:00\n\nRoute: Greenford Village → Ironpass Castle Town\n\n[ Click to depart ]"
    );
    assert!(route_info_text(&cat, 0, 0, None, 0, 10, 120).ends_with("You are already here."));
    assert!(route_info_text(&cat, 0, 1, None, 0, 10, 120).ends_with("No overland route from here."));
    assert_eq!(route_info_text(&cat, 0, 200, None, 0, 10, 120), "Region 200\n\n\n\nNo known route from here.");
}

#[test]
fn stamping_marks_each_block_with_its_area() {
    let blank = MapTile { location_id: 999, type_id: 7 };
    let mut map = MapTiles { tiles: vec![vec![blank; 12]; 10] };
    map.tiles[9] = vec![blank; 20];
    let mut forest = area(9, vec![]);
    forest.terrain = 2;
    let mut road = area(1, vec![]);
    road.terrain = 0;
    let mut again = area(1, vec![]);
    again.terrain = 3;
    let catalog = AreaCatalog::from_areas(vec![forest, road, again]);
    stamp_areas_onto_map(&mut map, &catalog);
    assert_eq!(map.tiles.len(), 10);
    assert_eq!(map.tiles[9].len(), 20);
    assert_eq!(map.tiles[0][0], blank);
    assert_eq!(map.tiles[0][8], MapTile { location_id: 1, type_id: 3 });
    assert_eq!(map.tiles[7][11], MapTile { location_id: 1, type_id: 3 });
    assert_eq!(map.tiles[8][8], MapTile { location_id: 9, type_id: 2 });
    assert_eq!(map.tiles[9][11], MapTile { location_id: 9, type_id: 2 });
    assert_eq!(map.tiles[9][12], blank);
    assert_eq!(map.tiles[8][0], blank);
}

#[test]
fn every_pair_of_grid_blocks_is_joined() {
    let grid = fill_world_grid(vec![area(9, vec![]), area(63, vec![(0, 2)])]);
    let cat = AreaCatalog::from_areas(grid);
    for a in [0u16, 7, 9, 36, 56, 63] {
        for b in [0u16, 7, 9, 36, 56, 63] {
            let found = plan_travel(&cat, a, b);
            assert!(found.is_some(), "no route from {a} to {b}");
            let (_, path) = found.unwrap();
            assert_eq!(path.first(), Some(&a));
            assert_eq!(path.last(), Some(&b));
        }
    }
}

#[test]
fn grid_routes_go_round_a_slow_authored_link() {
    let grid = fill_world_grid(vec![area(0, vec![(1, 4_000_000_000)])]);
    let cat = AreaCatalog::from_areas(grid);
    let (total, path) = plan_travel(&cat, 0, 1).unwrap();
    assert!(total <= 14 * 8);
    assert_eq!(path.first(), Some(&0));
    assert_eq!(path.last(), Some(&1));
    assert!(path.len() > 2);
}
