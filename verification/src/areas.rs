//! Named overland areas on the 8×8 block grid of the world map, stamping
//! them onto the map's tiles, the area graph, and route planning over it in
//! in-game hours.

use vstd::prelude::*;
use vstd::string::StringExecFns;
use crate::position::Position;
use crate::text::{append_decimal, append_decimal_u64, append_two_digits, decimal, two_digits};

verus! {

/// Side of the square tile block each area owns.
pub const REGION_SIZE: i32 = 8;

/// Blocks per row of the world grid: `location_id = bx + by * BLOCKS_PER_ROW`.
pub const BLOCKS_PER_ROW: u16 = 8;

/// Columns of blocks in the world.
pub const WORLD_BLOCK_COLS: u16 = 8;

/// Rows of blocks in the world.
pub const WORLD_BLOCK_ROWS: u16 = 8;

/// A directed edge of the area graph: travelling to `to` costs `hours`.
#[derive(Clone, Copy, Debug, PartialEq, Eq, Structural)]
pub struct AreaLink {
    pub to: u16,
    pub hours: u32,
}

/// A named overland area. `id` is also the location id stamped onto the
/// area's tile block. The world-map position is in thousandths of the canvas
/// (`0..=1000`).
#[derive(Clone, Debug)]
pub struct AreaDef {
    pub id: u16,
    pub name: String,
    pub description: String,
    /// The tile a traveller lands on when arriving.
    pub anchor: Position,
    /// Dominant terrain: 0 road, 1 plains, 2 forest, 3 mountains.
    pub terrain: u8,
    pub ui_x: u32,
    pub ui_y: u32,
    pub connections: Vec<AreaLink>,
}

/// Per-terrain leg cost: roads are quick, mountains slow.
pub open spec fn spec_terrain_leg_cost(terrain: u8) -> u32 {
    if terrain == 0 {
        1
    } else if terrain == 1 {
        2
    } else if terrain == 2 {
        3
    } else if terrain == 3 {
        4
    } else {
        3
    }
}

/// Per-terrain leg cost: 1 road, 2 plains, 3 forest, 4 mountains, 3 other.
pub fn terrain_leg_cost(terrain: u8) -> (r: u32)
    ensures
        r == spec_terrain_leg_cost(terrain),
{
    match terrain {
        0 => 1,
        1 => 2,
        2 => 3,
        3 => 4,
        _ => 3,
    }
}

/// Hours to travel between neighbouring regions of the given terrains: the
/// sum of their leg costs, at least two.
pub open spec fn spec_travel_hours(a: u8, b: u8) -> u32 {
    let s = spec_terrain_leg_cost(a) + spec_terrain_leg_cost(b);
    if s < 2 { 2 } else { s as u32 }
}

/// Hours to travel between neighbouring regions of terrains `a` and `b`.
pub fn travel_hours(a: u8, b: u8) -> (r: u32)
    ensures
        r == spec_travel_hours(a, b),
        2 <= r <= 8,
{
    let s = terrain_leg_cost(a) + terrain_leg_cost(b);
    if s < 2 { 2 } else { s }
}

/// The terrain hash of block `(bx, by)`, in `u16` wrapping arithmetic.
pub open spec fn terrain_hash(bx: u16, by: u16) -> u16 {
    let m = (((bx as int) * 73) % 65536) as u16;
    let n = (((by as int) * 151) % 65536) as u16;
    let p = (((bx as int) * (by as int)) % 65536) as u16;
    (((m ^ n) as int + p as int) % 65536) as u16
}

/// The terrain of an auto-generated block: its hash modulo 7 picks road (0),
/// plains (1, 2), forest (3, 4) or mountains (5, 6).
pub open spec fn spec_generated_terrain(bx: u16, by: u16) -> u8 {
    let k = terrain_hash(bx, by) % 7;
    if k == 0 {
        0
    } else if k <= 2 {
        1
    } else if k <= 4 {
        2
    } else {
        3
    }
}

/// Deterministic terrain for an auto-generated block; never impassable.
pub fn generated_terrain(bx: u16, by: u16) -> (r: u8)
    ensures
        r == spec_generated_terrain(bx, by),
        r <= 3,
{
    let h: u16 = (bx.wrapping_mul(73) ^ by.wrapping_mul(151)).wrapping_add(bx.wrapping_mul(by));
    match h % 7 {
        0 => 0,
        1 | 2 => 1,
        3 | 4 => 2,
        _ => 3,
    }
}

/// The prefixes of generated region names, by index.
pub open spec fn name_prefix(i: int) -> Seq<char> {
    if i == 0 {
        "North"@
    } else if i == 1 {
        "Hidden"@
    } else if i == 2 {
        "Old"@
    } else if i == 3 {
        "Lonely"@
    } else if i == 4 {
        "Misty"@
    } else if i == 5 {
        "Jade"@
    } else if i == 6 {
        "Crimson"@
    } else if i == 7 {
        "Silver"@
    } else if i == 8 {
        "Whispering"@
    } else if i == 9 {
        "Broken"@
    } else if i == 10 {
        "Golden"@
    } else if i == 11 {
        "Quiet"@
    } else if i == 12 {
        "Frost"@
    } else if i == 13 {
        "Ember"@
    } else if i == 14 {
        "Shadow"@
    } else {
        "Twin"@
    }
}

/// The suffix of a generated region name, by terrain.
pub open spec fn name_suffix(terrain: u8) -> Seq<char> {
    if terrain == 0 {
        "Crossing"@
    } else if terrain == 1 {
        "Fields"@
    } else if terrain == 2 {
        "Woods"@
    } else if terrain == 3 {
        "Heights"@
    } else {
        "Wilds"@
    }
}

/// The name of a generated region: prefix number `(id * 7 + 3) mod 16`, a
/// space, and the terrain's suffix.
pub open spec fn spec_generated_name(id: u16, terrain: u8) -> Seq<char> {
    name_prefix((id as int * 7 + 3) % 16) + " "@ + name_suffix(terrain)
}

fn prefix_str(i: usize) -> (r: &'static str)
    requires
        i < 16,
    ensures
        r@ == name_prefix(i as int),
{
    match i {
        0 => "North",
        1 => "Hidden",
        2 => "Old",
        3 => "Lonely",
        4 => "Misty",
        5 => "Jade",
        6 => "Crimson",
        7 => "Silver",
        8 => "Whispering",
        9 => "Broken",
        10 => "Golden",
        11 => "Quiet",
        12 => "Frost",
        13 => "Ember",
        14 => "Shadow",
        _ => "Twin",
    }
}

fn suffix_str(terrain: u8) -> (r: &'static str)
    ensures
        r@ == name_suffix(terrain),
{
    match terrain {
        0 => "Crossing",
        1 => "Fields",
        2 => "Woods",
        3 => "Heights",
        _ => "Wilds",
    }
}

/// The generated name of region `id` with the given terrain.
pub fn generated_name(id: u16, terrain: u8) -> (r: String)
    ensures
        r@ == spec_generated_name(id, terrain),
{
    let i: usize = (id as usize * 7 + 3) % 16;
    let mut s = String::from_str(prefix_str(i));
    s.append(" ");
    s.append(suffix_str(terrain));
    s
}

/// The flavour text of a generated region, by terrain.
pub open spec fn spec_generated_description(terrain: u8) -> Seq<char> {
    if terrain == 0 {
        "A dusty waystation where old roads meet."@
    } else if terrain == 1 {
        "Open rice-fields and grazing land under a wide sky."@
    } else if terrain == 2 {
        "Dim cedar woods loud with cicada song."@
    } else if terrain == 3 {
        "Wind-bitten ridgelines and bare standing stone."@
    } else {
        "Untamed borderland the maps barely name."@
    }
}

/// The flavour text of a generated region of the given terrain.
pub fn generated_description(terrain: u8) -> (r: String)
    ensures
        r@ == spec_generated_description(terrain),
{
    let t: &str = match terrain {
        0 => "A dusty waystation where old roads meet.",
        1 => "Open rice-fields and grazing land under a wide sky.",
        2 => "Dim cedar woods loud with cicada song.",
        3 => "Wind-bitten ridgelines and bare standing stone.",
        _ => "Untamed borderland the maps barely name.",
    };
    String::from_str(t)
}

/// The anchor tile of block `(bx, by)`: four tiles into the block on both
/// axes, inside its border ring.
pub fn block_anchor(bx: u16, by: u16) -> (r: Position)
    ensures
        r.x == bx as int * 8 + 4,
        r.y == by as int * 8 + 4,
{
    Position { x: bx as i32 * REGION_SIZE + 4, y: by as i32 * REGION_SIZE + 4 }
}

/// A generated area for block `(bx, by)` of the world grid, with no links
/// yet. Its map position spreads the grid over the canvas.
pub fn generated_area(id: u16, bx: u16, by: u16) -> (r: AreaDef)
    requires
        bx < WORLD_BLOCK_COLS,
        by < WORLD_BLOCK_ROWS,
    ensures
        r.id == id,
        r.terrain == spec_generated_terrain(bx, by),
        r.name@ == spec_generated_name(id, r.terrain),
        r.description@ == spec_generated_description(r.terrain),
        r.anchor.x == bx as int * 8 + 4,
        r.anchor.y == by as int * 8 + 4,
        r.ui_x == bx as int * 1000 / 7,
        r.ui_y == by as int * 1000 / 7,
        r.connections@.len() == 0,
{
    let terrain = generated_terrain(bx, by);
    AreaDef {
        id,
        name: generated_name(id, terrain),
        description: generated_description(terrain),
        anchor: block_anchor(bx, by),
        terrain,
        ui_x: bx as u32 * 1000 / 7,
        ui_y: by as u32 * 1000 / 7,
        connections: Vec::new(),
    }
}

/// Whether `links` has a link to `to`.
pub open spec fn links_to(links: Seq<AreaLink>, to: u16) -> bool {
    exists|k: int| 0 <= k < links.len() && (#[trigger] links[k]).to == to
}

/// Link `area` to `to` unless it already links there.
pub fn add_link(area: &mut AreaDef, to: u16, hours: u32)
    ensures
        final(area).id == old(area).id,
        final(area).name == old(area).name,
        final(area).description == old(area).description,
        final(area).anchor == old(area).anchor,
        final(area).terrain == old(area).terrain,
        final(area).ui_x == old(area).ui_x,
        final(area).ui_y == old(area).ui_y,
        final(area).connections@ == if links_to(old(area).connections@, to) {
            old(area).connections@
        } else {
            old(area).connections@.push(AreaLink { to, hours })
        },
{
    let mut i: usize = 0;
    while i < area.connections.len()
        invariant
            i <= area.connections@.len(),
            area.connections@ == old(area).connections@,
            forall|k: int| 0 <= k < i ==> (#[trigger] area.connections@[k]).to != to,
        decreases area.connections.len() - i,
    {
        if area.connections[i].to == to {
            assert(links_to(area.connections@, to)) by {
                assert(area.connections@[i as int].to == to);
            }
            return;
        }
        i = i + 1;
    }
    area.connections.push(AreaLink { to, hours });
}

/// A directed edge of the area graph.
#[derive(Clone, Copy, Debug, PartialEq, Eq, Structural)]
pub struct Edge {
    pub from: u16,
    pub to: u16,
    pub hours: u32,
}

/// All named areas plus the undirected area graph used for routing, kept as
/// a list of directed edges with at most one edge per ordered pair.
pub struct AreaCatalog {
    pub areas: Vec<AreaDef>,
    edges: Vec<Edge>,
}

/// `x` or 1, whichever is larger.
pub open spec fn at_least_one(x: u32) -> u32 {
    if x < 1 { 1 } else { x }
}

/// The smaller of two optional hour counts (a missing one loses).
pub open spec fn min_opt(x: Option<u32>, y: Option<u32>) -> Option<u32> {
    match (x, y) {
        (Some(p), Some(q)) => Some(if p <= q { p } else { q }),
        (Some(p), None) => Some(p),
        (None, Some(q)) => Some(q),
        (None, None) => None,
    }
}

/// What a declared link of `area` contributes to the edge `a -> b`: the
/// link joins the two areas in either direction, costing at least an hour.
pub open spec fn link_hours_for(area: AreaDef, link: AreaLink, a: u16, b: u16) -> Option<u32> {
    if (area.id == a && link.to == b) || (area.id == b && link.to == a) {
        Some(at_least_one(link.hours))
    } else {
        None
    }
}

/// The cheapest of the first `m` links of `area` joining `a` and `b`.
pub open spec fn links_min(area: AreaDef, m: int, a: u16, b: u16) -> Option<u32>
    decreases m,
{
    if m <= 0 {
        None
    } else {
        min_opt(links_min(area, m - 1, a, b), link_hours_for(area, area.connections@[m - 1], a, b))
    }
}

/// The cheapest link joining `a` and `b` declared by the first `n` areas.
pub open spec fn areas_min(areas: Seq<AreaDef>, n: int, a: u16, b: u16) -> Option<u32>
    decreases n,
{
    if n <= 0 {
        None
    } else {
        min_opt(
            areas_min(areas, n - 1, a, b),
            links_min(areas[n - 1], areas[n - 1].connections@.len() as int, a, b),
        )
    }
}

/// The cheapest declared link joining `a` and `b`, in either direction.
pub open spec fn declared_hours(areas: Seq<AreaDef>, a: u16, b: u16) -> Option<u32> {
    areas_min(areas, areas.len() as int, a, b)
}

/// The list has an edge `a -> b`.
pub open spec fn has_edge(edges: Seq<Edge>, a: u16, b: u16) -> bool {
    exists|k: int| 0 <= k < edges.len() && (#[trigger] edges[k]).from == a && edges[k].to == b
}

/// The hours of the edge `a -> b` in the list, if there is one.
pub open spec fn edge_hours(edges: Seq<Edge>, a: u16, b: u16) -> Option<u32> {
    if has_edge(edges, a, b) {
        Some(
            edges[choose|k: int| 0 <= k < edges.len() && (#[trigger] edges[k]).from == a && edges[k].to == b].hours,
        )
    } else {
        None
    }
}

/// At most one edge per ordered pair of areas.
pub open spec fn edges_unique(edges: Seq<Edge>) -> bool {
    forall|k: int, l: int|
        0 <= k < l < edges.len() ==> !((#[trigger] edges[k]).from == (#[trigger] edges[l]).from
            && edges[k].to == edges[l].to)
}

proof fn lemma_edge_hours_at(edges: Seq<Edge>, k: int)
    requires
        edges_unique(edges),
        0 <= k < edges.len(),
    ensures
        edge_hours(edges, edges[k].from, edges[k].to) == Some(edges[k].hours),
{
    let a = edges[k].from;
    let b = edges[k].to;
    assert(has_edge(edges, a, b));
    let c = choose|c: int| 0 <= c < edges.len() && (#[trigger] edges[c]).from == a && edges[c].to == b;
    if c < k {
        assert(!(edges[c].from == edges[k].from && edges[c].to == edges[k].to));
    } else if k < c {
        assert(!(edges[k].from == edges[c].from && edges[k].to == edges[c].to));
    }
}

/// Record the directed edge `from -> to` at `hours`, keeping the cheaper
/// hours when the edge is already there.
fn push_edge(edges: &mut Vec<Edge>, from: u16, to: u16, hours: u32)
    requires
        edges_unique(old(edges)@),
    ensures
        edges_unique(final(edges)@),
        forall|a: u16, b: u16|
            #[trigger] edge_hours(final(edges)@, a, b) == if a == from && b == to {
                min_opt(edge_hours(old(edges)@, a, b), Some(hours))
            } else {
                edge_hours(old(edges)@, a, b)
            },
{
    let ghost o = edges@;
    let mut i: usize = 0;
    while i < edges.len()
        invariant
            i <= edges@.len(),
            edges@ == o,
            o == old(edges)@,
            edges_unique(o),
            forall|j: int| 0 <= j < i ==> !((#[trigger] edges@[j]).from == from && edges@[j].to == to),
        decreases edges.len() - i,
    {
        if edges[i].from == from && edges[i].to == to {
            let old_h = edges[i].hours;
            let new_h = if old_h <= hours { old_h } else { hours };
            edges.set(i, Edge { from, to, hours: new_h });
            proof {
                let n = edges@;
                assert forall|k: int, l: int| 0 <= k < l < n.len() implies !((#[trigger] n[k]).from
                    == (#[trigger] n[l]).from && n[k].to == n[l].to) by {
                    assert(!(o[k].from == o[l].from && o[k].to == o[l].to));
                }
                lemma_edge_hours_at(o, i as int);
                lemma_edge_hours_at(n, i as int);
                assert forall|a: u16, b: u16| #[trigger] edge_hours(n, a, b) == if a == from && b == to {
                    min_opt(edge_hours(o, a, b), Some(hours))
                } else {
                    edge_hours(o, a, b)
                } by {
                    if !(a == from && b == to) {
                        if has_edge(o, a, b) {
                            let c = choose|c: int| 0 <= c < o.len() && (#[trigger] o[c]).from == a && o[c].to == b;
                            assert(n[c] == o[c]);
                            lemma_edge_hours_at(o, c);
                            lemma_edge_hours_at(n, c);
                        }
                        if has_edge(n, a, b) {
                            let c = choose|c: int| 0 <= c < n.len() && (#[trigger] n[c]).from == a && n[c].to == b;
                            assert(n[c] == o[c]);
                        }
                    } else {
                        assert(o[i as int].from == a && o[i as int].to == b && o[i as int].hours == old_h);
                        assert(edge_hours(o, a, b) == Some(old_h));
                        assert(edge_hours(n, a, b) == Some(new_h));
                    }
                }
            }
            return;
        }
        i = i + 1;
    }
    edges.push(Edge { from, to, hours });
    proof {
        let n = edges@;
        assert(!has_edge(o, from, to));
        lemma_edge_hours_at(n, o.len() as int);
        assert forall|a: u16, b: u16| #[trigger] edge_hours(n, a, b) == if a == from && b == to {
            min_opt(edge_hours(o, a, b), Some(hours))
        } else {
            edge_hours(o, a, b)
        } by {
            if !(a == from && b == to) {
                if has_edge(o, a, b) {
                    let c = choose|c: int| 0 <= c < o.len() && (#[trigger] o[c]).from == a && o[c].to == b;
                    assert(n[c] == o[c]);
                    lemma_edge_hours_at(o, c);
                    lemma_edge_hours_at(n, c);
                }
                if has_edge(n, a, b) {
                    let c = choose|c: int| 0 <= c < n.len() && (#[trigger] n[c]).from == a && n[c].to == b;
                    assert(c < o.len());
                    assert(n[c] == o[c]);
                }
            }
        }
    }
}

/// The index of the last of the first `n` areas with id `id`, or -1.
pub open spec fn last_index_of(areas: Seq<AreaDef>, id: u16, n: int) -> int
    decreases n,
{
    if n <= 0 {
        -1
    } else if areas[n - 1].id == id {
        n - 1
    } else {
        last_index_of(areas, id, n - 1)
    }
}

/// The links leaving `id` among the first `n` edges, in edge order.
pub open spec fn links_from(edges: Seq<Edge>, id: u16, n: int) -> Seq<AreaLink>
    decreases n,
{
    if n <= 0 {
        seq![]
    } else if edges[n - 1].from == id {
        links_from(edges, id, n - 1).push(AreaLink { to: edges[n - 1].to, hours: edges[n - 1].hours })
    } else {
        links_from(edges, id, n - 1)
    }
}

proof fn lemma_min_opt_assoc(x: Option<u32>, y: Option<u32>, z: Option<u32>)
    ensures
        min_opt(min_opt(x, y), z) == min_opt(x, min_opt(y, z)),
        min_opt(x, None) == x,
{
}

impl AreaCatalog {
    /// The edges of the area graph: each is the cheapest link the areas
    /// declare between its two ends, in either direction, costing at least
    /// an hour.
    pub closed spec fn edge(&self, a: u16, b: u16) -> Option<u32> {
        edge_hours(self.edges@, a, b)
    }

    /// The edge list holds one edge per ordered pair, with the declared
    /// cheapest hours.
    #[verifier::opaque]
    pub closed spec fn well_formed(&self) -> bool {
        &&& edges_unique(self.edges@)
        &&& forall|a: u16, b: u16| #[trigger] edge_hours(self.edges@, a, b) == declared_hours(self.areas@, a, b)
    }

    /// The catalogued areas.
    pub closed spec fn area_list(&self) -> Seq<AreaDef> {
        self.areas@
    }

    /// The area graph's edges in the order `neighbors` lists them.
    pub closed spec fn edge_list(&self) -> Seq<Edge> {
        self.edges@
    }

    /// A catalog of `areas` whose graph joins every pair of areas that a
    /// declared link joins (in either direction), at the cheapest declared
    /// hours, never below one hour.
    pub fn from_areas(areas: Vec<AreaDef>) -> (c: AreaCatalog)
        ensures
            c.area_list() == areas@,
            c.well_formed(),
            forall|a: u16, b: u16| #[trigger] c.edge(a, b) == declared_hours(areas@, a, b),
    {
        let mut edges: Vec<Edge> = Vec::new();
        let mut i: usize = 0;
        while i < areas.len()
            invariant
                i <= areas@.len(),
                edges_unique(edges@),
                forall|a: u16, b: u16| #[trigger] edge_hours(edges@, a, b) == areas_min(areas@, i as int, a, b),
            decreases areas.len() - i,
        {
            let id = areas[i].id;
            let mut j: usize = 0;
            while j < areas[i].connections.len()
                invariant
                    i < areas@.len(),
                    id == areas@[i as int].id,
                    j <= areas@[i as int].connections@.len(),
                    edges_unique(edges@),
                    forall|a: u16, b: u16|
                        #[trigger] edge_hours(edges@, a, b) == min_opt(
                            areas_min(areas@, i as int, a, b),
                            links_min(areas@[i as int], j as int, a, b),
                        ),
                decreases areas@[i as int].connections@.len() - j,
            {
                let link = areas[i].connections[j];
                let h: u32 = if link.hours < 1 { 1 } else { link.hours };
                let ghost e0 = edges@;
                push_edge(&mut edges, id, link.to, h);
                let ghost e1 = edges@;
                push_edge(&mut edges, link.to, id, h);
                proof {
                    assert forall|a: u16, b: u16| #[trigger] edge_hours(edges@, a, b) == min_opt(
                        areas_min(areas@, i as int, a, b),
                        links_min(areas@[i as int], j as int + 1, a, b),
                    ) by {
                        let x = areas_min(areas@, i as int, a, b);
                        let y = links_min(areas@[i as int], j as int, a, b);
                        let z = link_hours_for(areas@[i as int], link, a, b);
                        assert(areas@[i as int].connections@[j as int] == link);
                        lemma_min_opt_assoc(x, y, z);
                        assert(edge_hours(e1, a, b) == (if a == id && b == link.to {
                            min_opt(edge_hours(e0, a, b), Some(h))
                        } else {
                            edge_hours(e0, a, b)
                        }));
                    }
                }
                j = j + 1;
            }
            proof {
                assert forall|a: u16, b: u16| #[trigger] edge_hours(edges@, a, b) == areas_min(
                    areas@,
                    i as int + 1,
                    a,
                    b,
                ) by {}
            }
            i = i + 1;
        }
        let c = AreaCatalog { areas, edges };
        proof {
            reveal(AreaCatalog::well_formed);
        }
        c
    }

    /// The area stored under `id` (the last one, should several share it).
    pub fn get(&self, id: u16) -> (r: Option<&AreaDef>)
        ensures
            r == (if last_index_of(self.area_list(), id, self.area_list().len() as int) >= 0 {
                Some(&self.area_list()[last_index_of(self.area_list(), id, self.area_list().len() as int)])
            } else {
                None
            }),
    {
        let mut n: usize = self.areas.len();
        while n > 0
            invariant
                n <= self.areas@.len(),
                last_index_of(self.area_list(), id, self.area_list().len() as int) == last_index_of(
                    self.areas@,
                    id,
                    n as int,
                ),
            decreases n,
        {
            if self.areas[n - 1].id == id {
                return Some(&self.areas[n - 1]);
            }
            n = n - 1;
        }
        None
    }

    /// The links leaving area `id`, in the order the graph holds them.
    pub fn neighbors(&self, id: u16) -> (r: Vec<AreaLink>)
        ensures
            r@ == links_from(self.edge_list(), id, self.edge_list().len() as int),
    {
        let mut out: Vec<AreaLink> = Vec::new();
        let mut k: usize = 0;
        while k < self.edges.len()
            invariant
                k <= self.edges@.len(),
                out@ == links_from(self.edges@, id, k as int),
            decreases self.edges.len() - k,
        {
            let e = self.edges[k];
            if e.from == id {
                out.push(AreaLink { to: e.to, hours: e.hours });
            }
            k = k + 1;
        }
        out
    }

    /// The name of area `id`, or "Region " and the id in decimal when the
    /// catalog has no such area.
    pub fn name_of(&self, id: u16) -> (r: String)
        ensures
            r@ == (if last_index_of(self.area_list(), id, self.area_list().len() as int) >= 0 {
                self.area_list()[last_index_of(self.area_list(), id, self.area_list().len() as int)].name@
            } else {
                "Region "@ + decimal(id as nat)
            }),
    {
        match self.get(id) {
            Some(a) => a.name.clone(),
            None => {
                let mut s = String::from_str("Region ");
                append_decimal(&mut s, id as u32);
                s
            },
        }
    }
}

/// Step `k` of the walk `p` follows an edge of the catalog's graph.
pub open spec fn step_ok(cat: AreaCatalog, p: Seq<u16>, k: int) -> bool {
    cat.edge(p[k], p[k + 1]) is Some
}

/// `p` walks the catalog's graph from `a` to `b`: it starts at `a`, ends at
/// `b`, and each step follows an edge.
pub open spec fn is_route(cat: AreaCatalog, p: Seq<u16>, a: u16, b: u16) -> bool {
    &&& p.len() >= 1
    &&& p[0] == a
    &&& p[p.len() - 1] == b
    &&& forall|k: int| 0 <= k < p.len() - 1 ==> #[trigger] step_ok(cat, p, k)
}

/// The hours a walk takes: the sum of its steps' edge hours.
pub open spec fn route_hours(cat: AreaCatalog, p: Seq<u16>) -> int
    decreases p.len(),
{
    if p.len() <= 1 {
        0
    } else {
        cat.edge(p[0], p[1])->0 + route_hours(cat, p.drop_first())
    }
}

/// Sum of a list of distances.
pub open spec fn dist_sum(s: Seq<u32>) -> int
    decreases s.len(),
{
    if s.len() == 0 {
        0
    } else {
        dist_sum(s.drop_last()) + s.last()
    }
}

proof fn lemma_dist_sum_update(s: Seq<u32>, i: int, x: u32)
    requires
        0 <= i < s.len(),
    ensures
        dist_sum(s.update(i, x)) == dist_sum(s) - s[i] + x,
        dist_sum(s) >= 0,
    decreases s.len(),
{
    if i == s.len() - 1 {
        assert(s.update(i, x).drop_last() =~= s.drop_last());
        lemma_dist_sum_nonneg(s.drop_last());
    } else {
        assert(s.update(i, x).drop_last() =~= s.drop_last().update(i, x));
        lemma_dist_sum_update(s.drop_last(), i, x);
    }
}

proof fn lemma_dist_sum_nonneg(s: Seq<u32>)
    ensures
        dist_sum(s) >= 0,
    decreases s.len(),
{
    if s.len() > 0 {
        lemma_dist_sum_nonneg(s.drop_last());
    }
}

proof fn lemma_links_min_pos(area: AreaDef, m: int, a: u16, b: u16)
    ensures
        links_min(area, m, a, b) matches Some(h) ==> h >= 1,
    decreases m,
{
    if m > 0 {
        lemma_links_min_pos(area, m - 1, a, b);
    }
}

proof fn lemma_areas_min_pos(areas: Seq<AreaDef>, n: int, a: u16, b: u16)
    ensures
        areas_min(areas, n, a, b) matches Some(h) ==> h >= 1,
    decreases n,
{
    if n > 0 {
        lemma_areas_min_pos(areas, n - 1, a, b);
        lemma_links_min_pos(areas[n - 1], areas[n - 1].connections@.len() as int, a, b);
    }
}

impl AreaCatalog {
    proof fn lemma_edge_at(&self, k: int)
        requires
            self.well_formed(),
            0 <= k < self.edges@.len(),
        ensures
            self.edge(self.edges@[k].from, self.edges@[k].to) == Some(self.edges@[k].hours),
            self.edges@[k].hours >= 1,
    {
        reveal(AreaCatalog::well_formed);
        lemma_edge_hours_at(self.edges@, k);
        lemma_areas_min_pos(
            self.areas@,
            self.areas@.len() as int,
            self.edges@[k].from,
            self.edges@[k].to,
        );
    }

    proof fn lemma_edge_listed(&self, a: u16, b: u16)
        requires
            self.well_formed(),
            self.edge(a, b) is Some,
        ensures
            exists|k: int|
                0 <= k < self.edges@.len() && (#[trigger] self.edges@[k]).from == a && self.edges@[k].to
                    == b && self.edges@[k].hours == self.edge(a, b)->0,
    {
        reveal(AreaCatalog::well_formed);
        let k = choose|k: int|
            0 <= k < self.edges@.len() && (#[trigger] self.edges@[k]).from == a && self.edges@[k].to == b;
        self.lemma_edge_at(k);
    }
}

/// No edge can be relaxed: each edge's head is no further than its tail
/// plus the edge's hours (capped at `u32::MAX`).
pub open spec fn relaxed(edges: Seq<Edge>, dist: Seq<u32>) -> bool {
    forall|k: int| 0 <= k < edges.len() ==> #[trigger] edge_relaxed(edges[k], dist)
}

/// The edge's head is no further than its tail plus its hours (capped at
/// `u32::MAX`).
pub open spec fn edge_relaxed(e: Edge, dist: Seq<u32>) -> bool {
    let s = dist[e.from as int] as int + e.hours as int;
    dist[e.to as int] as int <= if s < u32::MAX { s } else { u32::MAX as int }
}

proof fn lemma_parents_update(
    cat: AreaCatalog,
    from: u16,
    d: Seq<u32>,
    p: Seq<u16>,
    u: u16,
    v: u16,
    next: u32,
)
    requires
        d.len() == 65536,
        p.len() == 65536,
        parents_ok(cat, from, d, p),
        d[u as int] < u32::MAX,
        cat.edge(u, v) is Some,
        d[u as int] + cat.edge(u, v)->0 == next,
        next < d[v as int],
        v != from,
    ensures
        parents_ok(cat, from, d.update(v as int, next), p.update(v as int, u)),
{
    reveal(parents_ok);
    let nd = d.update(v as int, next);
    let np = p.update(v as int, u);
    assert forall|w: int| 0 <= w < 65536 && w != from && #[trigger] nd[w] < u32::MAX implies {
        let x = np[w];
        &&& nd[x as int] < u32::MAX
        &&& cat.edge(x, w as u16) is Some
        &&& nd[x as int] + cat.edge(x, w as u16)->0 <= nd[w]
    } by {
        if w == v as int {
            assert((w as u16) == v);
        } else {
            assert(d[w] < u32::MAX);
        }
    }
}

/// Every reached area other than the start has a parent one edge back
/// that is strictly closer.
#[verifier::opaque]
pub open spec fn parents_ok(cat: AreaCatalog, from: u16, dist: Seq<u32>, prev: Seq<u16>) -> bool {
    forall|v: int|
        0 <= v < 65536 && v != from && #[trigger] dist[v] < u32::MAX ==> {
            let u = prev[v];
            &&& dist[u as int] < u32::MAX
            &&& cat.edge(u, v as u16) is Some
            &&& dist[u as int] + cat.edge(u, v as u16)->0 <= dist[v]
        }
}

proof fn lemma_relaxed_lower_bound(cat: AreaCatalog, dist: Seq<u32>, p: Seq<u16>, a: u16, b: u16)
    requires
        cat.well_formed(),
        dist.len() == 65536,
        relaxed(cat.edge_list(), dist),
        is_route(cat, p, a, b),
    ensures
        dist[b as int] as int <= dist[a as int] + route_hours(cat, p),
    decreases p.len(),
{
    if p.len() > 1 {
        let q = p.drop_first();
        let c = p[1];
        assert(step_ok(cat, p, 0));
        assert forall|k: int| 0 <= k < q.len() - 1 implies #[trigger] step_ok(cat, q, k) by {
            assert(step_ok(cat, p, k + 1));
        }
        lemma_relaxed_lower_bound(cat, dist, q, c, b);
        cat.lemma_edge_listed(a, c);
        let k = choose|k: int|
            0 <= k < cat.edges@.len() && (#[trigger] cat.edges@[k]).from == a && cat.edges@[k].to == c
                && cat.edges@[k].hours == cat.edge(a, c)->0;
        assert(edge_relaxed(cat.edges@[k], dist));
    }
}

/// One pass of edge relaxation over the whole edge list. Distances only
/// shrink; a pass that changes nothing leaves every edge relaxed.
fn relax_pass(catalog: &AreaCatalog, from: u16, dist: &mut Vec<u32>, prev: &mut Vec<u16>) -> (changed: bool)
    requires
        catalog.well_formed(),
        old(dist)@.len() == 65536,
        old(prev)@.len() == 65536,
        old(dist)@[from as int] == 0,
        parents_ok(*catalog, from, old(dist)@, old(prev)@),
    ensures
        final(dist)@.len() == 65536,
        final(prev)@.len() == 65536,
        final(dist)@[from as int] == 0,
        parents_ok(*catalog, from, final(dist)@, final(prev)@),
        dist_sum(final(dist)@) <= dist_sum(old(dist)@),
        changed ==> dist_sum(final(dist)@) < dist_sum(old(dist)@),
        !changed ==> final(dist)@ == old(dist)@,
        !changed ==> relaxed(catalog.edge_list(), final(dist)@),
{
    let ghost cat = *catalog;
    let ghost start = dist@;
    let mut changed = false;
    let mut k: usize = 0;
    while k < catalog.edges.len()
        invariant
            cat == *catalog,
            cat.well_formed(),
            start == old(dist)@,
            dist@.len() == 65536,
            prev@.len() == 65536,
            dist@[from as int] == 0,
            parents_ok(cat, from, dist@, prev@),
            k <= catalog.edges@.len(),
            dist_sum(dist@) <= dist_sum(start),
            changed ==> dist_sum(dist@) < dist_sum(start),
            !changed ==> dist@ == start,
            !changed ==> forall|j: int| 0 <= j < k ==> #[trigger] edge_relaxed(catalog.edges@[j], dist@),
        decreases catalog.edges@.len() - k,
    {
        let e = catalog.edges[k];
        let du = dist[e.from as usize];
        if du < u32::MAX {
            let next = du.saturating_add(e.hours);
            if next < dist[e.to as usize] {
                proof {
                    cat.lemma_edge_at(k as int);
                    lemma_dist_sum_update(dist@, e.to as int, next);
                    lemma_parents_update(cat, from, dist@, prev@, e.from, e.to, next);
                }
                dist.set(e.to as usize, next);
                prev.set(e.to as usize, e.from);
                changed = true;
            }
        }
        k = k + 1;
    }
    changed
}

/// The cheapest route from `from` to `to` over the area graph, as its total
/// hours and the areas it passes (both ends included); `None` when no route
/// costs less than `u32::MAX` hours. From an area to itself the route is
/// that area alone, at zero hours.
pub fn plan_travel(catalog: &AreaCatalog, from: u16, to: u16) -> (r: Option<(u32, Vec<u16>)>)
    requires
        catalog.well_formed(),
    ensures
        match r {
            Some((total, path)) => {
                &&& is_route(*catalog, path@, from, to)
                &&& total == route_hours(*catalog, path@)
                &&& forall|q: Seq<u16>| #[trigger] is_route(*catalog, q, from, to) ==> route_hours(*catalog, q) >= total
            },
            None => forall|q: Seq<u16>|
                #[trigger] is_route(*catalog, q, from, to) ==> route_hours(*catalog, q) >= u32::MAX,
        },
{
    if from == to {
        let mut path: Vec<u16> = Vec::new();
        path.push(from);
        proof {
            assert forall|q: Seq<u16>| #[trigger] is_route(*catalog, q, from, to) implies route_hours(
                *catalog,
                q,
            ) >= 0 by {
                lemma_route_hours_nonneg(*catalog, q);
            }
        }
        return Some((0, path));
    }
    let ghost cat = *catalog;
    let mut dist: Vec<u32> = Vec::new();
    let mut prev: Vec<u16> = Vec::new();
    let mut n: usize = 0;
    while n < 65536
        invariant
            n <= 65536,
            dist@.len() == n,
            prev@.len() == n,
            forall|v: int| 0 <= v < n ==> #[trigger] dist@[v] == u32::MAX,
        decreases 65536 - n,
    {
        dist.push(u32::MAX);
        prev.push(0);
        n = n + 1;
    }
    dist.set(from as usize, 0);
    proof {
        reveal(parents_ok);
    }
    loop
        invariant
            cat == *catalog,
            cat.well_formed(),
            from != to,
            dist@.len() == 65536,
            prev@.len() == 65536,
            dist@[from as int] == 0,
            parents_ok(cat, from, dist@, prev@),
        ensures
            cat == *catalog,
            cat.well_formed(),
            dist@.len() == 65536,
            prev@.len() == 65536,
            dist@[from as int] == 0,
            parents_ok(cat, from, dist@, prev@),
            relaxed(cat.edge_list(), dist@),
        decreases dist_sum(dist@),
    {
        let changed = relax_pass(catalog, from, &mut dist, &mut prev);
        proof {
            lemma_dist_sum_nonneg(dist@);
        }
        if !changed {
            break;
        }
    }
    if dist[to as usize] == u32::MAX {
        proof {
            assert forall|q: Seq<u16>| #[trigger] is_route(*catalog, q, from, to) implies route_hours(
                *catalog,
                q,
            ) >= u32::MAX by {
                lemma_relaxed_lower_bound(cat, dist@, q, from, to);
            }
        }
        return None;
    }
    let total = dist[to as usize];
    // Walk parents back from the destination.
    let mut back: Vec<u16> = Vec::new();
    back.push(to);
    let mut cur: u16 = to;
    proof {
        assert(back@.reverse() =~= seq![to]);
    }
    while cur != from
        invariant
            cat == *catalog,
            cat.well_formed(),
            dist@.len() == 65536,
            prev@.len() == 65536,
            dist@[from as int] == 0,
            parents_ok(cat, from, dist@, prev@),
            dist@[cur as int] < u32::MAX,
            is_route(cat, back@.reverse(), cur, to),
            route_hours(cat, back@.reverse()) + dist@[cur as int] <= total,
            total == dist@[to as int],
            back@.len() >= 1,
            back@.len() <= 65536 - dist@[cur as int] + total,
        decreases dist@[cur as int],
    {
        let parent = prev[cur as usize];
        proof {
            reveal(parents_ok);
            assert(dist@[cur as int] < u32::MAX);
            let h = cat.edge(parent, cur)->0;
            cat.lemma_edge_listed(parent, cur);
            let k = choose|k: int|
                0 <= k < cat.edges@.len() && (#[trigger] cat.edges@[k]).from == parent && cat.edges@[k].to == cur
                    && cat.edges@[k].hours == cat.edge(parent, cur)->0;
            cat.lemma_edge_at(k);
            let old_rev = back@.reverse();
            let new_rev = back@.push(parent).reverse();
            assert(new_rev =~= seq![parent] + old_rev);
            assert(new_rev.drop_first() =~= old_rev);
            assert forall|j: int| 0 <= j < new_rev.len() - 1 implies #[trigger] step_ok(cat, new_rev, j) by {
                if j > 0 {
                    assert(step_ok(cat, old_rev, j - 1));
                    assert(new_rev[j] == old_rev[j - 1]);
                    assert(new_rev[j + 1] == old_rev[j]);
                }
            }
        }
        back.push(parent);
        cur = parent;
    }
    let mut path: Vec<u16> = Vec::new();
    let mut i: usize = back.len();
    while i > 0
        invariant
            i <= back@.len(),
            path@ == back@.reverse().take(back@.len() - i),
        decreases i,
    {
        i = i - 1;
        path.push(back[i]);
        assert(path@ =~= back@.reverse().take(back@.len() - i));
    }
    proof {
        assert(path@ =~= back@.reverse());
        assert forall|q: Seq<u16>| #[trigger] is_route(*catalog, q, from, to) implies route_hours(*catalog, q)
            >= total by {
            lemma_relaxed_lower_bound(cat, dist@, q, from, to);
        }
        lemma_relaxed_lower_bound(cat, dist@, path@, from, to);
    }
    Some((total, path))
}

proof fn lemma_route_hours_nonneg(cat: AreaCatalog, p: Seq<u16>)
    ensures
        route_hours(cat, p) >= 0,
    decreases p.len(),
{
    if p.len() > 1 {
        lemma_route_hours_nonneg(cat, p.drop_first());
    }
}

/// The links `c` with a link to `to` at `hours` added unless one to `to`
/// is already there.
pub open spec fn with_link(c: Seq<AreaLink>, to: u16, hours: u32) -> Seq<AreaLink> {
    if links_to(c, to) {
        c
    } else {
        c.push(AreaLink { to, hours })
    }
}

/// The last authored area with id `id`, if any.
pub open spec fn authored_slot(authored: Seq<AreaDef>, id: int) -> Option<AreaDef> {
    let i = last_index_of(authored, id as u16, authored.len() as int);
    if i >= 0 {
        Some(authored[i])
    } else {
        None
    }
}

/// The terrain of block `id` of the filled grid: the authored area's, or the
/// generated one.
pub open spec fn grid_terrain(authored: Seq<AreaDef>, id: int) -> u8 {
    match authored_slot(authored, id) {
        Some(a) => a.terrain,
        None => spec_generated_terrain((id % 8) as u16, (id / 8) as u16),
    }
}

/// The links of block `id` once the grid links are added: to the right
/// neighbour (unless on the last column) and then to the one below (unless on
/// the last row), each costing the travel hours between the two terrains.
pub open spec fn grid_links(authored: Seq<AreaDef>, id: int, c: Seq<AreaLink>) -> Seq<AreaLink> {
    let here = grid_terrain(authored, id);
    let c1 = if id % 8 + 1 < 8 {
        with_link(c, (id + 1) as u16, spec_travel_hours(here, grid_terrain(authored, id + 1)))
    } else {
        c
    };
    if id / 8 + 1 < 8 {
        with_link(c1, (id + 8) as u16, spec_travel_hours(here, grid_terrain(authored, id + 8)))
    } else {
        c1
    }
}

/// Block `id` of the grid that `fill_world_grid` makes of `authored`.
pub open spec fn grid_area_ok(authored: Seq<AreaDef>, id: int, a: AreaDef) -> bool {
    match authored_slot(authored, id) {
        Some(b) => {
            &&& a.id == b.id
            &&& a.name == b.name
            &&& a.description == b.description
            &&& a.anchor == b.anchor
            &&& a.terrain == b.terrain
            &&& a.ui_x == b.ui_x
            &&& a.ui_y == b.ui_y
            &&& a.connections@ == grid_links(authored, id, b.connections@)
        },
        None => {
            let bx = (id % 8) as u16;
            let by = (id / 8) as u16;
            &&& a.id == id
            &&& a.terrain == spec_generated_terrain(bx, by)
            &&& a.name@ == spec_generated_name(id as u16, a.terrain)
            &&& a.description@ == spec_generated_description(a.terrain)
            &&& a.anchor.x == bx as int * 8 + 4
            &&& a.anchor.y == by as int * 8 + 4
            &&& a.ui_x == bx as int * 1000 / 7
            &&& a.ui_y == by as int * 1000 / 7
            &&& a.connections@ == grid_links(authored, id, seq![])
        },
    }
}

/// Expand authored areas to the whole 8×8 block grid: block `id` (row-major,
/// `id = bx + by * 8`) keeps the last authored area with that id or gets a
/// generated one, then is linked to its right and lower neighbours. The
/// result lists the 64 blocks in id order; authored areas outside the grid
/// are left out.
pub fn fill_world_grid(authored: Vec<AreaDef>) -> (r: Vec<AreaDef>)
    ensures
        r@.len() == 64,
        forall|id: int| 0 <= id < 64 ==> #[trigger] grid_area_ok(authored@, id, r@[id]),
{
    let ghost au = authored@;
    // Keep, per block, the last authored area with its id.
    let mut slots: Vec<Option<AreaDef>> = Vec::new();
    let mut n: usize = 0;
    while n < 64
        invariant
            n <= 64,
            slots@.len() == n,
            forall|j: int| 0 <= j < n ==> (#[trigger] slots@[j]) is None,
        decreases 64 - n,
    {
        slots.push(None);
        n = n + 1;
    }
    let mut rest = authored;
    proof {
        assert(rest@ =~= au.take(rest@.len() as int));
        assert forall|id: int| 0 <= id < 64 implies #[trigger] slots@[id] == (if last_index_of(
            au,
            id as u16,
            au.len() as int,
        ) >= rest@.len() {
            Some(au[last_index_of(au, id as u16, au.len() as int)])
        } else {
            None
        }) by {
            lemma_last_index_range(au, id as u16);
        }
    }
    while rest.len() > 0
        invariant
            slots@.len() == 64,
            rest@ == au.take(rest@.len() as int),
            rest@.len() <= au.len(),
            forall|id: int|
                0 <= id < 64 ==> #[trigger] slots@[id] == (if last_index_of(au, id as u16, au.len() as int)
                    >= rest@.len() {
                    Some(au[last_index_of(au, id as u16, au.len() as int)])
                } else {
                    None
                }),
        decreases rest@.len(),
    {
        let ghost m = rest@.len() as int;
        let a = rest.pop().unwrap();
        proof {
            assert(a == au[m - 1]);
            assert(rest@ =~= au.take(m - 1));
        }
        if a.id < 64 {
            let id = a.id as usize;
            let empty = match &slots[id] {
                None => true,
                Some(_) => false,
            };
            if empty {
                proof {
                    lemma_last_index_hit(au, a.id, m - 1);
                }
                slots.set(id, Some(a));
            } else {
                proof {
                    lemma_last_index_range(au, a.id);
                }
            }
        }
        proof {
            assert forall|id: int| 0 <= id < 64 implies #[trigger] slots@[id] == (if last_index_of(
                au,
                id as u16,
                au.len() as int,
            ) >= m - 1 {
                Some(au[last_index_of(au, id as u16, au.len() as int)])
            } else {
                None
            }) by {
                lemma_last_index_range(au, id as u16);
                if last_index_of(au, id as u16, au.len() as int) == m - 1 {
                    lemma_last_index_value(au, id as u16);
                }
            }
        }
    }
    // Fill the missing blocks.
    let mut bases: Vec<AreaDef> = Vec::new();
    let mut terrains: Vec<u8> = Vec::new();
    let mut id: usize = 0;
    while id < 64
        invariant
            id <= 64,
            slots@.len() == 64 - id,
            bases@.len() == id,
            terrains@.len() == id,
            forall|j: int|
                0 <= j < 64 - id ==> #[trigger] slots@[j] == authored_slot(au, j + id),
            forall|j: int| 0 <= j < id ==> #[trigger] base_ok(au, j, bases@[j]),
            forall|j: int| 0 <= j < id ==> #[trigger] terrains@[j] == grid_terrain(au, j),
        decreases 64 - id,
    {
        let ghost old_slots = slots@;
        let slot = slots.remove(0);
        proof {
            assert(old_slots[0] == authored_slot(au, 0 + id as int));
        }
        let a = match slot {
            Some(a) => a,
            None => {
                let g = generated_area(id as u16, (id % 8) as u16, (id / 8) as u16);
                assert(g.connections@ =~= Seq::<AreaLink>::empty());
                g
            },
        };
        assert(base_ok(au, id as int, a));
        let ghost old_bases = bases@;
        let ghost old_terrains = terrains@;
        terrains.push(a.terrain);
        bases.push(a);
        proof {
            assert forall|j: int| 0 <= j < id + 1 implies #[trigger] base_ok(au, j, bases@[j]) by {
                if j < id {
                    assert(bases@[j] == old_bases[j]);
                }
            }
            assert forall|j: int| 0 <= j < id + 1 implies #[trigger] terrains@[j] == grid_terrain(au, j) by {
                if j < id {
                    assert(terrains@[j] == old_terrains[j]);
                }
            }
            assert forall|j: int| 0 <= j < 64 - (id + 1) implies #[trigger] slots@[j] == authored_slot(
                au,
                j + id + 1,
            ) by {}
        }
        id = id + 1;
    }
    // Link each block to its right and lower neighbours.
    let mut out: Vec<AreaDef> = Vec::new();
    let mut id: usize = 0;
    while id < 64
        invariant
            id <= 64,
            bases@.len() == 64 - id,
            terrains@.len() == 64,
            out@.len() == id,
            forall|j: int| 0 <= j < 64 ==> #[trigger] terrains@[j] == grid_terrain(au, j),
            forall|j: int| 0 <= j < 64 - id ==> #[trigger] base_ok(au, j + id, bases@[j]),
            forall|j: int| 0 <= j < id ==> #[trigger] grid_area_ok(au, j, out@[j]),
        decreases 64 - id,
    {
        let ghost old_bases = bases@;
        let mut a = bases.remove(0);
        proof {
            assert(base_ok(au, 0 + id as int, old_bases[0]));
            assert(base_ok(au, id as int, a));
        }
        let here = a.terrain;
        if id % 8 + 1 < 8 {
            let to = id + 1;
            add_link(&mut a, to as u16, travel_hours(here, terrains[to]));
        }
        if id / 8 + 1 < 8 {
            let to = id + 8;
            add_link(&mut a, to as u16, travel_hours(here, terrains[to]));
        }
        let ghost old_out = out@;
        out.push(a);
        let ghost prev_id = id as int;
        id = id + 1;
        proof {
            assert forall|j: int| 0 <= j < 64 - id implies #[trigger] base_ok(au, j + id, bases@[j]) by {
                assert(base_ok(au, (j + 1) + prev_id, old_bases[j + 1]));
                assert(bases@[j] == old_bases[j + 1]);
                assert((j + 1) + prev_id == j + id);
            }
            assert forall|j: int| 0 <= j < id implies #[trigger] grid_area_ok(au, j, out@[j]) by {
                if j < prev_id {
                    assert(out@[j] == old_out[j]);
                }
            }
        }
    }
    out
}

/// Block `id` before its grid links: the last authored area with that id,
/// or a generated area.
pub open spec fn base_ok(authored: Seq<AreaDef>, id: int, a: AreaDef) -> bool {
    match authored_slot(authored, id) {
        Some(b) => a == b,
        None => {
            let bx = (id % 8) as u16;
            let by = (id / 8) as u16;
            &&& a.id == id
            &&& a.terrain == spec_generated_terrain(bx, by)
            &&& a.name@ == spec_generated_name(id as u16, a.terrain)
            &&& a.description@ == spec_generated_description(a.terrain)
            &&& a.anchor.x == bx as int * 8 + 4
            &&& a.anchor.y == by as int * 8 + 4
            &&& a.ui_x == bx as int * 1000 / 7
            &&& a.ui_y == by as int * 1000 / 7
            &&& a.connections@ == Seq::<AreaLink>::empty()
        },
    }
}

proof fn lemma_last_index_range(areas: Seq<AreaDef>, id: u16)
    ensures
        -1 <= last_index_of(areas, id, areas.len() as int) < areas.len(),
        last_index_of(areas, id, areas.len() as int) >= 0 ==> areas[last_index_of(
            areas,
            id,
            areas.len() as int,
        )].id == id,
{
    lemma_last_index_range_n(areas, id, areas.len() as int);
}

proof fn lemma_last_index_range_n(areas: Seq<AreaDef>, id: u16, n: int)
    requires
        n <= areas.len(),
    ensures
        -1 <= last_index_of(areas, id, n) < (if n < 0 { 0 } else { n }),
        last_index_of(areas, id, n) >= 0 ==> areas[last_index_of(areas, id, n)].id == id,
        forall|j: int| last_index_of(areas, id, n) < j < n ==> (#[trigger] areas[j]).id != id,
    decreases n,
{
    if n > 0 {
        lemma_last_index_range_n(areas, id, n - 1);
    }
}

proof fn lemma_last_index_hit(areas: Seq<AreaDef>, id: u16, i: int)
    requires
        0 <= i < areas.len(),
        areas[i].id == id,
    ensures
        last_index_of(areas, id, areas.len() as int) >= i,
{
    lemma_last_index_range_n(areas, id, areas.len() as int);
}

proof fn lemma_last_index_value(areas: Seq<AreaDef>, id: u16)
    ensures
        last_index_of(areas, id, areas.len() as int) >= 0 ==> areas[last_index_of(
            areas,
            id,
            areas.len() as int,
        )].id == id,
{
    lemma_last_index_range(areas, id);
}

/// The block that a tile lies in, as a number: `x / 8 + (y / 8) * 8` with
/// negative coordinates taken as zero.
pub open spec fn block_number(tile: Position) -> int {
    (if tile.x < 0 { 0 } else { tile.x as int }) / 8 + ((if tile.y < 0 { 0 } else { tile.y as int })
        / 8) * 8
}

/// The block that a tile lies in.
pub open spec fn block_of_tile(tile: Position) -> u16 {
    block_number(tile) as u16
}

/// The area the party is in, for routing: `current_area` when catalogued,
/// else the block under the player's tile when catalogued, else the first
/// catalogued area, else `current_area`.
pub fn current_area_node(catalog: &AreaCatalog, current_area: u16, player_tile: Position) -> (r: u16)
    requires
        block_number(player_tile) <= u16::MAX,
    ensures
        r == (if last_index_of(catalog.area_list(), current_area, catalog.area_list().len() as int) >= 0 {
            current_area
        } else if last_index_of(
            catalog.area_list(),
            block_of_tile(player_tile),
            catalog.area_list().len() as int,
        ) >= 0 {
            block_of_tile(player_tile)
        } else if catalog.area_list().len() > 0 {
            catalog.area_list()[0].id
        } else {
            current_area
        }),
{
    if catalog.get(current_area).is_some() {
        return current_area;
    }
    let x: i32 = if player_tile.x < 0 { 0 } else { player_tile.x };
    let y: i32 = if player_tile.y < 0 { 0 } else { player_tile.y };
    assert(x / 8 + (y / 8) * 8 <= u16::MAX);
    let bx: u16 = (x / REGION_SIZE) as u16;
    let by: u16 = (y / REGION_SIZE) as u16;
    let block_id: u16 = bx + by * BLOCKS_PER_ROW;
    if catalog.get(block_id).is_some() {
        return block_id;
    }
    if catalog.areas.len() > 0 {
        catalog.areas[0].id
    } else {
        current_area
    }
}

/// An area with the given particulars, anchored at tile `(x, y)`.
pub open spec fn is_area(
    a: AreaDef,
    id: u16,
    name: Seq<char>,
    description: Seq<char>,
    x: i32,
    y: i32,
    terrain: u8,
    ui_x: u32,
    ui_y: u32,
    links: Seq<AreaLink>,
) -> bool {
    &&& a.id == id
    &&& a.name@ == name
    &&& a.description@ == description
    &&& a.anchor == (Position { x, y })
    &&& a.terrain == terrain
    &&& a.ui_x == ui_x
    &&& a.ui_y == ui_y
    &&& a.connections@ == links
}

/// The built-in world: twelve areas on three rows of four blocks, each
/// linked to its right and lower neighbour.
pub open spec fn is_default_area_list(s: Seq<AreaDef>) -> bool {
    &&& s.len() == 12
    &&& is_area(s[0], 0, "Greenford Village"@, "Terraced rice paddies under the Mizuno banner; the road home."@, 3, 3, 1, 130, 180, seq![AreaLink { to: 1, hours: 5 }, AreaLink { to: 8, hours: 3 }])
    &&& is_area(s[1], 1, "Ironpass Castle Town"@, "A Takeda stronghold of forges and gates guarding the mountain pass."@, 11, 3, 3, 380, 180, seq![AreaLink { to: 2, hours: 3 }, AreaLink { to: 9, hours: 4 }])
    &&& is_area(s[2], 2, "Saltmarsh Crossing"@, "A reed-choked tidal ford where smugglers and pilgrims trade news."@, 19, 3, 1, 630, 180, seq![AreaLink { to: 3, hours: 4 }, AreaLink { to: 10, hours: 3 }])
    &&& is_area(s[3], 3, "Tideport Harbor"@, "A salt-bleached harbor of junk ships and foreign coin at the eastern shore."@, 27, 3, 1, 880, 180, seq![AreaLink { to: 11, hours: 4 }])
    &&& is_area(s[4], 8, "Mistwood"@, "A fog-bound old-growth forest; yokai are said to walk its deer trails."@, 3, 11, 2, 130, 500, seq![AreaLink { to: 9, hours: 2 }, AreaLink { to: 16, hours: 3 }])
    &&& is_area(s[5], 9, "Kaze Shrine Vale"@, "A wind-bell shrine in a quiet valley, sacred to the Kamishin rites."@, 11, 11, 1, 380, 500, seq![AreaLink { to: 10, hours: 3 }, AreaLink { to: 17, hours: 2 }])
    &&& is_area(s[6], 10, "Oni's Hollow"@, "A scarred hollow where the veil thins and the kegare runs deep."@, 19, 11, 2, 630, 500, seq![AreaLink { to: 11, hours: 3 }, AreaLink { to: 18, hours: 4 }])
    &&& is_area(s[7], 11, "Cinderpeak Mine"@, "Terraced ore galleries cut into a smoking peak; the Takeda's iron heart."@, 27, 11, 3, 880, 500, seq![AreaLink { to: 19, hours: 3 }])
    &&& is_area(s[8], 16, "Reedlight Hamlet"@, "A lamp-lit cluster of stilt houses where the marsh meets the southern road."@, 3, 19, 1, 130, 820, seq![AreaLink { to: 17, hours: 3 }])
    &&& is_area(s[9], 17, "Hollowfen"@, "A drowned forest of black water and will-o'-wisps; few return by night."@, 11, 19, 2, 380, 820, seq![AreaLink { to: 18, hours: 4 }])
    &&& is_area(s[10], 18, "Thunder Terraces"@, "Storm-wracked highland steps where mountain ascetics test the Kiho."@, 19, 19, 3, 630, 820, seq![AreaLink { to: 19, hours: 3 }])
    &&& is_area(s[11], 19, "Lantern Bay"@, "A southern cove of paper lanterns and quiet tea-houses below the cliffs."@, 27, 19, 1, 880, 820, Seq::<AreaLink>::empty())
}

fn area(
    id: u16,
    name: &str,
    description: &str,
    x: i32,
    y: i32,
    terrain: u8,
    ui_x: u32,
    ui_y: u32,
    connections: Vec<AreaLink>,
) -> (a: AreaDef)
    ensures
        is_area(a, id, name@, description@, x, y, terrain, ui_x, ui_y, connections@),
{
    AreaDef {
        id,
        name: String::from_str(name),
        description: String::from_str(description),
        anchor: Position { x, y },
        terrain,
        ui_x,
        ui_y,
        connections,
    }
}

/// The built-in areas, used when no area data could be loaded.
pub fn seed_default_areas() -> (r: Vec<AreaDef>)
    ensures
        is_default_area_list(r@),
{
    let r = vec![
        area(0, "Greenford Village", "Terraced rice paddies under the Mizuno banner; the road home.", 3, 3, 1, 130, 180, vec![AreaLink { to: 1, hours: 5 }, AreaLink { to: 8, hours: 3 }]),
        area(1, "Ironpass Castle Town", "A Takeda stronghold of forges and gates guarding the mountain pass.", 11, 3, 3, 380, 180, vec![AreaLink { to: 2, hours: 3 }, AreaLink { to: 9, hours: 4 }]),
        area(2, "Saltmarsh Crossing", "A reed-choked tidal ford where smugglers and pilgrims trade news.", 19, 3, 1, 630, 180, vec![AreaLink { to: 3, hours: 4 }, AreaLink { to: 10, hours: 3 }]),
        area(3, "Tideport Harbor", "A salt-bleached harbor of junk ships and foreign coin at the eastern shore.", 27, 3, 1, 880, 180, vec![AreaLink { to: 11, hours: 4 }]),
        area(8, "Mistwood", "A fog-bound old-growth forest; yokai are said to walk its deer trails.", 3, 11, 2, 130, 500, vec![AreaLink { to: 9, hours: 2 }, AreaLink { to: 16, hours: 3 }]),
        area(9, "Kaze Shrine Vale", "A wind-bell shrine in a quiet valley, sacred to the Kamishin rites.", 11, 11, 1, 380, 500, vec![AreaLink { to: 10, hours: 3 }, AreaLink { to: 17, hours: 2 }]),
        area(10, "Oni's Hollow", "A scarred hollow where the veil thins and the kegare runs deep.", 19, 11, 2, 630, 500, vec![AreaLink { to: 11, hours: 3 }, AreaLink { to: 18, hours: 4 }]),
        area(11, "Cinderpeak Mine", "Terraced ore galleries cut into a smoking peak; the Takeda's iron heart.", 27, 11, 3, 880, 500, vec![AreaLink { to: 19, hours: 3 }]),
        area(16, "Reedlight Hamlet", "A lamp-lit cluster of stilt houses where the marsh meets the southern road.", 3, 19, 1, 130, 820, vec![AreaLink { to: 17, hours: 3 }]),
        area(17, "Hollowfen", "A drowned forest of black water and will-o'-wisps; few return by night.", 11, 19, 2, 380, 820, vec![AreaLink { to: 18, hours: 4 }]),
        area(18, "Thunder Terraces", "Storm-wracked highland steps where mountain ascetics test the Kiho.", 19, 19, 3, 630, 820, vec![AreaLink { to: 19, hours: 3 }]),
        area(19, "Lantern Bay", "A southern cove of paper lanterns and quiet tea-houses below the cliffs.", 27, 19, 1, 880, 820, Vec::new()),
    ];
    proof {
        assert(r@[0].connections@ =~= seq![AreaLink { to: 1, hours: 5 }, AreaLink { to: 8, hours: 3 }]);
        assert(r@[1].connections@ =~= seq![AreaLink { to: 2, hours: 3 }, AreaLink { to: 9, hours: 4 }]);
        assert(r@[2].connections@ =~= seq![AreaLink { to: 3, hours: 4 }, AreaLink { to: 10, hours: 3 }]);
        assert(r@[3].connections@ =~= seq![AreaLink { to: 11, hours: 4 }]);
        assert(r@[4].connections@ =~= seq![AreaLink { to: 9, hours: 2 }, AreaLink { to: 16, hours: 3 }]);
        assert(r@[5].connections@ =~= seq![AreaLink { to: 10, hours: 3 }, AreaLink { to: 17, hours: 2 }]);
        assert(r@[6].connections@ =~= seq![AreaLink { to: 11, hours: 3 }, AreaLink { to: 18, hours: 4 }]);
        assert(r@[7].connections@ =~= seq![AreaLink { to: 19, hours: 3 }]);
        assert(r@[8].connections@ =~= seq![AreaLink { to: 17, hours: 3 }]);
        assert(r@[9].connections@ =~= seq![AreaLink { to: 18, hours: 4 }]);
        assert(r@[10].connections@ =~= seq![AreaLink { to: 19, hours: 3 }]);
        assert(r@[11].connections@ =~= Seq::<AreaLink>::empty());
    }
    r
}

impl AreaCatalog {
    /// The world from the areas a data file listed, or from the built-in
    /// areas when no file could be read (`None`) or it listed none; expanded
    /// to the whole block grid and joined into a graph.
    pub fn from_loaded(loaded: Option<Vec<AreaDef>>) -> (c: AreaCatalog)
        ensures
            c.area_list().len() == 64,
            c.well_formed(),
            forall|a: u16, b: u16| #[trigger] c.edge(a, b) == declared_hours(c.area_list(), a, b),
            match loaded {
                Some(v) if v@.len() > 0 => forall|id: int| 0 <= id < 64 ==> #[trigger] grid_area_ok(v@, id, c.area_list()[id]),
                _ => exists|s: Seq<AreaDef>| #[trigger] is_default_area_list(s) && forall|id: int| 0 <= id < 64 ==> #[trigger] grid_area_ok(s, id, c.area_list()[id]),
            },
    {
        let authored = match loaded {
            Some(v) => if v.len() > 0 { v } else { seed_default_areas() },
            None => seed_default_areas(),
        };
        let ghost src = authored@;
        let grid = fill_world_grid(authored);
        let ghost g = grid@;
        let c = AreaCatalog::from_areas(grid);
        proof {
            assert(c.area_list() == g);
            assert(forall|id: int| 0 <= id < 64 ==> #[trigger] grid_area_ok(src, id, c.area_list()[id]));
        }
        c
    }
}

/// The flavour name of a terrain.
pub open spec fn terrain_label(terrain: u8) -> Seq<char> {
    if terrain == 0 {
        "Road"@
    } else if terrain == 1 {
        "Plains"@
    } else if terrain == 2 {
        "Forest"@
    } else if terrain == 3 {
        "Mountains"@
    } else {
        "Wilds"@
    }
}

/// The flavour name of a terrain: road, plains, forest, mountains, or wilds
/// for anything else.
pub fn area_terrain_label(terrain: u8) -> (r: &'static str)
    ensures
        r@ == terrain_label(terrain),
{
    match terrain {
        0 => "Road",
        1 => "Plains",
        2 => "Forest",
        3 => "Mountains",
        _ => "Wilds",
    }
}

/// The columns and rows of blocks that the first `n` areas reach: one past
/// the highest column and row of their ids, and at least one each.
pub open spec fn extent_upto(areas: Seq<AreaDef>, n: int) -> (int, int)
    decreases n,
{
    if n <= 0 {
        (1, 1)
    } else {
        let (c, r) = extent_upto(areas, n - 1);
        let id = areas[n - 1].id;
        let c2 = id % 8 + 1;
        let r2 = id / 8 + 1;
        (if c2 > c { c2 as int } else { c }, if r2 > r { r2 as int } else { r })
    }
}

proof fn lemma_extent_bounds(areas: Seq<AreaDef>, n: int)
    ensures
        1 <= extent_upto(areas, n).0 <= 8,
        1 <= extent_upto(areas, n).1 <= 8192,
    decreases n,
{
    if n > 0 {
        lemma_extent_bounds(areas, n - 1);
    }
}

/// The block grid the catalog's areas span, as (columns, rows).
pub fn grid_extent(catalog: &AreaCatalog) -> (r: (u16, u16))
    ensures
        r.0 == extent_upto(catalog.area_list(), catalog.area_list().len() as int).0,
        r.1 == extent_upto(catalog.area_list(), catalog.area_list().len() as int).1,
{
    let mut cols: u16 = 1;
    let mut rows: u16 = 1;
    let mut i: usize = 0;
    while i < catalog.areas.len()
        invariant
            i <= catalog.areas@.len(),
            cols == extent_upto(catalog.areas@, i as int).0,
            rows == extent_upto(catalog.areas@, i as int).1,
        decreases catalog.areas@.len() - i,
    {
        let id = catalog.areas[i].id;
        let c2: u16 = id % BLOCKS_PER_ROW + 1;
        let r2: u16 = id / BLOCKS_PER_ROW + 1;
        if c2 > cols {
            cols = c2;
        }
        if r2 > rows {
            rows = r2;
        }
        i = i + 1;
    }
    (cols, rows)
}

/// The in-game clock at `tick`: "Day d · hh:mm", days counted from one.
pub open spec fn clock_text(tick: u32, ticks_per_hour: u32) -> Seq<char> {
    let total_hours = tick / ticks_per_hour;
    let minute = ((tick % ticks_per_hour) as int * 60 / ticks_per_hour as int) % 60;
    "Day "@ + decimal((total_hours / 24 + 1) as nat) + " · "@ + two_digits((total_hours % 24) as nat) + ":"@
        + two_digits(minute as nat)
}

/// The in-game clock at `tick`, e.g. "Day 3 · 07:05".
pub fn format_clock(tick: u32, ticks_per_hour: u32) -> (r: String)
    requires
        ticks_per_hour > 0,
        (tick % ticks_per_hour) * 60 <= u32::MAX,
    ensures
        r@ == clock_text(tick, ticks_per_hour),
{
    let total_hours = tick / ticks_per_hour;
    let day = total_hours / 24 + 1;
    let hour = total_hours % 24;
    let minute_ticks = tick % ticks_per_hour;
    let minute = (minute_ticks * 60 / ticks_per_hour) % 60;
    let mut out = String::from_str("Day ");
    append_decimal(&mut out, day);
    out.append(" · ");
    append_two_digits(&mut out, hour as u64);
    out.append(":");
    append_two_digits(&mut out, minute as u64);
    proof {
        assert(out@ =~= clock_text(tick, ticks_per_hour));
    }
    out
}

/// A span of in-game time: "Hh MMm", or "Mm" under an hour.
pub open spec fn duration_text(ticks: u32, seconds_per_tick: u32) -> Seq<char> {
    let secs: int = ticks as int * seconds_per_tick as int;
    let hours: int = secs / 3600;
    let minutes: int = (secs % 3600) / 60;
    if hours > 0 {
        decimal(hours as nat) + "h "@ + two_digits(minutes as nat) + "m"@
    } else {
        decimal(minutes as nat) + "m"@
    }
}

/// A span of `ticks` of in-game time, e.g. "2h 05m" or "40m".
pub fn format_duration(ticks: u32, seconds_per_tick: u32) -> (r: String)
    ensures
        r@ == duration_text(ticks, seconds_per_tick),
{
    assert(ticks as u64 * seconds_per_tick as u64 <= u64::MAX) by (nonlinear_arith);
    let secs: u64 = ticks as u64 * seconds_per_tick as u64;
    let hours = secs / 3600;
    let minutes = (secs % 3600) / 60;
    let mut out = String::new();
    if hours > 0 {
        append_decimal_u64(&mut out, hours);
        out.append("h ");
        append_two_digits(&mut out, minutes);
        out.append("m");
    } else {
        append_decimal_u64(&mut out, minutes);
        out.append("m");
    }
    proof {
        assert(out@ =~= duration_text(ticks, seconds_per_tick));
    }
    out
}

/// The name `name_of` gives area `id`.
pub open spec fn area_name(cat: AreaCatalog, id: u16) -> Seq<char> {
    if last_index_of(cat.area_list(), id, cat.area_list().len() as int) >= 0 {
        cat.area_list()[last_index_of(cat.area_list(), id, cat.area_list().len() as int)].name@
    } else {
        "Region "@ + decimal(id as nat)
    }
}

/// The description of area `id`, empty when the catalog has no such area.
pub open spec fn area_description(cat: AreaCatalog, id: u16) -> Seq<char> {
    if last_index_of(cat.area_list(), id, cat.area_list().len() as int) >= 0 {
        cat.area_list()[last_index_of(cat.area_list(), id, cat.area_list().len() as int)].description@
    } else {
        Seq::empty()
    }
}

fn description_of(catalog: &AreaCatalog, id: u16) -> (r: String)
    ensures
        r@ == area_description(*catalog, id),
{
    match catalog.get(id) {
        Some(a) => a.description.clone(),
        None => String::new(),
    }
}

/// The world map's opening text for the party's area.
pub open spec fn welcome_text(cat: AreaCatalog, here: u16) -> Seq<char> {
    "You are in "@ + area_name(cat, here) + ".\n\n"@ + area_description(cat, here)
        + "\n\nHover a region to see the route and arrival time."@
}

/// The world map's opening text: where the party is, and a prompt.
pub fn initial_info_text(catalog: &AreaCatalog, here: u16) -> (r: String)
    ensures
        r@ == welcome_text(*catalog, here),
{
    let name = catalog.name_of(here);
    let desc = description_of(catalog, here);
    let mut out = String::from_str("You are in ");
    out.append(name.as_str());
    out.append(".\n\n");
    out.append(desc.as_str());
    out.append("\n\nHover a region to see the route and arrival time.");
    proof {
        assert(out@ =~= welcome_text(*catalog, here));
    }
    out
}

/// The regions a path passes through, from the area ids under its first `n`
/// tiles (`None` off the map): each region named once per stretch, in order.
pub open spec fn region_names(cat: AreaCatalog, ids: Seq<Option<u16>>, n: int) -> (Seq<Seq<char>>, Option<u16>)
    decreases n,
{
    if n <= 0 {
        (Seq::empty(), None)
    } else {
        let (names, last) = region_names(cat, ids, n - 1);
        match ids[n - 1] {
            Some(id) => if last != Some(id) { (names.push(area_name(cat, id)), Some(id)) } else { (names, last) },
            None => (names, last),
        }
    }
}

/// The names of the regions a path passes through, given the area id under
/// each of its tiles.
pub fn route_region_names(catalog: &AreaCatalog, location_ids: &Vec<Option<u16>>) -> (r: Vec<String>)
    ensures
        r@.map_values(|s: String| s@) == region_names(*catalog, location_ids@, location_ids@.len() as int).0,
{
    let mut names: Vec<String> = Vec::new();
    let mut last: Option<u16> = None;
    let mut i: usize = 0;
    while i < location_ids.len()
        invariant
            i <= location_ids@.len(),
            names@.map_values(|s: String| s@) == region_names(*catalog, location_ids@, i as int).0,
            last == region_names(*catalog, location_ids@, i as int).1,
        decreases location_ids@.len() - i,
    {
        if let Some(id) = location_ids[i] {
            if last != Some(id) {
                let ghost before = names@;
                names.push(catalog.name_of(id));
                proof {
                    assert(names@.map_values(|s: String| s@) =~= before.map_values(|s: String| s@).push(
                        area_name(*catalog, id),
                    ));
                }
                last = Some(id);
            }
        }
        i = i + 1;
    }
    names
}

/// The pieces joined with `sep` between them.
pub open spec fn joined(parts: Seq<Seq<char>>, sep: Seq<char>) -> Seq<char>
    decreases parts.len(),
{
    if parts.len() == 0 {
        Seq::empty()
    } else if parts.len() == 1 {
        parts[0]
    } else {
        joined(parts.drop_last(), sep) + sep + parts.last()
    }
}

fn join_names(parts: &Vec<String>, sep: &str) -> (r: String)
    ensures
        r@ == joined(parts@.map_values(|p: String| p@), sep@),
{
    let ghost views = parts@.map_values(|p: String| p@);
    let mut out = String::new();
    let mut i: usize = 0;
    while i < parts.len()
        invariant
            i <= parts@.len(),
            views == parts@.map_values(|p: String| p@),
            out@ == joined(views.take(i as int), sep@),
        decreases parts@.len() - i,
    {
        proof {
            assert(views.take(i as int + 1).drop_last() =~= views.take(i as int));
        }
        if i > 0 {
            out.append(sep);
        }
        out.append(parts[i].as_str());
        proof {
            if i == 0 {
                assert(out@ =~= views.take(1)[0]);
            }
            assert(out@ =~= joined(views.take(i as int + 1), sep@));
        }
        i = i + 1;
    }
    proof {
        assert(views.take(parts@.len() as int) =~= views);
    }
    out
}

/// The world map's text for a hovered destination: its name and
/// description, then whether and how the party can get there. `route` is the
/// overland route from the party's tile to the destination's anchor, when
/// one exists: its length in ticks and the area id under each of its tiles.
pub open spec fn route_text(
    cat: AreaCatalog,
    here: u16,
    dest: u16,
    route: Option<(u32, Seq<Option<u16>>)>,
    now: u32,
    ticks_per_hour: u32,
    seconds_per_tick: u32,
) -> Seq<char> {
    let head = area_name(cat, dest) + "\n\n"@ + area_description(cat, dest);
    if dest == here {
        head + "\n\nYou are already here."@
    } else if last_index_of(cat.area_list(), dest, cat.area_list().len() as int) < 0 {
        head + "\n\nNo known route from here."@
    } else {
        match route {
            Some((ticks, ids)) => {
                let arrival = if now + ticks > u32::MAX { u32::MAX } else { (now + ticks) as u32 };
                head + "\n\nTravel time: "@ + duration_text(ticks, seconds_per_tick) + "\nArrive: "@
                    + clock_text(arrival, ticks_per_hour) + "\n\nRoute: "@
                    + joined(region_names(cat, ids, ids.len() as int).0, " → "@)
                    + "\n\n[ Click to depart ]"@
            },
            None => head + "\n\nNo overland route from here."@,
        }
    }
}

/// The world map's text for a hovered destination (see `route_text`).
pub fn route_info_text(
    catalog: &AreaCatalog,
    here: u16,
    dest: u16,
    route: Option<(u32, Vec<Option<u16>>)>,
    now: u32,
    ticks_per_hour: u32,
    seconds_per_tick: u32,
) -> (r: String)
    requires
        ticks_per_hour > 0,
        route matches Some((ticks, _)) ==> ((if now + ticks > u32::MAX { u32::MAX } else { (now + ticks) as u32 })
            % ticks_per_hour) * 60 <= u32::MAX,
    ensures
        r@ == route_text(
            *catalog,
            here,
            dest,
            match route { Some((t, ids)) => Some((t, ids@)), None => None },
            now,
            ticks_per_hour,
            seconds_per_tick,
        ),
{
    let mut out = catalog.name_of(dest);
    out.append("\n\n");
    let desc = description_of(catalog, dest);
    out.append(desc.as_str());
    if dest == here {
        out.append("\n\nYou are already here.");
        return out;
    }
    if catalog.get(dest).is_none() {
        out.append("\n\nNo known route from here.");
        return out;
    }
    match route {
        Some((ticks, ids)) => {
            let arrival = now.saturating_add(ticks);
            let names = route_region_names(catalog, &ids);
            out.append("\n\nTravel time: ");
            let d = format_duration(ticks, seconds_per_tick);
            out.append(d.as_str());
            out.append("\nArrive: ");
            let c = format_clock(arrival, ticks_per_hour);
            out.append(c.as_str());
            out.append("\n\nRoute: ");
            let j = join_names(&names, " → ");
            out.append(j.as_str());
            out.append("\n\n[ Click to depart ]");
            out
        },
        None => {
            out.append("\n\nNo overland route from here.");
            out
        },
    }
}

/// A tile of the world map: the area it belongs to and its terrain.
#[derive(Clone, Copy, Debug, PartialEq, Eq, Structural)]
pub struct MapTile {
    pub location_id: u16,
    pub type_id: u8,
}

/// The world map, row by row.
#[derive(Clone, Debug)]
pub struct MapTiles {
    pub tiles: Vec<Vec<MapTile>>,
}

/// The map's width: the length of its first row (zero without rows).
pub open spec fn map_width(rows: Seq<Vec<MapTile>>) -> int {
    if rows.len() > 0 { rows[0]@.len() as int } else { 0 }
}

/// Whether area `a`'s block holds the tile in row `ty`, column `tx`, on a
/// map `width` tiles wide.
pub open spec fn block_holds(a: AreaDef, ty: int, tx: int, width: int) -> bool {
    &&& ty / 8 == a.id as int / 8
    &&& tx / 8 == a.id as int % 8
    &&& tx < width
}

/// A tile after the first `n` areas are stamped in turn: each area whose
/// block holds it overwrites its area and terrain, so the last one wins.
pub open spec fn stamped(areas: Seq<AreaDef>, n: int, ty: int, tx: int, width: int, t: MapTile) -> MapTile
    decreases n,
{
    if n <= 0 {
        t
    } else if block_holds(areas[n - 1], ty, tx, width) {
        MapTile { location_id: areas[n - 1].id, type_id: areas[n - 1].terrain }
    } else {
        stamped(areas, n - 1, ty, tx, width, t)
    }
}

fn stamp_tile(areas: &Vec<AreaDef>, ty: usize, tx: usize, width: usize, t: MapTile) -> (r: MapTile)
    ensures
        r == stamped(areas@, areas@.len() as int, ty as int, tx as int, width as int, t),
{
    let mut cur = t;
    let mut k: usize = 0;
    while k < areas.len()
        invariant
            k <= areas@.len(),
            cur == stamped(areas@, k as int, ty as int, tx as int, width as int, t),
        decreases areas.len() - k,
    {
        let id = areas[k].id;
        if ty / 8 == id as usize / 8 && tx / 8 == id as usize % 8 && tx < width {
            cur = MapTile { location_id: id, type_id: areas[k].terrain };
        }
        k = k + 1;
    }
    cur
}

/// Stamp every catalogued area onto the map: each tile of an area's 8×8
/// block (within the map, whose width is its first row's) takes the area's
/// id and terrain, a later area overwriting an earlier one; other tiles
/// stay as they were, and the map keeps its shape.
pub fn stamp_areas_onto_map(map: &mut MapTiles, catalog: &AreaCatalog)
    ensures
        final(map).tiles@.len() == old(map).tiles@.len(),
        forall|y: int|
            0 <= y < old(map).tiles@.len() ==> (#[trigger] final(map).tiles@[y])@.len() == old(map).tiles@[y]@.len(),
        forall|y: int, x: int|
            0 <= y < old(map).tiles@.len() && 0 <= x < old(map).tiles@[y]@.len() ==> #[trigger] final(map).tiles@[y]@[x] == stamped(
                catalog.area_list(),
                catalog.area_list().len() as int,
                y,
                x,
                map_width(old(map).tiles@),
                old(map).tiles@[y]@[x],
            ),
{
    let ghost rows0 = map.tiles@;
    assert(catalog.area_list() == catalog.areas@);
    let width: usize = if map.tiles.len() > 0 { map.tiles[0].len() } else { 0 };
    let mut out: Vec<Vec<MapTile>> = Vec::new();
    let mut y: usize = 0;
    while y < map.tiles.len()
        invariant
            map.tiles@ == rows0,
            width == map_width(rows0),
            y <= rows0.len(),
            out@.len() == y,
            forall|j: int| 0 <= j < y ==> (#[trigger] out@[j])@.len() == rows0[j]@.len(),
            forall|j: int, x: int|
                0 <= j < y && 0 <= x < rows0[j]@.len() ==> #[trigger] out@[j]@[x] == stamped(
                    catalog.areas@,
                    catalog.areas@.len() as int,
                    j,
                    x,
                    width as int,
                    rows0[j]@[x],
                ),
        decreases rows0.len() - y,
    {
        let mut row: Vec<MapTile> = Vec::new();
        let mut x: usize = 0;
        while x < map.tiles[y].len()
            invariant
                map.tiles@ == rows0,
                y < rows0.len(),
                x <= rows0[y as int]@.len(),
                row@.len() == x,
                forall|i: int|
                    0 <= i < x ==> #[trigger] row@[i] == stamped(
                        catalog.areas@,
                        catalog.areas@.len() as int,
                        y as int,
                        i,
                        width as int,
                        rows0[y as int]@[i],
                    ),
            decreases rows0[y as int]@.len() - x,
        {
            let t = map.tiles[y][x];
            row.push(stamp_tile(&catalog.areas, y, x, width, t));
            x = x + 1;
        }
        out.push(row);
        y = y + 1;
    }
    map.tiles = out;
}

proof fn lemma_links_min_symmetric(area: AreaDef, m: int, a: u16, b: u16)
    ensures
        links_min(area, m, a, b) == links_min(area, m, b, a),
    decreases m,
{
    if m > 0 {
        lemma_links_min_symmetric(area, m - 1, a, b);
    }
}

proof fn lemma_areas_min_symmetric(areas: Seq<AreaDef>, n: int, a: u16, b: u16)
    ensures
        areas_min(areas, n, a, b) == areas_min(areas, n, b, a),
    decreases n,
{
    if n > 0 {
        lemma_areas_min_symmetric(areas, n - 1, a, b);
        lemma_links_min_symmetric(areas[n - 1], areas[n - 1].connections@.len() as int, a, b);
    }
}

proof fn lemma_route_hours_push(cat: AreaCatalog, p: Seq<u16>, x: u16)
    requires
        p.len() >= 1,
    ensures
        route_hours(cat, p.push(x)) == route_hours(cat, p) + cat.edge(p[p.len() - 1], x)->0,
    decreases p.len(),
{
    let q = p.push(x);
    assert(q[0] == p[0]);
    if p.len() == 1 {
        assert(q.drop_first() =~= seq![x]);
        assert(q[1] == x);
        assert(route_hours(cat, seq![x]) == 0);
    } else {
        assert(q.drop_first() =~= p.drop_first().push(x));
        assert(q[1] == p[1]);
        lemma_route_hours_push(cat, p.drop_first(), x);
        assert(p.drop_first()[p.drop_first().len() - 1] == p[p.len() - 1]);
    }
}

proof fn lemma_reverse_hours(cat: AreaCatalog, q: Seq<u16>)
    requires
        q.len() >= 1,
        forall|x: u16, y: u16| #[trigger] cat.edge(x, y) == cat.edge(y, x),
    ensures
        route_hours(cat, q.reverse()) == route_hours(cat, q),
    decreases q.len(),
{
    if q.len() > 1 {
        let rest = q.drop_first();
        assert(q.reverse() =~= rest.reverse().push(q[0]));
        lemma_reverse_hours(cat, rest);
        lemma_route_hours_push(cat, rest.reverse(), q[0]);
        assert(rest.reverse()[rest.len() - 1] == q[1]);
        assert(cat.edge(q[1], q[0]) == cat.edge(q[0], q[1]));
    }
}

/// Law: the area graph is undirected, so every journey can be walked back
/// the way it came, through the same areas in reverse, in the same hours.
/// It holds of every catalog whose edges are the declared links (as
/// `AreaCatalog::from_areas` and `AreaCatalog::from_loaded` build them).
pub proof fn lemma_journeys_reverse(cat: AreaCatalog, q: Seq<u16>, a: u16, b: u16)
    requires
        forall|x: u16, y: u16| #[trigger] cat.edge(x, y) == declared_hours(cat.area_list(), x, y),
        is_route(cat, q, a, b),
    ensures
        is_route(cat, q.reverse(), b, a),
        route_hours(cat, q.reverse()) == route_hours(cat, q),
{
    assert forall|x: u16, y: u16| #[trigger] cat.edge(x, y) == cat.edge(y, x) by {
        lemma_areas_min_symmetric(cat.area_list(), cat.area_list().len() as int, x, y);
        assert(cat.edge(x, y) == declared_hours(cat.area_list(), x, y));
        assert(cat.edge(y, x) == declared_hours(cat.area_list(), y, x));
    }
    let r = q.reverse();
    let n = q.len();
    assert forall|k: int| 0 <= k < r.len() - 1 implies #[trigger] step_ok(cat, r, k) by {
        assert(step_ok(cat, q, n - 2 - k));
        assert(r[k] == q[n - 1 - k]);
        assert(r[k + 1] == q[n - 2 - k]);
        assert(cat.edge(q[n - 2 - k], q[n - 1 - k]) == cat.edge(q[n - 1 - k], q[n - 2 - k]));
    }
    lemma_reverse_hours(cat, q);
}

proof fn lemma_links_min_some(area: AreaDef, m: int, a: u16, b: u16, j: int)
    requires
        0 <= j < m <= area.connections@.len(),
        area.id == a,
        area.connections@[j].to == b,
    ensures
        links_min(area, m, a, b) is Some,
    decreases m,
{
    if j < m - 1 {
        lemma_links_min_some(area, m - 1, a, b, j);
    }
}

proof fn lemma_areas_min_some(areas: Seq<AreaDef>, n: int, a: u16, b: u16, k: int)
    requires
        0 <= k < n <= areas.len(),
        areas[k].id == a,
        links_to(areas[k].connections@, b),
    ensures
        areas_min(areas, n, a, b) is Some,
    decreases n,
{
    if k < n - 1 {
        lemma_areas_min_some(areas, n - 1, a, b, k);
    } else {
        let j = choose|j: int| 0 <= j < areas[k].connections@.len() && (#[trigger] areas[k].connections@[j]).to == b;
        lemma_links_min_some(areas[k], areas[k].connections@.len() as int, a, b, j);
    }
}

proof fn lemma_with_link(c: Seq<AreaLink>, to: u16, hours: u32, other: u16)
    ensures
        links_to(with_link(c, to, hours), to),
        links_to(c, other) ==> links_to(with_link(c, to, hours), other),
{
    if !links_to(c, to) {
        let w = c.push(AreaLink { to, hours });
        assert(w[c.len() as int].to == to);
        if links_to(c, other) {
            let k = choose|k: int| 0 <= k < c.len() && (#[trigger] c[k]).to == other;
            assert(w[k].to == other);
        }
    }
}

proof fn lemma_grid_block_links(authored: Seq<AreaDef>, id: int, a: AreaDef)
    requires
        0 <= id < 64,
        grid_area_ok(authored, id, a),
    ensures
        a.id == id,
        id % 8 < 7 ==> links_to(a.connections@, (id + 1) as u16),
        id / 8 < 7 ==> links_to(a.connections@, (id + 8) as u16),
{
    lemma_last_index_value(authored, id as u16);
    let c = match authored_slot(authored, id) {
        Some(b) => b.connections@,
        None => seq![],
    };
    let here = grid_terrain(authored, id);
    let c1 = if id % 8 + 1 < 8 {
        with_link(c, (id + 1) as u16, spec_travel_hours(here, grid_terrain(authored, id + 1)))
    } else {
        c
    };
    if id % 8 + 1 < 8 {
        lemma_with_link(c, (id + 1) as u16, spec_travel_hours(here, grid_terrain(authored, id + 1)), 0);
    }
    if id / 8 + 1 < 8 {
        lemma_with_link(c1, (id + 8) as u16, spec_travel_hours(here, grid_terrain(authored, id + 8)), (id + 1) as u16);
    }
    assert(a.connections@ == grid_links(authored, id, c));
}

proof fn lemma_route_push(cat: AreaCatalog, q: Seq<u16>, x: u16, y: u16, z: u16)
    requires
        is_route(cat, q, x, y),
        cat.edge(y, z) is Some,
    ensures
        is_route(cat, q.push(z), x, z),
{
    let p = q.push(z);
    assert forall|k: int| 0 <= k < p.len() - 1 implies #[trigger] step_ok(cat, p, k) by {
        if k < q.len() - 1 {
            assert(step_ok(cat, q, k));
            assert(p[k] == q[k] && p[k + 1] == q[k + 1]);
        } else {
            assert(p[k] == y && p[k + 1] == z);
        }
    }
}

/// Block `c` of row `r` in the 8×8 grid, by its area id.
pub open spec fn grid_block(r: int, c: int) -> u16 {
    (r * 8 + c) as u16
}

proof fn lemma_grid_route(cat: AreaCatalog, h: int, xr: int, xc: int, yr: int, yc: int)
    requires
        0 <= h,
        0 <= xr < 8,
        0 <= xc < 8,
        0 <= yr < 8,
        0 <= yc < 8,
        forall|a: u16, b: u16| (#[trigger] cat.edge(a, b)) is Some ==> cat.edge(a, b)->0 <= h,
        forall|r: int, c: int|
            0 <= r < 8 && 0 <= c < 7 ==> (#[trigger] cat.edge(grid_block(r, c), grid_block(r, c + 1))) is Some
                && cat.edge(grid_block(r, c + 1), grid_block(r, c)) is Some,
        forall|r: int, c: int|
            0 <= r < 7 && 0 <= c < 8 ==> (#[trigger] cat.edge(grid_block(r, c), grid_block(r + 1, c))) is Some
                && cat.edge(grid_block(r + 1, c), grid_block(r, c)) is Some,
    ensures
        exists|q: Seq<u16>|
            #[trigger] is_route(cat, q, grid_block(xr, xc), grid_block(yr, yc)) && route_hours(cat, q) <= h * (
            (if yc < xc { xc - yc } else { yc - xc }) + (if yr < xr { xr - yr } else { yr - xr })),
    decreases (if yc < xc { xc - yc } else { yc - xc }) + (if yr < xr { xr - yr } else { yr - xr }),
{
    let x = grid_block(xr, xc);
    let y = grid_block(yr, yc);
    let d = (if yc < xc { xc - yc } else { yc - xc }) + (if yr < xr { xr - yr } else { yr - xr });
    if xr == yr && xc == yc {
        assert(is_route(cat, seq![x], x, y) && route_hours(cat, seq![x]) == 0);
    } else {
        let (wr, wc) = if yc > xc {
            (yr, yc - 1)
        } else if yc < xc {
            (yr, yc + 1)
        } else if yr > xr {
            (yr - 1, yc)
        } else {
            (yr + 1, yc)
        };
        if yc > xc {
            assert(cat.edge(grid_block(yr, yc - 1), grid_block(yr, yc - 1 + 1)) is Some);
        } else if yc < xc {
            assert(cat.edge(grid_block(yr, yc), grid_block(yr, yc + 1)) is Some);
        } else if yr > xr {
            assert(cat.edge(grid_block(yr - 1, yc), grid_block(yr - 1 + 1, yc)) is Some);
        } else {
            assert(cat.edge(grid_block(yr, yc), grid_block(yr + 1, yc)) is Some);
        }
        let w = grid_block(wr, wc);
        let dw = (if wc < xc { xc - wc } else { wc - xc }) + (if wr < xr { xr - wr } else { wr - xr });
        assert(dw == d - 1);
        lemma_grid_route(cat, h, xr, xc, wr, wc);
        let q = choose|q: Seq<u16>| #[trigger] is_route(cat, q, x, w) && route_hours(cat, q) <= h * dw;
        lemma_route_push(cat, q, x, w, y);
        lemma_route_hours_push(cat, q, y);
        assert(cat.edge(w, y)->0 <= h);
        assert(h * dw + h == h * d) by (nonlinear_arith)
            requires
                dw == d - 1,
        ;
        assert(is_route(cat, q.push(y), x, y) && route_hours(cat, q.push(y)) <= h * d);
    }
}

/// The links all take at most `h` hours.
pub open spec fn links_within(c: Seq<AreaLink>, h: int) -> bool {
    forall|k: int| 0 <= k < c.len() ==> (#[trigger] c[k]).hours <= h
}

proof fn lemma_with_link_within(c: Seq<AreaLink>, to: u16, hours: u32, h: int)
    requires
        links_within(c, h),
        hours <= h,
    ensures
        links_within(with_link(c, to, hours), h),
{
    if !links_to(c, to) {
        let w = c.push(AreaLink { to, hours });
        assert forall|k: int| 0 <= k < w.len() implies (#[trigger] w[k]).hours <= h by {
            if k < c.len() {
                assert(w[k] == c[k]);
            }
        }
    }
}

proof fn lemma_grid_links_within(authored: Seq<AreaDef>, id: int, a: AreaDef, h: int)
    requires
        0 <= id < 64,
        8 <= h,
        grid_area_ok(authored, id, a),
        forall|i: int| 0 <= i < authored.len() ==> links_within(#[trigger] authored[i].connections@, h),
    ensures
        links_within(a.connections@, h),
{
    lemma_last_index_range(authored, id as u16);
    let c = match authored_slot(authored, id) {
        Some(b) => b.connections@,
        None => seq![],
    };
    if let Some(b) = authored_slot(authored, id) {
        let i = last_index_of(authored, id as u16, authored.len() as int);
        assert(links_within(authored[i].connections@, h));
    }
    let here = grid_terrain(authored, id);
    let h1 = spec_travel_hours(here, grid_terrain(authored, id + 1));
    let h8 = spec_travel_hours(here, grid_terrain(authored, id + 8));
    let c1 = if id % 8 + 1 < 8 {
        with_link(c, (id + 1) as u16, h1)
    } else {
        c
    };
    lemma_with_link_within(c, (id + 1) as u16, h1, h);
    lemma_with_link_within(c1, (id + 8) as u16, h8, h);
    assert(a.connections@ == grid_links(authored, id, c));
}

proof fn lemma_links_min_within(area: AreaDef, m: int, a: u16, b: u16, h: int)
    requires
        1 <= h,
        0 <= m <= area.connections@.len(),
        links_within(area.connections@, h),
    ensures
        links_min(area, m, a, b) is Some ==> links_min(area, m, a, b)->0 <= h,
    decreases m,
{
    if m > 0 {
        lemma_links_min_within(area, m - 1, a, b, h);
        assert(area.connections@[m - 1].hours <= h);
    }
}

proof fn lemma_areas_min_within(areas: Seq<AreaDef>, n: int, a: u16, b: u16, h: int)
    requires
        1 <= h,
        0 <= n <= areas.len(),
        forall|i: int| 0 <= i < areas.len() ==> links_within(#[trigger] areas[i].connections@, h),
    ensures
        areas_min(areas, n, a, b) is Some ==> areas_min(areas, n, a, b)->0 <= h,
    decreases n,
{
    if n > 0 {
        lemma_areas_min_within(areas, n - 1, a, b, h);
        assert(links_within(areas[n - 1].connections@, h));
        lemma_links_min_within(areas[n - 1], areas[n - 1].connections@.len() as int, a, b, h);
    }
}

proof fn lemma_grid_edges(authored: Seq<AreaDef>, cat: AreaCatalog)
    requires
        cat.area_list().len() == 64,
        forall|id: int| 0 <= id < 64 ==> #[trigger] grid_area_ok(authored, id, cat.area_list()[id]),
        forall|a: u16, b: u16| #[trigger] cat.edge(a, b) == declared_hours(cat.area_list(), a, b),
    ensures
        forall|r: int, c: int|
            0 <= r < 8 && 0 <= c < 7 ==> (#[trigger] cat.edge(grid_block(r, c), grid_block(r, c + 1))) is Some
                && cat.edge(grid_block(r, c + 1), grid_block(r, c)) is Some,
        forall|r: int, c: int|
            0 <= r < 7 && 0 <= c < 8 ==> (#[trigger] cat.edge(grid_block(r, c), grid_block(r + 1, c))) is Some
                && cat.edge(grid_block(r + 1, c), grid_block(r, c)) is Some,
{
    let g = cat.area_list();
    assert forall|r: int, c: int| 0 <= r < 8 && 0 <= c < 7 implies (#[trigger] cat.edge(
        grid_block(r, c),
        grid_block(r, c + 1),
    )) is Some && cat.edge(grid_block(r, c + 1), grid_block(r, c)) is Some by {
        let i = r * 8 + c;
        assert(i % 8 == c && i / 8 == r) by (nonlinear_arith)
            requires
                i == r * 8 + c,
                0 <= c < 8,
                0 <= r,
        ;
        assert(grid_area_ok(authored, i, g[i]));
        lemma_grid_block_links(authored, i, g[i]);
        lemma_areas_min_some(g, 64, i as u16, (i + 1) as u16, i);
        lemma_areas_min_symmetric(g, 64, i as u16, (i + 1) as u16);
        assert(cat.edge(i as u16, (i + 1) as u16) == declared_hours(g, i as u16, (i + 1) as u16));
        assert(cat.edge((i + 1) as u16, i as u16) == declared_hours(g, (i + 1) as u16, i as u16));
        assert(grid_block(r, c + 1) == (i + 1) as u16);
    }
    assert forall|r: int, c: int| 0 <= r < 7 && 0 <= c < 8 implies (#[trigger] cat.edge(
        grid_block(r, c),
        grid_block(r + 1, c),
    )) is Some && cat.edge(grid_block(r + 1, c), grid_block(r, c)) is Some by {
        let i = r * 8 + c;
        assert(i % 8 == c && i / 8 == r) by (nonlinear_arith)
            requires
                i == r * 8 + c,
                0 <= c < 8,
                0 <= r,
        ;
        assert(grid_area_ok(authored, i, g[i]));
        lemma_grid_block_links(authored, i, g[i]);
        lemma_areas_min_some(g, 64, i as u16, (i + 8) as u16, i);
        lemma_areas_min_symmetric(g, 64, i as u16, (i + 8) as u16);
        assert(cat.edge(i as u16, (i + 8) as u16) == declared_hours(g, i as u16, (i + 8) as u16));
        assert(cat.edge((i + 8) as u16, i as u16) == declared_hours(g, (i + 8) as u16, i as u16));
        assert(grid_block(r + 1, c) == (i + 8) as u16);
    }
}

proof fn lemma_grid_coords(x: u16)
    requires
        x < 64,
    ensures
        0 <= x as int / 8 < 8,
        0 <= x as int % 8 < 8,
        grid_block(x as int / 8, x as int % 8) == x,
{
    let xi = x as int;
    assert(xi == (xi / 8) * 8 + xi % 8 && 0 <= xi % 8 < 8 && 0 <= xi / 8 < 8) by (nonlinear_arith)
        requires
            0 <= xi < 64,
    ;
}

/// Law: the filled world grid is connected: in a catalog of the 64 blocks
/// `fill_world_grid` gives (with its edges the declared links, as
/// `AreaCatalog::from_areas` builds them), a route joins every block to
/// every other.
pub proof fn lemma_world_grid_connected(authored: Seq<AreaDef>, cat: AreaCatalog, x: u16, y: u16)
    requires
        cat.area_list().len() == 64,
        forall|id: int| 0 <= id < 64 ==> #[trigger] grid_area_ok(authored, id, cat.area_list()[id]),
        forall|a: u16, b: u16| #[trigger] cat.edge(a, b) == declared_hours(cat.area_list(), a, b),
        x < 64,
        y < 64,
    ensures
        exists|q: Seq<u16>| #[trigger] is_route(cat, q, x, y),
{
    lemma_grid_edges(authored, cat);
    lemma_grid_coords(x);
    lemma_grid_coords(y);
    lemma_grid_route(cat, 0xffff_ffff, x as int / 8, x as int % 8, y as int / 8, y as int % 8);
}

/// Law: route planning succeeds on the filled world grid. When no authored
/// link takes more than `h` hours (and `h` covers the generated links, at
/// most eight hours), every block reaches every other within fourteen legs
/// of at most `h` hours each; so where `14 * h` stays below `u32::MAX`,
/// `plan_travel` (which fails only when every route takes `u32::MAX` hours
/// or more) finds a route between any two blocks.
pub proof fn lemma_world_grid_plannable(authored: Seq<AreaDef>, cat: AreaCatalog, h: int, x: u16, y: u16)
    requires
        8 <= h,
        forall|i: int| 0 <= i < authored.len() ==> links_within(#[trigger] authored[i].connections@, h),
        cat.area_list().len() == 64,
        forall|id: int| 0 <= id < 64 ==> #[trigger] grid_area_ok(authored, id, cat.area_list()[id]),
        forall|a: u16, b: u16| #[trigger] cat.edge(a, b) == declared_hours(cat.area_list(), a, b),
        x < 64,
        y < 64,
    ensures
        exists|q: Seq<u16>| #[trigger] is_route(cat, q, x, y) && route_hours(cat, q) <= 14 * h,
{
    let g = cat.area_list();
    assert forall|i: int| 0 <= i < g.len() implies links_within(#[trigger] g[i].connections@, h) by {
        assert(grid_area_ok(authored, i, g[i]));
        lemma_grid_links_within(authored, i, g[i], h);
    }
    assert forall|a: u16, b: u16| (#[trigger] cat.edge(a, b)) is Some implies cat.edge(a, b)->0 <= h by {
        lemma_areas_min_within(g, 64, a, b, h);
    }
    lemma_grid_edges(authored, cat);
    lemma_grid_coords(x);
    lemma_grid_coords(y);
    let xr = x as int / 8;
    let xc = x as int % 8;
    let yr = y as int / 8;
    let yc = y as int % 8;
    lemma_grid_route(cat, h, xr, xc, yr, yc);
    let d = (if yc < xc { xc - yc } else { yc - xc }) + (if yr < xr { xr - yr } else { yr - xr });
    assert(h * d <= 14 * h) by (nonlinear_arith)
        requires
            0 <= d <= 14,
            0 <= h,
    ;
}

} // verus!
