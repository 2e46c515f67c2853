//! What populating a room asks of the game: one command per decorative tile,
//! per non-empty collision cell and per entity.
use vstd::prelude::*;
use crate::room::RoomData;
use crate::schema::{strings_view, EntityInstance, EntityView, LayerView, TileInstance};

verus! {

/// One thing to create when a room becomes active.
#[derive(Debug, PartialEq, Eq)]
pub enum SpawnCommand {
    /// A sprite at `dest_px`, cut at `source_px` from tileset `tileset_id`.
    SpawnTile { tileset_id: u64, source_px: (i64, i64), dest_px: (i64, i64) },
    /// A static collider of one grid cell at `(column, row)`.
    SpawnCollider { cell: (u64, u64), code: u8 },
    /// A gameplay entity of type `kind` at `world_px`.
    SpawnEntity {
        kind: String,
        world_px: (i64, i64),
        width: Option<u64>,
        height: Option<u64>,
        tags: Vec<String>,
    },
}

pub ghost enum SpawnView {
    Tile { tileset_id: u64, source_px: (i64, i64), dest_px: (i64, i64) },
    Collider { cell: (u64, u64), code: u8 },
    Entity { kind: Seq<char>, world_px: (i64, i64), width: Option<u64>, height: Option<u64>, tags: Seq<Seq<char>> },
}

impl View for SpawnCommand {
    type V = SpawnView;

    open spec fn view(&self) -> SpawnView {
        match self {
            SpawnCommand::SpawnTile { tileset_id, source_px, dest_px } =>
                SpawnView::Tile { tileset_id: *tileset_id, source_px: *source_px, dest_px: *dest_px },
            SpawnCommand::SpawnCollider { cell, code } => SpawnView::Collider { cell: *cell, code: *code },
            SpawnCommand::SpawnEntity { kind, world_px, width, height, tags } => SpawnView::Entity {
                kind: kind@,
                world_px: *world_px,
                width: *width,
                height: *height,
                tags: strings_view(tags@),
            },
        }
    }
}

pub open spec fn commands_view(v: Seq<SpawnCommand>) -> Seq<SpawnView> {
    v.map_values(|c: SpawnCommand| c@)
}

/// One tile command per tile, in order.
pub open spec fn tile_commands(tileset_id: u64, tiles: Seq<TileInstance>) -> Seq<SpawnView> {
    Seq::new(
        tiles.len(),
        |i: int| SpawnView::Tile { tileset_id, source_px: tiles[i].source_px, dest_px: tiles[i].dest_px },
    )
}

/// One collider command per non-zero cell among the first `n`, in row-major
/// order; cell `i` lies at column `i % width`, row `i / width`.
pub open spec fn collider_commands(cells: Seq<u8>, width: u64, n: int) -> Seq<SpawnView>
    decreases n,
{
    if n <= 0 {
        Seq::empty()
    } else if cells[n - 1] != 0 {
        collider_commands(cells, width, n - 1).push(
            SpawnView::Collider { cell: (((n - 1) % width as int) as u64, ((n - 1) / width as int) as u64), code: cells[n - 1] },
        )
    } else {
        collider_commands(cells, width, n - 1)
    }
}

/// One entity command per entity, in order.
pub open spec fn entity_commands(entities: Seq<EntityView>) -> Seq<SpawnView> {
    Seq::new(
        entities.len(),
        |i: int| SpawnView::Entity {
            kind: entities[i].kind,
            world_px: entities[i].world_px,
            width: entities[i].width,
            height: entities[i].height,
            tags: entities[i].tags,
        },
    )
}

/// Tiles first, then colliders, then entities.
pub open spec fn spec_spawn_commands(room: crate::room::RoomDataView) -> Seq<SpawnView> {
    let tiles = match room.decoration {
        LayerView::AutoLayer { tileset_id, tiles, .. } => tile_commands(tileset_id, tiles),
        _ => Seq::empty(),
    };
    let colliders = match room.collision_grid {
        LayerView::IntGrid { width, cells, .. } => collider_commands(cells, width, cells.len() as int),
        _ => Seq::empty(),
    };
    let entities = match room.entities {
        LayerView::Entities { entities, .. } => entity_commands(entities),
        _ => Seq::empty(),
    };
    tiles + colliders + entities
}

fn copy_strings(v: &Vec<String>) -> (r: Vec<String>)
    ensures
        strings_view(r@) == strings_view(v@),
{
    let mut out: Vec<String> = Vec::new();
    let mut i: usize = 0;
    while i < v.len()
        invariant
            0 <= i <= v@.len(),
            out@.len() == i,
            forall|j: int| 0 <= j < i ==> #[trigger] out@[j]@ == v@[j]@,
        decreases v@.len() - i,
    {
        out.push(v[i].clone());
        i = i + 1;
    }
    assert(strings_view(out@) =~= strings_view(v@));
    out
}

fn entity_command(e: &EntityInstance) -> (r: SpawnCommand)
    ensures
        r@ == (SpawnView::Entity { kind: e@.kind, world_px: e.world_px, width: e.width, height: e.height, tags: e@.tags }),
{
    SpawnCommand::SpawnEntity {
        kind: e.kind.clone(),
        world_px: e.world_px,
        width: e.width,
        height: e.height,
        tags: copy_strings(&e.tags),
    }
}

/// The commands that populate a room: a sprite per decorative tile, a
/// collider per non-zero collision cell, an entity per placement.
pub fn spawn_commands(room: &RoomData) -> (r: Vec<SpawnCommand>)
    requires
        room.collision_grid.cells@.len() == room.collision_grid.width * room.collision_grid.height,
    ensures
        commands_view(r@) == spec_spawn_commands(room@),
{
    let mut out: Vec<SpawnCommand> = Vec::new();
    let tiles = &room.decoration.tiles;
    let tileset_id = room.decoration.tileset_id;
    let mut i: usize = 0;
    while i < tiles.len()
        invariant
            0 <= i <= tiles@.len(),
            commands_view(out@) =~= tile_commands(tileset_id, tiles@).take(i as int),
        decreases tiles@.len() - i,
    {
        let t = tiles[i];
        let ghost prev = out@;
        let c = SpawnCommand::SpawnTile { tileset_id, source_px: t.source_px, dest_px: t.dest_px };
        out.push(c);
        proof {
            assert(commands_view(out@) =~= commands_view(prev).push(c@));
            assert(tile_commands(tileset_id, tiles@).take(i + 1) =~= tile_commands(tileset_id, tiles@).take(i as int).push(c@));
        }
        i = i + 1;
    }
    assert(tile_commands(tileset_id, tiles@).take(tiles@.len() as int) =~= tile_commands(tileset_id, tiles@));
    let ghost before_colliders = commands_view(out@);
    let cells = &room.collision_grid.cells;
    let width = room.collision_grid.width;
    let height = room.collision_grid.height;
    let mut k: usize = 0;
    while k < cells.len()
        invariant
            0 <= k <= cells@.len(),
            cells@.len() == width * height,
            commands_view(out@) =~= before_colliders + collider_commands(cells@, width, k as int),
        decreases cells@.len() - k,
    {
        if cells[k] != 0 {
            assert(width > 0) by (nonlinear_arith)
                requires
                    cells@.len() == width * height,
                    k < cells@.len(),
            ;
            let cell: (u64, u64) = ((k as u64) % width, (k as u64) / width);
            let ghost prev = out@;
            let c = SpawnCommand::SpawnCollider { cell, code: cells[k] };
            out.push(c);
            proof {
                assert(commands_view(out@) =~= commands_view(prev).push(c@));
                assert(c@ == SpawnView::Collider {
                    cell: (((k as int) % width as int) as u64, ((k as int) / width as int) as u64),
                    code: cells@[k as int],
                });
                assert(collider_commands(cells@, width, k + 1) == collider_commands(cells@, width, k as int).push(c@));
            }
        }
        k = k + 1;
    }
    let ghost before_entities = commands_view(out@);
    let ents = &room.entities.entities;
    let mut m: usize = 0;
    while m < ents.len()
        invariant
            0 <= m <= ents@.len(),
            commands_view(out@) =~= before_entities + entity_commands(crate::schema::entities_view(ents@)).take(m as int),
        decreases ents@.len() - m,
    {
        let c = entity_command(&ents[m]);
        let ghost prev = out@;
        out.push(c);
        proof {
            let es = entity_commands(crate::schema::entities_view(ents@));
            assert(commands_view(out@) =~= commands_view(prev).push(c@));
            assert(es.take(m + 1) =~= es.take(m as int).push(c@));
        }
        m = m + 1;
    }
    assert(entity_commands(crate::schema::entities_view(ents@)).take(ents@.len() as int)
        =~= entity_commands(crate::schema::entities_view(ents@)));
    out
}

} // verus!
