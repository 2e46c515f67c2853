//! The room file and world index formats: typed records, their mathematical
//! views, and decoders from a JSON tree that accept a document exactly when
//! every required member is present and well typed.
use vstd::prelude::*;
use crate::json::{
    as_string, as_u8, field_array, field_i64, field_opt_u64, field_pair, field_str, field_u64, read_array,
    read_i64, read_opt_u64, read_pair, read_string, read_u64, spec_str, spec_u8, text_equals, JsonValue,
};

verus! {

/// Which of the three layer kinds a layer is.
#[derive(Debug, Clone, Copy, PartialEq, Eq, Structural)]
pub enum LayerKind {
    /// The collision grid.
    IntGrid,
    /// The decorative tile layer.
    AutoLayer,
    /// The entity placements.
    Entities,
}

/// One decorative tile: where it is cut from the tileset image and where it
/// is drawn in the room.
#[derive(Debug, Clone, Copy, PartialEq, Eq)]
pub struct TileInstance {
    pub source_px: (i64, i64),
    pub dest_px: (i64, i64),
    pub id: Option<u64>,
}

/// One entity placed in a room.
#[derive(Debug, PartialEq, Eq)]
pub struct EntityInstance {
    pub grid_cell: (i64, i64),
    pub kind: String,
    pub tags: Vec<String>,
    pub world_px: (i64, i64),
    pub width: Option<u64>,
    pub height: Option<u64>,
}

pub ghost struct EntityView {
    pub grid_cell: (i64, i64),
    pub kind: Seq<char>,
    pub tags: Seq<Seq<char>>,
    pub world_px: (i64, i64),
    pub width: Option<u64>,
    pub height: Option<u64>,
}

pub open spec fn strings_view(v: Seq<String>) -> Seq<Seq<char>> {
    v.map_values(|s: String| s@)
}

impl View for EntityInstance {
    type V = EntityView;

    open spec fn view(&self) -> EntityView {
        EntityView {
            grid_cell: self.grid_cell,
            kind: self.kind@,
            tags: strings_view(self.tags@),
            world_px: self.world_px,
            width: self.width,
            height: self.height,
        }
    }
}

pub open spec fn entities_view(v: Seq<EntityInstance>) -> Seq<EntityView> {
    v.map_values(|e: EntityInstance| e@)
}

/// One layer of a room file, tagged by its kind.
#[derive(Debug, PartialEq, Eq)]
pub enum LayerInstance {
    IntGrid { width: u64, height: u64, cells: Vec<u8> },
    AutoLayer { width: u64, height: u64, tileset_id: u64, tiles: Vec<TileInstance> },
    Entities { width: u64, height: u64, entities: Vec<EntityInstance> },
}

pub ghost enum LayerView {
    IntGrid { width: u64, height: u64, cells: Seq<u8> },
    AutoLayer { width: u64, height: u64, tileset_id: u64, tiles: Seq<TileInstance> },
    Entities { width: u64, height: u64, entities: Seq<EntityView> },
}

impl LayerView {
    pub open spec fn kind(self) -> LayerKind {
        match self {
            LayerView::IntGrid { .. } => LayerKind::IntGrid,
            LayerView::AutoLayer { .. } => LayerKind::AutoLayer,
            LayerView::Entities { .. } => LayerKind::Entities,
        }
    }
}

impl View for LayerInstance {
    type V = LayerView;

    open spec fn view(&self) -> LayerView {
        match self {
            LayerInstance::IntGrid { width, height, cells } =>
                LayerView::IntGrid { width: *width, height: *height, cells: cells@ },
            LayerInstance::AutoLayer { width, height, tileset_id, tiles } =>
                LayerView::AutoLayer { width: *width, height: *height, tileset_id: *tileset_id, tiles: tiles@ },
            LayerInstance::Entities { width, height, entities } =>
                LayerView::Entities { width: *width, height: *height, entities: entities_view(entities@) },
        }
    }
}

impl LayerInstance {
    /// The kind of this layer.
    pub fn kind(&self) -> (r: LayerKind)
        ensures
            r == self@.kind(),
    {
        match self {
            LayerInstance::IntGrid { .. } => LayerKind::IntGrid,
            LayerInstance::AutoLayer { .. } => LayerKind::AutoLayer,
            LayerInstance::Entities { .. } => LayerKind::Entities,
        }
    }
}

pub open spec fn layers_view(v: Seq<LayerInstance>) -> Seq<LayerView> {
    v.map_values(|l: LayerInstance| l@)
}

/// The contents of one room file.
#[derive(Debug, PartialEq, Eq)]
pub struct RoomFile {
    pub uid: u64,
    pub world_offset: (i64, i64),
    pub layers: Vec<LayerInstance>,
}

pub ghost struct RoomFileView {
    pub uid: u64,
    pub world_offset: (i64, i64),
    pub layers: Seq<LayerView>,
}

impl View for RoomFile {
    type V = RoomFileView;

    open spec fn view(&self) -> RoomFileView {
        RoomFileView { uid: self.uid, world_offset: self.world_offset, layers: layers_view(self.layers@) }
    }
}

/// An array of collision codes: every item must be a byte.
pub open spec fn cells_of(a: Seq<JsonValue>) -> Option<Seq<u8>> {
    if forall|i: int| 0 <= i < a.len() ==> #[trigger] spec_u8(a[i]) is Some {
        Some(Seq::new(a.len(), |i: int| spec_u8(a[i])->Some_0))
    } else {
        None
    }
}

/// An array of tag strings.
pub open spec fn tags_of(a: Seq<JsonValue>) -> Option<Seq<Seq<char>>> {
    if forall|i: int| 0 <= i < a.len() ==> #[trigger] spec_str(a[i]) is Some {
        Some(Seq::new(a.len(), |i: int| spec_str(a[i])->Some_0))
    } else {
        None
    }
}

/// An array of tile objects.
pub open spec fn tiles_of(a: Seq<JsonValue>) -> Option<Seq<TileInstance>> {
    if forall|i: int| 0 <= i < a.len() ==> #[trigger] spec_tile(a[i]) is Some {
        Some(Seq::new(a.len(), |i: int| spec_tile(a[i])->Some_0))
    } else {
        None
    }
}

/// An array of entity objects.
pub open spec fn entities_of(a: Seq<JsonValue>) -> Option<Seq<EntityView>> {
    if forall|i: int| 0 <= i < a.len() ==> #[trigger] spec_entity(a[i]) is Some {
        Some(Seq::new(a.len(), |i: int| spec_entity(a[i])->Some_0))
    } else {
        None
    }
}

/// An array of layer objects.
pub open spec fn layers_of(a: Seq<JsonValue>) -> Option<Seq<LayerView>> {
    if forall|i: int| 0 <= i < a.len() ==> #[trigger] spec_layer(a[i]) is Some {
        Some(Seq::new(a.len(), |i: int| spec_layer(a[i])->Some_0))
    } else {
        None
    }
}

/// A tile object: `src` and `px` pairs and an optional `id`.
pub open spec fn spec_tile(v: JsonValue) -> Option<TileInstance> {
    match (field_pair(v, "src"@), field_pair(v, "px"@), field_opt_u64(v, "id"@)) {
        (Some(s), Some(p), Some(id)) => Some(TileInstance { source_px: s, dest_px: p, id }),
        _ => None,
    }
}

/// An entity object.
pub open spec fn spec_entity(v: JsonValue) -> Option<EntityView> {
    match (
        field_pair(v, "__grid"@),
        field_str(v, "__identifier"@),
        field_array(v, "__tags"@),
        field_i64(v, "__worldX"@),
        field_i64(v, "__worldY"@),
        field_opt_u64(v, "width"@),
        field_opt_u64(v, "height"@),
    ) {
        (Some(g), Some(k), Some(t), Some(x), Some(y), Some(w), Some(h)) =>
            match tags_of(t) {
                Some(tags) => Some(EntityView { grid_cell: g, kind: k, tags, world_px: (x, y), width: w, height: h }),
                None => None,
            },
        _ => None,
    }
}

/// A layer object, told apart by its `__type` member. A collision grid must
/// hold exactly `width * height` cells.
pub open spec fn spec_layer(v: JsonValue) -> Option<LayerView> {
    match (field_str(v, "__type"@), field_u64(v, "__cWid"@), field_u64(v, "__cHei"@)) {
        (Some(t), Some(w), Some(h)) =>
            if t == "IntGrid"@ {
                match field_array(v, "intGridCsv"@) {
                    Some(a) => match cells_of(a) {
                        Some(cells) => if cells.len() == w * h {
                            Some(LayerView::IntGrid { width: w, height: h, cells })
                        } else {
                            None
                        },
                        None => None,
                    },
                    None => None,
                }
            } else if t == "AutoLayer"@ {
                match (field_u64(v, "__tilesetDefUid"@), field_array(v, "autoLayerTiles"@)) {
                    (Some(ts), Some(a)) => match tiles_of(a) {
                        Some(tiles) => Some(LayerView::AutoLayer { width: w, height: h, tileset_id: ts, tiles }),
                        None => None,
                    },
                    _ => None,
                }
            } else if t == "Entities"@ {
                match field_array(v, "entityInstances"@) {
                    Some(a) => match entities_of(a) {
                        Some(entities) => Some(LayerView::Entities { width: w, height: h, entities }),
                        None => None,
                    },
                    None => None,
                }
            } else {
                None
            },
        _ => None,
    }
}

/// A room file object.
pub open spec fn spec_room_file(v: JsonValue) -> Option<RoomFileView> {
    match (field_u64(v, "uid"@), field_i64(v, "worldX"@), field_i64(v, "worldY"@), field_array(v, "layerInstances"@)) {
        (Some(uid), Some(x), Some(y), Some(a)) => match layers_of(a) {
            Some(layers) => Some(RoomFileView { uid, world_offset: (x, y), layers }),
            None => None,
        },
        _ => None,
    }
}

fn decode_cells(a: &Vec<JsonValue>) -> (r: Option<Vec<u8>>)
    ensures
        r is Some == cells_of(a@) is Some,
        r is Some ==> r->Some_0@ == cells_of(a@)->Some_0,
{
    let mut out: Vec<u8> = Vec::new();
    let mut i: usize = 0;
    while i < a.len()
        invariant
            0 <= i <= a@.len(),
            out@.len() == i,
            forall|j: int| 0 <= j < i ==> spec_u8(#[trigger] a@[j]) is Some && out@[j] == spec_u8(a@[j])->Some_0,
        decreases a@.len() - i,
    {
        match as_u8(&a[i]) {
            Some(c) => out.push(c),
            None => {
                assert(!(forall|j: int| 0 <= j < a@.len() ==> #[trigger] spec_u8(a@[j]) is Some));
                return None;
            },
        }
        i = i + 1;
    }
    assert(out@ =~= cells_of(a@)->Some_0);
    Some(out)
}

fn decode_tags(a: &Vec<JsonValue>) -> (r: Option<Vec<String>>)
    ensures
        r is Some == tags_of(a@) is Some,
        r is Some ==> strings_view(r->Some_0@) == tags_of(a@)->Some_0,
{
    let mut out: Vec<String> = Vec::new();
    let mut i: usize = 0;
    while i < a.len()
        invariant
            0 <= i <= a@.len(),
            out@.len() == i,
            forall|j: int| 0 <= j < i ==> spec_str(#[trigger] a@[j]) is Some && out@[j]@ == spec_str(a@[j])->Some_0,
        decreases a@.len() - i,
    {
        match as_string(&a[i]) {
            Some(t) => out.push(t),
            None => {
                assert(!(forall|j: int| 0 <= j < a@.len() ==> #[trigger] spec_str(a@[j]) is Some));
                return None;
            },
        }
        i = i + 1;
    }
    assert(strings_view(out@) =~= tags_of(a@)->Some_0);
    Some(out)
}

/// Decodes a tile object.
pub fn decode_tile(v: &JsonValue) -> (r: Option<TileInstance>)
    ensures
        r == spec_tile(*v),
{
    match (read_pair(v, "src"), read_pair(v, "px"), read_opt_u64(v, "id")) {
        (Some(s), Some(p), Some(id)) => Some(TileInstance { source_px: s, dest_px: p, id }),
        _ => None,
    }
}

fn decode_tiles(a: &Vec<JsonValue>) -> (r: Option<Vec<TileInstance>>)
    ensures
        r is Some == tiles_of(a@) is Some,
        r is Some ==> r->Some_0@ == tiles_of(a@)->Some_0,
{
    let mut out: Vec<TileInstance> = Vec::new();
    let mut i: usize = 0;
    while i < a.len()
        invariant
            0 <= i <= a@.len(),
            out@.len() == i,
            forall|j: int| 0 <= j < i ==> spec_tile(#[trigger] a@[j]) is Some && out@[j] == spec_tile(a@[j])->Some_0,
        decreases a@.len() - i,
    {
        match decode_tile(&a[i]) {
            Some(t) => out.push(t),
            None => {
                assert(!(forall|j: int| 0 <= j < a@.len() ==> #[trigger] spec_tile(a@[j]) is Some));
                return None;
            },
        }
        i = i + 1;
    }
    assert(out@ =~= tiles_of(a@)->Some_0);
    Some(out)
}

/// Decodes an entity object.
pub fn decode_entity(v: &JsonValue) -> (r: Option<EntityInstance>)
    ensures
        r is Some == spec_entity(*v) is Some,
        r is Some ==> r->Some_0@ == spec_entity(*v)->Some_0,
{
    let g = read_pair(v, "__grid");
    let k = read_string(v, "__identifier");
    let t = read_array(v, "__tags");
    let x = read_i64(v, "__worldX");
    let y = read_i64(v, "__worldY");
    let w = read_opt_u64(v, "width");
    let h = read_opt_u64(v, "height");
    match (g, k, t, x, y, w, h) {
        (Some(g), Some(k), Some(t), Some(x), Some(y), Some(w), Some(h)) => match decode_tags(t) {
            Some(tags) => Some(EntityInstance { grid_cell: g, kind: k, tags, world_px: (x, y), width: w, height: h }),
            None => None,
        },
        _ => None,
    }
}

fn decode_entities(a: &Vec<JsonValue>) -> (r: Option<Vec<EntityInstance>>)
    ensures
        r is Some == entities_of(a@) is Some,
        r is Some ==> entities_view(r->Some_0@) == entities_of(a@)->Some_0,
{
    let mut out: Vec<EntityInstance> = Vec::new();
    let mut i: usize = 0;
    while i < a.len()
        invariant
            0 <= i <= a@.len(),
            out@.len() == i,
            forall|j: int| 0 <= j < i ==> spec_entity(#[trigger] a@[j]) is Some && out@[j]@ == spec_entity(a@[j])->Some_0,
        decreases a@.len() - i,
    {
        match decode_entity(&a[i]) {
            Some(e) => out.push(e),
            None => {
                assert(!(forall|j: int| 0 <= j < a@.len() ==> #[trigger] spec_entity(a@[j]) is Some));
                return None;
            },
        }
        i = i + 1;
    }
    assert(entities_view(out@) =~= entities_of(a@)->Some_0);
    Some(out)
}

/// Decodes a layer object; `None` for a missing or ill-typed member, for a
/// `__type` other than the three known kinds, and for a collision grid whose
/// cell count is not `width * height`.
pub fn decode_layer(v: &JsonValue) -> (r: Option<LayerInstance>)
    ensures
        r is Some == spec_layer(*v) is Some,
        r is Some ==> r->Some_0@ == spec_layer(*v)->Some_0,
{
    let t = read_string(v, "__type");
    let w = read_u64(v, "__cWid");
    let h = read_u64(v, "__cHei");
    match (t, w, h) {
        (Some(t), Some(w), Some(h)) => {
            if text_equals(&t, "IntGrid") {
                match read_array(v, "intGridCsv") {
                    Some(a) => match decode_cells(a) {
                        Some(cells) => {
                            let n: usize = cells.len();
                            let fits = match w.checked_mul(h) {
                                Some(p) => n as u128 == p as u128,
                                None => false,
                            };
                            if fits {
                                Some(LayerInstance::IntGrid { width: w, height: h, cells })
                            } else {
                                None
                            }
                        },
                        None => None,
                    },
                    None => None,
                }
            } else if text_equals(&t, "AutoLayer") {
                match (read_u64(v, "__tilesetDefUid"), read_array(v, "autoLayerTiles")) {
                    (Some(ts), Some(a)) => match decode_tiles(a) {
                        Some(tiles) => Some(LayerInstance::AutoLayer { width: w, height: h, tileset_id: ts, tiles }),
                        None => None,
                    },
                    _ => None,
                }
            } else if text_equals(&t, "Entities") {
                match read_array(v, "entityInstances") {
                    Some(a) => match decode_entities(a) {
                        Some(entities) => Some(LayerInstance::Entities { width: w, height: h, entities }),
                        None => None,
                    },
                    None => None,
                }
            } else {
                None
            }
        },
        _ => None,
    }
}

fn decode_layers(a: &Vec<JsonValue>) -> (r: Option<Vec<LayerInstance>>)
    ensures
        r is Some == layers_of(a@) is Some,
        r is Some ==> layers_view(r->Some_0@) == layers_of(a@)->Some_0,
{
    let mut out: Vec<LayerInstance> = Vec::new();
    let mut i: usize = 0;
    while i < a.len()
        invariant
            0 <= i <= a@.len(),
            out@.len() == i,
            forall|j: int| 0 <= j < i ==> spec_layer(#[trigger] a@[j]) is Some && out@[j]@ == spec_layer(a@[j])->Some_0,
        decreases a@.len() - i,
    {
        match decode_layer(&a[i]) {
            Some(l) => out.push(l),
            None => {
                assert(!(forall|j: int| 0 <= j < a@.len() ==> #[trigger] spec_layer(a@[j]) is Some));
                return None;
            },
        }
        i = i + 1;
    }
    assert(layers_view(out@) =~= layers_of(a@)->Some_0);
    Some(out)
}

/// Decodes a room file object: `uid`, `worldX`, `worldY` and the layers
/// under `layerInstances`, all of which must decode.
pub fn decode_room_file(v: &JsonValue) -> (r: Option<RoomFile>)
    ensures
        r is Some == spec_room_file(*v) is Some,
        r is Some ==> r->Some_0@ == spec_room_file(*v)->Some_0,
{
    match (read_u64(v, "uid"), read_i64(v, "worldX"), read_i64(v, "worldY"), read_array(v, "layerInstances")) {
        (Some(uid), Some(x), Some(y), Some(a)) => match decode_layers(a) {
            Some(layers) => Some(RoomFile { uid, world_offset: (x, y), layers }),
            None => None,
        },
        _ => None,
    }
}

/// A layer object whose `__type` names none of the three kinds is refused.
pub proof fn lemma_unknown_kind_refused(v: JsonValue, t: Seq<char>)
    requires
        field_str(v, "__type"@) == Some(t),
        t != "IntGrid"@,
        t != "AutoLayer"@,
        t != "Entities"@,
    ensures
        spec_layer(v) is None,
{
}

/// A collision layer object whose cells are not `width * height` in number
/// is refused.
pub proof fn lemma_grid_size_mismatch_refused(v: JsonValue)
    requires
        field_str(v, "__type"@) == Some("IntGrid"@),
        field_u64(v, "__cWid"@) is Some,
        field_u64(v, "__cHei"@) is Some,
        field_array(v, "intGridCsv"@) is Some,
        cells_of(field_array(v, "intGridCsv"@)->Some_0) is Some,
        cells_of(field_array(v, "intGridCsv"@)->Some_0)->Some_0.len()
            != field_u64(v, "__cWid"@)->Some_0 * field_u64(v, "__cHei"@)->Some_0,
    ensures
        spec_layer(v) is None,
{
}

/// A room file object with a layer that is refused is refused as a whole.
pub proof fn lemma_refused_layer_refuses_room(v: JsonValue, i: int)
    requires
        field_array(v, "layerInstances"@) is Some,
        0 <= i < field_array(v, "layerInstances"@)->Some_0.len(),
        spec_layer(field_array(v, "layerInstances"@)->Some_0[i]) is None,
    ensures
        spec_room_file(v) is None,
{
    assert(layers_of(field_array(v, "layerInstances"@)->Some_0) is None);
}

/// Every collision layer of a decoded room file holds `width * height` cells.
pub proof fn lemma_decoded_grids_are_full(v: JsonValue)
    requires
        spec_room_file(v) is Some,
    ensures
        forall|i: int| 0 <= i < spec_room_file(v)->Some_0.layers.len() ==>
            match #[trigger] spec_room_file(v)->Some_0.layers[i] {
                LayerView::IntGrid { width, height, cells } => cells.len() == width * height,
                _ => true,
            },
{
    let a = field_array(v, "layerInstances"@)->Some_0;
    assert forall|i: int| 0 <= i < spec_room_file(v)->Some_0.layers.len() implies
        match #[trigger] spec_room_file(v)->Some_0.layers[i] {
            LayerView::IntGrid { width, height, cells } => cells.len() == width * height,
            _ => true,
        } by {
        assert(spec_layer(a[i]) is Some);
    }
}

} // verus!
