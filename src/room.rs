//! Room data: the three projections taken from a room file, and loading a
//! room from the text of its file.
use vstd::prelude::*;
use vstd::string::*;
use crate::json::{parse_json, parsed_json, JsonValue};
use crate::schema::{
    decode_room_file, layers_view, lemma_decoded_grids_are_full, spec_room_file, EntityInstance, LayerInstance, LayerKind, LayerView,
    RoomFile, RoomFileView, TileInstance, entities_view,
};

verus! {

/// Why a room could not be loaded.
#[derive(Debug, Clone, Copy, PartialEq, Eq, Structural)]
pub enum RoomLoadError {
    /// The room identifier is not listed in the world index.
    NotFound,
    /// The room's file could not be read.
    IoFailure,
    /// The file is not a well-formed room file.
    MalformedData,
    /// The file lacks a layer of this kind.
    MissingLayer(LayerKind),
}

/// The collision grid of a room: one code per cell, row by row.
#[derive(Debug, PartialEq, Eq)]
pub struct CollisionGrid {
    pub width: u64,
    pub height: u64,
    pub cells: Vec<u8>,
}

/// The decorative tiles of a room and the tileset they are cut from.
#[derive(Debug, PartialEq, Eq)]
pub struct DecorationLayer {
    pub width: u64,
    pub height: u64,
    pub tileset_id: u64,
    pub tiles: Vec<TileInstance>,
}

/// The entities placed in a room.
#[derive(Debug, PartialEq, Eq)]
pub struct RoomEntities {
    pub width: u64,
    pub height: u64,
    pub entities: Vec<EntityInstance>,
}

impl View for CollisionGrid {
    type V = LayerView;

    open spec fn view(&self) -> LayerView {
        LayerView::IntGrid { width: self.width, height: self.height, cells: self.cells@ }
    }
}

impl View for DecorationLayer {
    type V = LayerView;

    open spec fn view(&self) -> LayerView {
        LayerView::AutoLayer { width: self.width, height: self.height, tileset_id: self.tileset_id, tiles: self.tiles@ }
    }
}

impl View for RoomEntities {
    type V = LayerView;

    open spec fn view(&self) -> LayerView {
        LayerView::Entities { width: self.width, height: self.height, entities: entities_view(self.entities@) }
    }
}

/// A loaded room.
#[derive(Debug, PartialEq, Eq)]
pub struct RoomData {
    pub uid: u64,
    pub world_offset: (i64, i64),
    pub collision_grid: CollisionGrid,
    pub decoration: DecorationLayer,
    pub entities: RoomEntities,
}

/// A room as its three layers, each seen as the layer it was taken from.
pub ghost struct RoomDataView {
    pub uid: u64,
    pub world_offset: (i64, i64),
    pub collision_grid: LayerView,
    pub decoration: LayerView,
    pub entities: LayerView,
}

impl View for RoomData {
    type V = RoomDataView;

    open spec fn view(&self) -> RoomDataView {
        RoomDataView {
            uid: self.uid,
            world_offset: self.world_offset,
            collision_grid: self.collision_grid@,
            decoration: self.decoration@,
            entities: self.entities@,
        }
    }
}

pub open spec fn room_result_view(r: Result<RoomData, RoomLoadError>) -> Result<RoomDataView, RoomLoadError> {
    match r {
        Ok(d) => Ok(d@),
        Err(e) => Err(e),
    }
}

/// The first layer of kind `k`.
pub open spec fn first_layer(ls: Seq<LayerView>, k: LayerKind) -> Option<LayerView>
    decreases ls.len(),
{
    if ls.len() == 0 {
        None
    } else if ls[0].kind() == k {
        Some(ls[0])
    } else {
        first_layer(ls.drop_first(), k)
    }
}

/// The room made of the first layer of each kind, or the first kind (in the
/// order collision, decoration, entities) of which the file has no layer.
pub open spec fn spec_room_data(f: RoomFileView) -> Result<RoomDataView, RoomLoadError> {
    match (
        first_layer(f.layers, LayerKind::IntGrid),
        first_layer(f.layers, LayerKind::AutoLayer),
        first_layer(f.layers, LayerKind::Entities),
    ) {
        (None, _, _) => Err(RoomLoadError::MissingLayer(LayerKind::IntGrid)),
        (_, None, _) => Err(RoomLoadError::MissingLayer(LayerKind::AutoLayer)),
        (_, _, None) => Err(RoomLoadError::MissingLayer(LayerKind::Entities)),
        (Some(c), Some(d), Some(e)) => Ok(
            RoomDataView { uid: f.uid, world_offset: f.world_offset, collision_grid: c, decoration: d, entities: e },
        ),
    }
}

/// A room loaded from a parsed document: `MalformedData` where there is no
/// document or it is no room file, else the room that its layers make.
pub open spec fn spec_load_room(doc: Option<JsonValue>) -> Result<RoomDataView, RoomLoadError> {
    match doc {
        None => Err(RoomLoadError::MalformedData),
        Some(v) => match spec_room_file(v) {
            None => Err(RoomLoadError::MalformedData),
            Some(f) => spec_room_data(f),
        },
    }
}

pub open spec fn opt_layer_view(o: Option<LayerInstance>) -> Option<LayerView> {
    match o {
        Some(l) => Some(l@),
        None => None,
    }
}

/// A layer found as the first of kind `k` is of kind `k`.
pub proof fn lemma_first_layer_kind(ls: Seq<LayerView>, k: LayerKind)
    ensures
        first_layer(ls, k) is Some ==> first_layer(ls, k)->Some_0.kind() == k,
    decreases ls.len(),
{
    if ls.len() > 0 {
        lemma_first_layer_kind(ls.drop_first(), k);
    }
}

/// Takes the first layer of each kind out of a room file. A kind of which
/// the file holds no layer gives `MissingLayer` of that kind; further layers
/// of a kind are not used.
pub fn assemble_room(file: RoomFile) -> (r: Result<RoomData, RoomLoadError>)
    ensures
        room_result_view(r) == spec_room_data(file@),
{
    let RoomFile { uid, world_offset, mut layers } = file;
    let ghost all = layers_view(layers@);
    let mut grid: Option<LayerInstance> = None;
    let mut deco: Option<LayerInstance> = None;
    let mut ents: Option<LayerInstance> = None;
    assert(all.subrange(all.len() as int, all.len() as int) =~= Seq::<LayerView>::empty());
    assert(layers_view(layers@) =~= all.subrange(0, layers@.len() as int));
    while layers.len() > 0
        invariant
            layers@.len() <= all.len(),
            layers_view(layers@) =~= all.subrange(0, layers@.len() as int),
            opt_layer_view(grid) == first_layer(all.subrange(layers@.len() as int, all.len() as int), LayerKind::IntGrid),
            opt_layer_view(deco) == first_layer(all.subrange(layers@.len() as int, all.len() as int), LayerKind::AutoLayer),
            opt_layer_view(ents) == first_layer(all.subrange(layers@.len() as int, all.len() as int), LayerKind::Entities),
        decreases layers@.len(),
    {
        let ghost n = layers@.len() - 1;
        let ghost before = layers@;
        let layer = layers.pop().unwrap();
        proof {
            assert(layers_view(before)[n] == before[n]@);
            assert(all[n] == layer@);
            let s = all.subrange(n, all.len() as int);
            assert(s.drop_first() =~= all.subrange(n + 1, all.len() as int));
            assert(s[0] == all[n]);
            assert(layers_view(layers@) =~= all.subrange(0, n));
        }
        match layer.kind() {
            LayerKind::IntGrid => grid = Some(layer),
            LayerKind::AutoLayer => deco = Some(layer),
            LayerKind::Entities => ents = Some(layer),
        }
    }
    proof {
        assert(all.subrange(0, all.len() as int) =~= all);
        lemma_first_layer_kind(all, LayerKind::IntGrid);
        lemma_first_layer_kind(all, LayerKind::AutoLayer);
        lemma_first_layer_kind(all, LayerKind::Entities);
    }
    let collision_grid = match grid {
        Some(LayerInstance::IntGrid { width, height, cells }) => CollisionGrid { width, height, cells },
        _ => return Err(RoomLoadError::MissingLayer(LayerKind::IntGrid)),
    };
    let decoration = match deco {
        Some(LayerInstance::AutoLayer { width, height, tileset_id, tiles }) =>
            DecorationLayer { width, height, tileset_id, tiles },
        _ => return Err(RoomLoadError::MissingLayer(LayerKind::AutoLayer)),
    };
    let entities = match ents {
        Some(LayerInstance::Entities { width, height, entities }) => RoomEntities { width, height, entities },
        _ => return Err(RoomLoadError::MissingLayer(LayerKind::Entities)),
    };
    Ok(RoomData { uid, world_offset, collision_grid, decoration, entities })
}

/// Loads a room from a parsed document.
pub fn room_from_json(doc: &JsonValue) -> (r: Result<RoomData, RoomLoadError>)
    ensures
        room_result_view(r) == spec_load_room(Some(*doc)),
{
    match decode_room_file(doc) {
        Some(file) => assemble_room(file),
        None => Err(RoomLoadError::MalformedData),
    }
}

/// Loads a room from the text of its file.
pub fn load_room_from_text(text: &str) -> (r: Result<RoomData, RoomLoadError>)
    ensures
        room_result_view(r) == spec_load_room(parsed_json(text@)),
{
    match parse_json(text) {
        Some(doc) => room_from_json(&doc),
        None => Err(RoomLoadError::MalformedData),
    }
}

/// The path of a room's file: `<root>/<identifier>.ldtkl`.
pub fn room_file_path(root: &str, room_id: &str) -> (r: String)
    ensures
        r@ == root@ + "/"@ + room_id@ + ".ldtkl"@,
{
    let mut p = root.to_owned();
    p.append("/");
    p.append(room_id);
    p.append(".ldtkl");
    p
}

/// The file holds exactly one layer of kind `k`.
pub open spec fn has_one_layer_of(ls: Seq<LayerView>, k: LayerKind) -> bool {
    &&& exists|i: int| 0 <= i < ls.len() && #[trigger] ls[i].kind() == k
    &&& forall|i: int, j: int|
        0 <= i < ls.len() && 0 <= j < ls.len() && #[trigger] ls[i].kind() == k && #[trigger] ls[j].kind() == k ==> i == j
}

/// The first layer of kind `k` is the one at `i` where none before it has that kind.
pub proof fn lemma_first_layer_at(ls: Seq<LayerView>, k: LayerKind, i: int)
    requires
        0 <= i < ls.len(),
        ls[i].kind() == k,
        forall|j: int| 0 <= j < i ==> #[trigger] ls[j].kind() != k,
    ensures
        first_layer(ls, k) == Some(ls[i]),
    decreases i,
{
    if i > 0 {
        assert(ls[0].kind() != k);
        let rest = ls.drop_first();
        assert forall|j: int| 0 <= j < i - 1 implies #[trigger] rest[j].kind() != k by {
            assert(rest[j] == ls[j + 1]);
        }
        lemma_first_layer_at(rest, k, i - 1);
    }
}

/// Where no layer has kind `k`, there is no first one.
pub proof fn lemma_first_layer_none(ls: Seq<LayerView>, k: LayerKind)
    requires
        forall|j: int| 0 <= j < ls.len() ==> #[trigger] ls[j].kind() != k,
    ensures
        first_layer(ls, k) is None,
    decreases ls.len(),
{
    if ls.len() > 0 {
        let rest = ls.drop_first();
        assert forall|j: int| 0 <= j < rest.len() implies #[trigger] rest[j].kind() != k by {
            assert(rest[j] == ls[j + 1]);
        }
        lemma_first_layer_none(rest, k);
    }
}

/// Where some layer has kind `k`, there is a first one.
pub proof fn lemma_first_layer_some(ls: Seq<LayerView>, k: LayerKind, i: int)
    requires
        0 <= i < ls.len(),
        ls[i].kind() == k,
    ensures
        first_layer(ls, k) is Some,
    decreases i,
{
    if ls[0].kind() != k {
        let rest = ls.drop_first();
        assert(rest[i - 1] == ls[i]);
        lemma_first_layer_some(rest, k, i - 1);
    }
}

proof fn lemma_single_layer_taken(ls: Seq<LayerView>, k: LayerKind)
    requires
        has_one_layer_of(ls, k),
    ensures
        first_layer(ls, k) is Some,
        forall|i: int| 0 <= i < ls.len() && #[trigger] ls[i].kind() == k ==> first_layer(ls, k) == Some(ls[i]),
{
    let i = choose|i: int| 0 <= i < ls.len() && #[trigger] ls[i].kind() == k;
    assert forall|j: int| 0 <= j < i implies #[trigger] ls[j].kind() != k by {
        if ls[j].kind() == k {
            assert(i == j);
        }
    }
    lemma_first_layer_at(ls, k, i);
    assert forall|m: int| 0 <= m < ls.len() && #[trigger] ls[m].kind() == k implies first_layer(ls, k) == Some(ls[m]) by {
        assert(m == i);
    }
}

/// A room file with exactly one layer of each kind makes a room, whatever
/// the order of its layers: the room keeps the file's uid and offset, and
/// each of its three layers is the file's layer of that kind.
pub proof fn lemma_single_layers_make_room(f: RoomFileView)
    requires
        has_one_layer_of(f.layers, LayerKind::IntGrid),
        has_one_layer_of(f.layers, LayerKind::AutoLayer),
        has_one_layer_of(f.layers, LayerKind::Entities),
    ensures
        spec_room_data(f) is Ok,
        spec_room_data(f)->Ok_0.uid == f.uid,
        spec_room_data(f)->Ok_0.world_offset == f.world_offset,
        forall|i: int| 0 <= i < f.layers.len() && #[trigger] f.layers[i].kind() == LayerKind::IntGrid
            ==> spec_room_data(f)->Ok_0.collision_grid == f.layers[i],
        forall|i: int| 0 <= i < f.layers.len() && #[trigger] f.layers[i].kind() == LayerKind::AutoLayer
            ==> spec_room_data(f)->Ok_0.decoration == f.layers[i],
        forall|i: int| 0 <= i < f.layers.len() && #[trigger] f.layers[i].kind() == LayerKind::Entities
            ==> spec_room_data(f)->Ok_0.entities == f.layers[i],
{
    lemma_single_layer_taken(f.layers, LayerKind::IntGrid);
    lemma_single_layer_taken(f.layers, LayerKind::AutoLayer);
    lemma_single_layer_taken(f.layers, LayerKind::Entities);
}

/// A room file whose layers are collision and decoration layers only, with
/// at least one of each, fails with a missing entity layer.
pub proof fn lemma_no_entity_layer_fails(f: RoomFileView, c: int, d: int)
    requires
        0 <= c < f.layers.len(),
        f.layers[c].kind() == LayerKind::IntGrid,
        0 <= d < f.layers.len(),
        f.layers[d].kind() == LayerKind::AutoLayer,
        forall|i: int| 0 <= i < f.layers.len() ==> #[trigger] f.layers[i].kind() != LayerKind::Entities,
    ensures
        spec_room_data(f) == Err::<RoomDataView, RoomLoadError>(RoomLoadError::MissingLayer(LayerKind::Entities)),
{
    lemma_first_layer_some(f.layers, LayerKind::IntGrid, c);
    lemma_first_layer_some(f.layers, LayerKind::AutoLayer, d);
    lemma_first_layer_none(f.layers, LayerKind::Entities);
}

/// Loading the same text twice gives the same room, field for field, or the
/// same error.
pub proof fn lemma_reload_same_result(first: Seq<char>, second: Seq<char>)
    requires
        first == second,
    ensures
        spec_load_room(parsed_json(first)) == spec_load_room(parsed_json(second)),
{
}

/// The first layer of kind `k` is one of the layers.
pub proof fn lemma_first_layer_member(ls: Seq<LayerView>, k: LayerKind)
    ensures
        first_layer(ls, k) is Some ==> exists|i: int| 0 <= i < ls.len() && ls[i] == first_layer(ls, k)->Some_0,
    decreases ls.len(),
{
    if ls.len() > 0 && ls[0].kind() != k {
        let rest = ls.drop_first();
        lemma_first_layer_member(rest, k);
        if first_layer(rest, k) is Some {
            let i = choose|i: int| 0 <= i < rest.len() && rest[i] == first_layer(rest, k)->Some_0;
            assert(ls[i + 1] == rest[i]);
        }
    } else if ls.len() > 0 {
        assert(ls[0] == first_layer(ls, k)->Some_0);
    }
}

/// Every room that loads has a collision grid of `width * height` cells.
pub proof fn lemma_loaded_grid_is_full(doc: JsonValue)
    requires
        spec_load_room(Some(doc)) is Ok,
    ensures
        match spec_load_room(Some(doc))->Ok_0.collision_grid {
            LayerView::IntGrid { width, height, cells } => cells.len() == width * height,
            _ => false,
        },
{
    let f = spec_room_file(doc)->Some_0;
    lemma_decoded_grids_are_full(doc);
    lemma_first_layer_member(f.layers, LayerKind::IntGrid);
    lemma_first_layer_kind(f.layers, LayerKind::IntGrid);
    let i = choose|i: int| 0 <= i < f.layers.len() && f.layers[i] == first_layer(f.layers, LayerKind::IntGrid)->Some_0;
    assert(match f.layers[i] {
        LayerView::IntGrid { width, height, cells } => cells.len() == width * height,
        _ => true,
    });
}

} // verus!
