//! The world index: the catalog of rooms read once from the world file, and
//! lookup of a room by its identifier.
use vstd::prelude::*;
use crate::json::{
    field_array, field_i64, field_str, field_u64, parse_json, parsed_json, read_array, read_i64, read_string,
    read_u64, text_equals, JsonValue,
};
use crate::room::RoomLoadError;

verus! {

/// How many entries each shared catalog of the world file holds. The entries
/// carry nothing that is read yet.
#[derive(Debug, Clone, Copy, PartialEq, Eq, Structural)]
pub struct Definitions {
    pub layers: usize,
    pub entities: usize,
    pub tilesets: usize,
}

/// One room as the world index lists it.
#[derive(Debug, PartialEq, Eq)]
pub struct RoomSummary {
    pub identifier: String,
    pub uid: u64,
    pub world_offset: (i64, i64),
    pub pixel_size: (u64, u64),
}

pub ghost struct RoomSummaryView {
    pub identifier: Seq<char>,
    pub uid: u64,
    pub world_offset: (i64, i64),
    pub pixel_size: (u64, u64),
}

impl View for RoomSummary {
    type V = RoomSummaryView;

    open spec fn view(&self) -> RoomSummaryView {
        RoomSummaryView {
            identifier: self.identifier@,
            uid: self.uid,
            world_offset: self.world_offset,
            pixel_size: self.pixel_size,
        }
    }
}

/// The catalog of a world.
#[derive(Debug, PartialEq, Eq)]
pub struct WorldIndex {
    pub definitions: Definitions,
    pub rooms: Vec<RoomSummary>,
}

pub ghost struct WorldIndexView {
    pub definitions: Definitions,
    pub rooms: Seq<RoomSummaryView>,
}

pub open spec fn summaries_view(v: Seq<RoomSummary>) -> Seq<RoomSummaryView> {
    v.map_values(|s: RoomSummary| s@)
}

impl View for WorldIndex {
    type V = WorldIndexView;

    open spec fn view(&self) -> WorldIndexView {
        WorldIndexView { definitions: self.definitions, rooms: summaries_view(self.rooms@) }
    }
}

/// The member `key` as an array of objects, by its length.
pub open spec fn spec_catalog(v: JsonValue, key: Seq<char>) -> Option<usize> {
    match field_array(v, key) {
        Some(a) => if forall|i: int| 0 <= i < a.len() ==> #[trigger] a[i] is Object {
            Some(a.len() as usize)
        } else {
            None
        },
        None => None,
    }
}

/// The `defs` object: catalogs `layers`, `entities` and `tilesets`.
pub open spec fn spec_definitions(v: JsonValue) -> Option<Definitions> {
    match (spec_catalog(v, "layers"@), spec_catalog(v, "entities"@), spec_catalog(v, "tilesets"@)) {
        (Some(l), Some(e), Some(t)) => Some(Definitions { layers: l, entities: e, tilesets: t }),
        _ => None,
    }
}

/// A room summary object.
pub open spec fn spec_summary(v: JsonValue) -> Option<RoomSummaryView> {
    match (
        field_str(v, "identifier"@),
        field_u64(v, "uid"@),
        field_i64(v, "worldX"@),
        field_i64(v, "worldY"@),
        field_u64(v, "pxWid"@),
        field_u64(v, "pxHei"@),
    ) {
        (Some(id), Some(uid), Some(x), Some(y), Some(w), Some(h)) =>
            Some(RoomSummaryView { identifier: id, uid, world_offset: (x, y), pixel_size: (w, h) }),
        _ => None,
    }
}

/// An array of room summary objects.
pub open spec fn summaries_of(a: Seq<JsonValue>) -> Option<Seq<RoomSummaryView>> {
    if forall|i: int| 0 <= i < a.len() ==> #[trigger] spec_summary(a[i]) is Some {
        Some(Seq::new(a.len(), |i: int| spec_summary(a[i])->Some_0))
    } else {
        None
    }
}

/// A world file object: `defs` and `levels`.
pub open spec fn spec_world(v: JsonValue) -> Option<WorldIndexView> {
    match (spec_field_defs(v), field_array(v, "levels"@)) {
        (Some(d), Some(a)) => match summaries_of(a) {
            Some(rooms) => Some(WorldIndexView { definitions: d, rooms }),
            None => None,
        },
        _ => None,
    }
}

pub open spec fn spec_field_defs(v: JsonValue) -> Option<Definitions> {
    match crate::json::spec_field(v, "defs"@) {
        Some(d) => spec_definitions(d),
        None => None,
    }
}

/// The world index that a text holds, `MalformedData` where it holds none.
pub open spec fn spec_load_world(doc: Option<JsonValue>) -> Result<WorldIndexView, RoomLoadError> {
    match doc {
        Some(v) => match spec_world(v) {
            Some(w) => Ok(w),
            None => Err(RoomLoadError::MalformedData),
        },
        None => Err(RoomLoadError::MalformedData),
    }
}

pub open spec fn world_result_view(r: Result<WorldIndex, RoomLoadError>) -> Result<WorldIndexView, RoomLoadError> {
    match r {
        Ok(w) => Ok(w@),
        Err(e) => Err(e),
    }
}

fn read_catalog(v: &JsonValue, key: &str) -> (r: Option<usize>)
    ensures
        r == spec_catalog(*v, key@),
{
    match read_array(v, key) {
        Some(a) => {
            let mut i: usize = 0;
            while i < a.len()
                invariant
                    0 <= i <= a@.len(),
                    field_array(*v, key@) == Some(a@),
                    forall|j: int| 0 <= j < i ==> #[trigger] a@[j] is Object,
                decreases a@.len() - i,
            {
                match &a[i] {
                    JsonValue::Object(_) => {},
                    _ => {
                        assert(!(a@[i as int] is Object));
                        return None;
                    },
                }
                i = i + 1;
            }
            Some(a.len())
        },
        None => None,
    }
}

fn decode_definitions(v: &JsonValue) -> (r: Option<Definitions>)
    ensures
        r == spec_definitions(*v),
{
    match (read_catalog(v, "layers"), read_catalog(v, "entities"), read_catalog(v, "tilesets")) {
        (Some(l), Some(e), Some(t)) => Some(Definitions { layers: l, entities: e, tilesets: t }),
        _ => None,
    }
}

/// Decodes a room summary object.
pub fn decode_summary(v: &JsonValue) -> (r: Option<RoomSummary>)
    ensures
        r is Some == spec_summary(*v) is Some,
        r is Some ==> r->Some_0@ == spec_summary(*v)->Some_0,
{
    let id = read_string(v, "identifier");
    let uid = read_u64(v, "uid");
    let x = read_i64(v, "worldX");
    let y = read_i64(v, "worldY");
    let w = read_u64(v, "pxWid");
    let h = read_u64(v, "pxHei");
    match (id, uid, x, y, w, h) {
        (Some(id), Some(uid), Some(x), Some(y), Some(w), Some(h)) =>
            Some(RoomSummary { identifier: id, uid, world_offset: (x, y), pixel_size: (w, h) }),
        _ => None,
    }
}

/// Decodes a world file object.
pub fn decode_world_index(v: &JsonValue) -> (r: Option<WorldIndex>)
    ensures
        r is Some == spec_world(*v) is Some,
        r is Some ==> r->Some_0@ == spec_world(*v)->Some_0,
{
    let defs = match crate::json::get_field(v, "defs") {
        Some(d) => decode_definitions(d),
        None => None,
    };
    match (defs, read_array(v, "levels")) {
        (Some(definitions), Some(a)) => {
            let mut rooms: Vec<RoomSummary> = Vec::new();
            let mut i: usize = 0;
            while i < a.len()
                invariant
                    0 <= i <= a@.len(),
                    field_array(*v, "levels"@) == Some(a@),
                    spec_field_defs(*v) == Some(definitions),
                    rooms@.len() == i,
                    forall|j: int| 0 <= j < i ==> spec_summary(#[trigger] a@[j]) is Some && rooms@[j]@ == spec_summary(a@[j])->Some_0,
                decreases a@.len() - i,
            {
                match decode_summary(&a[i]) {
                    Some(s) => rooms.push(s),
                    None => {
                        assert(!(forall|j: int| 0 <= j < a@.len() ==> #[trigger] spec_summary(a@[j]) is Some));
                        return None;
                    },
                }
                i = i + 1;
            }
            assert(summaries_view(rooms@) =~= summaries_of(a@)->Some_0);
            Some(WorldIndex { definitions, rooms })
        },
        _ => None,
    }
}

/// Reads the world index from the text of the world file.
pub fn load_world_index_from_text(text: &str) -> (r: Result<WorldIndex, RoomLoadError>)
    ensures
        world_result_view(r) == spec_load_world(parsed_json(text@)),
{
    match parse_json(text) {
        Some(doc) => match decode_world_index(&doc) {
            Some(w) => Ok(w),
            None => Err(RoomLoadError::MalformedData),
        },
        None => Err(RoomLoadError::MalformedData),
    }
}

/// The position of the first room listed under `room_id`, or `NotFound`
/// where the index lists no such room.
pub fn find_room(index: &WorldIndex, room_id: &str) -> (r: Result<usize, RoomLoadError>)
    ensures
        r is Err <==> (forall|j: int| 0 <= j < index.rooms@.len() ==> #[trigger] index.rooms@[j].identifier@ != room_id@),
        r is Err ==> r == Err::<usize, RoomLoadError>(RoomLoadError::NotFound),
        r is Ok ==> ({
            let i = r->Ok_0 as int;
            &&& 0 <= i < index.rooms@.len()
            &&& index.rooms@[i].identifier@ == room_id@
            &&& forall|j: int| 0 <= j < i ==> #[trigger] index.rooms@[j].identifier@ != room_id@
        }),
{
    let mut i: usize = 0;
    while i < index.rooms.len()
        invariant
            0 <= i <= index.rooms@.len(),
            forall|j: int| 0 <= j < i ==> #[trigger] index.rooms@[j].identifier@ != room_id@,
        decreases index.rooms@.len() - i,
    {
        if text_equals(&index.rooms[i].identifier, room_id) {
            return Ok(i);
        }
        i = i + 1;
    }
    Err(RoomLoadError::NotFound)
}

} // verus!
