//! Level data in the LDtk project format, as plain values, and the lookups
//! that games make on it.

use vstd::prelude::*;

verus! {

#[verifier::external_type_specification]
#[verifier::external_body]
pub struct ExJsonValue(serde_json::Value);

/// A grid cell or pixel position.
#[derive(Copy, Clone, Debug, PartialEq, Eq, Structural)]
pub struct Point {
    pub x: i32,
    pub y: i32,
}

/// Whether a tile is mirrored horizontally and vertically.
#[derive(Copy, Clone, Debug, PartialEq, Eq, Structural)]
pub struct Flip {
    pub x: bool,
    pub y: bool,
}

pub struct Project {
    pub levels: Vec<Level>,
    pub defs: Defs,
}

pub struct Defs {
    pub tilesets: Vec<Tileset>,
}

pub struct Tileset {
    pub enum_tags: Vec<EnumTag>,
}

pub struct EnumTag {
    pub enum_value_id: String,
    pub tile_ids: Vec<i32>,
}

pub struct Level {
    pub neighbours: Vec<Neighbour>,
    pub identifier: String,
    pub iid: String,
    pub layer_instances: Vec<LayerInstance>,
}

pub struct Neighbour {
    pub dir: NeighbourDirection,
    pub level_iid: String,
}

#[derive(Copy, Clone, Debug, PartialEq, Eq, Structural)]
pub enum NeighbourDirection {
    North,
    South,
    East,
    West,
}

pub struct LayerInstance {
    pub width: i32,
    pub height: i32,
    pub grid_size: i32,
    pub identifier: String,
    pub entity_instances: Vec<EntityInstance>,
    pub grid_tiles: Vec<GridTile>,
    pub int_grid_csv: Vec<i32>,
}

#[derive(Copy, Clone, Debug, PartialEq, Eq, Structural)]
pub struct GridTile {
    pub id: i32,
    pub px: Point,
    pub src: Point,
    pub flip: Flip,
}

/// A cell of an integer grid layer that holds a value above zero.
#[derive(Copy, Clone, Debug, PartialEq, Eq, Structural)]
pub struct IntGridTile {
    pub position: Point,
    pub value: i32,
}

pub struct EntityInstance {
    pub grid: Point,
    pub field_instances: Vec<FieldInstance>,
}

pub struct FieldInstance {
    pub identifier: String,
    pub value: Option<serde_json::Value>,
}

/// The flips that a tile's flag bits stand for: bit 0 horizontal, bit 1
/// vertical. Other values flip nothing.
pub open spec fn flip_of(flags: u8) -> Flip {
    Flip { x: flags == 1 || flags == 3, y: flags == 2 || flags == 3 }
}

/// Reads a tile's flip flags.
pub fn flip_from_flags(flags: u8) -> (r: Flip)
    ensures
        r == flip_of(flags),
{
    Flip { x: flags == 1 || flags == 3, y: flags == 2 || flags == 3 }
}

/// Index `i` holds the first of `names` equal to `id`.
pub open spec fn is_first_match(names: Seq<Seq<char>>, id: Seq<char>, i: int) -> bool {
    &&& 0 <= i < names.len()
    &&& names[i] == id
    &&& forall|j: int| 0 <= j < i ==> #[trigger] names[j] != id
}

/// The result of a lookup by name: the first item whose name is `id`, or
/// `None` when no item has that name.
pub open spec fn found<T>(items: Seq<T>, names: Seq<Seq<char>>, id: Seq<char>, r: Option<&T>) -> bool {
    match r {
        Some(item) => exists|i: int| is_first_match(names, id, i) && *item == items[i],
        None => forall|i: int| 0 <= i < names.len() ==> #[trigger] names[i] != id,
    }
}

pub open spec fn level_names(levels: Seq<Level>) -> Seq<Seq<char>> {
    levels.map_values(|l: Level| l.identifier@)
}

pub open spec fn level_iids(levels: Seq<Level>) -> Seq<Seq<char>> {
    levels.map_values(|l: Level| l.iid@)
}

pub open spec fn tag_names(tags: Seq<EnumTag>) -> Seq<Seq<char>> {
    tags.map_values(|t: EnumTag| t.enum_value_id@)
}

pub open spec fn layer_names(layers: Seq<LayerInstance>) -> Seq<Seq<char>> {
    layers.map_values(|l: LayerInstance| l.identifier@)
}

pub open spec fn field_names(fields: Seq<FieldInstance>) -> Seq<Seq<char>> {
    fields.map_values(|f: FieldInstance| f.identifier@)
}

/// The cells of a row-major grid `width` cells wide that hold a value
/// above zero, in order. The width is read as an unsigned size.
pub open spec fn int_grid_tiles(csv: Seq<i32>, width: i32) -> Seq<IntGridTile>
    decreases csv.len(),
{
    if csv.len() == 0 {
        seq![]
    } else {
        let prev = int_grid_tiles(csv.drop_last(), width);
        let i = csv.len() - 1;
        let w = width as usize as int;
        if csv.last() > 0 {
            prev.push(
                IntGridTile { position: Point { x: (i % w) as i32, y: (i / w) as i32 }, value: csv.last() },
            )
        } else {
            prev
        }
    }
}

impl Project {
    /// The first level named `id`.
    pub fn get_level(&self, id: &str) -> (r: Option<&Level>)
        ensures
            found(self.levels@, level_names(self.levels@), id@, r),
    {
        let key = id.to_owned();
        let mut i: usize = 0;
        while i < self.levels.len()
            invariant
                i <= self.levels@.len(),
                key@ == id@,
                forall|j: int| 0 <= j < i ==> #[trigger] level_names(self.levels@)[j] != id@,
            decreases self.levels@.len() - i,
        {
            if self.levels[i].identifier == key {
                assert(is_first_match(level_names(self.levels@), id@, i as int));
                return Some(&self.levels[i]);
            }
            i = i + 1;
        }
        None
    }

    /// The first level whose instance identifier is `id`.
    pub fn get_level_by_iid(&self, id: &str) -> (r: Option<&Level>)
        ensures
            found(self.levels@, level_iids(self.levels@), id@, r),
    {
        let key = id.to_owned();
        let mut i: usize = 0;
        while i < self.levels.len()
            invariant
                i <= self.levels@.len(),
                key@ == id@,
                forall|j: int| 0 <= j < i ==> #[trigger] level_iids(self.levels@)[j] != id@,
            decreases self.levels@.len() - i,
        {
            if self.levels[i].iid == key {
                assert(is_first_match(level_iids(self.levels@), id@, i as int));
                return Some(&self.levels[i]);
            }
            i = i + 1;
        }
        None
    }
}

impl Tileset {
    /// The first enum tag whose value is `id`.
    pub fn get_enum_tag(&self, id: &str) -> (r: Option<&EnumTag>)
        ensures
            found(self.enum_tags@, tag_names(self.enum_tags@), id@, r),
    {
        let key = id.to_owned();
        let mut i: usize = 0;
        while i < self.enum_tags.len()
            invariant
                i <= self.enum_tags@.len(),
                key@ == id@,
                forall|j: int| 0 <= j < i ==> #[trigger] tag_names(self.enum_tags@)[j] != id@,
            decreases self.enum_tags@.len() - i,
        {
            if self.enum_tags[i].enum_value_id == key {
                assert(is_first_match(tag_names(self.enum_tags@), id@, i as int));
                return Some(&self.enum_tags[i]);
            }
            i = i + 1;
        }
        None
    }
}

impl Level {
    /// The first layer named `id`.
    pub fn get_layer(&self, id: &str) -> (r: Option<&LayerInstance>)
        ensures
            found(self.layer_instances@, layer_names(self.layer_instances@), id@, r),
    {
        let key = id.to_owned();
        let mut i: usize = 0;
        while i < self.layer_instances.len()
            invariant
                i <= self.layer_instances@.len(),
                key@ == id@,
                forall|j: int| 0 <= j < i ==> #[trigger] layer_names(self.layer_instances@)[j] != id@,
            decreases self.layer_instances@.len() - i,
        {
            if self.layer_instances[i].identifier == key {
                assert(is_first_match(layer_names(self.layer_instances@), id@, i as int));
                return Some(&self.layer_instances[i]);
            }
            i = i + 1;
        }
        None
    }
}

impl EntityInstance {
    /// The first field named `id`.
    pub fn get_field_instance(&self, id: &str) -> (r: Option<&FieldInstance>)
        ensures
            found(self.field_instances@, field_names(self.field_instances@), id@, r),
    {
        let key = id.to_owned();
        let mut i: usize = 0;
        while i < self.field_instances.len()
            invariant
                i <= self.field_instances@.len(),
                key@ == id@,
                forall|j: int| 0 <= j < i ==> #[trigger] field_names(self.field_instances@)[j] != id@,
            decreases self.field_instances@.len() - i,
        {
            if self.field_instances[i].identifier == key {
                assert(is_first_match(field_names(self.field_instances@), id@, i as int));
                return Some(&self.field_instances[i]);
            }
            i = i + 1;
        }
        None
    }
}

impl LayerInstance {
    /// The cells of the integer grid that hold a value above zero, with
    /// their positions, in row-major order.
    pub fn get_int_grid(&self) -> (r: Vec<IntGridTile>)
        requires
            self.width != 0 || forall|i: int| 0 <= i < self.int_grid_csv@.len() ==> #[trigger] self.int_grid_csv@[i] <= 0,
        ensures
            r@ == int_grid_tiles(self.int_grid_csv@, self.width),
    {
        let width = self.width as usize;
        let mut tiles: Vec<IntGridTile> = Vec::new();
        let mut i: usize = 0;
        while i < self.int_grid_csv.len()
            invariant
                i <= self.int_grid_csv@.len(),
                width == self.width as usize,
                self.width != 0 || forall|k: int| 0 <= k < self.int_grid_csv@.len() ==> #[trigger] self.int_grid_csv@[k] <= 0,
                tiles@ == int_grid_tiles(self.int_grid_csv@.take(i as int), self.width),
            decreases self.int_grid_csv@.len() - i,
        {
            let val = self.int_grid_csv[i];
            proof {
                let next = self.int_grid_csv@.take(i as int + 1);
                assert(next.drop_last() =~= self.int_grid_csv@.take(i as int));
                assert(next.last() == val);
            }
            if val > 0 {
                proof {
                    let w = self.width;
                    assert(self.int_grid_csv@[i as int] > 0);
                    assert(w != 0 ==> (w as usize) != 0) by (bit_vector);
                }
                let x = i % width;
                let y = i / width;
                tiles.push(IntGridTile { position: Point { x: x as i32, y: y as i32 }, value: val });
            }
            i = i + 1;
        }
        assert(self.int_grid_csv@.take(self.int_grid_csv@.len() as int) =~= self.int_grid_csv@);
        tiles
    }
}

} // verus!
