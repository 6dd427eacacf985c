use nova::color::Color;
use nova::image::{gray_to_rgba, premultiply};
use nova::ldtk::{
    flip_from_flags, EntityInstance, EnumTag, FieldInstance, Flip, IntGridTile, LayerInstance,
    Level, Point, Project, Defs, Tileset,
};
use nova::time::Timer;

#[test]
fn hex_codes_with_and_without_alpha() {
    assert_eq!(Color::hex("#ff8000"), Color::rgba(255, 128, 0, 255));
    assert_eq!(Color::hex("11223344"), Color::rgba(0x11, 0x22, 0x33, 0x44));
    assert_eq!(Color::hex("#AbCdEf"), Color::rgb(0xab, 0xcd, 0xef));
    assert_eq!(Color::alpha(7), Color::rgba(7, 7, 7, 7));
    assert_eq!(Color::transparent().a, 0);
    assert_eq!(Color::black(), Color::rgb(0, 0, 0));
}

#[test]
fn premultiply_scales_color_by_alpha() {
    let mut px = vec![200, 100, 50, 0, 200, 100, 50, 128, 200, 100, 50, 255];
    premultiply(&mut px);
    assert_eq!(
        px,
        vec![0, 0, 0, 0, 100, 50, 25, 128, 200, 100, 50, 255]
    );
}

#[test]
fn coverage_spreads_over_channels() {
    assert_eq!(gray_to_rgba(&[0, 9]), vec![0, 0, 0, 0, 9, 9, 9, 9]);
    assert!(gray_to_rgba(&[]).is_empty());
}

#[test]
fn timer_counts_whole_updates() {
    let mut t = Timer::new(60);
    assert_eq!(t.delta(), 16_666_666);
    assert!(!t.check_update_ready());
    t.advance_by(40_000_000);
    assert!(t.update_ready());
    assert!(t.check_update_ready());
    assert!(t.check_update_ready());
    assert!(!t.check_update_ready());
    assert_eq!(t.accumulated(), 40_000_000 - 2 * 16_666_666);
}

#[test]
fn timer_caps_lag_at_eight_updates() {
    let mut t = Timer::new(10);
    t.advance_by(u64::MAX);
    assert_eq!(t.accumulated(), 8 * 100_000_000);
    t.reset();
    assert_eq!(t.accumulated(), 0);
    t.tick();
    assert!(t.accumulated() <= 8 * t.delta());
}

fn tag(id: &str) -> EnumTag {
    EnumTag { enum_value_id: id.to_string(), tile_ids: vec![1, 2] }
}

#[test]
fn enum_tags_are_found_by_value() {
    let ts = Tileset { enum_tags: vec![tag("Wall"), tag("Water"), tag("Wall")] };
    let found = ts.get_enum_tag("Water").unwrap();
    assert_eq!(found.enum_value_id, "Water");
    assert!(std::ptr::eq(ts.get_enum_tag("Wall").unwrap(), &ts.enum_tags[0]));
    assert!(ts.get_enum_tag("Lava").is_none());
}

fn level(id: &str, iid: &str, layers: Vec<LayerInstance>) -> Level {
    Level { neighbours: vec![], identifier: id.to_string(), iid: iid.to_string(), layer_instances: layers }
}

fn layer(id: &str, width: i32, csv: Vec<i32>) -> LayerInstance {
    LayerInstance {
        width,
        height: 2,
        grid_size: 16,
        identifier: id.to_string(),
        entity_instances: vec![],
        grid_tiles: vec![],
        int_grid_csv: csv,
    }
}

#[test]
fn levels_and_layers_are_found_by_name() {
    let project = Project {
        levels: vec![
            level("Start", "a-1", vec![layer("Walls", 2, vec![])]),
            level("End", "b-2", vec![]),
        ],
        defs: Defs { tilesets: vec![] },
    };
    assert_eq!(project.get_level("End").unwrap().iid, "b-2");
    assert_eq!(project.get_level_by_iid("a-1").unwrap().identifier, "Start");
    assert!(project.get_level("Middle").is_none());
    let start = project.get_level("Start").unwrap();
    assert_eq!(start.get_layer("Walls").unwrap().grid_size, 16);
    assert!(start.get_layer("Floor").is_none());
}

#[test]
fn int_grid_lists_cells_above_zero() {
    let l = layer("Walls", 3, vec![0, 1, 0, 2, 0, 3]);
    let tiles = l.get_int_grid();
    assert_eq!(
        tiles,
        vec![
            IntGridTile { position: Point { x: 1, y: 0 }, value: 1 },
            IntGridTile { position: Point { x: 0, y: 1 }, value: 2 },
            IntGridTile { position: Point { x: 2, y: 1 }, value: 3 },
        ]
    );
    assert!(layer("Empty", 0, vec![0, 0]).get_int_grid().is_empty());
}

#[test]
fn fields_are_found_by_name() {
    let e = EntityInstance {
        grid: Point { x: 1, y: 2 },
        field_instances: vec![
            FieldInstance { identifier: "hp".to_string(), value: None },
            FieldInstance { identifier: "name".to_string(), value: Some(serde_json::Value::Bool(true)) },
        ],
    };
    assert!(e.get_field_instance("name").unwrap().value.is_some());
    assert!(e.get_field_instance("speed").is_none());
}

#[test]
fn flip_flags() {
    assert_eq!(flip_from_flags(0), Flip { x: false, y: false });
    assert_eq!(flip_from_flags(1), Flip { x: true, y: false });
    assert_eq!(flip_from_flags(2), Flip { x: false, y: true });
    assert_eq!(flip_from_flags(3), Flip { x: true, y: true });
}
