use webkeylayer_backend::preset::importer::{
    convert_element, convert_input_overlay, join_warnings, preset_name_from_path, InputOverlayElement,
    InputOverlayPreset, ZLevel,
};
use webkeylayer_backend::preset::{
    add_warning_count, find_preset, remove_presets_named, upsert_preset, ElementType, ImportMode, Position, Preset, PresetImporter,
    PresetManager, TextureMapping,
};
use webkeylayer_backend::Error;

fn keyboard_key(id: Option<&str>) -> InputOverlayElement {
    InputOverlayElement {
        type_id: 1,
        id: id.map(|s| s.to_string()),
        pos: Some([1.5f32.to_bits(), 2.0f32.to_bits()]),
        mapping: Some([1, 2, 3, 4]),
        z_level: None,
        code: Some(65),
    }
}

#[test]
fn element_types_are_numbered_as_in_input_overlay() {
    assert_eq!(ElementType::from_i32(0), Some(ElementType::Texture));
    assert_eq!(ElementType::from_i32(1), Some(ElementType::KeyboardKey));
    assert_eq!(ElementType::from_i32(3), Some(ElementType::MouseButton));
    assert_eq!(ElementType::from_i32(9), Some(ElementType::MouseMovement));
    assert_eq!(ElementType::from_i32(10), None);
    assert_eq!(ElementType::from_i32(-1), None);
    assert_eq!(ElementType::Texture.internal_name(), Some("texture"));
    assert_eq!(ElementType::Wheel.internal_name(), None);
}

#[test]
fn a_complete_element_converts_field_by_field() {
    let element = convert_element(0, &keyboard_key(Some("k"))).unwrap();
    assert_eq!(element.id, "k");
    assert_eq!(element.element_type, "keyboard");
    assert_eq!(element.code, Some(65));
    assert_eq!(element.position, Position { x_bits: 1.5f32.to_bits(), y_bits: 2.0f32.to_bits() });
    assert_eq!(element.texture, TextureMapping { x: 1, y: 2, width: 3, height: 4 });
    assert_eq!(element.z_index, 0);
}

#[test]
fn each_missing_field_has_its_warning() {
    assert_eq!(convert_element(7, &keyboard_key(None)).unwrap_err(), "element #7 missing required field id");

    let mut e = keyboard_key(Some("k"));
    e.type_id = 42;
    assert_eq!(convert_element(0, &e).unwrap_err(), "element 'k' uses unknown element type 42");

    let mut e = keyboard_key(Some("k"));
    e.type_id = -3;
    assert_eq!(convert_element(0, &e).unwrap_err(), "element 'k' uses unknown element type -3");

    let mut e = keyboard_key(Some("k"));
    e.type_id = 5;
    assert_eq!(convert_element(0, &e).unwrap_err(), "element 'k' uses unsupported element type 5");

    let mut e = keyboard_key(Some("k"));
    e.pos = None;
    assert_eq!(convert_element(0, &e).unwrap_err(), "element 'k' missing required field pos");

    let mut e = keyboard_key(Some("k"));
    e.mapping = None;
    assert_eq!(convert_element(0, &e).unwrap_err(), "element 'k' missing required field mapping");

    let mut e = keyboard_key(Some("k"));
    e.code = None;
    assert_eq!(convert_element(0, &e).unwrap_err(), "element 'k' missing required field code");

    let mut e = keyboard_key(Some("t"));
    e.type_id = 0;
    e.code = None;
    assert_eq!(convert_element(0, &e).unwrap().code, None);
}

#[test]
fn z_levels_accept_integers_and_integer_text() {
    let mut e = keyboard_key(Some("k"));
    e.z_level = Some(ZLevel::Integer(-5));
    assert_eq!(convert_element(0, &e).unwrap().z_index, -5);

    e.z_level = Some(ZLevel::Text("+12".to_string()));
    assert_eq!(convert_element(0, &e).unwrap().z_index, 12);

    e.z_level = Some(ZLevel::Integer(3_000_000_000));
    let warning = convert_element(0, &e).unwrap_err();
    assert!(warning.starts_with("element 'k' has invalid z_level: "));
    assert_eq!(
        warning,
        format!("element 'k' has invalid z_level: {}", i32::try_from(3_000_000_000i64).unwrap_err())
    );

    e.z_level = Some(ZLevel::Text("x1".to_string()));
    assert_eq!(
        convert_element(0, &e).unwrap_err(),
        format!("element 'k' has invalid z_level: {}", "x1".parse::<i32>().unwrap_err())
    );

    e.z_level = Some(ZLevel::Text("99999999999".to_string()));
    assert_eq!(
        convert_element(0, &e).unwrap_err(),
        format!("element 'k' has invalid z_level: {}", "99999999999".parse::<i32>().unwrap_err())
    );

    e.z_level = Some(ZLevel::Other);
    assert_eq!(
        convert_element(0, &e).unwrap_err(),
        "element 'k' has invalid z_level: expected integer or integer string"
    );
}

#[test]
fn preset_names_come_from_the_file_stem() {
    assert_eq!(preset_name_from_path("/tmp/presets/wasd.json"), "wasd");
    assert_eq!(preset_name_from_path("wasd-test.json"), "wasd-test");
    assert_eq!(preset_name_from_path("archive.tar.gz"), "archive.tar");
    assert_eq!(preset_name_from_path(".hidden"), ".hidden");
    assert_eq!(preset_name_from_path("dir/"), "dir");
    assert_eq!(preset_name_from_path(""), "input-overlay");
    assert_eq!(preset_name_from_path("/"), "input-overlay");
    assert_eq!(preset_name_from_path("a/.."), "input-overlay");
}

#[test]
fn windows_paths_name_presets_by_their_file_stem() {
    assert_eq!(preset_name_from_path("C:\\Users\\me\\presets\\my-layout.json"), "my-layout");
    assert_eq!(preset_name_from_path("presets\\wasd.json"), "wasd");
    assert_eq!(preset_name_from_path("mixed/dir\\keys.v2.json"), "keys.v2");
}

#[test]
fn every_element_becomes_an_element_or_a_warning() {
    let mut broken = keyboard_key(Some("b"));
    broken.pos = None;
    let source = InputOverlayPreset {
        overlay_width: 10,
        overlay_height: 20,
        elements: vec![keyboard_key(Some("a")), broken, keyboard_key(None), keyboard_key(Some("c"))],
    };
    let (preset, warnings) = convert_input_overlay("doc.json", &source);
    assert_eq!(preset.elements.len() + warnings.len(), source.elements.len());
    assert_eq!(preset.elements.iter().map(|e| e.id.clone()).collect::<Vec<_>>(), vec!["a", "c"]);
    assert_eq!(
        warnings,
        vec!["element 'b' missing required field pos".to_string(), "element #2 missing required field id".to_string()]
    );
    assert_eq!(preset.name, "doc");
    assert_eq!(preset.version, "input-overlay");
    assert_eq!((preset.width, preset.height), (10, 20));
}

#[test]
fn strict_import_reports_all_warnings_joined() {
    let mut broken = keyboard_key(Some("b"));
    broken.mapping = None;
    let source = InputOverlayPreset {
        overlay_width: 1,
        overlay_height: 1,
        elements: vec![keyboard_key(None), broken],
    };
    match PresetImporter::import_content("x.json", &source, ImportMode::Strict) {
        Err(Error::PresetImport(message)) => assert_eq!(
            message,
            "element #0 missing required field id; element 'b' missing required field mapping"
        ),
        _ => panic!("expected a preset import error"),
    }
    let (preset, warnings) = PresetImporter::import_content("x.json", &source, ImportMode::Lenient).unwrap();
    assert!(preset.elements.is_empty());
    assert_eq!(warnings.len(), 2);
    assert_eq!(join_warnings(&vec![]), "");
    assert_eq!(join_warnings(&vec!["one".to_string()]), "one");
}

fn named(name: &str, width: u32) -> Preset {
    Preset { name: name.to_string(), version: "v".to_string(), width, height: 1, elements: Vec::new() }
}

#[test]
fn storing_a_preset_replaces_the_one_with_its_name() {
    let mut presets = vec![named("a", 1), named("b", 2), named("c", 3)];
    upsert_preset(&mut presets, named("b", 20));
    assert_eq!(presets.iter().map(|p| (p.name.clone(), p.width)).collect::<Vec<_>>(), vec![
        ("a".to_string(), 1),
        ("c".to_string(), 3),
        ("b".to_string(), 20)
    ]);
    assert_eq!(find_preset(&presets, "b"), Some(2));
    assert_eq!(find_preset(&presets, "z"), None);
    upsert_preset(&mut presets, named("d", 4));
    assert_eq!(presets.len(), 4);
    assert_eq!(presets.iter().filter(|p| p.name == "b").count(), 1);
}

#[test]
fn removing_by_name_keeps_the_others_in_order() {
    let mut presets = vec![named("a", 1), named("b", 2), named("a", 3), named("c", 4)];
    remove_presets_named(&mut presets, "a");
    assert_eq!(presets.iter().map(|p| (p.name.clone(), p.width)).collect::<Vec<_>>(), vec![
        ("b".to_string(), 2),
        ("c".to_string(), 4)
    ]);
    remove_presets_named(&mut presets, "z");
    assert_eq!(presets.len(), 2);
}

#[test]
fn warning_counter_saturates() {
    assert_eq!(add_warning_count(3, 4), 7);
    assert_eq!(add_warning_count(u64::MAX - 1, 5), u64::MAX);
}

#[test]
fn preset_manager_starts_empty_and_keeps_its_presets() {
    let mut manager = PresetManager::new();
    assert!(manager.list_presets().is_empty());
    assert!(manager.import_preset("anything.json").is_ok());
    assert!(manager.list_presets().is_empty());
    assert!(PresetManager::default().list_presets().is_empty());
}
