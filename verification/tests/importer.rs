use webkeylayer_backend::preset::importer::{InputOverlayElement, InputOverlayPreset, ZLevel};
use webkeylayer_backend::preset::{ImportMode, PresetImporter};

fn element(
    type_id: i32,
    pos: [f32; 2],
    id: &str,
    z_level: ZLevel,
    mapping: [u32; 4],
    code: Option<i32>,
) -> InputOverlayElement {
    InputOverlayElement {
        type_id,
        id: Some(id.to_string()),
        pos: Some([pos[0].to_bits(), pos[1].to_bits()]),
        mapping: Some(mapping),
        z_level: Some(z_level),
        code,
    }
}

#[test]
fn imports_supported_input_overlay_elements_into_internal_preset() {
    let source = InputOverlayPreset {
        overlay_width: 320,
        overlay_height: 180,
        elements: vec![
            element(0, [0.0, 0.0], "base", ZLevel::Integer(0), [0, 0, 320, 180], None),
            element(1, [20.0, 30.0], "w", ZLevel::Text("2".to_string()), [10, 20, 40, 50], Some(17)),
            element(3, [90.0, 30.0], "lmb", ZLevel::Integer(3), [60, 20, 30, 50], Some(1)),
        ],
    };

    let (preset, _) =
        PresetImporter::import_content("/tmp/presets/supported.json", &source, ImportMode::Strict).unwrap();

    assert_eq!(preset.name, "supported");
    assert_eq!(preset.version, "input-overlay");
    assert_eq!(preset.width, 320);
    assert_eq!(preset.height, 180);
    assert_eq!(preset.elements.len(), 3);
    assert_eq!(preset.elements[0].element_type, "texture");
    assert_eq!(preset.elements[0].code, None);
    assert_eq!(preset.elements[1].element_type, "keyboard");
    assert_eq!(preset.elements[1].code, Some(17));
    assert_eq!(f32::from_bits(preset.elements[1].position.x_bits), 20.0);
    assert_eq!(preset.elements[1].texture.width, 40);
    assert_eq!(preset.elements[1].z_index, 2);
    assert_eq!(preset.elements[2].element_type, "mouse_button");
    assert_eq!(preset.elements[2].code, Some(1));
}

#[test]
fn strict_import_rejects_unsupported_elements() {
    let source = InputOverlayPreset {
        overlay_width: 100,
        overlay_height: 100,
        elements: vec![element(2, [10.0, 10.0], "gamepad_a", ZLevel::Integer(0), [0, 0, 20, 20], Some(0))],
    };

    let error = match PresetImporter::import_content("unsupported.json", &source, ImportMode::Strict) {
        Ok(_) => panic!("strict 模式必须拒绝未支持的元素类型"),
        Err(error) => error,
    };

    assert!(error.message().contains("unsupported element type"));
}

#[test]
fn lenient_import_skips_unsupported_elements_and_reports_warnings() {
    let source = InputOverlayPreset {
        overlay_width: 100,
        overlay_height: 100,
        elements: vec![
            element(2, [10.0, 10.0], "gamepad_a", ZLevel::Integer(0), [0, 0, 20, 20], Some(0)),
            element(1, [40.0, 10.0], "a", ZLevel::Integer(0), [20, 0, 20, 20], Some(30)),
        ],
    };

    let (preset, _) = PresetImporter::import_content("lenient.json", &source, ImportMode::Lenient).unwrap();
    let warnings = PresetImporter::validate("lenient.json", &source);

    assert_eq!(preset.elements.len(), 1);
    assert_eq!(preset.elements[0].id, "a");
    assert_eq!(warnings.len(), 1);
    assert!(warnings[0].contains("gamepad_a"));
}
