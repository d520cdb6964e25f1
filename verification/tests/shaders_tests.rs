use hyprfresh::screensavers::build_shader_source;
use hyprfresh::screensavers::get_fragment_shader;
use hyprfresh::screensavers::has_fragment_entry;
use hyprfresh::screensavers::is_builtin;
use hyprfresh::screensavers::is_valid;

#[test]
fn shader_sources_compile() {
    // Verify all shader sources can be loaded and concatenated
    for name in &["blank", "matrix", "starfield"] {
        let source = build_shader_source(name, None);
        assert!(
            source.contains("vs_main"),
            "missing vertex entry in {}",
            name
        );
        assert!(
            source.contains("fs_main"),
            "missing fragment entry in {}",
            name
        );
    }
}

#[test]
fn unknown_shader_falls_back() {
    let source = build_shader_source("nonexistent", None);
    // Should fall back to blank
    assert!(source.contains("fs_main"));
    assert_eq!(get_fragment_shader("nonexistent", None), get_fragment_shader("blank", None));
}

#[test]
fn builtin_names_are_valid() {
    assert!(is_valid("blank", None));
    assert!(is_valid("matrix", None));
    assert!(is_valid("starfield", None));
}

#[test]
fn unknown_name_is_invalid() {
    assert!(!is_valid("nonexistent_shader_xyz", None));
}

#[test]
fn custom_shader_requires_fragment_entry_point() {
    let valid = "@fragment\nfn fs_main(@location(0) uv: vec2<f32>) -> @location(0) vec4<f32> {\n    return vec4<f32>(1.0, 0.0, 0.0, 1.0);\n}\n";
    let invalid = "fn some_other_function() -> f32 { return 1.0; }\n";

    assert!(has_fragment_entry(valid));
    assert!(!has_fragment_entry(invalid));

    // A custom name is valid exactly when its source has the entry point.
    assert!(is_valid("aurora", Some(valid)));
    assert!(!is_valid("aurora", Some(invalid)));
}

#[test]
fn builtin_set_is_exact() {
    assert!(is_builtin("blank"));
    assert!(is_builtin("matrix"));
    assert!(is_builtin("starfield"));
    assert!(!is_builtin("plasmula"));
    assert!(!is_builtin(""));
}

#[test]
fn valid_custom_shader_overrides_builtin() {
    let valid = "@fragment\nfn fs_main(@builtin(position) pos: vec4f) -> @location(0) vec4f {\n    return vec4f(0.2, 0.2, 0.2, 1.0);\n}\n";
    let invalid = "fn nothing_here() -> f32 { return 0.0; }\n";

    // A valid custom source wins, even over a built-in name.
    assert_eq!(get_fragment_shader("matrix", Some(valid)), valid);
    let built = build_shader_source("matrix", Some(valid));
    assert!(built.contains("vs_main"));
    assert!(built.ends_with(valid));

    // An invalid custom source falls back to the built-in of that name.
    assert_eq!(
        get_fragment_shader("matrix", Some(invalid)),
        get_fragment_shader("matrix", None)
    );
}

#[test]
fn distinct_builtins_have_distinct_sources() {
    let blank = get_fragment_shader("blank", None);
    let matrix = get_fragment_shader("matrix", None);
    let starfield = get_fragment_shader("starfield", None);
    assert_ne!(blank, matrix);
    assert_ne!(matrix, starfield);
    assert_ne!(blank, starfield);
}
