//! Screensaver selection and shader sources.
//!
//! Three screensavers are built in; a custom shader is any text whose
//! fragment stage defines the required entry point.  Reading custom
//! shader files from disk is the caller's business: validity here is a
//! pure function of the name and, when one was found, the file's text.

use crate::text::contains_seq;
use crate::text::str_contains;
use crate::text::str_eq;
use vstd::prelude::*;
use vstd::string::StringExecFns;

verus! {

/// Blank screensaver: just a black screen, for burn-in prevention or
/// minimal power use.
#[derive(Debug)]
pub struct Blank;

impl Blank {
    pub fn new() -> Blank {
        Blank
    }
}

/// Plasmula screensaver: plasma waves.
#[derive(Debug)]
pub struct Plasmula;

impl Plasmula {
    pub fn new() -> Plasmula {
        Plasmula
    }
}

/// Whether a shader source defines the required fragment entry point.
pub fn has_fragment_entry(source: &str) -> (r: bool)
    ensures
        r == contains_seq(source@, "fn fs_main"@),
{
    str_contains(source, "fn fs_main")
}

/// The built-in screensaver names.
pub open spec fn spec_is_builtin(name: Seq<char>) -> bool {
    name == "blank"@ || name == "matrix"@ || name == "starfield"@
}

/// Whether `name` is a built-in screensaver.
pub fn is_builtin(name: &str) -> (r: bool)
    ensures
        r == spec_is_builtin(name@),
{
    str_eq(name, "blank") || str_eq(name, "matrix") || str_eq(name, "starfield")
}

/// Whether a screensaver name is valid: a built-in, or a custom shader —
/// `custom_source` is the text of the custom shader file found under this
/// name, if any — that defines the fragment entry point.
pub fn is_valid(name: &str, custom_source: Option<&str>) -> (r: bool)
    ensures
        r == (spec_is_builtin(name@) || match custom_source {
            Some(src) => contains_seq(src@, "fn fs_main"@),
            None => false,
        }),
{
    if is_builtin(name) {
        return true;
    }
    match custom_source {
        Some(src) => has_fragment_entry(src),
        None => false,
    }
}

/// The vertex stage shared by every screensaver: a full-screen quad.
pub open spec fn common_source() -> Seq<char> {
    "@vertex
fn vs_main(@location(0) position: vec2f) -> @builtin(position) vec4f {
    return vec4f(position, 0.0, 1.0);
}
"@
}

/// The blank fragment stage: opaque black.
pub open spec fn blank_source() -> Seq<char> {
    "@fragment
fn fs_main(@builtin(position) pos: vec4f) -> @location(0) vec4f {
    return vec4f(0.0, 0.0, 0.0, 1.0);
}
"@
}

/// The matrix fragment stage: procedural digital rain.
pub open spec fn matrix_source() -> Seq<char> {
    "struct Uniforms {
    time: f32,
    resolution: vec2f,
}

@group(0) @binding(0) var<uniform> u: Uniforms;

fn hash(p: vec2f) -> f32 {
    let h = dot(p, vec2f(127.1, 311.7));
    return fract(sin(h) * 43758.5453123);
}

@fragment
fn fs_main(@builtin(position) pos: vec4f) -> @location(0) vec4f {
    let uv = pos.xy / u.resolution;
    let col = floor(uv.x * 20.0);
    let col_speed = 0.5 + hash(vec2f(col, 0.0)) * 1.5;
    let scroll = u.time * col_speed + hash(vec2f(col, 1.0)) * 100.0;
    let dist_from_head = fract((1.0 - uv.y) * 40.0 + scroll);
    let brightness = smoothstep(1.0, 0.0, dist_from_head) * 0.8;
    let flicker = step(0.3, hash(vec2f(col, floor((1.0 - uv.y) * 40.0 + scroll))));
    return vec4f(vec3f(0.0, 1.0, 0.0) * brightness * flicker, 1.0);
}
"@
}

/// The starfield fragment stage: layered fly-through stars.
pub open spec fn starfield_source() -> Seq<char> {
    "struct Uniforms {
    time: f32,
    resolution: vec2f,
}

@group(0) @binding(0) var<uniform> u: Uniforms;

fn hash21(p: vec2f) -> f32 {
    var p3 = fract(vec3f(p.x, p.y, p.x) * 0.1031);
    p3 = p3 + dot(p3, vec3f(p3.y, p3.z, p3.x) + 33.33);
    return fract((p3.x + p3.y) * p3.z);
}

@fragment
fn fs_main(@builtin(position) pos: vec4f) -> @location(0) vec4f {
    let uv = (pos.xy - u.resolution * 0.5) / min(u.resolution.x, u.resolution.y);
    var color = vec3f(0.0);
    for (var layer = 0.0; layer < 4.0; layer += 1.0) {
        let depth = fract(layer * 0.25 + u.time * 0.1);
        let scale = mix(20.0, 0.5, depth);
        let grid_uv = uv * scale + vec2f(layer * 17.3, layer * 31.7);
        let grid_id = floor(grid_uv);
        let grid_fract = fract(grid_uv) - 0.5;
        let rnd = hash21(grid_id);
        let star_size = (1.0 - depth) * 0.03;
        let d = length(grid_fract - vec2f(rnd - 0.5, fract(rnd * 34.56) - 0.5));
        color += smoothstep(star_size, 0.0, d) * depth * depth;
    }
    return vec4f(color, 1.0);
}
"@
}

/// The built-in fragment source selected by a screensaver name: each
/// built-in maps to its own source, and an unknown name falls back to the
/// blank shader.
pub open spec fn spec_builtin_fragment(name: Seq<char>) -> Seq<char> {
    if name == "blank"@ {
        blank_source()
    } else if name == "matrix"@ {
        matrix_source()
    } else if name == "starfield"@ {
        starfield_source()
    } else {
        blank_source()
    }
}

/// The fragment source selected by a screensaver name and an optional
/// custom shader text: a custom shader with the required fragment entry
/// point wins over any built-in; otherwise the built-in (or blank
/// fallback) is used.
pub open spec fn spec_fragment_shader(name: Seq<char>, custom: Option<Seq<char>>) -> Seq<char> {
    match custom {
        Some(src) => if contains_seq(src, "fn fs_main"@) {
            src
        } else {
            spec_builtin_fragment(name)
        },
        None => spec_builtin_fragment(name),
    }
}

/// The fragment shader source for a named screensaver.  `custom_source` is
/// the text of the custom shader file found under this name, if any;
/// locating it is the caller's business.  A valid custom shader overrides
/// the built-in of the same name; an invalid one falls back to it, and an
/// unknown name falls back to the blank shader.
pub fn get_fragment_shader(name: &str, custom_source: Option<&str>) -> (r: String)
    ensures
        r@ == spec_fragment_shader(
            name@,
            match custom_source {
                Some(src) => Some(src@),
                None => None::<Seq<char>>,
            },
        ),
{
    if let Some(src) = custom_source {
        if has_fragment_entry(src) {
            return src.to_owned();
        }
    }
    if str_eq(name, "blank") {
        "@fragment
fn fs_main(@builtin(position) pos: vec4f) -> @location(0) vec4f {
    return vec4f(0.0, 0.0, 0.0, 1.0);
}
".to_owned()
    } else if str_eq(name, "matrix") {
        "struct Uniforms {
    time: f32,
    resolution: vec2f,
}

@group(0) @binding(0) var<uniform> u: Uniforms;

fn hash(p: vec2f) -> f32 {
    let h = dot(p, vec2f(127.1, 311.7));
    return fract(sin(h) * 43758.5453123);
}

@fragment
fn fs_main(@builtin(position) pos: vec4f) -> @location(0) vec4f {
    let uv = pos.xy / u.resolution;
    let col = floor(uv.x * 20.0);
    let col_speed = 0.5 + hash(vec2f(col, 0.0)) * 1.5;
    let scroll = u.time * col_speed + hash(vec2f(col, 1.0)) * 100.0;
    let dist_from_head = fract((1.0 - uv.y) * 40.0 + scroll);
    let brightness = smoothstep(1.0, 0.0, dist_from_head) * 0.8;
    let flicker = step(0.3, hash(vec2f(col, floor((1.0 - uv.y) * 40.0 + scroll))));
    return vec4f(vec3f(0.0, 1.0, 0.0) * brightness * flicker, 1.0);
}
".to_owned()
    } else if str_eq(name, "starfield") {
        "struct Uniforms {
    time: f32,
    resolution: vec2f,
}

@group(0) @binding(0) var<uniform> u: Uniforms;

fn hash21(p: vec2f) -> f32 {
    var p3 = fract(vec3f(p.x, p.y, p.x) * 0.1031);
    p3 = p3 + dot(p3, vec3f(p3.y, p3.z, p3.x) + 33.33);
    return fract((p3.x + p3.y) * p3.z);
}

@fragment
fn fs_main(@builtin(position) pos: vec4f) -> @location(0) vec4f {
    let uv = (pos.xy - u.resolution * 0.5) / min(u.resolution.x, u.resolution.y);
    var color = vec3f(0.0);
    for (var layer = 0.0; layer < 4.0; layer += 1.0) {
        let depth = fract(layer * 0.25 + u.time * 0.1);
        let scale = mix(20.0, 0.5, depth);
        let grid_uv = uv * scale + vec2f(layer * 17.3, layer * 31.7);
        let grid_id = floor(grid_uv);
        let grid_fract = fract(grid_uv) - 0.5;
        let rnd = hash21(grid_id);
        let star_size = (1.0 - depth) * 0.03;
        let d = length(grid_fract - vec2f(rnd - 0.5, fract(rnd * 34.56) - 0.5));
        color += smoothstep(star_size, 0.0, d) * depth * depth;
    }
    return vec4f(color, 1.0);
}
".to_owned()
    } else {
        "@fragment
fn fs_main(@builtin(position) pos: vec4f) -> @location(0) vec4f {
    return vec4f(0.0, 0.0, 0.0, 1.0);
}
".to_owned()
    }
}

/// The complete shader module for a named screensaver: the shared vertex
/// stage, a newline, and the screensaver's fragment stage — the custom
/// text when one was found and valid, else the built-in.
pub fn build_shader_source(name: &str, custom_source: Option<&str>) -> (r: String)
    ensures
        r@ == common_source() + "\n"@ + spec_fragment_shader(
            name@,
            match custom_source {
                Some(src) => Some(src@),
                None => None::<Seq<char>>,
            },
        ),
{
    let fragment = get_fragment_shader(name, custom_source);
    "@vertex
fn vs_main(@location(0) position: vec2f) -> @builtin(position) vec4f {
    return vec4f(position, 0.0, 1.0);
}
".to_owned().concat("\n").concat(fragment.as_str())
}

} // verus!
