//! Conversion of Input Overlay presets into the internal preset format.
//!
//! The Input Overlay JSON document is decoded into [`InputOverlayPreset`]
//! (a plain-value mirror of the document) before it reaches this module;
//! everything from there on is decided here.

use crate::error::Error;
use crate::preset::schema::{Position, Preset, PresetElement, PresetElementView, PresetView, TextureMapping};
use crate::text::{decimal, decimal_digits, push_decimal_i64, push_decimal_u64};
use vstd::prelude::*;

verus! {

/// Element types of the Input Overlay format, in the order of their codes
/// 0 to 9.
#[derive(Debug, Clone, Copy, PartialEq, Eq, Structural)]
pub enum ElementType {
    Texture,
    KeyboardKey,
    GamepadButton,
    MouseButton,
    Wheel,
    AnalogStick,
    Trigger,
    GamepadId,
    DPadStick,
    MouseMovement,
}

/// The element type with code `value`, if any.
pub open spec fn element_type_of(value: i32) -> Option<ElementType> {
    if value == 0 {
        Some(ElementType::Texture)
    } else if value == 1 {
        Some(ElementType::KeyboardKey)
    } else if value == 2 {
        Some(ElementType::GamepadButton)
    } else if value == 3 {
        Some(ElementType::MouseButton)
    } else if value == 4 {
        Some(ElementType::Wheel)
    } else if value == 5 {
        Some(ElementType::AnalogStick)
    } else if value == 6 {
        Some(ElementType::Trigger)
    } else if value == 7 {
        Some(ElementType::GamepadId)
    } else if value == 8 {
        Some(ElementType::DPadStick)
    } else if value == 9 {
        Some(ElementType::MouseMovement)
    } else {
        None
    }
}

/// Internal type name of a supported element type (textures, keyboard keys
/// and mouse buttons); `None` for the types that are not supported.
pub open spec fn internal_type_name(t: ElementType) -> Option<Seq<char>> {
    match t {
        ElementType::Texture => Some("texture"@),
        ElementType::KeyboardKey => Some("keyboard"@),
        ElementType::MouseButton => Some("mouse_button"@),
        _ => None,
    }
}

impl ElementType {
    /// Element type of an Input Overlay type code.
    pub fn from_i32(value: i32) -> (r: Option<ElementType>)
        ensures
            r == element_type_of(value),
    {
        if value == 0 {
            Some(ElementType::Texture)
        } else if value == 1 {
            Some(ElementType::KeyboardKey)
        } else if value == 2 {
            Some(ElementType::GamepadButton)
        } else if value == 3 {
            Some(ElementType::MouseButton)
        } else if value == 4 {
            Some(ElementType::Wheel)
        } else if value == 5 {
            Some(ElementType::AnalogStick)
        } else if value == 6 {
            Some(ElementType::Trigger)
        } else if value == 7 {
            Some(ElementType::GamepadId)
        } else if value == 8 {
            Some(ElementType::DPadStick)
        } else if value == 9 {
            Some(ElementType::MouseMovement)
        } else {
            None
        }
    }

    /// Internal type name of the element type, if it is supported.
    pub fn internal_name(self) -> (r: Option<&'static str>)
        ensures
            match r {
                Some(s) => internal_type_name(self) == Some(s@),
                None => internal_type_name(self) is None,
            },
    {
        match self {
            ElementType::Texture => Some("texture"),
            ElementType::KeyboardKey => Some("keyboard"),
            ElementType::MouseButton => Some("mouse_button"),
            _ => None,
        }
    }
}

/// How incompatibilities are handled during import.
#[derive(Debug, Clone, Copy, PartialEq, Eq, Structural)]
pub enum ImportMode {
    /// Any incompatible element rejects the whole preset.
    Strict,
    /// Incompatible elements are skipped and reported as warnings.
    Lenient,
}

/// The `z_level` field of an element as found in the document: an integer
/// that fits in 64 signed bits, a string, or any other JSON value.
#[derive(Debug)]
pub enum ZLevel {
    Integer(i64),
    Text(String),
    Other,
}

/// One element of an Input Overlay document. `pos` holds the bit patterns
/// of the two single-precision coordinates.
#[derive(Debug)]
pub struct InputOverlayElement {
    pub type_id: i32,
    pub id: Option<String>,
    pub pos: Option<[u32; 2]>,
    pub mapping: Option<[u32; 4]>,
    pub z_level: Option<ZLevel>,
    pub code: Option<i32>,
}

/// An Input Overlay document.
#[derive(Debug)]
pub struct InputOverlayPreset {
    pub overlay_width: u32,
    pub overlay_height: u32,
    pub elements: Vec<InputOverlayElement>,
}

pub open spec fn is_ascii_digit(c: char) -> bool {
    '0' <= c && c <= '9'
}

/// Value of a non-empty run of ASCII digits.
pub open spec fn digits_value(s: Seq<char>) -> int
    decreases s.len(),
{
    if s.len() == 0 {
        0
    } else {
        digits_value(s.drop_last()) * 10 + (s.last() as int - '0' as int)
    }
}

/// The integer written in `s`: an optional `+` or `-` sign followed by one
/// or more ASCII digits and nothing else (the syntax integer parsing accepts).
pub open spec fn integer_text_value(s: Seq<char>) -> Option<int> {
    let negative = s.len() > 0 && s[0] == '-';
    let signed = s.len() > 0 && (s[0] == '-' || s[0] == '+');
    let body = if signed { s.drop_first() } else { s };
    if body.len() > 0 && (forall|i: int| 0 <= i < body.len() ==> is_ascii_digit(#[trigger] body[i])) {
        Some(if negative { -digits_value(body) } else { digits_value(body) })
    } else {
        None
    }
}

pub open spec fn fits_i32(v: int) -> bool {
    i32::MIN <= v <= i32::MAX
}

/// Message of the error that parsing `text` as an `i32` reports.
pub uninterp spec fn int_parse_error_text(text: Seq<char>) -> Seq<char>;

/// Message of the error that converting the 64-bit integer `n` to `i32`
/// reports.
pub uninterp spec fn int_conversion_error_text(n: int) -> Seq<char>;

/// Parses `text` as an `i32` with `str::parse`. The documented syntax
/// (optional sign, then only ASCII digits) and range decide success; the
/// error's message is the rendering of std's `ParseIntError`, whose wording
/// the documentation does not fix and which is only named here.
#[verifier::external_body]
fn parse_i32_text(text: &str) -> (r: Result<i32, String>)
    ensures
        match r {
            Ok(v) => integer_text_value(text@) == Some(v as int),
            Err(e) => !(integer_text_value(text@) matches Some(v) && fits_i32(v))
                && e@ == int_parse_error_text(text@),
        },
{
    text.parse::<i32>().map_err(|error| error.to_string())
}

/// Converts a 64-bit integer to `i32` with `i32::try_from`: it succeeds
/// exactly when the value is in range; the error's message is the rendering
/// of std's `TryFromIntError`, which is only named here.
#[verifier::external_body]
fn i64_to_i32(n: i64) -> (r: Result<i32, String>)
    ensures
        match r {
            Ok(v) => v as int == n as int,
            Err(e) => !fits_i32(n as int) && e@ == int_conversion_error_text(n as int),
        },
{
    i32::try_from(n).map_err(|error| error.to_string())
}

/// Z index of an element: 0 when absent, the integer or integer text when
/// it fits in `i32`, an error message otherwise.
pub open spec fn z_index_result(z: Option<ZLevel>) -> Result<i32, Seq<char>> {
    match z {
        None => Ok(0),
        Some(ZLevel::Integer(n)) => if fits_i32(n as int) {
            Ok(n as i32)
        } else {
            Err(int_conversion_error_text(n as int))
        },
        Some(ZLevel::Text(t)) => match integer_text_value(t@) {
            Some(v) => if fits_i32(v) {
                Ok(v as i32)
            } else {
                Err(int_parse_error_text(t@))
            },
            None => Err(int_parse_error_text(t@)),
        },
        Some(ZLevel::Other) => Err("expected integer or integer string"@),
    }
}

fn parse_z_index(value: Option<&ZLevel>) -> (r: Result<i32, String>)
    ensures
        match (r, z_index_result(match value { Some(z) => Some(*z), None => None })) {
            (Ok(a), Ok(b)) => a == b,
            (Err(a), Err(b)) => a@ == b,
            _ => false,
        },
{
    match value {
        None => Ok(0),
        Some(ZLevel::Integer(n)) => i64_to_i32(*n),
        Some(ZLevel::Text(t)) => {
            let r = parse_i32_text(t.as_str());
            proof {
                if let Ok(v) = r {
                    assert(fits_i32(v as int));
                }
            }
            r
        },
        Some(ZLevel::Other) => Err(String::from_str("expected integer or integer string")),
    }
}

/// `"element '<id>'"`, the subject of most conversion messages.
pub open spec fn element_subject(id: Seq<char>) -> Seq<char> {
    "element '"@ + id + "'"@
}

/// Converting the element at `index`: the internal element, or the warning
/// that explains why the element cannot be used. Checks are made in the
/// order id, type, support of the type, position, mapping, z level, code.
pub open spec fn element_result(index: int, src: InputOverlayElement) -> Result<PresetElementView, Seq<char>> {
    match src.id {
        None => Err("element #"@ + decimal(index) + " missing required field id"@),
        Some(id_string) => {
            let id = id_string@;
            let subject = element_subject(id);
            match element_type_of(src.type_id) {
                None => Err(subject + " uses unknown element type "@ + decimal(src.type_id as int)),
                Some(t) => match internal_type_name(t) {
                    None => Err(subject + " uses unsupported element type "@ + decimal(src.type_id as int)),
                    Some(name) => match src.pos {
                        None => Err(subject + " missing required field pos"@),
                        Some(pos) => match src.mapping {
                            None => Err(subject + " missing required field mapping"@),
                            Some(mapping) => match z_index_result(src.z_level) {
                                Err(e) => Err(subject + " has invalid z_level: "@ + e),
                                Ok(z) => if (t == ElementType::KeyboardKey || t == ElementType::MouseButton)
                                    && src.code is None {
                                    Err(subject + " missing required field code"@)
                                } else {
                                    Ok(PresetElementView {
                                        id,
                                        element_type: name,
                                        code: src.code,
                                        position: Position { x_bits: pos[0], y_bits: pos[1] },
                                        texture: TextureMapping {
                                            x: mapping[0],
                                            y: mapping[1],
                                            width: mapping[2],
                                            height: mapping[3],
                                        },
                                        z_index: z,
                                    })
                                },
                            },
                        },
                    },
                },
            }
        },
    }
}

/// What a converted element is: only textures (type 0), keyboard keys
/// (type 1) and mouse buttons (type 3) convert, to the internal types
/// `texture`, `keyboard` and `mouse_button`; the id, the code, the position
/// and the texture rectangle are carried over unchanged; and keys and mouse
/// buttons always carry a code: one without a code is refused with the
/// warning that the code is missing, once its other fields are valid.
pub proof fn lemma_converted_elements_keep_their_fields(index: int, src: InputOverlayElement)
    ensures
        element_result(index, src) matches Ok(e) ==> {
            &&& src.type_id == 0 || src.type_id == 1 || src.type_id == 3
            &&& e.element_type == (if src.type_id == 0 {
                "texture"@
            } else if src.type_id == 1 {
                "keyboard"@
            } else {
                "mouse_button"@
            })
            &&& src.id matches Some(id) && e.id == id@
            &&& e.code == src.code
            &&& src.pos matches Some(pos) && e.position.x_bits == pos[0] && e.position.y_bits == pos[1]
            &&& src.mapping matches Some(m) && e.texture.x == m[0] && e.texture.y == m[1] && e.texture.width == m[2]
                && e.texture.height == m[3]
        },
        element_result(index, src) matches Ok(e) ==> ((e.element_type == "keyboard"@ || e.element_type
            == "mouse_button"@) ==> e.code is Some),
        (src.type_id == 1 || src.type_id == 3) && src.code is None ==> element_result(index, src) is Err,
        ({
            &&& src.id matches Some(id)
            &&& (src.type_id == 1 || src.type_id == 3)
            &&& src.pos is Some
            &&& src.mapping is Some
            &&& z_index_result(src.z_level) is Ok
            &&& src.code is None
        }) ==> element_result(index, src) == Err::<PresetElementView, Seq<char>>(
            "element '"@ + src.id->0@ + "'"@ + " missing required field code"@,
        ),
{
    reveal_strlit("texture");
    reveal_strlit("keyboard");
    reveal_strlit("mouse_button");
    assert("texture"@ != "keyboard"@) by {
        assert("texture"@[0] != "keyboard"@[0]);
    }
    assert("texture"@ != "mouse_button"@) by {
        assert("texture"@.len() != "mouse_button"@.len());
    }
}

fn subject_message(id: &String, rest: &str) -> (r: String)
    ensures
        r@ == element_subject(id@) + rest@,
{
    let mut m = String::from_str("element '");
    m.append(id.as_str());
    m.append("'");
    m.append(rest);
    proof {
        assert(m@ =~= element_subject(id@) + rest@);
    }
    m
}

/// Converts one Input Overlay element (see [`element_result`]).
pub fn convert_element(index: usize, source: &InputOverlayElement) -> (r: Result<PresetElement, String>)
    ensures
        match (r, element_result(index as int, *source)) {
            (Ok(a), Ok(b)) => a@ == b,
            (Err(a), Err(b)) => a@ == b,
            _ => false,
        },
{
    let type_id = source.type_id;
    let pos = source.pos;
    let mapping = source.mapping;
    let code = source.code;
    let id = match &source.id {
        None => {
            let mut m = String::from_str("element #");
            push_decimal_u64(&mut m, index as u64);
            m.append(" missing required field id");
            proof {
                assert(m@ =~= "element #"@ + decimal(index as int) + " missing required field id"@);
            }
            return Err(m);
        },
        Some(id) => id.clone(),
    };
    let element_type = match ElementType::from_i32(type_id) {
        None => {
            let mut m = subject_message(&id, " uses unknown element type ");
            push_decimal_i64(&mut m, type_id as i64);
            return Err(m);
        },
        Some(t) => t,
    };
    let internal_type = match element_type.internal_name() {
        None => {
            let mut m = subject_message(&id, " uses unsupported element type ");
            push_decimal_i64(&mut m, type_id as i64);
            return Err(m);
        },
        Some(name) => name,
    };
    let pos = match pos {
        None => {
            return Err(subject_message(&id, " missing required field pos"));
        },
        Some(p) => p,
    };
    let mapping = match mapping {
        None => {
            return Err(subject_message(&id, " missing required field mapping"));
        },
        Some(m) => m,
    };
    let z_index = match parse_z_index(source.z_level.as_ref()) {
        Err(e) => {
            let mut m = subject_message(&id, " has invalid z_level: ");
            m.append(e.as_str());
            return Err(m);
        },
        Ok(z) => z,
    };
    let needs_code = element_type == ElementType::KeyboardKey || element_type == ElementType::MouseButton;
    if needs_code && code.is_none() {
        return Err(subject_message(&id, " missing required field code"));
    }
    Ok(PresetElement {
        id,
        element_type: String::from_str(internal_type),
        code,
        position: Position { x_bits: pos[0], y_bits: pos[1] },
        texture: TextureMapping { x: mapping[0], y: mapping[1], width: mapping[2], height: mapping[3] },
        z_index,
    })
}

/// Start of the path segment that ends at `end`: just after the last
/// separator (`/` or `\`, as on Windows) before `end`, or 0.
pub open spec fn segment_start(s: Seq<char>, end: int) -> int
    decreases end,
{
    if end <= 0 {
        0
    } else if s[end - 1] == '/' || s[end - 1] == '\\' {
        end
    } else {
        segment_start(s, end - 1)
    }
}

/// Bounds of the last path segment before `end` that is neither empty nor
/// `.` (the last component a path names).
pub open spec fn last_named_segment(s: Seq<char>, end: int) -> Option<(int, int)>
    decreases end,
{
    if end <= 0 {
        None
    } else {
        let start = segment_start(s, end);
        if end - start == 0 || (end - start == 1 && s[start] == '.') {
            if start <= 0 || start > end {
                None
            } else {
                last_named_segment(s, start - 1)
            }
        } else {
            Some((start, end))
        }
    }
}

/// File name of a path whose components are separated by `/` or `\`: its
/// last component, unless that is `..` or the path names no component.
pub open spec fn file_name_of(path: Seq<char>) -> Option<Seq<char>> {
    match last_named_segment(path, path.len() as int) {
        None => None,
        Some((a, b)) => if path.subrange(a, b) == seq!['.', '.'] {
            None
        } else {
            Some(path.subrange(a, b))
        },
    }
}

/// Index of the last `.` of `name` before `end`, or -1.
pub open spec fn last_dot(name: Seq<char>, end: int) -> int
    decreases end,
{
    if end <= 0 {
        -1
    } else if name[end - 1] == '.' {
        end - 1
    } else {
        last_dot(name, end - 1)
    }
}

/// File stem: the file name without its last extension; a name whose only
/// dot is its first character is its own stem.
pub open spec fn stem_of(name: Seq<char>) -> Seq<char> {
    let d = last_dot(name, name.len() as int);
    if d <= 0 { name } else { name.take(d) }
}

/// Preset name derived from a path or file name: the file stem, or
/// `input-overlay` when the path has no usable stem.
pub open spec fn preset_name_of(path: Seq<char>) -> Seq<char> {
    match file_name_of(path) {
        Some(name) => if stem_of(name).len() > 0 { stem_of(name) } else { "input-overlay"@ },
        None => "input-overlay"@,
    }
}

fn find_segment_start(cs: &Vec<char>, end: usize) -> (r: usize)
    requires
        end <= cs@.len(),
    ensures
        r == segment_start(cs@, end as int),
        r <= end,
    decreases end,
{
    if end == 0 {
        0
    } else if cs[end - 1] == '/' || cs[end - 1] == '\\' {
        end
    } else {
        find_segment_start(cs, end - 1)
    }
}

fn find_last_named_segment(cs: &Vec<char>, end: usize) -> (r: Option<(usize, usize)>)
    requires
        end <= cs@.len(),
    ensures
        match (r, last_named_segment(cs@, end as int)) {
            (Some((a, b)), Some((c, d))) => a == c && b == d && a <= b <= cs@.len(),
            (None, None) => true,
            _ => false,
        },
    decreases end,
{
    if end == 0 {
        return None;
    }
    let start = find_segment_start(cs, end);
    if end - start == 0 || (end - start == 1 && cs[start] == '.') {
        if start == 0 {
            None
        } else {
            find_last_named_segment(cs, start - 1)
        }
    } else {
        Some((start, end))
    }
}

fn find_last_dot(cs: &Vec<char>, from: usize, end: usize) -> (r: Option<usize>)
    requires
        from <= end <= cs@.len(),
    ensures
        match r {
            Some(i) => from <= i < end && last_dot(cs@.subrange(from as int, end as int), (end - from) as int) == i - from,
            None => last_dot(cs@.subrange(from as int, end as int), (end - from) as int) == -1,
        },
    decreases end - from,
{
    if end == from {
        return None;
    }
    proof {
        let name = cs@.subrange(from as int, end as int);
        let shorter = cs@.subrange(from as int, end - 1);
        assert forall|k: int| 0 <= k <= (end - 1 - from) implies last_dot(name, k) == last_dot(shorter, k) by {
            lemma_last_dot_prefix(name, shorter, k);
        }
    }
    if cs[end - 1] == '.' {
        Some(end - 1)
    } else {
        find_last_dot(cs, from, end - 1)
    }
}

proof fn lemma_last_dot_prefix(name: Seq<char>, shorter: Seq<char>, k: int)
    requires
        0 <= k <= shorter.len(),
        shorter.len() <= name.len(),
        forall|i: int| 0 <= i < shorter.len() ==> name[i] == shorter[i],
    ensures
        last_dot(name, k) == last_dot(shorter, k),
    decreases k,
{
    if k > 0 {
        lemma_last_dot_prefix(name, shorter, k - 1);
    }
}

/// Preset name of a path or file name (see [`preset_name_of`]).
pub fn preset_name_from_path(json_path: &str) -> (r: String)
    ensures
        r@ == preset_name_of(json_path@),
{
    let cs = crate::text::chars_of(json_path);
    match find_last_named_segment(&cs, cs.len()) {
        None => String::from_str("input-overlay"),
        Some((a, b)) => {
            let is_parent = b - a == 2 && cs[a] == '.' && cs[a + 1] == '.';
            proof {
                let name = cs@.subrange(a as int, b as int);
                if is_parent {
                    assert(name =~= seq!['.', '.']);
                } else if b - a == 2 {
                    assert(name[0] == cs@[a as int] && name[1] == cs@[a + 1]);
                    assert(name != seq!['.', '.']);
                } else {
                    assert(name.len() != 2);
                }
            }
            if is_parent {
                return String::from_str("input-overlay");
            }
            let stem_end = match find_last_dot(&cs, a, b) {
                Some(d) => if d == a { b } else { d },
                None => b,
            };
            proof {
                let name = cs@.subrange(a as int, b as int);
                assert(cs@.subrange(a as int, stem_end as int) =~= stem_of(name));
            }
            if stem_end > a {
                crate::text::substring(json_path, a, stem_end)
            } else {
                String::from_str("input-overlay")
            }
        },
    }
}

/// Converting every element in order: the converted elements and, for each
/// element that cannot be used, its warning.
pub open spec fn convert_all(srcs: Seq<InputOverlayElement>) -> (Seq<PresetElementView>, Seq<Seq<char>>)
    decreases srcs.len(),
{
    if srcs.len() == 0 {
        (seq![], seq![])
    } else {
        let (es, ws) = convert_all(srcs.drop_last());
        match element_result(srcs.len() - 1, srcs.last()) {
            Ok(e) => (es.push(e), ws),
            Err(w) => (es, ws.push(w)),
        }
    }
}

/// Conversion loses nothing silently: every element of the document either
/// becomes an element of the preset or yields exactly one warning.
pub proof fn lemma_every_element_is_accounted_for(srcs: Seq<InputOverlayElement>)
    ensures
        convert_all(srcs).0.len() + convert_all(srcs).1.len() == srcs.len(),
    decreases srcs.len(),
{
    if srcs.len() > 0 {
        lemma_every_element_is_accounted_for(srcs.drop_last());
    }
}

/// The internal preset built from a document under the given preset name.
pub open spec fn converted_preset(preset_name: Seq<char>, source: InputOverlayPreset) -> PresetView {
    PresetView {
        name: preset_name_of(preset_name),
        version: "input-overlay"@,
        width: source.overlay_width,
        height: source.overlay_height,
        elements: convert_all(source.elements@).0,
    }
}

/// The warnings produced while converting a document.
pub open spec fn conversion_warnings(source: InputOverlayPreset) -> Seq<Seq<char>> {
    convert_all(source.elements@).1
}

pub open spec fn strings_view(v: Seq<String>) -> Seq<Seq<char>> {
    v.map_values(|s: String| s@)
}

/// A document that converts without warnings (the only kind a strict
/// import accepts) keeps all its elements.
pub proof fn lemma_clean_import_keeps_every_element(preset_name: Seq<char>, source: InputOverlayPreset)
    requires
        conversion_warnings(source).len() == 0,
    ensures
        converted_preset(preset_name, source).elements.len() == source.elements@.len(),
{
    lemma_every_element_is_accounted_for(source.elements@);
}

/// Joins `items` with `sep` between consecutive items.
pub open spec fn join(items: Seq<Seq<char>>, sep: Seq<char>) -> Seq<char>
    decreases items.len(),
{
    if items.len() == 0 {
        seq![]
    } else if items.len() == 1 {
        items[0]
    } else {
        join(items.drop_last(), sep) + sep + items.last()
    }
}

/// Converts a decoded Input Overlay document: supported elements are
/// converted in order, every other element becomes a warning.
pub fn convert_input_overlay(preset_name: &str, source: &InputOverlayPreset) -> (r: (Preset, Vec<String>))
    ensures
        r.0@ == converted_preset(preset_name@, *source),
        strings_view(r.1@) == conversion_warnings(*source),
{
    let mut elements: Vec<PresetElement> = Vec::new();
    let mut warnings: Vec<String> = Vec::new();
    let n = source.elements.len();
    let mut index: usize = 0;
    while index < n
        invariant
            n == source.elements@.len(),
            index <= n,
            elements@.map_values(|e: PresetElement| e@) == convert_all(source.elements@.take(index as int)).0,
            strings_view(warnings@) == convert_all(source.elements@.take(index as int)).1,
        decreases n - index,
    {
        let outcome = convert_element(index, &source.elements[index]);
        proof {
            let prefix = source.elements@.take(index + 1);
            assert(prefix.drop_last() =~= source.elements@.take(index as int));
            assert(prefix.last() == source.elements@[index as int]);
        }
        match outcome {
            Ok(element) => {
                elements.push(element);
                proof {
                    assert(elements@.map_values(|e: PresetElement| e@) =~= convert_all(source.elements@.take(index + 1)).0);
                }
            },
            Err(warning) => {
                warnings.push(warning);
                proof {
                    assert(strings_view(warnings@) =~= convert_all(source.elements@.take(index + 1)).1);
                }
            },
        }
        index = index + 1;
    }
    proof {
        assert(source.elements@.take(n as int) =~= source.elements@);
    }
    let preset = Preset {
        name: preset_name_from_path(preset_name),
        version: String::from_str("input-overlay"),
        width: source.overlay_width,
        height: source.overlay_height,
        elements,
    };
    (preset, warnings)
}

/// Joins warnings with `"; "`.
pub fn join_warnings(warnings: &Vec<String>) -> (r: String)
    ensures
        r@ == join(strings_view(warnings@), "; "@),
{
    let mut out = String::new();
    let mut i: usize = 0;
    while i < warnings.len()
        invariant
            i <= warnings@.len(),
            out@ == join(strings_view(warnings@.take(i as int)), "; "@),
        decreases warnings@.len() - i,
    {
        proof {
            assert(strings_view(warnings@.take(i + 1)).drop_last() =~= strings_view(warnings@.take(i as int)));
        }
        if i > 0 {
            out.append("; ");
        }
        out.append(warnings[i].as_str());
        proof {
            if i == 0 {
                assert(out@ =~= strings_view(warnings@.take(1))[0]);
            }
        }
        i = i + 1;
    }
    proof {
        assert(warnings@.take(warnings@.len() as int) =~= warnings@);
    }
    out
}

/// Input Overlay importer.
pub struct PresetImporter;

impl PresetImporter {
    /// Imports a decoded document named after `file_name`. In strict mode any
    /// warning rejects the import with a preset-import error listing the
    /// warnings joined by `"; "`; in lenient mode the preset and its
    /// warnings are returned.
    pub fn import_content(file_name: &str, source: &InputOverlayPreset, mode: ImportMode) -> (r: Result<(Preset, Vec<String>), Error>)
        ensures
            match r {
                Ok((p, w)) => {
                    &&& !(mode == ImportMode::Strict && conversion_warnings(*source).len() > 0)
                    &&& p@ == converted_preset(file_name@, *source)
                    &&& strings_view(w@) == conversion_warnings(*source)
                },
                Err(e) => {
                    &&& mode == ImportMode::Strict
                    &&& conversion_warnings(*source).len() > 0
                    &&& e matches Error::PresetImport(m) && m@ == join(conversion_warnings(*source), "; "@)
                },
            },
    {
        let (preset, warnings) = convert_input_overlay(file_name, source);
        if mode == ImportMode::Strict && warnings.len() > 0 {
            return Err(Error::PresetImport(join_warnings(&warnings)));
        }
        Ok((preset, warnings))
    }

    /// The warnings an import of the document would report.
    pub fn validate(file_name: &str, source: &InputOverlayPreset) -> (r: Vec<String>)
        ensures
            strings_view(r@) == conversion_warnings(*source),
    {
        let (_, warnings) = convert_input_overlay(file_name, source);
        warnings
    }
}

} // verus!
