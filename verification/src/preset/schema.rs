//! Internal, unified preset format.

use vstd::prelude::*;

verus! {

/// Position of an element. The coordinates are single-precision floats in
/// the preset format; they are carried here as their IEEE-754 bit patterns,
/// which the conversion copies unchanged.
#[derive(Debug, Clone, Copy, PartialEq, Eq, Structural)]
pub struct Position {
    pub x_bits: u32,
    pub y_bits: u32,
}

/// Texture slice (a rectangle of the preset's texture atlas).
#[derive(Debug, Clone, Copy, PartialEq, Eq, Structural)]
pub struct TextureMapping {
    pub x: u32,
    pub y: u32,
    pub width: u32,
    pub height: u32,
}

/// One element of a preset.
#[derive(Debug)]
pub struct PresetElement {
    pub id: String,
    pub element_type: String,
    pub code: Option<i32>,
    pub position: Position,
    pub texture: TextureMapping,
    pub z_index: i32,
}

/// Mathematical value of a [`PresetElement`].
pub struct PresetElementView {
    pub id: Seq<char>,
    pub element_type: Seq<char>,
    pub code: Option<i32>,
    pub position: Position,
    pub texture: TextureMapping,
    pub z_index: i32,
}

impl View for PresetElement {
    type V = PresetElementView;

    open spec fn view(&self) -> PresetElementView {
        PresetElementView {
            id: self.id@,
            element_type: self.element_type@,
            code: self.code,
            position: self.position,
            texture: self.texture,
            z_index: self.z_index,
        }
    }
}

/// A preset in the internal format.
#[derive(Debug)]
pub struct Preset {
    pub name: String,
    pub version: String,
    pub width: u32,
    pub height: u32,
    pub elements: Vec<PresetElement>,
}

/// Mathematical value of a [`Preset`].
pub struct PresetView {
    pub name: Seq<char>,
    pub version: Seq<char>,
    pub width: u32,
    pub height: u32,
    pub elements: Seq<PresetElementView>,
}

impl View for Preset {
    type V = PresetView;

    open spec fn view(&self) -> PresetView {
        PresetView {
            name: self.name@,
            version: self.version@,
            width: self.width,
            height: self.height,
            elements: self.elements@.map_values(|e: PresetElement| e@),
        }
    }
}

impl Clone for PresetElement {
    fn clone(&self) -> (r: Self)
        ensures
            r@ == self@,
    {
        PresetElement {
            id: self.id.clone(),
            element_type: self.element_type.clone(),
            code: self.code,
            position: self.position,
            texture: self.texture,
            z_index: self.z_index,
        }
    }
}

} // verus!
