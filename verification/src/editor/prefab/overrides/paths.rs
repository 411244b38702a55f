//! Standard property paths of scene objects.
use vstd::prelude::*;

use super::PropertyPath;

verus! {

/// The path `name`.
pub fn name() -> (r: PropertyPath)
    ensures
        r@ == "name"@,
{
    PropertyPath::new("name")
}

/// The path `position`.
pub fn position() -> (r: PropertyPath)
    ensures
        r@ == "position"@,
{
    PropertyPath::new("position")
}

/// The path `position.x`.
pub fn position_x() -> (r: PropertyPath)
    ensures
        r@ == "position.x"@,
{
    PropertyPath::new("position.x")
}

/// The path `position.y`.
pub fn position_y() -> (r: PropertyPath)
    ensures
        r@ == "position.y"@,
{
    PropertyPath::new("position.y")
}

/// The path `position.z`.
pub fn position_z() -> (r: PropertyPath)
    ensures
        r@ == "position.z"@,
{
    PropertyPath::new("position.z")
}

/// The path `rotation`.
pub fn rotation() -> (r: PropertyPath)
    ensures
        r@ == "rotation"@,
{
    PropertyPath::new("rotation")
}

/// The path `scale`.
pub fn scale() -> (r: PropertyPath)
    ensures
        r@ == "scale"@,
{
    PropertyPath::new("scale")
}

/// The path `color`.
pub fn color() -> (r: PropertyPath)
    ensures
        r@ == "color"@,
{
    PropertyPath::new("color")
}

/// The path `visible`.
pub fn visible() -> (r: PropertyPath)
    ensures
        r@ == "visible"@,
{
    PropertyPath::new("visible")
}

/// The path `camera`.
pub fn camera() -> (r: PropertyPath)
    ensures
        r@ == "camera"@,
{
    PropertyPath::new("camera")
}

/// The path `camera.fov`.
pub fn camera_fov() -> (r: PropertyPath)
    ensures
        r@ == "camera.fov"@,
{
    PropertyPath::new("camera.fov")
}

/// The path `audio_source`.
pub fn audio_source() -> (r: PropertyPath)
    ensures
        r@ == "audio_source"@,
{
    PropertyPath::new("audio_source")
}

/// The path `audio_source.volume`.
pub fn audio_source_volume() -> (r: PropertyPath)
    ensures
        r@ == "audio_source.volume"@,
{
    PropertyPath::new("audio_source.volume")
}

/// The path `particle_emitter`.
pub fn particle_emitter() -> (r: PropertyPath)
    ensures
        r@ == "particle_emitter"@,
{
    PropertyPath::new("particle_emitter")
}

/// The path `animator`.
pub fn animator() -> (r: PropertyPath)
    ensures
        r@ == "animator"@,
{
    PropertyPath::new("animator")
}

/// The path `texture_path`.
pub fn texture_path() -> (r: PropertyPath)
    ensures
        r@ == "texture_path"@,
{
    PropertyPath::new("texture_path")
}

/// The path `shader_path`.
pub fn shader_path() -> (r: PropertyPath)
    ensures
        r@ == "shader_path"@,
{
    PropertyPath::new("shader_path")
}

} // verus!
