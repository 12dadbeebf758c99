//! Lights: one kind that is everywhere, one that sits at a point.

use crate::colors::get_color;
use crate::colors::spec_get_color;
use crate::colors::Color;
use crate::scalar::Scalar;
use crate::vector::Vector3;
use vstd::prelude::*;

verus! {

/// The two kinds of light.
#[derive(Clone, Copy, Debug, PartialEq, Eq, Structural)]
pub enum LightType {
    Ambient,
    Positional,
}

/// What shading asks of a light.
pub trait Light {
    /// Which of the two kinds the light is.
    spec fn spec_light_type(&self) -> LightType;

    /// How strong the light is.
    spec fn spec_intensity(&self) -> Scalar;

    /// Where the light sits; the origin for one that sits nowhere.
    spec fn spec_center(&self) -> Vector3;

    /// Which of the two kinds the light is.
    fn light_type(&self) -> (kind: LightType)
        ensures
            kind == self.spec_light_type(),
    ;

    /// How strong the light is.
    fn intensity(&self) -> (i: Scalar)
        ensures
            i == self.spec_intensity(),
    ;

    /// Where the light sits. A light that sits nowhere answers with the origin.
    fn center(&self) -> (c: Vector3)
        ensures
            c == self.spec_center(),
    ;
}

/// The point that a light without a place gives as its centre.
pub open spec fn spec_origin() -> Vector3 {
    Vector3 { x: Scalar::spec_zero(), y: Scalar::spec_zero(), z: Scalar::spec_zero() }
}

/// Whether an intensity and the three channels of a colour are all zero or
/// above.
pub open spec fn not_below_zero(intensity: Scalar, color: Vector3) -> bool {
    &&& intensity.spec_ge(Scalar::spec_zero())
    &&& color.x.spec_ge(Scalar::spec_zero())
    &&& color.y.spec_ge(Scalar::spec_zero())
    &&& color.z.spec_ge(Scalar::spec_zero())
}

/// Tests whether an intensity and the three channels of a colour are all zero
/// or above.
pub fn is_not_below_zero(intensity: Scalar, color: Vector3) -> (ok: bool)
    ensures
        ok == not_below_zero(intensity, color),
{
    let zero = Scalar::zero();
    intensity.ge(zero) && color.x.ge(zero) && color.y.ge(zero) && color.z.ge(zero)
}

/// A light at a point. It shines the same at every distance.
#[derive(Clone, Copy, Debug)]
pub struct PositionalLight {
    pub center: Vector3,
    pub intensity: Scalar,
    pub color: Vector3,
}

impl PositionalLight {
    /// The light at `center` with the given intensity and colour.
    pub fn new(center: Vector3, intensity: Scalar, color: Vector3) -> (light: PositionalLight)
        ensures
            light == (PositionalLight { center, intensity, color }),
    {
        PositionalLight { center, intensity, color }
    }

    /// Where the light sits.
    pub fn center(&self) -> (c: Vector3)
        ensures
            c == self.center,
    {
        self.center
    }

    /// The colour as red, green and blue on the scale of a byte.
    pub fn color_vector(&self) -> (c: Vector3)
        ensures
            c == self.color,
    {
        self.color
    }

    /// The light's colour as the display would show it.
    pub fn get_color(&self) -> (c: Color)
        ensures
            c == spec_get_color(self.color),
    {
        get_color(self.color)
    }

    /// Whether the light is one that a scene is meant to hold: an intensity
    /// and colour channels not below zero.
    pub open spec fn well_formed(self) -> bool {
        not_below_zero(self.intensity, self.color)
    }

    /// Tests what `well_formed` states.
    pub fn is_well_formed(&self) -> (ok: bool)
        ensures
            ok == self.well_formed(),
    {
        is_not_below_zero(self.intensity, self.color)
    }
}

impl Light for PositionalLight {
    open spec fn spec_light_type(&self) -> LightType {
        LightType::Positional
    }

    open spec fn spec_intensity(&self) -> Scalar {
        self.intensity
    }

    open spec fn spec_center(&self) -> Vector3 {
        self.center
    }

    fn light_type(&self) -> (kind: LightType) {
        LightType::Positional
    }

    fn intensity(&self) -> (i: Scalar) {
        self.intensity
    }

    fn center(&self) -> (c: Vector3) {
        self.center
    }
}

/// A light without a place: it adds its intensity to every point.
#[derive(Clone, Copy, Debug)]
pub struct AmbientLight {
    pub intensity: Scalar,
    pub color: Vector3,
}

impl AmbientLight {
    /// The light of the given intensity and colour.
    pub fn new(intensity: Scalar, color: Vector3) -> (light: AmbientLight)
        ensures
            light == (AmbientLight { intensity, color }),
    {
        AmbientLight { intensity, color }
    }

    /// How strong the light is.
    pub fn intensity(&self) -> (i: Scalar)
        ensures
            i == self.intensity,
    {
        self.intensity
    }

    /// The kind of the light, by name.
    pub fn light_type(&self) -> (name: &'static str)
        ensures
            name@ == "ambient"@,
    {
        "ambient"
    }

    /// The colour as red, green and blue on the scale of a byte.
    pub fn color_vector(&self) -> (c: Vector3)
        ensures
            c == self.color,
    {
        self.color
    }

    /// The light's colour as the display would show it.
    pub fn get_color(&self) -> (c: Color)
        ensures
            c == spec_get_color(self.color),
    {
        get_color(self.color)
    }

    /// Whether the light is one that a scene is meant to hold: an intensity
    /// and colour channels not below zero.
    pub open spec fn well_formed(self) -> bool {
        not_below_zero(self.intensity, self.color)
    }

    /// Tests what `well_formed` states.
    pub fn is_well_formed(&self) -> (ok: bool)
        ensures
            ok == self.well_formed(),
    {
        is_not_below_zero(self.intensity, self.color)
    }
}

impl Light for AmbientLight {
    open spec fn spec_light_type(&self) -> LightType {
        LightType::Ambient
    }

    open spec fn spec_intensity(&self) -> Scalar {
        self.intensity
    }

    open spec fn spec_center(&self) -> Vector3 {
        spec_origin()
    }

    fn light_type(&self) -> (kind: LightType) {
        LightType::Ambient
    }

    fn intensity(&self) -> (i: Scalar) {
        self.intensity
    }

    fn center(&self) -> (c: Vector3) {
        Vector3::new(Scalar::zero(), Scalar::zero(), Scalar::zero())
    }
}

/// Any light that a scene can hold.
#[derive(Clone, Copy, Debug)]
pub enum LightSource {
    Ambient(AmbientLight),
    Positional(PositionalLight),
}

impl LightSource {
    /// Whether the light is one that a scene is meant to hold.
    pub open spec fn well_formed(self) -> bool {
        match self {
            LightSource::Ambient(light) => light.well_formed(),
            LightSource::Positional(light) => light.well_formed(),
        }
    }

    /// Tests what `well_formed` states.
    pub fn is_well_formed(&self) -> (ok: bool)
        ensures
            ok == self.well_formed(),
    {
        match self {
            LightSource::Ambient(light) => light.is_well_formed(),
            LightSource::Positional(light) => light.is_well_formed(),
        }
    }
}

impl Light for LightSource {
    open spec fn spec_light_type(&self) -> LightType {
        match self {
            LightSource::Ambient(light) => light.spec_light_type(),
            LightSource::Positional(light) => light.spec_light_type(),
        }
    }

    open spec fn spec_intensity(&self) -> Scalar {
        match self {
            LightSource::Ambient(light) => light.spec_intensity(),
            LightSource::Positional(light) => light.spec_intensity(),
        }
    }

    open spec fn spec_center(&self) -> Vector3 {
        match self {
            LightSource::Ambient(light) => light.spec_center(),
            LightSource::Positional(light) => light.spec_center(),
        }
    }

    fn light_type(&self) -> (kind: LightType) {
        match self {
            LightSource::Ambient(_) => LightType::Ambient,
            LightSource::Positional(_) => LightType::Positional,
        }
    }

    fn intensity(&self) -> (i: Scalar) {
        match self {
            LightSource::Ambient(light) => light.intensity,
            LightSource::Positional(light) => light.intensity,
        }
    }

    fn center(&self) -> (c: Vector3) {
        match self {
            LightSource::Ambient(_) => Vector3::new(Scalar::zero(), Scalar::zero(), Scalar::zero()),
            LightSource::Positional(light) => light.center,
        }
    }
}

} // verus!
