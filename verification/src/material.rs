//! Surface materials and the Phong lighting computation.

use vstd::prelude::*;

verus! {

use crate::color::{Color, ColorV, color_fits, color_add_v, color_mul_v, color_scale_v};
use crate::object::{reflect_v, reflect_fits};
use crate::point_light::{Point_Light, LightV};
use crate::scalar::{Scalar, SCALE, fits, s_mul, s_div, s_pow, pow_ok};
use crate::tuple::{Tuple, TupleV, dot_v, dot_fits, mag_v, mag2_v, tuple_fits};

/// The mathematical content of a material.
pub ghost struct MaterialV {
    pub color: ColorV,
    pub ambiant: int,
    pub diffuse: int,
    pub specular: int,
    pub shininess: int,
}

#[derive(Clone, Copy, Debug, PartialEq, Eq, Structural)]
pub struct Material {
    pub color: Color,
    pub ambiant: Scalar,
    pub diffuse: Scalar,
    pub specular: Scalar,
    pub shininess: Scalar,
}

impl View for Material {
    type V = MaterialV;

    open spec fn view(&self) -> MaterialV {
        MaterialV {
            color: self.color@,
            ambiant: self.ambiant@,
            diffuse: self.diffuse@,
            specular: self.specular@,
            shininess: self.shininess@,
        }
    }
}

/// The default material: white, ambient one tenth, diffuse and
/// specular nine tenths, shininess two hundred.
pub open spec fn default_material_v() -> MaterialV {
    MaterialV {
        color: ColorV { r: SCALE as int, g: SCALE as int, b: SCALE as int },
        ambiant: 100_000,
        diffuse: 900_000,
        specular: 900_000,
        shininess: 200 * SCALE as int,
    }
}

impl Material {
    pub fn new(
        color: Color,
        ambiant: Scalar,
        diffuse: Scalar,
        specular: Scalar,
        shininess: Scalar,
    ) -> (r: Material)
        ensures
            r@ == (MaterialV {
                color: color@,
                ambiant: ambiant@,
                diffuse: diffuse@,
                specular: specular@,
                shininess: shininess@,
            }),
    {
        Material { color, ambiant, diffuse, specular, shininess }
    }

    /// White, ambient one tenth, diffuse and specular nine tenths,
    /// shininess two hundred.
    pub fn default() -> (r: Material)
        ensures
            r@ == default_material_v(),
    {
        Material {
            color: Color::new(Scalar::one(), Scalar::one(), Scalar::one()),
            ambiant: Scalar::from_micros(100_000),
            diffuse: Scalar::from_micros(900_000),
            specular: Scalar::from_micros(900_000),
            shininess: Scalar::from_int(200),
        }
    }
}

/// The light vector before normalization: from the surface point to
/// the light.
pub open spec fn light_offset_v(l: LightV, p: TupleV) -> TupleV {
    TupleV {
        x: l.position.x - p.x,
        y: l.position.y - p.y,
        z: l.position.z - p.z,
        w: l.position.w - p.w,
    }
}

/// The Phong specular exponent: the whole part of the shininess.
pub open spec fn shininess_exp(m: MaterialV) -> nat {
    (m.shininess / (SCALE as int)) as nat
}

/// The Phong shade at a surface point: ambient plus diffuse plus
/// specular, with diffuse and specular black when the light is behind
/// the surface, and specular black when the reflection points away
/// from the eye.
pub open spec fn lighting_v(m: MaterialV, l: LightV, p: TupleV, eye: TupleV, normal: TupleV) -> ColorV {
    let eff = color_mul_v(m.color, l.intensity);
    let lv = crate::object::normalize_v(light_offset_v(l, p));
    let ambient = color_scale_v(eff, m.ambiant);
    let ldn = dot_v(lv, normal);
    let black = ColorV { r: 0, g: 0, b: 0 };
    let diffuse = if ldn >= 0 {
        color_scale_v(color_scale_v(eff, m.diffuse), ldn)
    } else {
        black
    };
    let specular = if ldn >= 0 {
        let reflectv = reflect_v(TupleV { x: -lv.x, y: -lv.y, z: -lv.z, w: -lv.w }, normal);
        let rde = dot_v(reflectv, eye);
        if rde >= 0 {
            color_scale_v(color_scale_v(l.intensity, m.specular), s_pow(rde, shininess_exp(m)))
        } else {
            black
        }
    } else {
        black
    };
    color_add_v(color_add_v(ambient, diffuse), specular)
}

/// Every step of the lighting computation stays in range, and the
/// light does not sit on the surface point.
pub open spec fn lighting_fits(m: MaterialV, l: LightV, p: TupleV, eye: TupleV, normal: TupleV) -> bool {
    let eff = color_mul_v(m.color, l.intensity);
    let off = light_offset_v(l, p);
    let lv = crate::object::normalize_v(off);
    let ldn = dot_v(lv, normal);
    let neg_lv = TupleV { x: -lv.x, y: -lv.y, z: -lv.z, w: -lv.w };
    let reflectv = reflect_v(neg_lv, normal);
    let rde = dot_v(reflectv, eye);
    let ambient = color_scale_v(eff, m.ambiant);
    let diffuse = color_scale_v(color_scale_v(eff, m.diffuse), ldn);
    let factor = s_pow(rde, shininess_exp(m));
    let specular = color_scale_v(color_scale_v(l.intensity, m.specular), factor);
    &&& color_fits(m.color)
    &&& color_fits(l.intensity)
    &&& fits(m.ambiant) && fits(m.diffuse) && fits(m.specular)
    &&& m.shininess >= 0
    &&& fits(m.shininess)
    &&& fits(s_mul(m.color.r, l.intensity.r))
    &&& fits(s_mul(m.color.g, l.intensity.g))
    &&& fits(s_mul(m.color.b, l.intensity.b))
    &&& fits(off.x) && fits(off.y) && fits(off.z) && fits(off.w)
    &&& dot_fits(off, off)
    &&& mag2_v(off) > 0
    &&& fits(s_div(off.x, mag_v(off)))
    &&& fits(s_div(off.y, mag_v(off)))
    &&& fits(s_div(off.z, mag_v(off)))
    &&& fits(s_div(off.w, mag_v(off)))
    &&& fits(s_mul(eff.r, m.ambiant))
    &&& fits(s_mul(eff.g, m.ambiant))
    &&& fits(s_mul(eff.b, m.ambiant))
    &&& dot_fits(lv, normal)
    &&& (ldn >= 0 ==> {
        &&& fits(s_mul(eff.r, m.diffuse))
        &&& fits(s_mul(eff.g, m.diffuse))
        &&& fits(s_mul(eff.b, m.diffuse))
        &&& fits(s_mul(s_mul(eff.r, m.diffuse), ldn))
        &&& fits(s_mul(s_mul(eff.g, m.diffuse), ldn))
        &&& fits(s_mul(s_mul(eff.b, m.diffuse), ldn))
        &&& tuple_fits(lv)
        &&& reflect_fits(neg_lv, normal)
        &&& dot_fits(reflectv, eye)
        &&& (rde >= 0 ==> {
            &&& crate::scalar::pow_ok(rde, shininess_exp(m))
            &&& fits(s_mul(l.intensity.r, m.specular))
            &&& fits(s_mul(l.intensity.g, m.specular))
            &&& fits(s_mul(l.intensity.b, m.specular))
            &&& fits(s_mul(s_mul(l.intensity.r, m.specular), factor))
            &&& fits(s_mul(s_mul(l.intensity.g, m.specular), factor))
            &&& fits(s_mul(s_mul(l.intensity.b, m.specular), factor))
        })
    })
    &&& fits(ambient.r + diffuse.r) && fits(ambient.g + diffuse.g) && fits(ambient.b + diffuse.b)
    &&& fits(ambient.r + diffuse.r + specular.r)
    &&& fits(ambient.g + diffuse.g + specular.g)
    &&& fits(ambient.b + diffuse.b + specular.b)
    &&& fits(ambient.r) && fits(ambient.g) && fits(ambient.b)
}

/// The Phong shade of `material` under `light`, seen from `eyev` at
/// the surface point `point` with unit normal `normalv`.
pub fn lighting(
    material: &Material,
    light: &Point_Light,
    point: &Tuple,
    eyev: &Tuple,
    normalv: &Tuple,
) -> (res: Color)
    requires
        lighting_fits(material@, light@, point@, eyev@, normalv@),
    ensures
        res@ == lighting_v(material@, light@, point@, eyev@, normalv@),
{
    let effective_color = material.color.mul(light.intensity);
    let lightv = light.position.sub(*point).normalize();
    proof {
        assert(lightv@ == crate::object::normalize_v(light_offset_v(light@, point@)));
    }
    let ambient = effective_color.scale(material.ambiant);
    let light_dot_normal = lightv.dot(normalv);
    let zero = Scalar::zero();
    let mut diffuse = Color::new(zero, zero, zero);
    let mut specular = Color::new(zero, zero, zero);
    if !light_dot_normal.lt(&zero) {
        diffuse = effective_color.scale(material.diffuse).scale(light_dot_normal);
        let reflectv = crate::object::reflect(&lightv.neg(), normalv);
        let reflect_dot_eye = reflectv.dot(eyev);
        if !reflect_dot_eye.lt(&zero) {
            let shin_units: u64 = ((material.shininess.micros() as u128) / 1_000_000u128) as u64;
            proof {
                assert(shin_units as nat == shininess_exp(material@));
            }
            let factor = reflect_dot_eye.pow(shin_units);
            specular = light.intensity.scale(material.specular).scale(factor);
        }
    }
    ambient.add(diffuse).add(specular)
}

} // verus!
