//! The shading engine's decisions.
//!
//! Resolving a ray into a colour mixes floating-point arithmetic —
//! light falloff, attenuation, colour blending — with a fixed decision
//! structure: which of the up-to-three weighted terms are evaluated
//! for the surface a ray struck, how the lighting for the opaque term
//! is sourced, and how deep the reflection and transparency recursion
//! may still go. The decisions stand here, verified; the renderer
//! around this module evaluates the terms the plan calls for and sums
//! them.

use vstd::prelude::*;

verus! {

/// A surface's properties as the engine's decisions read them: whether
/// each weighted term carries any weight at all, and whether the
/// surface is self-lit.
#[derive(Clone, Copy, Debug, PartialEq, Eq, Structural)]
pub struct SurfaceFlags {
    /// The surface's opaqueness is nonzero.
    pub opaque: bool,
    /// The surface's reflectiveness is nonzero.
    pub reflective: bool,
    /// The surface's transparency is nonzero.
    pub transparent: bool,
    /// The surface's diffusiveness is nonzero.
    pub diffusive: bool,
    /// The surface is rendered at full intensity, ignoring the lights.
    pub full_bright: bool,
}

/// The engine's per-mode parameters: a live pair and a screenshot pair
/// of recursion depth and lighting toggles, selected by which kind of
/// frame is being rendered.
#[derive(Clone, Copy, Debug, PartialEq, Eq, Structural)]
pub struct EngineSettings {
    /// The recursion depth of a live frame's rays.
    pub max_reflections: u32,
    /// The recursion depth of a screenshot's rays.
    pub screenshot_max_reflection: u32,
    /// Light every surface of a live frame at full intensity.
    pub enable_full_bright: bool,
    /// Light every surface of a screenshot at full intensity.
    pub screenshot_enable_full_bright: bool,
    /// Evaluate direct lighting in a live frame.
    pub enable_direct_lighting: bool,
    /// Evaluate direct lighting in a screenshot.
    pub screenshot_enable_direct_lighting: bool,
    /// Indirect-lighting samples per hit in a live frame.
    pub indirect_lighting_ray_count: u32,
    /// Indirect-lighting samples per hit in a screenshot.
    pub screenshot_indirect_lighting_ray_count: u32,
}

impl EngineSettings {
    /// The recursion depth for the selected render mode.
    pub open spec fn spec_depth(self, is_screenshot: bool) -> u32 {
        if is_screenshot {
            self.screenshot_max_reflection
        } else {
            self.max_reflections
        }
    }

    /// Whether the selected render mode lights everything at full
    /// intensity.
    pub open spec fn spec_full_bright(self, is_screenshot: bool) -> bool {
        if is_screenshot {
            self.screenshot_enable_full_bright
        } else {
            self.enable_full_bright
        }
    }

    /// Whether the selected render mode evaluates direct lighting.
    pub open spec fn spec_direct(self, is_screenshot: bool) -> bool {
        if is_screenshot {
            self.screenshot_enable_direct_lighting
        } else {
            self.enable_direct_lighting
        }
    }

    /// The selected render mode's indirect-lighting sample count.
    pub open spec fn spec_indirect_rays(self, is_screenshot: bool) -> u32 {
        if is_screenshot {
            self.screenshot_indirect_lighting_ray_count
        } else {
            self.indirect_lighting_ray_count
        }
    }

    /// The recursion depth a ray starts with in the selected render
    /// mode.
    pub fn initial_depth(&self, is_screenshot: bool) -> (r: u32)
        ensures
            r == self.spec_depth(is_screenshot),
    {
        if is_screenshot {
            self.screenshot_max_reflection
        } else {
            self.max_reflections
        }
    }
}

/// How the lighting for a hit surface's opaque term is sourced.
#[derive(Clone, Copy, Debug, PartialEq, Eq, Structural)]
pub enum LightMode {
    /// The surface is lit as pure white: it is self-lit, or the render
    /// mode lights everything at full intensity.
    FullBright,
    /// The lights are consulted: direct lighting if `direct`, plus
    /// `indirect_rays` single-bounce indirect samples, each averaged
    /// into the result whether or not it struck anything.
    Computed { direct: bool, indirect_rays: u32 },
}

/// The lighting source for a hit surface: full intensity when the
/// surface is self-lit or the mode asks for it, and the mode's direct
/// toggle and indirect sample count otherwise — with no indirect
/// samples at all for a surface that does not diffuse.
pub open spec fn spec_light_mode(
    surface: SurfaceFlags,
    settings: EngineSettings,
    is_screenshot: bool,
) -> LightMode {
    if surface.full_bright || settings.spec_full_bright(is_screenshot) {
        LightMode::FullBright
    } else {
        LightMode::Computed {
            direct: settings.spec_direct(is_screenshot),
            indirect_rays: if surface.diffusive {
                settings.spec_indirect_rays(is_screenshot)
            } else {
                0
            },
        }
    }
}

/// What the engine evaluates for the surface the nearest hit struck.
#[derive(Clone, Copy, Debug, PartialEq, Eq, Structural)]
pub struct ShadePlan {
    /// Return the surface's flat colour directly, bypassing lighting
    /// and recursion both.
    pub flat_colour: bool,
    /// Evaluate the lighting term, weighted by opaqueness, sourcing
    /// the light as given.
    pub opaque_term: Option<LightMode>,
    /// Recurse along the surface's reflection ray, weighted by
    /// reflectiveness.
    pub reflective_term: bool,
    /// Recurse along the surface's transparency ray, weighted by
    /// transparency.
    pub transparent_term: bool,
}

/// Decides what the engine evaluates for a hit surface. At depth zero
/// the surface's flat colour is returned as it is; otherwise each
/// weighted term is evaluated exactly when its weight is nonzero, and
/// the opaque term's lighting is sourced as [`spec_light_mode`] says.
pub fn shade_plan(
    surface: &SurfaceFlags,
    settings: &EngineSettings,
    is_screenshot: bool,
    depth_remaining: u32,
) -> (r: ShadePlan)
    ensures
        r.flat_colour == (depth_remaining == 0),
        depth_remaining == 0 ==> r.opaque_term is None && !r.reflective_term
            && !r.transparent_term,
        depth_remaining > 0 ==> {
            &&& r.opaque_term is Some <==> surface.opaque
            &&& r.opaque_term matches Some(mode)
                ==> mode == spec_light_mode(*surface, *settings, is_screenshot)
            &&& r.reflective_term == surface.reflective
            &&& r.transparent_term == surface.transparent
        },
{
    if depth_remaining == 0 {
        return ShadePlan {
            flat_colour: true,
            opaque_term: None,
            reflective_term: false,
            transparent_term: false,
        };
    }
    let opaque_term = if surface.opaque {
        if surface.full_bright || (if is_screenshot {
            settings.screenshot_enable_full_bright
        } else {
            settings.enable_full_bright
        }) {
            Some(LightMode::FullBright)
        } else {
            let direct = if is_screenshot {
                settings.screenshot_enable_direct_lighting
            } else {
                settings.enable_direct_lighting
            };
            let indirect_rays = if surface.diffusive {
                if is_screenshot {
                    settings.screenshot_indirect_lighting_ray_count
                } else {
                    settings.indirect_lighting_ray_count
                }
            } else {
                0
            };
            Some(LightMode::Computed { direct, indirect_rays })
        }
    } else {
        None
    };
    ShadePlan {
        flat_colour: false,
        opaque_term,
        reflective_term: surface.reflective,
        transparent_term: surface.transparent,
    }
}

} // verus!
