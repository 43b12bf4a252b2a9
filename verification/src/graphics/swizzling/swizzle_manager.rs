use vstd::prelude::*;

use crate::error::TexError;
use crate::graphics::pixel_format::PixelFormat;
use crate::graphics::swizzling::ps4::{spec_ps4_deswizzled, spec_ps4_ok, spec_ps4_swizzled};
use crate::graphics::swizzling::ps4::PS4Swizzler;
use crate::graphics::swizzling::psvita::{
    spec_vita_deswizzled, spec_vita_ok, spec_vita_swizzled,
};
use crate::graphics::swizzling::psvita::PSVitaSwizzler;
use crate::graphics::swizzling::xbox_360::{
    spec_x360_deswizzled, spec_x360_ok, spec_x360_swizzled,
};
use crate::graphics::swizzling::xbox_360::Xbox360Swizzler;
use crate::graphics::swizzling::{Platform, Swizzable};

verus! {

/// The closed set of swizzlers the manager can dispatch to.
pub enum BuiltinSwizzler {
    Ps4(PS4Swizzler),
    PsVita(PSVitaSwizzler),
    Xbox360(Xbox360Swizzler),
}

/// The platform a built-in swizzler serves.
pub open spec fn spec_swizzler_platform(s: BuiltinSwizzler) -> Platform {
    match s {
        BuiltinSwizzler::Ps4(_) => Platform::PS4,
        BuiltinSwizzler::PsVita(_) => Platform::PSVita,
        BuiltinSwizzler::Xbox360(_) => Platform::Xbox360,
    }
}

/// Some registered swizzler serves `platform`.
pub open spec fn spec_platform_registered(swizzlers: Seq<BuiltinSwizzler>, platform: Platform) -> bool {
    exists|i: int|
        0 <= i < swizzlers.len() && spec_swizzler_platform(#[trigger] swizzlers[i]) == platform
}

/// What swizzling yields on each platform.
pub open spec fn spec_platform_swizzle(
    platform: Platform,
    f: PixelFormat,
    w: u32,
    h: u32,
    data: Seq<u8>,
) -> Result<Seq<u8>, TexError> {
    match platform {
        Platform::PS4 => if spec_ps4_ok(f, w, h, data.len() as int) {
            Result::Ok(spec_ps4_swizzled(f, w, h, data))
        } else {
            Result::Err(TexError::UnsupportedOperation)
        },
        Platform::PSVita => if spec_vita_ok(f, w, h, data.len() as int) {
            Result::Ok(spec_vita_swizzled(f, w, h, data))
        } else {
            Result::Err(TexError::UnsupportedOperation)
        },
        Platform::Xbox360 => if spec_x360_ok(f, w, h, data.len() as int) {
            Result::Ok(spec_x360_swizzled(f, w, h, data))
        } else {
            Result::Err(TexError::UnsupportedOperation)
        },
        _ => Result::Err(TexError::UnsupportedOperation),
    }
}

/// What deswizzling yields on each platform.
pub open spec fn spec_platform_deswizzle(
    platform: Platform,
    f: PixelFormat,
    w: u32,
    h: u32,
    data: Seq<u8>,
) -> Result<Seq<u8>, TexError> {
    match platform {
        Platform::PS4 => if spec_ps4_ok(f, w, h, data.len() as int) {
            Result::Ok(spec_ps4_deswizzled(f, w, h, data))
        } else {
            Result::Err(TexError::UnsupportedOperation)
        },
        Platform::PSVita => if spec_vita_ok(f, w, h, data.len() as int) {
            Result::Ok(spec_vita_deswizzled(f, w, h, data))
        } else {
            Result::Err(TexError::UnsupportedOperation)
        },
        Platform::Xbox360 => if spec_x360_ok(f, w, h, data.len() as int) {
            Result::Ok(spec_x360_deswizzled(f, w, h, data))
        } else {
            Result::Err(TexError::UnsupportedOperation)
        },
        _ => Result::Err(TexError::UnsupportedOperation),
    }
}

/// Registry dispatching (de)swizzle requests to the swizzler registered for
/// a platform.
pub struct Swizzler {
    pub swizzlers: Vec<BuiltinSwizzler>,
}

impl Default for Swizzler {
    /// A manager with all the built-in swizzlers registered.
    fn default() -> (r: Self)
        ensures
            spec_platform_registered(r.swizzlers@, Platform::PS4),
            spec_platform_registered(r.swizzlers@, Platform::PSVita),
            spec_platform_registered(r.swizzlers@, Platform::Xbox360),
    {
        let mut swizzlers = Swizzler::new();
        swizzlers.register_swizzler(BuiltinSwizzler::Ps4(PS4Swizzler));
        swizzlers.register_swizzler(BuiltinSwizzler::PsVita(PSVitaSwizzler));
        swizzlers.register_swizzler(BuiltinSwizzler::Xbox360(Xbox360Swizzler));
        proof {
            assert(spec_swizzler_platform(swizzlers.swizzlers@[0]) == Platform::PS4);
            assert(spec_swizzler_platform(swizzlers.swizzlers@[1]) == Platform::PSVita);
            assert(spec_swizzler_platform(swizzlers.swizzlers@[2]) == Platform::Xbox360);
        }
        swizzlers
    }
}

impl Swizzler {
    pub fn new() -> (r: Self)
        ensures
            r.swizzlers@.len() == 0,
    {
        Swizzler { swizzlers: Vec::new() }
    }

    /// Register a swizzler behind the existing ones.
    pub fn register_swizzler(&mut self, swizzler: BuiltinSwizzler)
        ensures
            final(self).swizzlers@ == old(self).swizzlers@.push(swizzler),
    {
        self.swizzlers.push(swizzler);
    }

    /// Swizzle the image data with the first swizzler registered for the
    /// platform.
    pub fn swizzle(
        &self,
        data: &[u8],
        width: u32,
        height: u32,
        pixel_format: PixelFormat,
        platform: Platform,
    ) -> (r: Result<Vec<u8>, TexError>)
        ensures
            ({
                let s = spec_platform_swizzle(platform, pixel_format, width, height, data@);
                if spec_platform_registered(self.swizzlers@, platform) {
                    match r {
                        Ok(v) => s is Ok && v@ == s->Ok_0,
                        Err(e) => s is Err && e == s->Err_0,
                    }
                } else {
                    r == Result::<Vec<u8>, TexError>::Err(TexError::UnsupportedOperation)
                }
            }),
    {
        let n = self.swizzlers.len();
        let mut i: usize = 0;
        while i < n
            invariant
                i <= n,
                n == self.swizzlers@.len(),
                forall|k: int|
                    0 <= k < i ==> spec_swizzler_platform(#[trigger] self.swizzlers@[k])
                        != platform,
            decreases n - i,
        {
            match &self.swizzlers[i] {
                BuiltinSwizzler::Ps4(s) => {
                    if platform == Platform::PS4 {
                        return s.swizzle(data, width, height, pixel_format);
                    }
                },
                BuiltinSwizzler::PsVita(s) => {
                    if platform == Platform::PSVita {
                        return s.swizzle(data, width, height, pixel_format);
                    }
                },
                BuiltinSwizzler::Xbox360(s) => {
                    if platform == Platform::Xbox360 {
                        return s.swizzle(data, width, height, pixel_format);
                    }
                },
            }
            i = i + 1;
        }
        Err(TexError::UnsupportedOperation)
    }

    /// Deswizzle the image data with the first swizzler registered for the
    /// platform.
    pub fn deswizzle(
        &self,
        data: &[u8],
        width: u32,
        height: u32,
        pixel_format: PixelFormat,
        platform: Platform,
    ) -> (r: Result<Vec<u8>, TexError>)
        ensures
            ({
                let s = spec_platform_deswizzle(platform, pixel_format, width, height, data@);
                if spec_platform_registered(self.swizzlers@, platform) {
                    match r {
                        Ok(v) => s is Ok && v@ == s->Ok_0,
                        Err(e) => s is Err && e == s->Err_0,
                    }
                } else {
                    r == Result::<Vec<u8>, TexError>::Err(TexError::UnsupportedOperation)
                }
            }),
    {
        let n = self.swizzlers.len();
        let mut i: usize = 0;
        while i < n
            invariant
                i <= n,
                n == self.swizzlers@.len(),
                forall|k: int|
                    0 <= k < i ==> spec_swizzler_platform(#[trigger] self.swizzlers@[k])
                        != platform,
            decreases n - i,
        {
            match &self.swizzlers[i] {
                BuiltinSwizzler::Ps4(s) => {
                    if platform == Platform::PS4 {
                        return s.deswizzle(data, width, height, pixel_format);
                    }
                },
                BuiltinSwizzler::PsVita(s) => {
                    if platform == Platform::PSVita {
                        return s.deswizzle(data, width, height, pixel_format);
                    }
                },
                BuiltinSwizzler::Xbox360(s) => {
                    if platform == Platform::Xbox360 {
                        return s.deswizzle(data, width, height, pixel_format);
                    }
                },
            }
            i = i + 1;
        }
        Err(TexError::UnsupportedOperation)
    }
}

} // verus!
