use vstd::prelude::*;
use vstd::string::StringSliceAdditionalSpecFns;

use crate::codecs::dds::{spec_dds_load_rel, spec_dds_save_rel, DDSCodec};
use crate::codecs::hdr::HDRCodec;
use crate::codecs::jpeg::JPEGCodec;
use crate::codecs::png::PNGCodec;
use crate::codecs::tga::TGACodec;
use crate::codecs::ImageCodec;
use crate::error::TexError;
use crate::graphics::crate_image_utility::{
    spec_save_hdr_rel, spec_save_via_image_rel, spec_texture_from_bytes_rel,
    spec_texture_from_tga_rel,
};
use crate::graphics::texture::{
    spec_transform_first_err, spec_transformed_texture, Texture,
};
use crate::graphics::texture_utility::TextureEffects;

verus! {

/// The closed set of codecs the manager can dispatch to.
#[derive(Clone, Copy)]
pub enum BuiltinCodec {
    Png(PNGCodec),
    Jpeg(JPEGCodec),
    Dds(DDSCodec),
    Tga(TGACodec),
    Hdr(HDRCodec),
}

/// Lowercase an ASCII byte.
pub open spec fn spec_lower_byte(b: u8) -> u8 {
    if 65 <= b <= 90 {
        (b + 32) as u8
    } else {
        b
    }
}

/// Lowercase a byte string.
pub open spec fn spec_lower_bytes(s: Seq<u8>) -> Seq<u8> {
    s.map_values(|b: u8| spec_lower_byte(b))
}

/// Lowercase an ASCII byte.
fn lower_byte(b: u8) -> (r: u8)
    ensures
        r == spec_lower_byte(b),
{
    if 65 <= b && b <= 90 {
        b + 32
    } else {
        b
    }
}

/// True exactly when the two byte strings agree after ASCII lowercasing.
fn bytes_eq_ignore_case(a: &[u8], b: &[u8]) -> (r: bool)
    ensures
        r == (spec_lower_bytes(a@) == spec_lower_bytes(b@)),
{
    let n = a.len();
    if n != b.len() {
        proof {
            assert(spec_lower_bytes(a@).len() == a@.len());
            assert(spec_lower_bytes(b@).len() == b@.len());
        }
        return false;
    }
    let mut i: usize = 0;
    while i < n
        invariant
            i <= n,
            n == a@.len(),
            n == b@.len(),
            forall|j: int|
                0 <= j < i ==> spec_lower_byte(#[trigger] a@[j]) == spec_lower_byte(b@[j]),
        decreases n - i,
    {
        if lower_byte(a[i]) != lower_byte(b[i]) {
            proof {
                assert(spec_lower_bytes(a@)[i as int] != spec_lower_bytes(b@)[i as int]);
            }
            return false;
        }
        i = i + 1;
    }
    proof {
        assert(spec_lower_bytes(a@) =~= spec_lower_bytes(b@));
    }
    true
}

/// The codec registered last under `key` (ASCII case-insensitively), if any.
pub open spec fn spec_ext_lookup(
    entries: Seq<(&'static str, BuiltinCodec)>,
    key: Seq<u8>,
) -> Option<BuiltinCodec>
    decreases entries.len(),
{
    if entries.len() == 0 {
        Option::None
    } else if spec_lower_bytes(entries.last().0.spec_bytes()) == spec_lower_bytes(key) {
        Option::Some(entries.last().1)
    } else {
        spec_ext_lookup(entries.drop_last(), key)
    }
}

/// How many extensions each codec registers.
pub open spec fn spec_codec_ext_count(c: BuiltinCodec) -> int {
    match c {
        BuiltinCodec::Jpeg(_) => 2,
        _ => 1,
    }
}

/// The `j`-th extension each codec registers.
pub open spec fn spec_codec_ext_view(c: BuiltinCodec, j: int) -> Seq<char> {
    match c {
        BuiltinCodec::Png(_) => "png"@,
        BuiltinCodec::Jpeg(_) => if j == 0 {
            "jpg"@
        } else {
            "jpeg"@
        },
        BuiltinCodec::Dds(_) => "dds"@,
        BuiltinCodec::Tga(_) => "tga"@,
        BuiltinCodec::Hdr(_) => "hdr"@,
    }
}

/// How loading dispatches: each codec's own load relation.
pub open spec fn spec_codec_load_rel(
    c: BuiltinCodec,
    source: Seq<u8>,
    r: Result<Texture, TexError>,
) -> bool {
    match c {
        BuiltinCodec::Dds(_) => spec_dds_load_rel(source, r),
        BuiltinCodec::Tga(_) => spec_texture_from_tga_rel(source, r),
        _ => spec_texture_from_bytes_rel(source, r),
    }
}

/// How saving dispatches: each codec's own save relation.
pub open spec fn spec_codec_save_rel(
    c: BuiltinCodec,
    tex: Texture,
    r: Result<Vec<u8>, TexError>,
) -> bool {
    match c {
        BuiltinCodec::Png(_) => spec_save_via_image_rel(tex, 1, false, r),
        BuiltinCodec::Jpeg(_) => spec_save_via_image_rel(tex, 2, true, r),
        BuiltinCodec::Dds(_) => spec_dds_save_rel(tex, r),
        BuiltinCodec::Tga(_) => spec_save_via_image_rel(tex, 3, false, r),
        BuiltinCodec::Hdr(_) => spec_save_hdr_rel(tex, r),
    }
}

/// Law: a lookup after a registration resolves to the newly registered codec
/// whenever the key matches one of its extensions (ASCII case-insensitively)
/// — the latest registration wins — and resolves as before the registration
/// whenever it matches none of them. `n_old` is the table length before the
/// registration appended its entries.
pub proof fn lemma_lookup_after_register(
    entries: Seq<(&'static str, BuiltinCodec)>,
    n_old: int,
    codec: BuiltinCodec,
    key: Seq<u8>,
)
    requires
        0 <= n_old <= entries.len(),
        forall|j: int| n_old <= j < entries.len() ==> (#[trigger] entries[j]).1 == codec,
    ensures
        (exists|j: int|
            n_old <= j < entries.len() && spec_lower_bytes((#[trigger] entries[j]).0.spec_bytes())
                == spec_lower_bytes(key)) ==> spec_ext_lookup(entries, key) == Option::Some(codec),
        (forall|j: int|
            n_old <= j < entries.len() ==> spec_lower_bytes((#[trigger] entries[j]).0.spec_bytes())
                != spec_lower_bytes(key)) ==> spec_ext_lookup(entries, key) == spec_ext_lookup(
            entries.take(n_old),
            key,
        ),
    decreases entries.len(),
{
    if entries.len() > n_old {
        let last = entries.last();
        assert(last.1 == codec);
        if spec_lower_bytes(last.0.spec_bytes()) == spec_lower_bytes(key) {
            assert(spec_ext_lookup(entries, key) == Option::Some(codec));
        } else {
            assert(entries.drop_last().take(n_old) =~= entries.take(n_old));
            assert(forall|j: int|
                n_old <= j < entries.drop_last().len() ==> (#[trigger] entries.drop_last()[j]).1
                    == codec);
            lemma_lookup_after_register(entries.drop_last(), n_old, codec, key);
            if exists|j: int|
                n_old <= j < entries.len() && spec_lower_bytes(
                    (#[trigger] entries[j]).0.spec_bytes(),
                ) == spec_lower_bytes(key) {
                let j0 = choose|j: int|
                    n_old <= j < entries.len() && spec_lower_bytes(
                        (#[trigger] entries[j]).0.spec_bytes(),
                    ) == spec_lower_bytes(key);
                assert(j0 < entries.len() - 1);
                assert(entries.drop_last()[j0] == entries[j0]);
                assert(exists|j: int|
                    n_old <= j < entries.drop_last().len() && spec_lower_bytes(
                        (#[trigger] entries.drop_last()[j]).0.spec_bytes(),
                    ) == spec_lower_bytes(key));
            }
        }
    } else {
        assert(entries.take(n_old) =~= entries);
    }
}

/// Codec registry: maps lowercase extensions to codecs; registering an
/// extension again overwrites the earlier registration.
pub struct CodecManager {
    pub entries: Vec<(&'static str, BuiltinCodec)>,
}

impl Default for CodecManager {
    /// A manager with all the built-in codecs registered.
    fn default() -> (r: Self)
        ensures
            r.entries@.len() == 6,
    {
        let mut m = CodecManager::new();
        m.register_codec(BuiltinCodec::Png(PNGCodec));
        m.register_codec(BuiltinCodec::Jpeg(JPEGCodec));
        m.register_codec(BuiltinCodec::Dds(DDSCodec));
        m.register_codec(BuiltinCodec::Tga(TGACodec));
        m.register_codec(BuiltinCodec::Hdr(HDRCodec));
        m
    }
}

impl CodecManager {
    pub fn new() -> (r: Self)
        ensures
            r.entries@.len() == 0,
    {
        CodecManager { entries: Vec::new() }
    }

    /// Register a codec under each of its extensions, behind the existing
    /// registrations (so that the latest registration wins on lookup: see
    /// `lemma_lookup_after_register`).
    pub fn register_codec(&mut self, codec: BuiltinCodec)
        ensures
            final(self).entries@.len() == old(self).entries@.len() + spec_codec_ext_count(codec),
            forall|i: int|
                0 <= i < old(self).entries@.len() ==> #[trigger] final(self).entries@[i]
                    == old(self).entries@[i],
            forall|j: int|
                0 <= j < spec_codec_ext_count(codec) ==> {
                    &&& (#[trigger] final(self).entries@[old(self).entries@.len() + j]).1 == codec
                    &&& final(self).entries@[old(self).entries@.len() + j].0@
                        == spec_codec_ext_view(codec, j)
                },
    {
        let exts: Vec<&'static str> = match codec {
            BuiltinCodec::Png(c) => c.supported_extensions(),
            BuiltinCodec::Jpeg(c) => c.supported_extensions(),
            BuiltinCodec::Dds(c) => c.supported_extensions(),
            BuiltinCodec::Tga(c) => c.supported_extensions(),
            BuiltinCodec::Hdr(c) => c.supported_extensions(),
        };
        proof {
            assert(exts@.len() == spec_codec_ext_count(codec));
            assert(forall|j: int|
                0 <= j < exts@.len() ==> (#[trigger] exts@[j])@ == spec_codec_ext_view(codec, j));
        }
        let n = exts.len();
        let mut i: usize = 0;
        while i < n
            invariant
                i <= n,
                n == exts@.len(),
                n == spec_codec_ext_count(codec),
                forall|j: int|
                    0 <= j < n ==> (#[trigger] exts@[j])@ == spec_codec_ext_view(codec, j),
                self.entries@.len() == old(self).entries@.len() + i,
                forall|j: int|
                    0 <= j < old(self).entries@.len() ==> #[trigger] self.entries@[j]
                        == old(self).entries@[j],
                forall|j: int|
                    0 <= j < i ==> {
                        &&& (#[trigger] self.entries@[old(self).entries@.len() + j]).1 == codec
                        &&& self.entries@[old(self).entries@.len() + j].0@ == spec_codec_ext_view(
                            codec,
                            j,
                        )
                    },
            decreases n - i,
        {
            self.entries.push((exts[i], codec));
            i = i + 1;
        }
    }

    /// Find the codec for an extension, ASCII case-insensitively; the latest
    /// registration wins.
    pub fn get_codec_for_extension(&self, ext: &str) -> (r: Option<BuiltinCodec>)
        ensures
            r == spec_ext_lookup(self.entries@, ext.spec_bytes()),
    {
        let key = ext.as_bytes();
        let n = self.entries.len();
        proof {
            assert(self.entries@.take(n as int) =~= self.entries@);
        }
        let mut i: usize = n;
        while i > 0
            invariant
                i <= n,
                n == self.entries@.len(),
                key@ == ext.spec_bytes(),
                spec_ext_lookup(self.entries@, ext.spec_bytes()) == spec_ext_lookup(
                    self.entries@.take(i as int),
                    ext.spec_bytes(),
                ),
            decreases i,
        {
            let (e, c) = self.entries[i - 1];
            proof {
                assert(self.entries@.take(i as int).last() == self.entries@[i - 1]);
                assert(self.entries@.take(i as int).drop_last() =~= self.entries@.take(i as int - 1));
            }
            if bytes_eq_ignore_case(e.as_bytes(), key) {
                return Some(c);
            }
            i = i - 1;
        }
        proof {
            assert(self.entries@.take(0) =~= Seq::<(&'static str, BuiltinCodec)>::empty());
        }
        None
    }

    /// Load a texture from an in-memory file, dispatching on the extension.
    pub fn load_from_memory_with_extension(&self, ext: &str, data: &[u8]) -> (r: Result<
        Texture,
        TexError,
    >)
        ensures
            ({
                match spec_ext_lookup(self.entries@, ext.spec_bytes()) {
                    Option::None => r == Result::<Texture, TexError>::Err(
                        TexError::UnsupportedFormat,
                    ),
                    Option::Some(c) => spec_codec_load_rel(c, data@, r),
                }
            }),
    {
        let codec = match self.get_codec_for_extension(ext) {
            Some(c) => c,
            None => {
                return Err(TexError::UnsupportedFormat);
            },
        };
        match codec {
            BuiltinCodec::Png(c) => c.load_from_memory(data),
            BuiltinCodec::Jpeg(c) => c.load_from_memory(data),
            BuiltinCodec::Dds(c) => c.load_from_memory(data),
            BuiltinCodec::Tga(c) => c.load_from_memory(data),
            BuiltinCodec::Hdr(c) => c.load_from_memory(data),
        }
    }

    /// Transform a texture with the effects and serialize it, dispatching on
    /// the extension: the codec receives the transformed texture, never the
    /// original, and the first failing stage's error is returned.
    pub fn save_to_memory_with_extension(
        &self,
        ext: &str,
        texture: &Texture,
        effects: &TextureEffects,
    ) -> (r: Result<Vec<u8>, TexError>)
        ensures
            ({
                match spec_ext_lookup(self.entries@, ext.spec_bytes()) {
                    Option::None => r == Result::<Vec<u8>, TexError>::Err(
                        TexError::UnsupportedFormat,
                    ),
                    Option::Some(c) => (exists|t: Texture|
                        #[trigger] spec_transformed_texture(*texture, *effects, t)
                            && spec_codec_save_rel(c, t, r)) || (r is Err
                        && spec_transform_first_err(*texture, *effects, r->Err_0)),
                }
            }),
    {
        let codec = match self.get_codec_for_extension(ext) {
            Some(c) => c,
            None => {
                return Err(TexError::UnsupportedFormat);
            },
        };
        let transformed = match texture.new_transformed_texture(effects) {
            Ok(t) => t,
            Err(e) => {
                return Err(e);
            },
        };
        let saved = match codec {
            BuiltinCodec::Png(c) => c.save_to_memory(&transformed),
            BuiltinCodec::Jpeg(c) => c.save_to_memory(&transformed),
            BuiltinCodec::Dds(c) => c.save_to_memory(&transformed),
            BuiltinCodec::Tga(c) => c.save_to_memory(&transformed),
            BuiltinCodec::Hdr(c) => c.save_to_memory(&transformed),
        };
        proof {
            assert(spec_transformed_texture(*texture, *effects, transformed)
                && spec_codec_save_rel(codec, transformed, saved));
        }
        saved
    }

    /// The registered extensions, in registration order.
    pub fn get_registered_extensions(&self) -> (r: Vec<&'static str>)
        ensures
            r@.len() == self.entries@.len(),
            forall|i: int| 0 <= i < r@.len() ==> #[trigger] r@[i] == self.entries@[i].0,
    {
        let n = self.entries.len();
        let mut out: Vec<&'static str> = Vec::new();
        let mut i: usize = 0;
        while i < n
            invariant
                i <= n,
                n == self.entries@.len(),
                out@.len() == i,
                forall|j: int| 0 <= j < i ==> #[trigger] out@[j] == self.entries@[j].0,
            decreases n - i,
        {
            let (e, _) = self.entries[i];
            out.push(e);
            i = i + 1;
        }
        out
    }
}

} // verus!
