//! Reader for an encrypted, indexed game-data archive format: a block cipher
//! for index and payload decryption, a container parser that maps entry names
//! to byte ranges, a tagged property-stream deserializer that builds a typed
//! object graph, and a block-compressed texture decoder producing raw RGBA.
use vstd::prelude::*;

pub mod archive;
pub mod assets;
pub mod cipher;
pub mod errors;
pub mod hexs;
pub mod texture;

use crate::assets::Package;
use crate::texture::DecodedImage;
use crate::texture::blocks_across;
use crate::texture::decoded_pixels_ok;
use crate::texture::dxt5_name;

verus! {

/// A user-facing failure of one command.
#[derive(Debug)]
pub struct CommandError {
    pub message: String,
}

/// The outcome of one command.
pub type CommandResult = Result<(), CommandError>;

/// Wraps a user-facing message as a failed command outcome.
pub fn cerr(message: &'static str) -> (r: CommandResult)
    ensures
        r is Err && r->Err_0.message@ == message@,
{
    Err(CommandError { message: message.to_owned() })
}

/// The package's export is a texture in the one supported pixel format whose
/// mip bytes cover its block grid, within the machine's buffer limits.
pub open spec fn texture_ok(package: &Package) -> bool {
    &&& package.export is Texture
    &&& package.export->Texture_0.pixel_format@ == dxt5_name()
    &&& 4 * (package.export->Texture_0.mip.width as int) * (
    package.export->Texture_0.mip.height as int) <= usize::MAX
    &&& package.export->Texture_0.mip.data@.len() >= 16 * blocks_across(
        package.export->Texture_0.mip.width as int,
    ) * blocks_across(package.export->Texture_0.mip.height as int)
}

/// Decodes the texture export of a package into raw RGBA pixels: requires
/// the export to be texture-kind with the one supported pixel format, then
/// expands its finest mip level.
#[verifier::rlimit(100)]
pub fn texture(package: &Package) -> (r: Result<DecodedImage, CommandError>)
    ensures
        r is Ok <==> texture_ok(package),
        r is Ok ==> {
            let m = package.export->Texture_0.mip;
            r->Ok_0.width == m.width && r->Ok_0.height == m.height && decoded_pixels_ok(
                r->Ok_0.pixels@,
                m.data@,
                m.width as int,
                m.height as int,
            )
        },
        r is Err ==> (!(package.export is Texture) ==> r->Err_0.message@
            == "Package not exporting texture"@),
        r is Err ==> (package.export is Texture
            && package.export->Texture_0.pixel_format@ != dxt5_name() ==> r->Err_0.message@
            == "Only supported formats: DXT5"@),
        r is Err ==> (package.export is Texture
            && package.export->Texture_0.pixel_format@ == dxt5_name() ==> r->Err_0.message@
            == "Could not decode texture"@),
{
    let tex = match package.get_export().as_texture() {
        Ok(t) => t,
        Err(_) => {
            return Err(CommandError { message: "Package not exporting texture".to_owned() });
        },
    };
    if !crate::texture::is_dxt5(tex.get_pixel_format()) {
        return Err(CommandError { message: "Only supported formats: DXT5".to_owned() });
    }
    let m = tex.get_texture();
    let w = m.get_width();
    let h = m.get_height();
    proof {
        assert((w as u64) * (h as u64) < 0xffff_ffff_ffff_ffffu64) by (nonlinear_arith)
            requires
                w <= 0xffff_ffffu64 && h <= 0xffff_ffffu64,
        ;
    }
    let wh = (w as u64) * (h as u64);
    if wh > usize::MAX as u64 / 4 {
        proof {
            assert(!(4 * (w as int) * (h as int) <= usize::MAX)) by (nonlinear_arith)
                requires
                    (w as int) * (h as int) > usize::MAX as int / 4 && w >= 0 && h >= 0,
            ;
        }
        return Err(CommandError { message: "Could not decode texture".to_owned() });
    }
    proof {
        assert(4 * (w as int) * (h as int) <= usize::MAX) by (nonlinear_arith)
            requires
                (w as int) * (h as int) <= usize::MAX as int / 4 && w >= 0 && h >= 0,
        ;
    }
    match crate::texture::decode_texture(tex.get_pixel_format(), m.get_bytes().as_slice(), w, h) {
        Ok(img) => Ok(img),
        Err(_) => Err(CommandError { message: "Could not decode texture".to_owned() }),
    }
}

} // verus!
