//! Extraction of icon and string resources from Windows PE binaries.
//!
//! The library parses PE32/PE32+ images from raw bytes, walks their resource
//! directory for icon groups and raw icon images, reassembles them into
//! self-contained ICO files, and converts raw pixel buffers obtained from an
//! OS renderer into encoded images.

use vstd::prelude::*;

pub mod convert;
pub mod encode;
pub mod error;
pub mod exe;
pub mod extract;
pub mod pe;
pub mod icons;
pub mod names;
pub mod rsrc;
pub mod text;

pub use convert::bgra_to_rgba;
pub use encode::frame_to_ico;
pub use encode::get_dll_ico;
pub use encode::get_dll_icos;
pub use encode::RawPixelBuffer;
pub use error::AssembleError;
pub use error::ExtractError;
pub use error::ParseError;
pub use exe::decode_rendered_icon;
pub use extract::get_ico;
pub use extract::get_ico_by_ordinal;
pub use extract::get_icos;
pub use extract::iterate_icon_groups;
pub use extract::iterate_raw_icons;
pub use extract::Ico;
pub use icons::assemble;
pub use pe::detect_bitness;
pub use pe::Bitness;
pub use rsrc::IconGroup;
pub use rsrc::RawIcon;
pub use rsrc::ResName;
pub use text::get_dll_txt;

verus! {

} // verus!
