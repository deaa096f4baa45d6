use vstd::prelude::*;

verus! {

/// The command-line surface: a ROM path and an integer display scale
/// factor.  Parsing host arguments into this is the host's business.
pub struct Opt {
    /// How many screen pixels one framebuffer pixel spans.
    pub scale_factor: usize,
    /// Where the program image is read from.
    pub rom_path: String,
}

} // verus!
