// A streaming text-to-speech transform core: it takes discrete UTF-8 text
// units, has an external synthesis engine speak them, decodes the engine's
// container-framed audio response, and packages the samples into output
// units, with capability negotiation against a downstream consumer and
// exact error propagation. The blocking engine call itself belongs to the
// host; everything around it is specified and proved here.

pub mod caps;
pub mod engine;
pub mod sample;
pub mod transform;
pub mod utf8;
pub mod wav;
