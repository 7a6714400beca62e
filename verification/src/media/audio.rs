//! Audio decoder — decodes audio streams and generates waveform data.
//!
//! Audio decoding is not implemented yet; only the decoder type exists.

use vstd::prelude::*;

verus! {

/// Decodes audio streams and produces waveform data.
pub struct AudioDecoder {
    _private: (),
}

} // verus!
