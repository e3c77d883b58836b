//! Shielded-pool proving parameters.
//!
//! Shielded transfers cannot be built until the three parameter blobs —
//! spend, output, convert, in that order — have been loaded from the host.
//! Loading anything but exactly three blobs is rejected outright, and a
//! partial load never becomes the cached context.

use vstd::prelude::*;
use crate::codec::clone_bytes;
use crate::error::SdkError;

verus! {

/// The three proving-parameter blobs, all present.
#[verifier::ext_equal]
pub ghost struct ShieldedParamsModel {
    pub spend: Seq<u8>,
    pub output: Seq<u8>,
    pub convert: Seq<u8>,
}

pub struct ShieldedParams {
    pub spend: Vec<u8>,
    pub output: Vec<u8>,
    pub convert: Vec<u8>,
}

impl View for ShieldedParams {
    type V = ShieldedParamsModel;

    open spec fn view(&self) -> ShieldedParamsModel {
        ShieldedParamsModel { spend: self.spend@, output: self.output@, convert: self.convert@ }
    }
}

/// The session's shielded context: either unloaded, or holding all three
/// parameter blobs.  There is no partially loaded state.
pub struct ShieldedContext {
    params: Option<ShieldedParams>,
}

impl View for ShieldedContext {
    type V = Option<ShieldedParamsModel>;

    closed spec fn view(&self) -> Option<ShieldedParamsModel> {
        match self.params {
            None => None,
            Some(p) => Some(p@),
        }
    }
}

impl ShieldedContext {
    /// A fresh context with nothing loaded.
    pub fn new() -> (r: ShieldedContext)
        ensures
            r@ is None,
    {
        ShieldedContext { params: None }
    }

    /// Whether the proving parameters are loaded.
    pub fn has_params(&self) -> (r: bool)
        ensures
            r == (self@ is Some),
    {
        self.params.is_some()
    }

    /// Loads the parameters from the host-supplied blob list.  Exactly three
    /// blobs — spend, output, convert, in that order — are accepted; any
    /// other count is a contract violation reported as `DecodeError`, and the
    /// cached context is left untouched.
    pub fn load(&mut self, blobs: Vec<Vec<u8>>) -> (r: Result<(), SdkError>)
        ensures
            match r {
                Ok(_) => blobs@.len() == 3 && final(self)@ == Some(
                    ShieldedParamsModel {
                        spend: blobs@[0]@,
                        output: blobs@[1]@,
                        convert: blobs@[2]@,
                    },
                ),
                Err(e) => blobs@.len() != 3 && e == SdkError::DecodeError && final(self)@
                    == old(self)@,
            },
    {
        if blobs.len() != 3 {
            return Err(SdkError::DecodeError);
        }
        let spend = clone_bytes(&blobs[0]);
        let output = clone_bytes(&blobs[1]);
        let convert = clone_bytes(&blobs[2]);
        self.params = Some(ShieldedParams { spend, output, convert });
        Ok(())
    }
}

} // verus!
