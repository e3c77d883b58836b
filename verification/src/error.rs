use vstd::prelude::*;

verus! {

/// Every failure the pipeline can surface to its caller.  No layer retries or
/// recovers internally: each condition is reported as one of these variants.
#[derive(Clone, Copy, Debug, PartialEq, Eq, Structural)]
pub enum SdkError {
    /// Malformed argument, transaction, or wallet bytes.
    DecodeError,
    /// Source, gas payer, or verification key absent where required.
    MissingRequiredField,
    /// No usable secret key for the required signer, including a wrong or
    /// absent password.  Deliberately indistinguishable from a missing key so
    /// that lookups cannot be used as a password oracle.
    KeyNotFound,
    /// The address has no resolvable public key.
    SigningDataUnavailable,
    /// The resolved signing data names no public key at all.
    MissingSigner,
    /// A raw or wrapper signature blob could not be parsed.
    SignatureError,
    /// The builder could not construct the requested transaction.
    BuildError,
    /// A shielded transfer was requested before the proving parameters were
    /// loaded.
    ShieldedParamsNotLoaded,
    /// The ledger rejected a submission, or the transport failed.
    SubmissionError,
    /// A pipeline step was invoked out of the mandated order.
    OutOfOrder,
}

} // verus!
