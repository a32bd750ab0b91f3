//! Options analysis tracker implementations.
//!
//! Each tracker implements the `OptionsTracker` trait and processes
//! enriched OPRA events to produce a specific statistical profile.

pub mod effective_spread;
pub mod greeks;
pub mod premium_decay;
pub mod put_call;
pub mod quality;
pub mod spread;
pub mod volume;
pub mod zero_dte;

pub use effective_spread::OptionsEffectiveSpreadTracker;
pub use greeks::GreeksTracker;
pub use premium_decay::PremiumDecayTracker;
pub use put_call::PutCallRatioTracker;
pub use quality::QualityTracker;
pub use spread::SpreadTracker;
pub use volume::VolumeTracker;
pub use zero_dte::ZeroDteTracker;
