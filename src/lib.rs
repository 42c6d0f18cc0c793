//! Deterministic, local-only password generation triggered by typed
//! keystrokes: a trigger detector over key events, a password deriver, and
//! the decisions that connect them.
use vstd::prelude::*;

pub mod autostart;
pub mod config;
pub mod detect;
pub mod dispatch;
pub mod master_key;
pub mod password;
pub mod text;

pub use config::{Config, DefaultConfig, SiteConfig};
pub use detect::{TriggerDetector, TriggerEvent};
pub use master_key::MasterKeyCache;
pub use password::{generate_password, GenerationMode, PasswordConfig};

verus! {

} // verus!
