//! Verified core of a bridge that lets typed objects live inside records owned
//! by a host runtime: host symbol names, deferred clock firings, the message
//! table a class declares, and the lifecycle of an embedded object.

pub mod class;
pub mod clock;
pub mod symbol;
pub mod wrapper;

pub use class::{Class, MessageKind, RegistrationError};
pub use clock::{ClockHandle, ClockModel};
pub use symbol::{EncodingError, SymbolRef};
pub use wrapper::{Event, LifecycleError, Phase, Wrapper};
