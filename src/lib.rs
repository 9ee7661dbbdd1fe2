//! Supervision of the local services that a desktop shell needs: deciding
//! whether to launch each one, where its launch target lies, when it is ready,
//! and which processes to terminate, in what order, on shutdown.
pub mod launch;
pub mod probe;
pub mod registry;
pub mod supervisor;
