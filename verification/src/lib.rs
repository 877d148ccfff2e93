//! Verified core logic of the Ariel OS embedded operating system: the fixed-priority
//! thread scheduler with its run queues and wait lists, the synchronization primitives built
//! on it, the CoAP access-policy scopes, and the arithmetic of the sensor drivers.

pub mod coapcore;
pub mod runqueue;
pub mod scheduler;
pub mod sensors;
pub mod stm32;
pub mod sync;
