//! Reactive extensions: observables, observers and subjects, with the
//! notification rules of subscribers and subjects proved.

pub mod clock;
pub mod errors;
pub mod observable;
pub mod observer;
pub mod subjects;
pub mod subscription;

pub use observable::timestamp::TimestampedEmit;
pub use observer::Observer;
pub use subjects::Subject;
pub use subscription::subscribe;
pub use subscription::subscribe::{Fuse, Subscriber, Unsubscribeable};
