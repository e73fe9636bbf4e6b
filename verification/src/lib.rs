pub mod android_fcm;
pub mod buffer;
pub mod checkin;
pub mod client;
pub mod codec;
pub mod crypto;
pub mod decrypt;
pub mod encoding;
pub mod error;
pub mod form;
pub mod json;
pub mod mcs;
pub mod proto;
pub mod random;
pub mod register;
pub mod session;
pub mod stream;
pub mod text;

pub use android_fcm::AndroidFcm;
pub use client::Notification;
pub use error::Error;
