//! What the operations are for: relations between what goes in and what comes out, for all inputs.

pub mod account;
pub mod answers;
pub mod calls;
pub mod cameras;
pub mod media;
pub mod messages;
pub mod offers;
pub mod values;
pub mod words;
