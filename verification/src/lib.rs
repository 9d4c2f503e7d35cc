//! Admission policy that limits how many palindrome label keys a pod may carry.
//!
//! The crate has two parts: the validator of the policy's own settings and the
//! decision engine that accepts, rejects or annotates a submitted pod.

pub mod pod;
pub mod response;
pub mod settings;
pub mod text;
pub mod validate;
