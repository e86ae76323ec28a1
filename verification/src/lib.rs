//! The verified core of videowall: the values it exchanges for LiveKit
//! credentials, the YUV frames it carries, and the bookkeeping of a
//! streaming session.

pub mod domain;
pub mod application;
pub mod infrastructure;
pub mod presentation;
