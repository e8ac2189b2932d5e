//! One collector for each product: where its versions are published and how the answer is
//! read. The collectors do not fetch; they are handed what was fetched.

pub mod apache;
pub mod docker;
pub mod eclipse_temurin;
pub mod github;
pub mod go;
pub mod kong;
pub mod mongodb;
pub mod mysql;
pub mod nginx;
pub mod node;
pub mod perl;
pub mod php;
pub mod postgresql;
pub mod python;
pub mod releases;
pub mod ruby;
pub mod rust;
pub mod scala;
pub mod swift;
pub mod tags;
