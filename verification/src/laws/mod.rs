//! Laws: what holds of the library's operations, in terms of what goes in and
//! what comes out.

pub mod blocks;
pub mod calls;
pub mod gateway;
pub mod objects;
pub mod responses;
pub mod rounds;
pub mod servers;
pub mod settings;
pub mod streams;
pub mod tools;
pub mod views;
pub mod words;
