//! Job search against LinkedIn's guest endpoint.
pub mod cards;
pub mod client;
pub mod html;
pub mod outcomes;
pub mod pages;
pub mod posted;
pub mod url;
