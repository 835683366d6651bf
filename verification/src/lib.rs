pub mod text;
pub mod style;
pub mod model;
pub mod xml;
pub mod markdown;
pub mod html_export;
pub mod cell;
pub mod transform;
pub mod validate;
pub mod apply;
pub mod laws;
pub mod config;
pub mod yaml;
pub mod gif_export;
pub mod pdf_export;
pub mod json;
pub mod confluence_export;
pub mod run;
