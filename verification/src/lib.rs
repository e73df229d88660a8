pub mod code;
pub mod ecl;
pub mod encode;
pub mod grid;
pub mod qr_data;
pub mod render;
pub mod types;
