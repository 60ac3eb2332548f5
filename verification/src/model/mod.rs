pub mod fields;
pub mod fssa;
pub mod ip_info;
pub mod user;
