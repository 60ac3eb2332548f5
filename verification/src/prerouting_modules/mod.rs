pub mod filters;
