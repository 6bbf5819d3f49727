pub mod repositories;
