pub mod container;
