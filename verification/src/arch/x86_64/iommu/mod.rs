pub mod dmar;
