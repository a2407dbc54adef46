pub mod arm_core;
pub mod machine;
pub mod gba;
pub mod keys;
pub mod trapper;
