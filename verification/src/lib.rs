pub mod color;
pub mod entropy;
pub mod exchange;
pub mod imgout;
pub mod neighborhood;
pub mod schedule;
pub mod subdivide;
