pub mod bits;
pub mod bitstream;
pub mod decoder;
pub mod direct;
pub mod output;
pub mod params;
pub mod tables;

pub use bitstream::BitStream;
pub use decoder::Speakie;
pub use output::Output;
pub use params::Params;
