//! GPS track analysis: reading tracks, enriching their points with running
//! metrics and splitting them into alternating moving and stationary stages.
//!
//! Real-valued quantities are held as integers. A quantity named in metres,
//! seconds, km/h, degrees or degrees Celsius is a whole number of
//! thousandths of that unit, and so is a mean of heart rates; latitudes and
//! longitudes are whole numbers of 10^-7 degrees; instants are milliseconds
//! since the Unix epoch, UTC. Whatever measures the ground between two
//! positions is handed to the library as a function.

pub mod dates;
pub mod detect;
pub mod enrich;
pub mod error;
pub mod extrema;
pub mod geocoding;
pub mod gpx_writer;
pub mod merge;
pub mod model;
pub mod point;
pub mod read;
pub mod stage;
pub mod text;
pub mod widen;
pub mod xml;
