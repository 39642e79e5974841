/*!
A structured-value serialization engine for console-style logging on a
JavaScript host.

The library walks a statically shaped tree of structured data (scalars,
options, sequences, maps, records and tagged variants) and produces a single
dynamic value: an untyped tree built only from null, booleans, numbers,
decimal-string-backed big numbers, strings, byte buffers, ordered arrays and
ordered key/value objects. The surrounding host glue converts that tree into
the host's native object model and hands it to a console sink.

The whole mapping is stated as one pure specification function,
[`ser::spec_serialize`], the executable serializer is proved equal to it, and
the engine's laws — shape preservation, the numeric precision threshold,
variant wrapping, option collapse and failure propagation — are proved of it
in [`laws`].
*/

pub mod builder;
pub mod error;
pub mod laws;
pub mod num;
pub mod ser;
pub mod value;

pub use builder::{ArrayBuilder, ObjectBuilder};
pub use error::SerializeError;
pub use ser::serialize;
pub use value::{DynamicValue, Value};
