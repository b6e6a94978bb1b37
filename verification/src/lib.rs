//! A reader adapter that allows seeking a little bit.
//!
//! [`PreservingReader`] wraps a forward-only byte source and offers limited
//! backward (and forward) seeking by retaining a bounded trailing window of
//! the bytes it has already produced.  At most `2 * keep_size` bytes are
//! retained; at least `keep_size` of the most recent bytes can always be
//! reached again by seeking backwards, once that much has been read.

mod reader;
mod source;

pub use reader::CacheModel;
pub use reader::PreservingReader;
pub use reader::SeekFrom;
pub use source::ByteSource;
pub use source::Error;
pub use source::FailingSource;
pub use source::VecSource;
