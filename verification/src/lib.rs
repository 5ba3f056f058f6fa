pub mod error;
pub mod merge;
pub mod stream;
pub mod tag;

pub use error::err_describe;
pub use error::err_parsing;
pub use error::Error;
pub use merge::copy;
pub use merge::merge_mp3s;
pub use merge::Progress;
pub use merge::ProgressLog;
pub use stream::InputStream;
pub use stream::OutputSink;
pub use tag::decode_synchsafe;
pub use tag::is_id3_magic;
pub use tag::read_to_first_header;
