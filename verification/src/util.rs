pub mod reader_stream;
pub mod js;
