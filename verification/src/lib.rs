pub mod exchange_api_types;
pub mod ladder_lemmas;
pub mod orderbook;
pub mod synchronizer;
pub mod text;
pub mod wire_text;
pub mod stream_reader;
pub mod decimal;
pub mod render;
