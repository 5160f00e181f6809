//! Services around the asset library: decoding, encoding, storage and Sakugabooru.
pub mod decoder_service;
pub mod encoder_service;
pub mod sakugabooru_client;
pub mod storage_service;
