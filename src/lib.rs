//! Core logic of an intercepting HTTP/HTTPS proxy: content classification,
//! TLS ClientHello probing, request normalisation, session mocks, streaming
//! capture and upstream error recovery, stated over plain values.
pub mod text;
pub mod headers;
pub mod data_type;
pub mod tls;
pub mod records;
pub mod engine;
pub mod relay;
pub mod session;
pub mod dispatch;
pub mod websocket;
pub mod curl;
pub mod cert;
pub mod diagnostics;
pub mod status;
