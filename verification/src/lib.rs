pub mod ids;
pub mod native_host;
pub mod os_op;
pub mod native_host_laws;
pub mod text;
pub mod action;
pub mod cx;
pub mod cx_api;
pub mod native_views;
pub mod native_host_schema;
pub mod window;
pub mod native_texture_layer;
pub mod json;
pub mod envelope;
pub mod octos;
pub mod passes;
pub mod macos_glass;
pub mod octos_backend;
pub mod octos_laws;
pub mod oh_network;
pub mod oh_headers_laws;
pub mod ohos_backend;
