//! Verified core of the Cronchware RPC framework.
pub mod app_common;
pub mod registry;
pub mod text;
pub mod case;
pub mod bindgen;
pub mod signatures;
pub mod wit;
pub mod wit_lex;
pub mod wit_types;
pub mod wit_items;
pub mod wit_codegen;
pub mod kinode;
pub mod async_app;
pub mod async_receiver;
pub mod async_requester;
pub mod receiver_a;
pub mod receiver_c;
pub mod shared;
pub mod send_macro;
pub mod hyperprocess;
