pub mod aes;
pub mod b64;
pub mod canonical;
pub mod crypto;
pub mod rand;
pub mod xml;
pub mod writer;
pub mod http;
pub mod signature;
pub mod adept;
pub mod token;
pub mod responses;
pub mod account;
pub mod fulfillment;
pub mod epub;
pub mod dedrm;
pub mod flow;
