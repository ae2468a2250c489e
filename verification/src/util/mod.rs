pub mod crypto;
pub mod feed;
pub mod ident;
pub mod number;
pub mod text;
pub mod translator;
