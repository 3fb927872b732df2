//! Natural-language answers for `/ask`.

pub mod backend;
