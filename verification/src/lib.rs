pub mod accounts;
pub mod collections;
pub mod cryptography;
pub mod hex;
pub mod manager;
pub mod util;
