//! Packet decryption, key derivation and account data for the Grasscutter
//! tool set, with their contracts proved by Verus.
#![allow(unused_imports)]

pub mod cipher;
pub mod mt;
pub mod random;
pub mod text;
pub mod keys;
pub mod bruteforce;
pub mod capture;
pub mod crypto;
pub mod processor;
pub mod accounts;
pub mod sniffer;
pub mod launcher;
