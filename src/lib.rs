//! Conversion of a directory contact export into a softphone contact list,
//! with merging of earlier entries, renaming of call-history lines and a
//! staged, backed-up replacement of the files written.
pub mod text;
pub mod number;
pub mod utf16;
pub mod log_store;
pub mod sip_contacts;
pub mod vcard;
pub mod backup;
pub mod args;
pub mod commit;
pub mod convert;
pub mod agephone;
pub mod cli;
