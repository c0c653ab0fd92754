//! Decision and synchronisation core of an RFID door controller.
//!
//! A reader, wired locally or reached over a serial link, yields a card UID.
//! The UID is normalised to a fixed-width identity, looked up in the
//! credential store, and the outcome drives the relay, the indicators and the
//! telemetry queue. Every function here is pure with respect to hardware: the
//! firmware performs the I/O and hands plain values in and out.

mod bytes;
pub mod cobs;
pub mod config;
pub mod database_task;
pub mod event_router;
pub mod identity;
pub mod local_cardreader_task;
pub mod log_task;
pub mod main_task;
pub mod remote_cardreader_task;
pub mod remote_unit;
pub mod uart_protocol;
