//! Verified core of a command-line tool that groups networked speakers for
//! synchronized playback.
//!
//! Discovery and control traffic (SSDP multicast, UPnP SOAP calls) are network
//! I/O and live outside this library; callers hand in plain values describing
//! the devices they found and perform the control calls this library plans.
//! Everything here — filtering devices to music-capable speakers, building the
//! zone directory, parsing the command line, and planning a group join — is
//! verified.

pub mod cli;
pub mod device;
pub mod directory;
pub mod join;
