//! Verified core of three small command-line file utilities: a file-name and
//! path search (`locate`), a partial-file viewer (`tail`), and a file and
//! timestamp creator (`touch`).
//!
//! Each tool's option parsing, matching, selection, and decision logic lives
//! here with full contracts; the surrounding processes do the filesystem work
//! and hand plain values in and out.

pub mod locate;
pub mod tail;
pub mod text;
pub mod touch;
