//! Host side of a desktop-to-watch colour theme link.
//!
//! [`omarchy`] resolves the desktop's theme, [`palette`] maps it to the watch's roles, and
//! [`protocol`] and [`v2`] put it into packets. [`beacon`] signs what goes on the air and
//! authenticates what comes back, [`themelist`] frames the list of themes for the watch, and
//! [`daemon`] decides what each event does. The other modules hold the files, the command
//! line's texts, and the small parts that these share.

pub mod beacon;
pub mod ble;
pub mod blend;
pub mod bytes;
pub mod daemon;
pub mod files;
pub mod ipc;
pub mod json;
pub mod omarchy;
pub mod palette;
pub mod protocol;
pub mod radio;
pub mod report;
pub mod scan;
pub mod setup;
pub mod sim;
pub mod text;
pub mod textmap;
pub mod themelist;
pub mod v2;
