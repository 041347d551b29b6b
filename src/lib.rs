//! Switching a network service between DHCP and a static address in a fixed
//! subnet: reading what `networksetup` reports, choosing a free address,
//! reading back the address used last time, and what the menu-bar item shows.
pub mod addr;
pub mod apply;
pub mod net;
pub mod store;
pub mod text;
pub mod tray;
