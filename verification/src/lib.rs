//! Reads HP printers over their internal web pages: which addresses to look at,
//! which pages to ask for, what the pages say, and how to report it.
//!
//! Everything here is plain computation. Pings, requests and files are left to
//! the program around the library.

pub mod address;
pub mod address_list;
pub mod contact;
pub mod html;
pub mod network;
pub mod options;
pub mod printerinfo;
pub mod report;
pub mod scan;
pub mod scrape;
pub mod search;
pub mod text;
