//! The compile service, as far as the library shapes what is sent to it and
//! reads what comes back. Sending is not the library's business.

pub mod compile;
pub mod list;
