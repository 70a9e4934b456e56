//! The decisions of the command line tool: what each command is made of, what
//! it asks of the lattice, and what it reports.

pub mod link;
pub mod output;
pub mod provider;
pub mod session;
pub mod start;
pub mod stop;
