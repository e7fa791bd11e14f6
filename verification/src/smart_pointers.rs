//! Small pointer and cell types: a cell to set and get through a shared
//! reference, a cell that checks borrows as the program runs, and a pointer
//! that counts its owners.

pub mod cell;
pub mod refcell;
pub mod rc;
