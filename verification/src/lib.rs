//! Travel planning core: the rules behind trips, itineraries, checklists,
//! expenses, receipts and the texts that the command line prints.

pub mod text;
pub mod models;
pub mod money;
pub mod calendar;
pub mod schedule;
pub mod summary;
pub mod receipt;
pub mod edits;
pub mod doctor;
pub mod markdown;
pub mod travel_book;
pub mod views;
pub mod config;
pub mod commands;
pub mod services;
pub mod listing;
pub mod receipt_handling;
pub mod ordering;
