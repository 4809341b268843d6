//! Core rules of a parking facility's point of sale: the schema-migration
//! ladder, the role and permission catalog, tariff resolution, the entry and
//! exit lifecycle of parking sessions, treasury aggregation and reporting
//! projections.
pub mod text;
pub mod permissions;
pub mod access;
pub mod auth;
pub mod roles;
pub mod migrations;
pub mod vehicles;
pub mod tariffs;
pub mod treasury;
pub mod barcodes;
pub mod ids;
pub mod store;
pub mod scanner;
pub mod reports;
pub mod metrics;
pub mod queries;
pub mod debtors;
