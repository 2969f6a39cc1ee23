pub mod csv_input;
pub mod sql;
pub mod table;
