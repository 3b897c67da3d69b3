pub mod logs;
pub mod detail;
pub mod entry_lines;
