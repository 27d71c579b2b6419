pub mod csv_parser;
pub mod move_parser;

pub use csv_parser::{parse_3style_csv_text, parse_csv_line};
pub use move_parser::{parse_sequence, reversed_sequence, sequence_to_string, NotationMove, Sequence};
