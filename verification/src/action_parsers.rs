pub mod action_parser;
pub mod necto_parser_2;
