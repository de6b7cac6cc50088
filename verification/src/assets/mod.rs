pub mod mesh_parser;
