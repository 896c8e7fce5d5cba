mod compile;
mod error;
mod laws;
mod map;
mod pieces;
mod render;
mod strings;

pub use error::Error;
pub use error::ErrorModel;
pub use pieces::FormatPiece;
pub use pieces::FormatPieces;
pub use pieces::Formatter;
pub use pieces::PieceModel;
pub use pieces::pieces_model;
pub use pieces::lemma_pieces_model_index;
pub use map::FormatMap;
pub use compile::ToFormatPieces;
pub use compile::lemma_callbacks_are_view;
pub use compile::compile_matches;
pub use compile::compile_spec;
pub use compile::compile_key_spec;
pub use compile::cons_piece;
pub use render::Render;
pub use render::lemma_pieces_are_models;
pub use render::concat_outputs;
pub use render::piece_output;
pub use render::render_ensures;
pub use render::render_requires;
pub use render::rendered_as;
pub use laws::all_literals;
pub use laws::lit_piece;
pub use laws::escaped_pairs_only;
pub use laws::unescaped;
pub use laws::lemma_literals_render_to_themselves;
pub use laws::lemma_brace_free_identity;
pub use laws::lemma_escaped_pairs_collapse;
pub use laws::formatters_registered;
pub use laws::lemma_compile_bounds_and_keys;
pub use laws::lemma_total_callbacks_render_ok;
pub use laws::lemma_render_deterministic;
