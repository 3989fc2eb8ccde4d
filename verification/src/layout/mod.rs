//! Line layout of rich text: resolving span styles, breaking a paragraph's pieces
//! into lines, the layout flow of a document, and stacking blocks vertically.
//!
//! Text measurement and font metrics (fractional ascents and descents) are done by
//! the host: these modules take measured widths and heights as integers.

pub mod resolve;
pub mod lines;
pub mod flow;
pub mod stack;
pub mod key;
pub mod plan;

pub use resolve::{divider_color, frag_colors, resolve_span, BaseStyle, FragColors, FragStyle};
pub use lines::{break_lines, LineBreaks, LineKind, Piece, PieceKind, Placed};
pub use flow::{doc_flow, FlowItem};
pub use stack::{stack_blocks, BlockLayout, ParaBox};
pub use key::{needs_relayout, LayoutKey};
pub use plan::{para_pieces, PiecePlan};
