//! Verified core of the `windui` widgets: the dropdown selector and the rich-text
//! document model, tokenizer and line layout.

pub mod geometry;
pub mod theme;
pub mod signal;
pub mod event;
pub mod select;
pub mod text;
pub mod rich;
pub mod layout;
pub mod richtext;

pub use geometry::{Color, Point, Rect, Size};
pub use signal::{signal, Signal};
pub use theme::{DropdownTheme, Intent, Palette, RichColor, RichTheme};
pub use select::{Dropdown, DropdownItem, OnClick};
