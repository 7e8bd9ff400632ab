//! A text user interface framework: window trees, layout and widget logic.

pub mod num;
pub mod geom;
pub mod text;
pub mod tree;
pub mod screen;
pub mod palette;
pub mod window;
pub mod panels;
pub mod event;
pub mod widgets;
pub mod input;
pub mod items;
pub mod scroll;
pub mod property;
pub mod text_edit;
pub mod xaml;
pub mod xaml_values;
pub mod dock_view;
pub mod decorators;
pub mod item_windows;
pub mod xaml_walk;
pub mod registry;
