use vstd::prelude::*;

pub mod text;
pub mod models;
pub mod url;
pub mod auth;
pub mod body;
pub mod tree;
pub mod collection_panel;
pub mod request_panel;
pub mod variables;
pub mod editor;
pub mod rows;
pub mod curl;
pub mod row_status;
pub mod app_view;
pub mod streaming;
pub mod sorting;
pub mod fonts;

verus! {
}
