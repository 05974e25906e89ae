//! One module per tool: how each tool's answer is rendered.

pub mod list_spaces;
pub mod search_confluence;
pub mod get_page;
pub mod get_page_by_title;
pub mod get_page_by_url;
pub mod get_comments;
pub mod get_attachments;
