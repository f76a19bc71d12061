pub mod archive;
pub mod paginator;
pub mod record;
pub mod reserved;
pub mod retry;
pub mod slack;
pub mod sync;
pub mod text;
