pub mod clock;
pub mod entry;
pub mod numfmt;
pub mod recorder;
pub mod render;
pub mod select;
pub mod store;

pub use clock::capture_entry;
pub use entry::ClipboardEntry;
pub use entry::EntryModel;
pub use entry::StoredEntry;
pub use numfmt::i64_to_dec_string;
pub use numfmt::u64_to_dec_string;
pub use recorder::Recorder;
pub use recorder::record_sequence;
pub use render::render_entries;
pub use render::render_entry;
pub use select::select_recent;
pub use select::sort_desc;
pub use store::clear_database;
pub use store::ensure_schema;
pub use store::init_database;
pub use store::init_database_in_memory;
pub use store::list_recent;
pub use store::query_recent;
pub use store::store_entry;
pub use store::take_decoded_prefix;
