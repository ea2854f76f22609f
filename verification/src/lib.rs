pub mod events;
pub mod extractor;
pub mod hash;
pub mod parser;
pub mod pipeline;

pub use events::EventV;
pub use events::FeedEvent;
pub use extractor::Extractor;
pub use extractor::FeedItem;
pub use extractor::extract_items;
pub use hash::calculate_guid;
pub use hash::sha1_hex_of;
pub use parser::FeedError;
pub use parser::doc_events;
pub use parser::doc_well_formed;
pub use parser::parse_feed_xml;
pub use pipeline::parse_all_feeds;
