//! The building blocks of a resolution: text helpers, the `www.` toggle,
//! candidate building and the acceptance rule for a probe.

pub mod candidate;
pub mod probe;
pub mod slug;
pub mod text;
pub mod www;
pub mod www_laws;

pub use self::candidate::{parse_url, strip_all};
pub use self::probe::check_status;
pub use self::slug::{remove_end_slash, urlify};
pub use self::www::{add_www, has_www, remove_www, swap_www};
