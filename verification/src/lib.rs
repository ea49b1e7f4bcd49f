//! A small status-dashboard library: an order-preserving, schema-dispatching
//! configuration decoder, and the computations behind a filesystem usage
//! table. The decoder walks a key-ordered document, recognizes a fixed set of
//! section names, decodes each section's value under its own schema, and
//! records the position at which each section occurred, so a caller can
//! render sections in the order their author wrote them.

mod color;
mod decode;
mod document;
mod error;
mod filesystem;
mod keys;
mod schema;
mod scrub;

pub use color::{color_of_name, BannerColor};
pub use decode::{decode_document, sections_in_order, OrderedConfig, Positioned};
pub use document::{lookup_field, str_eq, Document, Scalar, Value};
pub use error::DecodeError;
pub use filesystem::{
    bar_width, build_entries, column_sizes, find_mount, format_row, pad_to_width,
    parse_into_entry, Entry, FilesystemsCfg, FilesystemsError, MountInfo, INDENT_WIDTH,
};
pub use keys::{eq_ignore_ascii_case, kind_of_key, SectionKind};
pub use schema::{
    decode_banner, decode_docker, decode_last_login, decode_last_run, BannerCfg, DockerConfig,
    LastLoginCfg, LastRunConfig,
};
pub use scrub::{find_char, lookup_line_value, scrub_summary, split_kv, split_lines, trim};
