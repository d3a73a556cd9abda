//! A hierarchical message board: a tree of messages and access groups, kept
//! in a store on disk and served over a length-framed binary protocol.
//!
//! * [`le`], [`wire`]: little-endian integers, id lists and text on the
//!   wire.
//! * [`idset`], [`entry`], [`user`], [`request`], [`response`]: the records
//!   and their binary formats.
//! * [`resolver`]: the walk up the tree that decides what a user may do.
//! * [`handler`]: the handling of one request, operation by operation of the
//!   store; [`board`]: what that handling comes to on a store.
//! * [`store`]: file names, the list of users, new ids.
//! * [`pipeline`]: frames, connection ids, workers.
//! * [`navigation`], [`keys`], [`utils`]: what a terminal client needs.

pub mod board;
pub mod consts;
pub mod entry;
pub mod error;
pub mod handler;
pub mod idset;
pub mod keys;
pub mod le;
pub mod navigation;
pub mod pipeline;
pub mod request;
pub mod resolver;
pub mod response;
pub mod store;
pub mod user;
pub mod utils;
pub mod wire;

pub use consts::{
    ACCESS_GROUP, ADD_ENTRY, ADD_USER, BLACK_BASE, ENTRY_FILE_VERSION, ENTRY_MAGIC_NUMBER, ERROR,
    GET_ENTRY, GET_USER, INHERIT_BASE, MESSAGE, PORT, REQUEST_FORMAT_VERSION,
    RESPONSE_FORMAT_VERSION, ROOT_ID, USER_FILE_VERSION, USER_MAGIC_NUMBER, WHITE_BASE,
};
pub use entry::{Entry, EntryData, EntryVariant, HeaderData};
pub use error::DataError;
pub use handler::{Handler, HandlerStep, StoreOp, StoreReply};
pub use idset::{DefaultBase, DefaultedIdSet};
pub use navigation::{extract_name, PathManager, Selector};
pub use pipeline::{ConnectionIds, Dispatcher, Egress, EgressAction, IngressAction};
pub use request::BoardRequest;
pub use resolver::{PermKind, ResolveStep, Resolver, MAX_TRAVERSAL_DEPTH};
pub use response::{BoardResponse, MaybeBoardResponse};
pub use user::UserData;
pub use wire::{read_u16, read_u32, read_u64, DataIter};
