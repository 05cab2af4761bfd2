//! Verified core of the WorkBuddy theme switcher. The application around it performs
//! the file, process, network and window work and the colour arithmetic; the decisions
//! it takes on what it reads are made here:
//!
//! - `text`, `order`, `base64`, `payload`, `json`, `error`: text helpers, stable name
//!   order, canonical Base64, image payloads, the JSON model and application errors.
//! - `paths`, `workbuddy`: install and resource paths, runtime command arguments, file
//!   versions, registry and process listings, renderer targets and runtime replies.
//! - `retry`, `monitor`: the automatic keeper's attempts, delays and decisions.
//! - `live`, `diagnostic`: the renderer debugging protocol and the runtime's diagnostics.
//! - `library`, `store`, `catalog`, `document`: theme references, the library layout,
//!   revisions, saves, listing, the built-in catalog and stored-document validation.
//! - `color`, `region`, `edit`, `compiler`, `compat`: colours and controls, the styled
//!   regions, edit decisions, stylesheet upgrades and runtime compatibility.
//! - `session`: trials, their lease, window closes, captures and recovery.
pub mod error;
pub mod text;
pub mod base64;
pub mod payload;
pub mod library;
pub mod json;
pub mod diagnostic;
pub mod retry;
pub mod paths;
pub mod workbuddy;
pub mod color;
pub mod live;
pub mod session;
pub mod compat;
pub mod store;
pub mod order;
pub mod region;
pub mod compiler;
pub mod monitor;
pub mod document;
pub mod catalog;
pub mod edit;

use vstd::prelude::*;

verus! {

} // verus!
