//! Decisions and data model of a pipeline that copies every record of one
//! topic of a partitioned log into a relational table.
//!
//! Two stages work side by side: one fetches batches of records from the
//! source, the other persists them, and a bounded queue lies between them.
//! This library holds what the stages decide and what can be said of the
//! result; it talks neither to the source nor to the store. A caller does
//! that, asks the library what to do next, and reports what happened.
//!
//! - `record`, `policy`: records, batches, and the statement that a record leads to.
//! - `schema`, `text`, `trace`: the table's name, the text of the statements, the trace line.
//! - `table`, `table_laws`: what the table holds after a run.
//! - `queue`: the hand-off queue and its backpressure.
//! - `marks`, `fetcher`: the fetching stage.
//! - `persister`, `persister_laws`, `run_laws`: the persisting stage, and what a run leaves behind.
//! - `config`, `pipeline`: arguments, settings, and the outcome of a run.

pub mod config;
pub mod fetcher;
pub mod marks;
pub mod persister;
pub mod persister_laws;
pub mod pipeline;
pub mod policy;
pub mod queue;
pub mod record;
pub mod run_laws;
pub mod schema;
pub mod table;
pub mod table_laws;
pub mod text;
pub mod trace;
