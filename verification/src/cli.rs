use vstd::prelude::*;

verus! {

/// Selection of remote data assets: one by identifier, or all, with an
/// optional deletion flag.
#[derive(Debug, Clone)]
pub struct Data {
    pub id: Option<String>,
    pub all: Option<bool>,
    pub delete: bool,
}

/// Trigger management: a nested action plus its selection flags.
#[derive(Debug, Clone)]
pub struct Trigger {
    pub subcmd: TriggerSubCommand,
    pub data: Option<String>,
    pub input: Option<String>,
    pub all: bool,
    pub publish: bool,
    pub delete: bool,
}

/// The trigger actions: create from a rules file, attach to a data
/// asset, or fetch.
#[derive(Debug, Clone)]
pub enum TriggerSubCommand {
    CreateTrigger(CreateTrigger),
    SetTrigger(SetTrigger),
    GetTrigger(GetTrigger),
}

/// Create a trigger from a rules document, optionally publishing it.
#[derive(Debug, Clone)]
pub struct CreateTrigger {
    pub input: String,
    pub publish: bool,
}

/// Attach an existing trigger to a data asset.
#[derive(Debug, Clone)]
pub struct SetTrigger {
    pub data_id: String,
    pub trigger_id: String,
}

/// Fetch triggers: one by identifier, by data asset, or all.
#[derive(Debug, Clone)]
pub struct GetTrigger {
    pub id: Option<String>,
    pub data: Option<String>,
    pub all: bool,
    pub delete: bool,
}

/// One alert record: an optional identifier, a free-text data reference
/// carrying the human-readable message, and a deletion flag used only by
/// the surrounding service layer.
#[derive(Debug, Clone)]
pub struct Alert {
    pub id: Option<String>,
    pub data: Option<String>,
    pub delete: bool,
}

impl Alert {
    /// A fresh alert, never flagged for deletion.
    pub fn new(id: Option<String>, data: Option<String>) -> (a: Alert)
        ensures
            a.id == id,
            a.data == data,
            a.delete == false,
    {
        Alert { id, data, delete: false }
    }
}

/// Profile a dataset given by its input location, optionally publishing
/// the result.
#[derive(Debug, Clone)]
pub struct Profile {
    pub input: String,
    pub publish: bool,
    pub sql: Option<String>,
}

/// Search data assets by column, row and tag criteria.
#[derive(Debug, Clone)]
pub struct Search {
    pub cols: Option<String>,
    pub rows: Option<String>,
    pub tags: Option<String>,
}

/// Fetch historical profile figures of one column over a date range.
#[derive(Debug, Clone)]
pub struct History {
    pub column: String,
    pub from_date: String,
    pub to_date: String,
    pub nunique: bool,
    pub nullcount: bool,
    pub categorical: bool,
    pub min: bool,
    pub max: bool,
    pub mean: bool,
    pub std: bool,
    pub types: bool,
}

/// The top-level actions the tool performs.
#[derive(Debug, Clone)]
pub enum SubCommand {
    Login,
    Data(Data),
    Alert(Alert),
    Profile(Profile),
    Trigger(Trigger),
}

/// The parsed invocation: the chosen action and the global options.
#[derive(Debug, Clone)]
pub struct Args {
    pub subcmd: SubCommand,
    pub input: Option<String>,
    pub verbose: Option<i32>,
}

} // verus!
