//! The record loader: from the text of a data file to the batch of records
//! and the name of the field to randomize.

use vstd::prelude::*;
use vstd::string::StringExecFns;
use crate::json::clone_items;
use crate::json::find_member;
use crate::json::items_model;
use crate::json::lemma_array_view;
use crate::json::lemma_member_index_found;
use crate::json::lemma_object_view;
use crate::json::member_index;
use crate::json::member_value;
use crate::json::members_model;
use crate::json::Json;
use crate::json::JsonModel;
use crate::parse::parse_document;
use crate::parse::parsed_document;

verus! {

/// A loaded data file: the records in file order, and the name of the field
/// to randomize before each send, if the file names one.
#[derive(Debug, PartialEq, Eq)]
pub struct DataFileResult {
    pub random_key: Option<String>,
    pub data: Vec<Json>,
}

/// What a [`DataFileResult`] denotes.
pub struct BatchModel {
    pub random_key: Option<Seq<char>>,
    pub data: Seq<JsonModel>,
}

impl View for DataFileResult {
    type V = BatchModel;

    open spec fn view(&self) -> BatchModel {
        BatchModel {
            random_key: match self.random_key {
                Some(key) => Some(key@),
                None => None,
            },
            data: items_model(self.data@),
        }
    }
}

/// Why a data file gives no batch.
#[derive(Debug, PartialEq, Eq)]
pub enum LoadError {
    /// The file could not be read; the payload is the reason.
    Unreadable(String),
    /// The text is not JSON; the payload is the parser's message.
    InvalidJson(String),
    /// The root is an object without a `data` member that is an array.
    MissingData,
    /// The root is neither an array nor an object.
    UnsupportedRoot,
    /// The record list is empty.
    NoRecords,
}

/// The randomization key that an object-shaped source names: the value of
/// its `random_key` member where that is a non-empty string.
pub open spec fn named_random_key(members: Seq<(Seq<char>, JsonModel)>) -> Option<Seq<char>> {
    match member_value(members, "random_key"@) {
        Some(JsonModel::String(name)) => if name.len() > 0 {
            Some(name)
        } else {
            None
        },
        _ => None,
    }
}

/// A record list as a batch, which it is unless it is empty.
pub open spec fn batch_of(random_key: Option<Seq<char>>, data: Seq<JsonModel>) -> Result<
    BatchModel,
    LoadError,
> {
    if data.len() == 0 {
        Err(LoadError::NoRecords)
    } else {
        Ok(BatchModel { random_key, data })
    }
}

/// What loading makes of a parsed source.
pub open spec fn load_outcome(root: JsonModel) -> Result<BatchModel, LoadError> {
    match root {
        JsonModel::Array(items) => batch_of(None, items),
        JsonModel::Object(members) => match member_value(members, "data"@) {
            Some(JsonModel::Array(items)) => batch_of(named_random_key(members), items),
            _ => Err(LoadError::MissingData),
        },
        _ => Err(LoadError::UnsupportedRoot),
    }
}

/// Every record of the batch is well formed.
pub open spec fn records_well_formed(data: Seq<JsonModel>) -> bool {
    forall|i: int| 0 <= i < data.len() ==> (#[trigger] data[i]).well_formed()
}

/// Reads the randomization key off the members of an object-shaped source.
pub fn read_random_key(members: &Vec<(String, Json)>) -> (r: Option<String>)
    ensures
        match r {
            Some(key) => named_random_key(members_model(members@)) == Some(key@),
            None => named_random_key(members_model(members@)) is None,
        },
{
    let name = String::from_str("random_key");
    match find_member(members, &name) {
        Some(i) => match &members[i].1 {
            Json::String(text) => {
                if text.as_str().is_empty() {
                    None
                } else {
                    Some(text.clone())
                }
            },
            _ => None,
        },
        None => None,
    }
}

/// Turns a parsed source into a batch. A bare array is the record list
/// itself; an object gives its `data` array and its `random_key`.
pub fn load_data_value(root: &Json) -> (r: Result<DataFileResult, LoadError>)
    ensures
        match r {
            Ok(batch) => load_outcome(root@) == Ok::<BatchModel, LoadError>(batch@) && (
            root@.well_formed() ==> records_well_formed(batch@.data)),
            Err(e) => load_outcome(root@) == Err::<BatchModel, LoadError>(e),
        },
{
    proof {
        if root@.well_formed() {
            lemma_load_keeps_well_formed(root@);
        }
    }
    match root {
        Json::Array(items) => {
            proof {
                lemma_array_view(*items);
            }
            if items.len() == 0 {
                Err(LoadError::NoRecords)
            } else {
                Ok(DataFileResult { random_key: None, data: clone_items(items) })
            }
        },
        Json::Object(members) => {
            proof {
                lemma_object_view(*members);
            }
            let name = String::from_str("data");
            match find_member(members, &name) {
                Some(i) => match &members[i].1 {
                    Json::Array(items) => {
                        proof {
                            lemma_array_view(*items);
                        }
                        if items.len() == 0 {
                            Err(LoadError::NoRecords)
                        } else {
                            let random_key = read_random_key(members);
                            Ok(DataFileResult { random_key, data: clone_items(items) })
                        }
                    },
                    _ => Err(LoadError::MissingData),
                },
                None => Err(LoadError::MissingData),
            }
        },
        _ => Err(LoadError::UnsupportedRoot),
    }
}

/// Loads a batch from the text of a data file.
pub fn load_data_text(text: &str) -> (r: Result<DataFileResult, LoadError>)
    ensures
        match parsed_document(text@) {
            None => r matches Err(LoadError::InvalidJson(_)),
            Some(root) => match r {
                Ok(batch) => load_outcome(root) == Ok::<BatchModel, LoadError>(batch@)
                    && records_well_formed(batch@.data),
                Err(e) => load_outcome(root) == Err::<BatchModel, LoadError>(e),
            },
        },
{
    match parse_document(text) {
        Ok(root) => load_data_value(&root),
        Err(e) => Err(LoadError::InvalidJson(e.message)),
    }
}

/// Loads a batch from what reading the data file gave: its text, or the
/// reason why it could not be read.
pub fn load_data_file(content: Result<String, String>) -> (r: Result<DataFileResult, LoadError>)
    ensures
        match content {
            Err(reason) => r == Err::<DataFileResult, LoadError>(LoadError::Unreadable(reason)),
            Ok(text) => match parsed_document(text@) {
                None => r matches Err(LoadError::InvalidJson(_)),
                Some(root) => match r {
                    Ok(batch) => load_outcome(root) == Ok::<BatchModel, LoadError>(batch@)
                        && records_well_formed(batch@.data),
                    Err(e) => load_outcome(root) == Err::<BatchModel, LoadError>(e),
                },
            },
        },
{
    match content {
        Ok(text) => load_data_text(text.as_str()),
        Err(reason) => Err(LoadError::Unreadable(reason)),
    }
}

/// A non-empty bare array loads as its own elements, in file order, with no
/// randomization key.
pub proof fn lemma_bare_array_loads(items: Seq<JsonModel>)
    requires
        items.len() > 0,
    ensures
        load_outcome(JsonModel::Array(items)) == Ok::<BatchModel, LoadError>(
            BatchModel { random_key: None, data: items },
        ),
{
}

/// An object whose `data` member is a non-empty array loads as that array.
/// Without a `random_key` member there is no randomization key; a
/// `random_key` member that is a non-empty string is the key, verbatim.
pub proof fn lemma_object_source_loads(
    members: Seq<(Seq<char>, JsonModel)>,
    items: Seq<JsonModel>,
)
    requires
        member_value(members, "data"@) == Some(JsonModel::Array(items)),
        items.len() > 0,
    ensures
        member_value(members, "random_key"@) is None ==> load_outcome(JsonModel::Object(members))
            == Ok::<BatchModel, LoadError>(BatchModel { random_key: None, data: items }),
        forall|name: Seq<char>|
            member_value(members, "random_key"@) == Some(JsonModel::String(name)) && name.len() > 0
                ==> load_outcome(JsonModel::Object(members)) == Ok::<BatchModel, LoadError>(
                BatchModel { random_key: Some(name), data: items },
            ),
{
}

/// A source whose root is neither an array nor an object, or whose root is
/// an object whose `data` member is absent or not an array, does not load.
pub proof fn lemma_malformed_source_fails(root: JsonModel)
    requires
        match root {
            JsonModel::Array(_) => false,
            JsonModel::Object(members) => !(member_value(members, "data"@) matches Some(
                JsonModel::Array(_),
            )),
            _ => true,
        },
    ensures
        load_outcome(root) is Err,
        root is Object ==> load_outcome(root) == Err::<BatchModel, LoadError>(
            LoadError::MissingData,
        ),
        !(root is Object) ==> load_outcome(root) == Err::<BatchModel, LoadError>(
            LoadError::UnsupportedRoot,
        ),
{
}

/// Loading never gives an empty batch.
pub proof fn lemma_loaded_batch_not_empty(root: JsonModel)
    ensures
        load_outcome(root) matches Ok(batch) ==> batch.data.len() > 0,
{
}

/// The records of a batch loaded from a well-formed source are well formed.
pub proof fn lemma_load_keeps_well_formed(root: JsonModel)
    requires
        root.well_formed(),
    ensures
        load_outcome(root) matches Ok(batch) ==> records_well_formed(batch.data),
{
    match root {
        JsonModel::Object(members) => {
            match member_index(members, "data"@) {
                Some(i) => {
                    lemma_member_index_found(members, "data"@);
                    assert(members[i].1.well_formed());
                },
                None => {},
            }
        },
        _ => {},
    }
}

} // verus!
