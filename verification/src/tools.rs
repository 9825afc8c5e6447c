//! The catalog of extension tools, named in a spicepod as
//! `extensions:<tool_id>`. This build includes no extension tool, so every
//! lookup finds none.

use vstd::prelude::*;
use crate::text::{chars_of, string_of, sub_chars, find_char, find_in, str_eq};

verus! {

/// An extension tool as a spicepod declares it.
#[derive(Debug, Clone, PartialEq, Eq)]
pub struct ExtensionTool {
    pub id: String,
    pub name: String,
    pub description: Option<String>,
}

/// Why a tool could not be built from a spicepod component.
#[derive(Debug, Clone, PartialEq, Eq)]
pub enum ExtensionToolError {
    /// The `from` field is not `extensions:<tool_id>`.
    InvalidFrom { from: String },
    /// No extension tool has that identifier.
    NotFound { id: String },
}

/// The catalog of extension tools.
#[derive(Debug, Clone, Copy, PartialEq, Eq, Structural)]
pub struct ExtensionToolCatalog;

/// The tool identifier in a component's `from` field: the text after the
/// first `:`, when the text before it is `extensions`.
pub open spec fn tool_id_of(from: Seq<char>) -> Option<Seq<char>> {
    let i = find_char(from, ':');
    if i >= 0 && from.take(i) == "extensions"@ {
        Some(from.skip(i + 1))
    } else {
        None
    }
}

/// `Invalid component `from` field. Expected: `extensions:<tool_id>`. Error: <from>`
pub open spec fn invalid_from_text(from: Seq<char>) -> Seq<char> {
    "Invalid component `from` field. Expected: `extensions:<tool_id>`. Error: "@ + from
}

/// `Tool with id `<id>` not found in extensions tool catalog`
pub open spec fn not_found_text(id: Seq<char>) -> Seq<char> {
    "Tool with id `"@ + id + "` not found in extensions tool catalog"@
}

impl ExtensionToolError {
    /// The error message.
    pub fn to_string(&self) -> (res: String)
        ensures
            res@ == match self {
                ExtensionToolError::InvalidFrom { from } => invalid_from_text(from@),
                ExtensionToolError::NotFound { id } => not_found_text(id@),
            },
    {
        match self {
            ExtensionToolError::InvalidFrom { from } => {
                let mut s = String::from_str(
                    "Invalid component `from` field. Expected: `extensions:<tool_id>`. Error: ",
                );
                s.append(from.as_str());
                s
            },
            ExtensionToolError::NotFound { id } => {
                let mut s = String::from_str("Tool with id `");
                s.append(id.as_str());
                s.append("` not found in extensions tool catalog");
                s
            },
        }
    }
}

impl ExtensionToolCatalog {
    /// The catalog's name.
    pub fn name(&self) -> (res: &'static str)
        ensures
            res@ == "extensions"@,
    {
        "extensions"
    }

    /// Every tool of the catalog: none in this build.
    pub fn all(&self) -> (res: Vec<ExtensionTool>)
        ensures
            res@.len() == 0,
    {
        Vec::new()
    }

    /// The tool with identifier `id`, named `name` (or `id` when no name is
    /// given): none in this build.
    pub fn get_tool(id: &str, name: Option<&str>, description: Option<&str>) -> (res: Option<
        ExtensionTool,
    >)
        ensures
            res is None,
    {
        None
    }

    /// The tool named `name`.
    pub fn get(&self, name: &str) -> (res: Option<ExtensionTool>)
        ensures
            res is None,
    {
        Self::get_tool(name, Some(name), None)
    }

    /// The tool identifier in a component's `from` field, if it has the
    /// form `extensions:<tool_id>`.
    pub fn tool_id(from: &str) -> (res: Option<String>)
        ensures
            match tool_id_of(from@) {
                Some(id) => res matches Some(r) && r@ == id,
                None => res is None,
            },
    {
        let cs = chars_of(from);
        proof {
            crate::text::lemma_find_char(cs@, ':');
        }
        let i = match find_in(cs.as_slice(), ':') {
            Some(i) => i,
            None => return None,
        };
        let head = sub_chars(cs.as_slice(), 0, i);
        assert(head@ =~= from@.take(i as int));
        let head_text = string_of(head.as_slice());
        if !str_eq(head_text.as_str(), "extensions") {
            return None;
        }
        let rest = sub_chars(cs.as_slice(), i + 1, cs.len());
        assert(rest@ =~= from@.skip(i + 1));
        Some(string_of(rest.as_slice()))
    }

    /// Builds the tool a spicepod component declares, from its `from`
    /// field, name and description.
    pub fn construct(&self, from: &str, name: &str, description: Option<&str>) -> (res: Result<
        ExtensionTool,
        ExtensionToolError,
    >)
        ensures
            match tool_id_of(from@) {
                Some(id) => res matches Err(ExtensionToolError::NotFound { id: i }) && i@ == id,
                None => res matches Err(ExtensionToolError::InvalidFrom { from: f }) && f@ == from@,
            },
    {
        match Self::tool_id(from) {
            None => Err(ExtensionToolError::InvalidFrom { from: String::from_str(from) }),
            Some(id) => match Self::get_tool(id.as_str(), Some(name), description) {
                Some(tool) => Ok(tool),
                None => Err(ExtensionToolError::NotFound { id }),
            },
        }
    }
}

} // verus!
