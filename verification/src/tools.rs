//! The tool table the agent chooses from.

use vstd::prelude::*;
use crate::json::{spec_quote, quote_str};

verus! {

/// One tool the agent may call.
#[derive(Debug, Clone)]
pub struct Tool {
    pub name: String,
    pub description: String,
    pub schema: String,
    pub examples: String,
}

/// The content of a tool entry.
pub ghost struct ToolData {
    pub name: Seq<char>,
    pub description: Seq<char>,
    pub schema: Seq<char>,
    pub examples: Seq<char>,
}

impl View for Tool {
    type V = ToolData;

    open spec fn view(&self) -> ToolData {
        ToolData {
            name: self.name@,
            description: self.description@,
            schema: self.schema@,
            examples: self.examples@,
        }
    }
}

/// The block a tool prints as: its name, then description, schema and
/// quoted examples on indented lines.
pub open spec fn spec_tool_display(t: ToolData) -> Seq<char> {
    t.name + ":\n\tdescription: "@ + t.description + "\n\tschema: "@ + t.schema
        + "\n\texamples: "@ + spec_quote(t.examples) + "\n"@
}

impl Tool {
    /// The text block this tool prints as, in place of a `Display`
    /// implementation.
    pub fn display(&self) -> (r: String)
        ensures
            r@ == spec_tool_display(self@),
    {
        let mut s: String = self.name.clone();
        vstd::string::StringExecFns::append(&mut s, ":\n\tdescription: ");
        vstd::string::StringExecFns::append(&mut s, self.description.as_str());
        vstd::string::StringExecFns::append(&mut s, "\n\tschema: ");
        vstd::string::StringExecFns::append(&mut s, self.schema.as_str());
        vstd::string::StringExecFns::append(&mut s, "\n\texamples: ");
        let q = quote_str(self.examples.as_str());
        vstd::string::StringExecFns::append(&mut s, q.as_str());
        vstd::string::StringExecFns::append(&mut s, "\n");
        proof {
            assert(s@ =~= spec_tool_display(self@));
        }
        s
    }
}

/// The names of the available tools, in table order.
pub open spec fn spec_tool_names() -> Seq<Seq<char>> {
    seq!["codeSearch"@, "pathSearch"@, "processFiles"@, "none"@]
}

/// The tool table's content, in table order.
pub open spec fn spec_tools() -> Seq<ToolData> {
    seq![
        (ToolData {
            name: "codeSearch"@,
            description: "Search the contents of files in a codebase semantically. Results will not necessarily match search terms exactly, but should be related."@,
            schema: "{\"name\": \"code\", \"args\": [SEARCH_TERMS // str]}"@,
            examples: "[[\"code\", \"backend error types\"], [\"code\", \"react functional components\"]]"@,
        }),
        (ToolData {
            name: "pathSearch"@,
            description: "Search the pathnames in a codebase. Results may not be exact matches, but will be similar by some edit-distance. Use when you want to find a specific file or directory."@,
            schema: "{\"name\": \"path\", \"args\": [SEARCH_TERMS // str]}"@,
            examples: "[[\"path\", \"server/src\"], [\"path\", \".tsx\"], [\"path\", \"examples/android\"]]"@,
        }),
        (ToolData {
            name: "processFiles"@,
            description: "Read one or more files and extract the line ranges which are relevant to the search terms."@,
            schema: "{\"name\": \"proc\", \"args\": [SEARCH_TERMS // str, ARRAY_OF_PATH_ALIASES // int[]}"@,
            examples: "[[\"proc\", \"find all the functional react components\", [2,5]], [\"proc\", \"where are error types\", [0]], [\"proc\", \"gitoxide initialisation\", [2,5,8]]]"@,
        }),
        (ToolData {
            name: "none"@,
            description: "You have enough information to answer the user's query. This is the final step, and signals that you have enough information to respond to the user's query. ARRAY_OF_PATH_ALIASES contains the aliases of the paths which are particularly relevant to the query."@,
            schema: "{\"name\": \"none\", \"args\": [ARRAY_OF_PATH_ALIASES // int[]]}"@,
            examples: "[[\"none\", [1]], [\"none\", [3,5]], [\"none\", []]]"@,
        }),
    ]
}

/// The fixed tool table.
pub fn tools_list() -> (r: Vec<Tool>)
    ensures
        r@.len() == 4,
        forall|i: int| 0 <= i < 4 ==> (#[trigger] r@[i])@ == spec_tools()[i],
        forall|i: int| 0 <= i < 4 ==> (#[trigger] r@[i]).name@ == spec_tool_names()[i],
{
    let mut r: Vec<Tool> = Vec::new();
    r.push(
        Tool {
            name: "codeSearch".to_owned(),
            description:
                "Search the contents of files in a codebase semantically. Results will not necessarily match search terms exactly, but should be related.".to_owned(),
            schema: "{\"name\": \"code\", \"args\": [SEARCH_TERMS // str]}".to_owned(),
            examples:
                "[[\"code\", \"backend error types\"], [\"code\", \"react functional components\"]]".to_owned(),
        },
    );
    r.push(
        Tool {
            name: "pathSearch".to_owned(),
            description:
                "Search the pathnames in a codebase. Results may not be exact matches, but will be similar by some edit-distance. Use when you want to find a specific file or directory.".to_owned(),
            schema: "{\"name\": \"path\", \"args\": [SEARCH_TERMS // str]}".to_owned(),
            examples:
                "[[\"path\", \"server/src\"], [\"path\", \".tsx\"], [\"path\", \"examples/android\"]]".to_owned(),
        },
    );
    r.push(
        Tool {
            name: "processFiles".to_owned(),
            description:
                "Read one or more files and extract the line ranges which are relevant to the search terms.".to_owned(),
            schema:
                "{\"name\": \"proc\", \"args\": [SEARCH_TERMS // str, ARRAY_OF_PATH_ALIASES // int[]}".to_owned(),
            examples:
                "[[\"proc\", \"find all the functional react components\", [2,5]], [\"proc\", \"where are error types\", [0]], [\"proc\", \"gitoxide initialisation\", [2,5,8]]]".to_owned(),
        },
    );
    r.push(
        Tool {
            name: "none".to_owned(),
            description:
                "You have enough information to answer the user's query. This is the final step, and signals that you have enough information to respond to the user's query. ARRAY_OF_PATH_ALIASES contains the aliases of the paths which are particularly relevant to the query.".to_owned(),
            schema: "{\"name\": \"none\", \"args\": [ARRAY_OF_PATH_ALIASES // int[]]}".to_owned(),
            examples: "[[\"none\", [1]], [\"none\", [3,5]], [\"none\", []]]".to_owned(),
        },
    );
    r
}

} // verus!
