//! The prompt templates the agent sends to a language model.

use vstd::prelude::*;
use crate::payload::strs_view;
use crate::strutil::{spec_u64_dec, u64_to_dec};
use crate::tools::{spec_tool_display, spec_tools, tools_list, ToolData};

verus! {

/// The opening of the hypothetical-document prompt.
pub open spec fn spec_hyp_prefix() -> Seq<char> {
    "Write a code snippet that could hypothetically be returned by a code search engine as the answer to the query: "@
}

/// The instructions and worked example after the query.
pub open spec fn spec_hyp_suffix() -> Seq<char> {
    "\n\n- Write the snippets in a programming or markup language that is likely given the query\n- The snippet should be between 5 and 10 lines long\n- Surround the snippet in triple backticks\n\nFor example:\n\nWhat's the Qdrant threshold?\n\n```rust\nSearchPoints {\n    limit,\n    vector: vectors.get(idx).unwrap().clone(),\n    collection_name: COLLECTION_NAME.to_string(),\n    offset: Some(offset),\n    score_threshold: Some(0.3),\n    with_payload: Some(WithPayloadSelector {\n        selector_options: Some(with_payload_selector::SelectorOptions::Enable(true)),\n    }),\n```"@
}

/// Asks for a plausible code snippet answering `query`.
pub fn hypothetical_document_prompt(query: &str) -> (r: String)
    ensures
        r@ == spec_hyp_prefix() + query@ + spec_hyp_suffix(),
{
    let mut s: String =
        "Write a code snippet that could hypothetically be returned by a code search engine as the answer to the query: ".to_owned();
    vstd::string::StringExecFns::append(&mut s, query);
    vstd::string::StringExecFns::append(
        &mut s,
        "\n\n- Write the snippets in a programming or markup language that is likely given the query\n- The snippet should be between 5 and 10 lines long\n- Surround the snippet in triple backticks\n\nFor example:\n\nWhat's the Qdrant threshold?\n\n```rust\nSearchPoints {\n    limit,\n    vector: vectors.get(idx).unwrap().clone(),\n    collection_name: COLLECTION_NAME.to_string(),\n    offset: Some(offset),\n    score_threshold: Some(0.3),\n    with_payload: Some(WithPayloadSelector {\n        selector_options: Some(with_payload_selector::SelectorOptions::Enable(true)),\n    }),\n```",
    );
    s
}

/// The pieces of the file-explanation prompt.
pub open spec fn spec_file_expl_a() -> Seq<char> {
    "Below are some lines from the file /"@
}

pub open spec fn spec_file_expl_b() -> Seq<char> {
    ". Each line is numbered.\n\n#####\n\n"@
}

pub open spec fn spec_file_expl_c() -> Seq<char> {
    "\n\n#####\n\nYour job is to perform the following tasks:\n1. Find all the relevant line ranges of code.\n2. DO NOT cite line ranges that you are not given above\n3. You MUST answer with only line ranges. DO NOT answer the question\n\nQ: find Kafka auth keys\nA: [[12,15]]\n\nQ: find where we submit payment requests\nA: [[37,50]]\n\nQ: auth code expiration\nA: [[486,501],[520,560],[590,631]]\n\nQ: library matrix multiplication\nA: [[68,74],[82,85],[103,107],[187,193]]\n\nQ: how combine result streams\nA: []\n\nQ: "@
}

pub open spec fn spec_file_expl_d() -> Seq<char> {
    "\nA: "@
}

/// Asks for the line ranges of `code` (from `path`) relevant to `question`.
pub fn file_explanation(question: &str, path: &str, code: &str) -> (r: String)
    ensures
        r@ == spec_file_expl_a() + path@ + spec_file_expl_b() + code@ + spec_file_expl_c()
            + question@ + spec_file_expl_d(),
{
    let mut s: String = "Below are some lines from the file /".to_owned();
    vstd::string::StringExecFns::append(&mut s, path);
    vstd::string::StringExecFns::append(&mut s, ". Each line is numbered.\n\n#####\n\n");
    vstd::string::StringExecFns::append(&mut s, code);
    vstd::string::StringExecFns::append(
        &mut s,
        "\n\n#####\n\nYour job is to perform the following tasks:\n1. Find all the relevant line ranges of code.\n2. DO NOT cite line ranges that you are not given above\n3. You MUST answer with only line ranges. DO NOT answer the question\n\nQ: find Kafka auth keys\nA: [[12,15]]\n\nQ: find where we submit payment requests\nA: [[37,50]]\n\nQ: auth code expiration\nA: [[486,501],[520,560],[590,631]]\n\nQ: library matrix multiplication\nA: [[68,74],[82,85],[103,107],[187,193]]\n\nQ: how combine result streams\nA: []\n\nQ: ",
    );
    vstd::string::StringExecFns::append(&mut s, question);
    vstd::string::StringExecFns::append(&mut s, "\nA: ");
    s
}

/// The header above the tool table.
pub open spec fn spec_tool_header() -> Seq<char> {
    "Your job is to answer a question about a codebase. You should use a set of tools to gather information that will help you answer. The following tools are available:\n\n"@
}

/// The rules below the tool table.
pub open spec fn spec_tool_rules() -> Seq<char> {
    "\nFollow these rules at all times:\n\n- If the output of a tool is empty, try the same tool again with different arguments or try using a different tool\n- In most cases you'll have to use codeSearch or pathSearch before using 'none'\n- Respect action arg types, only types with brackets [] can be used as lists\n- Do not assume the structure of the codebase, or the existence of files or folders\n- Do NOT use a tool that you've used before with the same arguments\n- To perform multiple actions, perform just one, wait for the response, then perform the next\n- When you are confident that you have enough information needed to answer the query, choose 'none'\n- If you have been instructed to modify the codebase choose 'none'\n- If after making a path search the query can be answered by the existance of the paths, and there are more than 5 paths, choose 'none'\n- Only refer to path aliases that are under the PATHS heading above\n- Use the tools to find information related to the query, until all relevant information has been found.\n- If after attempting to gather information you are still unsure how to answer the query, choose 'none'\n- Always respond according to the schema of the tool that you want to use\n- Output a list of [name, *args] to use a tool. For example to use codeSearch, output: [\"code\",\"my search query\"]. To use processFiles, output: [\"proc\", \"how does X work\", [3,6]]\n- Do NOT answer the user's query directly. You MUST use one of the tools above\n\n"@
}

/// The tool blocks, each followed by a blank line.
pub open spec fn spec_tool_blocks(ts: Seq<ToolData>) -> Seq<char>
    decreases ts.len(),
{
    if ts.len() == 0 {
        Seq::empty()
    } else {
        spec_tool_blocks(ts.drop_last()) + spec_tool_display(ts.last()) + "\n"@
    }
}

/// The alias table of the given paths.
pub open spec fn spec_path_lines(paths: Seq<Seq<char>>, i: int) -> Seq<char>
    decreases paths.len() - i,
{
    if i < 0 || i >= paths.len() {
        Seq::empty()
    } else {
        spec_u64_dec(i) + ", "@ + paths[i] + "\n"@ + spec_path_lines(paths, i + 1)
    }
}

/// The paths section, present only when aliases exist.
pub open spec fn spec_paths_block(paths: Seq<Seq<char>>) -> Seq<char> {
    if paths.len() == 0 {
        Seq::empty()
    } else {
        "## PATHS ##\nalias, path\n"@ + spec_path_lines(paths, 0)
    }
}

/// The whole tool prompt.
pub open spec fn spec_tool_prompt(paths: Seq<Seq<char>>) -> Seq<char> {
    spec_tool_header() + spec_tool_blocks(spec_tools()) + spec_paths_block(paths)
        + spec_tool_rules()
}

/// The prompt asking the agent to pick a tool, with the known path aliases.
pub fn tool_prompt(paths: &Vec<String>) -> (r: String)
    requires
        paths@.len() <= u64::MAX,
    ensures
        r@ == spec_tool_prompt(strs_view(paths@)),
{
    let tools = tools_list();
    let mut s: String =
        "Your job is to answer a question about a codebase. You should use a set of tools to gather information that will help you answer. The following tools are available:\n\n".to_owned();
    let mut i: usize = 0;
    while i < tools.len()
        invariant
            tools@.len() == 4,
            forall|j: int| 0 <= j < 4 ==> (#[trigger] tools@[j])@ == spec_tools()[j],
            i <= 4,
            s@ == spec_tool_header() + spec_tool_blocks(spec_tools().take(i as int)),
        decreases tools@.len() - i,
    {
        let shown = tools[i].display();
        vstd::string::StringExecFns::append(&mut s, shown.as_str());
        vstd::string::StringExecFns::append(&mut s, "\n");
        proof {
            let t1 = spec_tools().take(i + 1);
            assert(t1.drop_last() =~= spec_tools().take(i as int));
            assert(t1.last() == spec_tools()[i as int]);
            assert(s@ =~= spec_tool_header() + spec_tool_blocks(spec_tools().take(i + 1)));
        }
        i = i + 1;
    }
    proof {
        assert(spec_tools().take(4) =~= spec_tools());
    }
    if paths.len() > 0 {
        let ghost pv = strs_view(paths@);
        let ghost base = s@;
        vstd::string::StringExecFns::append(&mut s, "## PATHS ##\nalias, path\n");
        let mut j: usize = 0;
        proof {
            assert(spec_path_lines(pv, pv.len() as int) =~= Seq::<char>::empty());
        }
        while j < paths.len()
            invariant
                pv == strs_view(paths@),
                paths@.len() <= u64::MAX,
                j <= paths@.len(),
                base + spec_paths_block(pv) =~= s@ + spec_path_lines(pv, j as int),
                pv.len() > 0,
            decreases paths@.len() - j,
        {
            let num = u64_to_dec(j as u64);
            vstd::string::StringExecFns::append(&mut s, num.as_str());
            vstd::string::StringExecFns::append(&mut s, ", ");
            vstd::string::StringExecFns::append(&mut s, paths[j].as_str());
            vstd::string::StringExecFns::append(&mut s, "\n");
            proof {
                assert(pv[j as int] == paths@[j as int]@);
                assert(base + spec_paths_block(pv) =~= s@ + spec_path_lines(pv, j + 1));
            }
            j = j + 1;
        }
        proof {
            assert(spec_path_lines(pv, pv.len() as int) =~= Seq::<char>::empty());
            assert(s@ =~= base + spec_paths_block(pv));
        }
    } else {
        proof {
            assert(spec_paths_block(strs_view(paths@)) =~= Seq::<char>::empty());
        }
    }
    vstd::string::StringExecFns::append(
        &mut s,
        "\nFollow these rules at all times:\n\n- If the output of a tool is empty, try the same tool again with different arguments or try using a different tool\n- In most cases you'll have to use codeSearch or pathSearch before using 'none'\n- Respect action arg types, only types with brackets [] can be used as lists\n- Do not assume the structure of the codebase, or the existence of files or folders\n- Do NOT use a tool that you've used before with the same arguments\n- To perform multiple actions, perform just one, wait for the response, then perform the next\n- When you are confident that you have enough information needed to answer the query, choose 'none'\n- If you have been instructed to modify the codebase choose 'none'\n- If after making a path search the query can be answered by the existance of the paths, and there are more than 5 paths, choose 'none'\n- Only refer to path aliases that are under the PATHS heading above\n- Use the tools to find information related to the query, until all relevant information has been found.\n- If after attempting to gather information you are still unsure how to answer the query, choose 'none'\n- Always respond according to the schema of the tool that you want to use\n- Output a list of [name, *args] to use a tool. For example to use codeSearch, output: [\"code\",\"my search query\"]. To use processFiles, output: [\"proc\", \"how does X work\", [3,6]]\n- Do NOT answer the user's query directly. You MUST use one of the tools above\n\n",
    );
    proof {
        assert(s@ =~= spec_tool_prompt(strs_view(paths@)));
    }
    s
}

/// The numbered output rules of the final answer, formatted.
pub open spec fn spec_final_rules() -> Seq<char> {
    "1. Cite a line range from a file\nCOMMENT should refer to the code in in the START LINE and END LINE range. The COMMENT should answer the query with respect to the given line range. It should NOT include information that is not in the code. If the code does not help answer the query, then do not include it in a citation.\n[\"cite\",PATH ALIAS:INT,COMMENT:STRING,START LINE:INT,END LINE:INT]\nThis object can occur multiple times\n\n2. Cite a single directory from the codebase\nWhen you wish to cite every file in a directory, use this to directly cite the directory instead. The COMMENT should answer the query with respect to the given directory.\n[\"dir\",PATH:STRING,COMMENT:STRING]\nThis object can occur multiple times\nThe path is a relative path, with no leading slash. You must generate a trailing slash, for example: server/bleep/src/webserver/. On Windows, generate backslash separated components, for example: server\\bleep\\src\\webserver\\\n3. Write a new code file\nWrite a new code file that satisfies the query. Do not use this to demonstrate updating an existing file.\n[\"new\",LANGUAGE:STRING,CODE:STRING]\nThis object can occur multiple times\n\n4. Update the code in an existing file\nEdit an existing code file by generating the diff between old and new versions. Changes should be as small as possible.\n[\"mod\",PATH ALIAS:INT,LANGUAGE:STRING,GIT DIFF:STRING]\nThis object can occur multiple times\nWhere GIT DIFF describes the diff chunks for the file, including the git diff header.\nFor example:\n@@ -1 +1 @@\n-this is a git diff test example\n+this is a diff example\n5. Cite line ranges from the file\nSTART LINE and END LINE should focus on the code mentioned in the COMMENT. COMMENT should be a detailed explanation.\n[\"cite\",PATH ALIAS:INT,COMMENT:STRING,START LINE:INT,END LINE:INT]\nThis object can occur multiple times\n\n6. Conclusion\nSummarise your previous steps. Provide as much information as is necessary to answer the query. If you do not have enough information needed to answer the query, do not make up an answer.\n[\"con\",SUMMARY:STRING]\nThis is mandatory and must appear once at the end\n\n"@
}

/// The pieces of the final-explanation prompt around its three inputs.
pub open spec fn spec_final_a() -> Seq<char> {
    "Your job is to answer a query about a codebase using the information above. \nYour answer should be an array of arrays, where each element in the array is an instance of one of the following objects:\n\n"@
}

pub open spec fn spec_final_b() -> Seq<char> {
    "\nRespect these rules at all times:\n- Refer to directories by their full paths, surrounded by single backticks\n- Your answer should always be an array of arrays, even when you only generate a conclusion\n\n#####\n\nExamples:\n\nShow all the analytics events\n\n[\n  [\"cite\", 27, \"Track 'Search' event in useAnalytics.ts\", 7, 12],\n  [\"con\", \"I've found three analytics events\"]\n]\n\nWhere is the webserver code located\n\n[\n  [\"dir\",\"server/bleep/src/webserver/\",\"This directory contains the webserver module\"],\n  [\"con\",\"The webserver code is located under the server directory\"]\n]\n\nWhat's the value of MAX_FILE_LEN?\n\n[\n  [\"con\": \"None of files in the context contain the value of MAX_FILE_LEN\"]\n]\n\n#####\n\n"@
}

pub open spec fn spec_final_c() -> Seq<char> {
    "\n\nAbove is the query and answer history. The user can see the previous queries and answers on their screen, but not anything else.\nBased on this history, answer the question: "@
}

pub open spec fn spec_final_d() -> Seq<char> {
    "\n\n#####\n\nOutput only JSON."@
}

/// The prompt that asks for the final answer: the gathered context, the
/// output rules, the query history and the question.
pub fn final_explanation_prompt(context: &str, query: &str, query_history: &str) -> (r: String)
    ensures
        r@ == context@ + spec_final_a() + spec_final_rules() + spec_final_b() + query_history@
            + spec_final_c() + query@ + spec_final_d(),
{
    let mut s: String = context.to_owned();
    vstd::string::StringExecFns::append(
        &mut s,
        "Your job is to answer a query about a codebase using the information above. \nYour answer should be an array of arrays, where each element in the array is an instance of one of the following objects:\n\n",
    );
    vstd::string::StringExecFns::append(
        &mut s,
        "1. Cite a line range from a file\nCOMMENT should refer to the code in in the START LINE and END LINE range. The COMMENT should answer the query with respect to the given line range. It should NOT include information that is not in the code. If the code does not help answer the query, then do not include it in a citation.\n[\"cite\",PATH ALIAS:INT,COMMENT:STRING,START LINE:INT,END LINE:INT]\nThis object can occur multiple times\n\n2. Cite a single directory from the codebase\nWhen you wish to cite every file in a directory, use this to directly cite the directory instead. The COMMENT should answer the query with respect to the given directory.\n[\"dir\",PATH:STRING,COMMENT:STRING]\nThis object can occur multiple times\nThe path is a relative path, with no leading slash. You must generate a trailing slash, for example: server/bleep/src/webserver/. On Windows, generate backslash separated components, for example: server\\bleep\\src\\webserver\\\n3. Write a new code file\nWrite a new code file that satisfies the query. Do not use this to demonstrate updating an existing file.\n[\"new\",LANGUAGE:STRING,CODE:STRING]\nThis object can occur multiple times\n\n4. Update the code in an existing file\nEdit an existing code file by generating the diff between old and new versions. Changes should be as small as possible.\n[\"mod\",PATH ALIAS:INT,LANGUAGE:STRING,GIT DIFF:STRING]\nThis object can occur multiple times\nWhere GIT DIFF describes the diff chunks for the file, including the git diff header.\nFor example:\n@@ -1 +1 @@\n-this is a git diff test example\n+this is a diff example\n5. Cite line ranges from the file\nSTART LINE and END LINE should focus on the code mentioned in the COMMENT. COMMENT should be a detailed explanation.\n[\"cite\",PATH ALIAS:INT,COMMENT:STRING,START LINE:INT,END LINE:INT]\nThis object can occur multiple times\n\n6. Conclusion\nSummarise your previous steps. Provide as much information as is necessary to answer the query. If you do not have enough information needed to answer the query, do not make up an answer.\n[\"con\",SUMMARY:STRING]\nThis is mandatory and must appear once at the end\n\n",
    );
    vstd::string::StringExecFns::append(
        &mut s,
        "\nRespect these rules at all times:\n- Refer to directories by their full paths, surrounded by single backticks\n- Your answer should always be an array of arrays, even when you only generate a conclusion\n\n#####\n\nExamples:\n\nShow all the analytics events\n\n[\n  [\"cite\", 27, \"Track 'Search' event in useAnalytics.ts\", 7, 12],\n  [\"con\", \"I've found three analytics events\"]\n]\n\nWhere is the webserver code located\n\n[\n  [\"dir\",\"server/bleep/src/webserver/\",\"This directory contains the webserver module\"],\n  [\"con\",\"The webserver code is located under the server directory\"]\n]\n\nWhat's the value of MAX_FILE_LEN?\n\n[\n  [\"con\": \"None of files in the context contain the value of MAX_FILE_LEN\"]\n]\n\n#####\n\n",
    );
    vstd::string::StringExecFns::append(&mut s, query_history);
    vstd::string::StringExecFns::append(
        &mut s,
        "\n\nAbove is the query and answer history. The user can see the previous queries and answers on their screen, but not anything else.\nBased on this history, answer the question: ",
    );
    vstd::string::StringExecFns::append(&mut s, query);
    vstd::string::StringExecFns::append(&mut s, "\n\n#####\n\nOutput only JSON.");
    s
}

} // verus!
