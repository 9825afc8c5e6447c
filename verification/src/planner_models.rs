//! The planner models of the agent pipeline: each is derived from a model
//! that a spicepod declares, under its own name, with a response format and
//! a system prompt of its own.

use vstd::prelude::*;
use vstd::string::StringExecFns;
use crate::keyed::{entries_insert, Keyed};

verus! {

/// A model parameter's value: text, or a structured value held as JSON
/// text.
#[derive(Debug, Clone, PartialEq, Eq)]
pub enum ParamValue {
    Text(String),
    Json(String),
}

/// A model as a spicepod declares it: where it comes from, its name, and
/// its parameters.
pub struct Model {
    pub from: String,
    pub name: String,
    pub params: Keyed<ParamValue>,
}

impl Model {
    /// A model from `from` named `name`, without parameters.
    pub fn new(from: &str, name: &str) -> (res: Self)
        ensures
            res.from@ == from@,
            res.name@ == name@,
            res.params.entries@.len() == 0,
    {
        Model { from: String::from_str(from), name: String::from_str(name), params: Keyed::new() }
    }
}

/// The entries after putting each of `entries` in turn, from `acc`.
pub open spec fn inserted_all(acc: Seq<(String, ParamValue)>, entries: Seq<(String, ParamValue)>) -> Seq<
    (String, ParamValue),
>
    decreases entries.len(),
{
    if entries.len() == 0 {
        acc
    } else {
        entries_insert(inserted_all(acc, entries.drop_last()), entries.last().0, entries.last().1)
    }
}

/// The parameters of a derived model: the base model's parameters, then the
/// response format under `openai_response_format` and the system prompt (as
/// text) under `system_prompt`.
pub open spec fn derived_params(
    base: Seq<(String, ParamValue)>,
    format_key: String,
    response_format: ParamValue,
    prompt_key: String,
    system_prompt: String,
) -> Seq<(String, ParamValue)> {
    entries_insert(
        entries_insert(inserted_all(Seq::empty(), base), format_key, response_format),
        prompt_key,
        ParamValue::Text(system_prompt),
    )
}

/// What a derived model is: from where `base` comes from, named `name`,
/// with `base`'s parameters, the response format and the system prompt.
pub open spec fn derived_from(res: Model, base: Model, name: Seq<char>, response_format: ParamValue, prompt: Seq<char>) -> bool {
    &&& res.from@ == base.from@
    &&& res.name@ == name
    &&& exists|fk: String, pk: String, sp: String|
        fk@ == "openai_response_format"@ && pk@ == "system_prompt"@ && sp@ == prompt
            && res.params.entries@ == #[trigger] derived_params(base.params.entries@, fk, response_format, pk, sp)
}

fn derived_model(base: Model, name: &str, response_format: ParamValue, system_prompt: String) -> (res: Model)
    ensures
        derived_from(res, base, name@, response_format, system_prompt@),
{
    let ghost base0 = base;
    let Model { from, name: _, params } = base;
    let mut rest = params.entries;
    let mut out: Keyed<ParamValue> = Keyed::new();
    let ghost all = rest@;
    let mut i: usize = 0;
    assert(all.len() == rest.len());
    while rest.len() > 0
        invariant
            all == base0.params.entries@,
            all.len() <= usize::MAX,
            i <= all.len(),
            rest@ == all.subrange(i as int, all.len() as int),
            out.entries@ == inserted_all(Seq::empty(), all.take(i as int)),
        decreases rest.len(),
    {
        let (k, v) = rest.remove(0);
        assert(all.take(i + 1).drop_last() =~= all.take(i as int));
        out.insert(k, v);
        i += 1;
    }
    assert(all.take(i as int) =~= all);
    let fk = String::from_str("openai_response_format");
    let pk = String::from_str("system_prompt");
    let ghost fk0 = fk;
    let ghost pk0 = pk;
    let ghost sp0 = system_prompt;
    out.insert(fk, response_format);
    out.insert(pk, ParamValue::Text(system_prompt));
    let res = Model { from, name: String::from_str(name), params: out };
    assert(res.params.entries@ == derived_params(base0.params.entries@, fk0, response_format, pk0, sp0));
    res
}

/// The system prompt of the logical planner derived from the orchestrator.
pub const ORCHESTRATOR_PLANNER_PROMPT: &'static str = "You are an agentic task planner.
        Given a description of a task, set of tasks, or a goal, you are tasked with creating a logical plan to accomplish the task.

        You have access to data sources to supplement your memory, by performing vector searches against them.
        Do not include vector searching as a step in the plan - this is a tool you can use to help you create the plan. You should vector search before creating the plan.

        You create groupings of steps to take, where at the end of each group a specific objective is completed or system state is achieved.

        # Step Types

        You can create steps of the following types:
        - change_directory: Change the current directory
        - create_directory: Create a new directory
        - read_object: Read an object or file
        - write_object: Write to an object or file
        - execute_terminal: Execute a command in the terminal. When specifying a command, ensure a valid command is specified in the step action. Do not include anything in the action parameter that is not a valid terminal command. Include any necessary arguments for the command. When executing a command that requires input, use the write_stdio action type after starting the command.
        - write_stdio: Write data to standard input/output. Use this for interactive commands that require input. The value of the action parameter should be the exact data to write. including any newlines or special characters for simulating carriage returns/pressing enter.
        - other: Any other type of action
        - response: Provide a response to the end user
        - request_for_info: Request information or data from the end user. The step will pause until a user provides the information.
        - retrieve_metadata: Retrieve metadata about a system or object, to inform a later step
        - validation: Validate the state of the system or data
        - improvement: Suggest an improvement to the system or process";

/// The system prompt of the logical planner.
pub const LOGICAL_PLANNER_PROMPT: &'static str = "# Objective

        You are an agentic task planner specializing in breaking down complex tasks into logical, executable steps.

        Before creating a plan, you search for all relevant information and use the information you collected to structure your plan.

        # Knowledge Gathering

        - Use SQL queries and data source searches before planning to gather context
        - Searching should be done as pre-planning research, not included as plan steps
        - Ensure you have searched for all relevant information before creating the plan using document similarity or vector search

        # Plan Structure

        - Organize steps into logical groups, each with a clear objective
        - Ensure steps are precise, actionable and necessary
        - Maintain sequential flow and dependencies between steps

        # Step Types

        - `change_directory`: Directory navigation
        - `create_directory`: Create directory structures
        - `read_object`: File/object content reading
        - `write_object`: File/object content writing
        - `execute_terminal`: Shell command execution (must be complete and valid)
        - `retrieve_metadata`: System/object metadata gathering
        - `validation`: State/data verification
        - `improvement`: System optimization proposals
        - `response`: User communication
        - `request_for_info`: User input requests
        - `other`: Miscellaneous actions

        # Guidelines

        - Prioritize efficiency and reliability
        - Verify prerequisites before dependent steps
        - Include error handling where appropriate
        - Provide clear success criteria for validation steps
        - Do not hallucinate or create theoretical steps, like reading files that do not exist
        - If you require more information that you could not find through available datasets, request it from the user
        - Never include steps for \"vector search\" or \"document retrieval\" in your plan. You should have already gathered all necessary information before planning.
        
        # Example plan creation
        
        ## Create a directory and write a file

        Given the task: 'Create a new directory and write a file to it', a logical plan could be created with the following steps:

        1. `create_directory`: Create a new directory named 'example_directory'
        2. `change_directory`: Navigate to the 'example_directory'
        3. `write_object`: Write the text 'Hello, World!' to a file named 'example_file.txt'

        ## Test based on documentation

        Given the task: `Test the weather API based on the documentation`, you would first perform a search for the weather API documentation.
        After gathering the necessary information, you would structure your plan.
        In this example, the documentation states that you need to send a GET request to an API endpoint with a query parameter.
        
        You would structure your plan with 2 tasks. First, validate the expected response:

        1. `execute_terminal`: Send a GET request to the API endpoint 'https://weather.example.com' with the query parameter 'city=New York'
        2. `validation`: Verify the response status code is '200' and contains the expected weather data

        Then, validate an error case where an invalid city is provided:

        1. `execute_terminal`: Send a GET request to the API endpoint 'https://weather.example.com' with the query parameter 'city=Invalid'
        2. `validation`: Verify the response status code is '402' and contains an error message

        
        ";

/// The system prompt of the physical prompt planner.
pub const PROMPT_PLANNER_PROMPT: &'static str = "
        # Objective

        You are an agentic task planner that creates effective prompts for language models. Your role is to convert logical plan steps into clear, precise prompts that will generate reliable results.

        # Guidelines

        Guidelines for prompt creation:
        - Be specific and direct in your instructions
        - Include relevant context from the plan step
        - Break down complex tasks into clear steps
        - Specify the expected output format when needed
        - Ensure prompts are focused on a single, well-defined task
        
        Always verify that:
        1. The prompt is relevant to the task at hand
        2. The selected model is appropriate for the complexity of the task
        3. The instructions are unambiguous and actionable";

/// The system prompt of the physical tool planner, up to the list of
/// available tools that ends it.
pub const TOOL_PLANNER_PROMPT_HEAD: &'static str = "
        # Objective

        You are an intelligent tool selection system designed to match tasks with appropriate tools.
        Your primary responsibility is to analyze logical plan steps and determine the most effective tool for execution.

        You should only select a tool from the list of available tools, or respond with 'unknown' if no suitable tool is found.

        # Responsibilities
        1. Validate tool availability by checking the provided tool list
        2. Generate accurate JSON input conforming to the tool's schema
        3. Select the most appropriate tool for the given task
        4. Ensure the tool selection is optimal for the task's requirements

        # Guidelines

        Guidelines for tool selection:
        - Prefer using terminal tool for shell commands execution
        - Always verify tool exists before recommending
        - Choose the most direct and efficient tool for the task
        - Ensure tool parameters match schema requirements
        
        If the logical plan step specifies an action where no sufficient tool is available, respond with the tool 'unknown'.
        Do not hallucinate about the completion of the task or tool. You are not responsible for running any tools, only planning the tools to run.
        You should only respond with the tool to execute, and the contents of the tool input.

        Remember: Accuracy in tool selection and parameter specification is critical for successful task execution.
        
        # Example plan conversion

        ## File Download
        In this example, a logical plan requesting the download of a file is converted into a shell command tool call using `curl`.

        <logical_plan>
        {
          \"description\": \"Download the parquet file from the URL\",
          \"tags\": [\"download\", \"shell\"],
          \"action\": \"read_object\",
          \"input\": \"https://example.com/file.txt\"
        }
        </logical_plan>

        <physical_plan>
        {
            \"tool\": \"<tool name to run terminal command>\",
            \"body\": \"{\\\"command\":\\\"curl -O https://example.com/file.txt\\\"}\",
            \"target_model\": \"<target model to run the tool>\"
        }
        </physical_plan>

        ## Directory Change
        In this example, a logical plan requesting a directory change is converted into a shell command tool call using `cd`.

        <logical_plan>
        {
          \"description\": \"Change to the temporary directory\",
          \"tags\": [\"filesystem\", \"shell\"],
          \"action\": \"change_directory\",
          \"input\": \"/tmp\"
        }
        </logical_plan>

        <physical_plan>
        {
            \"tool\": \"<tool name to run terminal command>\",
            \"body\": \"{\\\"command\\\":\\\"cd /tmp\\\"}\",
            \"target_model\": \"<target model to run the tool>\"
        }

        # Available Tools

        The following tools are available: ";

/// The logical planner derived from the orchestrator model: named
/// `agentic_logical_planner`.
pub fn planner_model(orchestrator: Model, response_format: ParamValue) -> (res: Model)
    ensures
        derived_from(res, orchestrator, "agentic_logical_planner"@, response_format, ORCHESTRATOR_PLANNER_PROMPT@),
{
    derived_model(orchestrator, "agentic_logical_planner", response_format, String::from_str(ORCHESTRATOR_PLANNER_PROMPT))
}

/// The logical planner derived from the logical planner model: named
/// `agentic_logical_planner`.
pub fn model(logical_planner: Model, response_format: ParamValue) -> (res: Model)
    ensures
        derived_from(res, logical_planner, "agentic_logical_planner"@, response_format, LOGICAL_PLANNER_PROMPT@),
{
    derived_model(logical_planner, "agentic_logical_planner", response_format, String::from_str(LOGICAL_PLANNER_PROMPT))
}

/// The physical prompt planner derived from the physical planner model:
/// named `agentic_physical_prompt_planner`.
pub fn prompt_planner_model(physical_planner: Model, response_format: ParamValue) -> (res: Model)
    ensures
        derived_from(res, physical_planner, "agentic_physical_prompt_planner"@, response_format, PROMPT_PLANNER_PROMPT@),
{
    derived_model(
        physical_planner,
        "agentic_physical_prompt_planner",
        response_format,
        String::from_str(PROMPT_PLANNER_PROMPT),
    )
}

/// The physical tool planner derived from the physical planner model:
/// named `agentic_physical_tool_planner`; its system prompt ends with the
/// available tools.
pub fn tool_planner_model(physical_planner: Model, response_format: ParamValue, tools: &str) -> (res: Model)
    ensures
        derived_from(res, physical_planner, "agentic_physical_tool_planner"@, response_format, TOOL_PLANNER_PROMPT_HEAD@ + tools@),
{
    let mut prompt = String::from_str(TOOL_PLANNER_PROMPT_HEAD);
    prompt.append(tools);
    derived_model(physical_planner, "agentic_physical_tool_planner", response_format, prompt)
}

} // verus!
