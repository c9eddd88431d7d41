//! Writes the prompt that FunctionGemma is given.

use vstd::prelude::*;
use vstd::string::*;

use crate::gemma_text::{serialize_functiongemma_value, serialized, serialized_fields, wrapped};
use crate::json::{
    field, fields_view, find_field, items_view, json_parsed, lemma_json_view, parse_json, says,
    Fields, JsonTree, JsonValue,
};
use crate::text::{
    ascii_upper_text, begins_with, ends_with, lemma_ends_with, same_text, to_chars,
    trim, trim_text,
};

verus! {

pub const START_FUNCTION_DECLARATION_TOKEN: &'static str = "<start_function_declaration>";

pub const END_FUNCTION_DECLARATION_TOKEN: &'static str = "<end_function_declaration>";

/// What a prompt is made of.
#[derive(Clone, Debug)]
pub struct FunctionGemmaPromptPayload {
    pub developer_prompt: String,
    pub tool_schema_json: String,
    pub user_query: String,
}

/// The description of a function that has none.
pub open spec fn no_description() -> JsonTree {
    JsonTree::Text(Seq::empty())
}

/// The parameters of a function that names none.
pub open spec fn no_parameters() -> JsonTree {
    JsonTree::Object(
        seq![
            ("properties"@, JsonTree::Object(Seq::empty())),
            ("type"@, JsonTree::Text("object"@)),
        ],
    )
}

/// `value`, or `default` if there is none.
pub open spec fn or_default(value: Option<JsonTree>, default: JsonTree) -> JsonTree {
    match value {
        Some(value) => value,
        None => default,
    }
}

/// The declaration of the function that `fields` describe.
pub open spec fn function_declaration(fields: Fields) -> Result<Seq<char>, Seq<char>> {
    match field(fields, "name"@) {
        Some(JsonTree::Text(name)) if trim(name).len() > 0 => Ok(
            START_FUNCTION_DECLARATION_TOKEN@ + "declaration:"@ + trim(name) + "{description:"@
                + serialized(
                Some("description"@),
                or_default(field(fields, "description"@), no_description()),
            ) + ",parameters:"@ + serialized(
                Some("parameters"@),
                or_default(field(fields, "parameters"@), no_parameters()),
            ) + "}"@ + END_FUNCTION_DECLARATION_TOKEN@,
        ),
        _ => Err("FunctionGemma tool schema function.name is required"@),
    }
}

/// The declaration of a tool: that of its function, where the tool says that it
/// is one, else that of the tool itself.
pub open spec fn tool_declaration(tool: JsonTree) -> Result<Seq<char>, Seq<char>> {
    match tool {
        JsonTree::Object(fields) => if field(fields, "type"@) == Some(
            JsonTree::Text("function"@),
        ) {
            match field(fields, "function"@) {
                None => Err("FunctionGemma tool schema is missing 'function'"@),
                Some(JsonTree::Object(function)) => function_declaration(function),
                Some(_) => Err("FunctionGemma 'function' entry must be a JSON object"@),
            }
        } else {
            function_declaration(fields)
        },
        _ => Err("FunctionGemma tool schema item must be a JSON object"@),
    }
}

/// The declarations of the first `n` tools, one on each line.
pub open spec fn declarations(tools: Seq<JsonTree>, n: nat) -> Result<Seq<char>, Seq<char>>
    decreases n,
{
    if n == 0 || n > tools.len() {
        Ok(Seq::empty())
    } else {
        match declarations(tools, (n - 1) as nat) {
            Err(text) => Err(text),
            Ok(before) => match tool_declaration(tools[n - 1]) {
                Err(text) => Err(text),
                Ok(last) => Ok(
                    if n == 1 {
                        last
                    } else {
                        before + "\n"@ + last
                    },
                ),
            },
        }
    }
}

/// The declarations of all tools of a schema: a list of tools, or one tool.
pub open spec fn schema_declarations(schema: JsonTree) -> Result<Seq<char>, Seq<char>> {
    match schema {
        JsonTree::Array(tools) => if tools.len() == 0 {
            Err("FunctionGemma tool schema must contain at least one tool"@)
        } else {
            declarations(tools, tools.len())
        },
        _ => tool_declaration(schema),
    }
}

/// The prompt for a payload.
pub open spec fn prompt_for(
    developer_prompt: Seq<char>,
    tool_schema_json: Seq<char>,
    user_query: Seq<char>,
) -> Result<Seq<char>, Seq<char>> {
    if trim(developer_prompt).len() == 0 {
        Err("FunctionGemma payload developer_prompt is empty"@)
    } else if trim(user_query).len() == 0 {
        Err("FunctionGemma payload user_query is empty"@)
    } else {
        match json_parsed(tool_schema_json) {
            Err(text) => Err("Invalid tool_schema_json: "@ + text),
            Ok(schema) => match schema_declarations(schema) {
                Err(text) => Err(text),
                Ok(tools) => Ok(
                    "<bos><start_of_turn>developer\n"@ + trim(developer_prompt) + "\n\n"@ + tools
                        + "<end_of_turn>\n<start_of_turn>user\n"@ + trim(user_query)
                        + "<end_of_turn>\n<start_of_turn>model\n"@,
                ),
            },
        }
    }
}

fn default_description() -> (value: JsonValue)
    ensures
        value@ == no_description(),
{
    let text = String::new();
    assert(text@ =~= Seq::<char>::empty());
    JsonValue::Text(text)
}

fn default_parameters() -> (value: JsonValue)
    ensures
        value@ == no_parameters(),
{
    let properties = JsonValue::Object(Vec::new());
    proof {
        lemma_json_view(properties);
        assert(properties@->Object_0 =~= Seq::empty());
    }
    let mut fields: Vec<(String, JsonValue)> = Vec::new();
    fields.push(("properties".to_owned(), properties));
    fields.push(("type".to_owned(), JsonValue::Text("object".to_owned())));
    let value = JsonValue::Object(fields);
    proof {
        lemma_json_view(value);
        assert(fields_view(fields@) =~= no_parameters()->Object_0);
    }
    value
}

fn serialize_or_default(
    key: &str,
    fields: &Vec<(String, JsonValue)>,
    default: &JsonValue,
) -> (text: String)
    ensures
        text@ == serialized(Some(key@), or_default(field(fields_view(fields@), key@), default@)),
{
    match find_field(fields, key) {
        Some(value) => serialize_functiongemma_value(Some(key), value),
        None => serialize_functiongemma_value(Some(key), default),
    }
}

fn declare_function(fields: &Vec<(String, JsonValue)>) -> (r: Result<String, String>)
    ensures
        says(r, function_declaration(fields_view(fields@))),
{
    let name = match find_field(fields, "name") {
        Some(JsonValue::Text(name)) => trim_text(name.as_str()),
        _ => {
            return Err("FunctionGemma tool schema function.name is required".to_owned());
        },
    };
    if to_chars(name.as_str()).len() == 0 {
        return Err("FunctionGemma tool schema function.name is required".to_owned());
    }
    let description = serialize_or_default("description", fields, &default_description());
    let parameters = serialize_or_default("parameters", fields, &default_parameters());
    let mut text = START_FUNCTION_DECLARATION_TOKEN.to_owned();
    text.append("declaration:");
    text.append(name.as_str());
    text.append("{description:");
    text.append(description.as_str());
    text.append(",parameters:");
    text.append(parameters.as_str());
    text.append("}");
    text.append(END_FUNCTION_DECLARATION_TOKEN);
    Ok(text)
}

/// Tells whether the value of a key is a given text.
fn field_is_text(fields: &Vec<(String, JsonValue)>, key: &str, text: &str) -> (b: bool)
    ensures
        b == (field(fields_view(fields@), key@) == Some(JsonTree::Text(text@))),
{
    match find_field(fields, key) {
        Some(JsonValue::Text(value)) => same_text(value.as_str(), text),
        Some(value) => {
            proof {
                lemma_json_view(*value);
            }
            false
        },
        None => false,
    }
}

/// Writes the declaration of a tool.
pub fn build_function_declaration(tool_schema_value: &JsonValue) -> (r: Result<String, String>)
    ensures
        says(r, tool_declaration(tool_schema_value@)),
{
    proof {
        lemma_json_view(*tool_schema_value);
    }
    let tool_schema = match tool_schema_value {
        JsonValue::Object(fields) => fields,
        _ => {
            return Err("FunctionGemma tool schema item must be a JSON object".to_owned());
        },
    };
    if field_is_text(tool_schema, "type", "function") {
        match find_field(tool_schema, "function") {
            None => Err("FunctionGemma tool schema is missing 'function'".to_owned()),
            Some(function) => {
                proof {
                    lemma_json_view(*function);
                }
                match function {
                    JsonValue::Object(fields) => declare_function(fields),
                    _ => Err("FunctionGemma 'function' entry must be a JSON object".to_owned()),
                }
            },
        }
    } else {
        declare_function(tool_schema)
    }
}

/// Once a tool is refused, the tools behind it change nothing.
proof fn lemma_refused_tool_stays(tools: Seq<JsonTree>, n: nat, m: nat)
    requires
        n <= m <= tools.len(),
        declarations(tools, n) is Err,
    ensures
        declarations(tools, m) == declarations(tools, n),
    decreases m,
{
    if n < m {
        lemma_refused_tool_stays(tools, n, (m - 1) as nat);
    }
}

/// Writes the declarations of all tools of a schema.
pub fn build_function_declarations(tool_schema_value: &JsonValue) -> (r: Result<String, String>)
    ensures
        says(r, schema_declarations(tool_schema_value@)),
{
    proof {
        lemma_json_view(*tool_schema_value);
    }
    let tools = match tool_schema_value {
        JsonValue::Array(tools) => tools,
        _ => {
            return build_function_declaration(tool_schema_value);
        },
    };
    if tools.len() == 0 {
        return Err("FunctionGemma tool schema must contain at least one tool".to_owned());
    }
    let ghost trees = items_view(tools@);
    let mut text = String::new();
    let mut i: usize = 0;
    assert(text@ =~= Seq::<char>::empty());
    while i < tools.len()
        invariant
            i <= tools@.len(),
            trees == items_view(tools@),
            tool_schema_value@ == JsonTree::Array(trees),
            trees.len() > 0,
            declarations(trees, i as nat) == Ok::<Seq<char>, Seq<char>>(text@),
        decreases tools@.len() - i,
    {
        assert(trees[i as int] == tools@[i as int]@);
        match build_function_declaration(&tools[i]) {
            Err(error) => {
                proof {
                    lemma_refused_tool_stays(trees, (i + 1) as nat, trees.len());
                }
                return Err(error);
            },
            Ok(declaration) => {
                if i == 0 {
                    text = declaration;
                } else {
                    text.append("\n");
                    text.append(declaration.as_str());
                }
            },
        }
        i = i + 1;
    }
    Ok(text)
}

/// Writes the prompt for a payload.
pub fn build_function_gemma_prompt(payload: &FunctionGemmaPromptPayload) -> (r: Result<
    String,
    String,
>)
    ensures
        says(
            r,
            prompt_for(
                payload.developer_prompt@,
                payload.tool_schema_json@,
                payload.user_query@,
            ),
        ),
{
    let developer_prompt = trim_text(payload.developer_prompt.as_str());
    if to_chars(developer_prompt.as_str()).len() == 0 {
        return Err("FunctionGemma payload developer_prompt is empty".to_owned());
    }
    let user_query = trim_text(payload.user_query.as_str());
    if to_chars(user_query.as_str()).len() == 0 {
        return Err("FunctionGemma payload user_query is empty".to_owned());
    }
    let schema = match parse_json(payload.tool_schema_json.as_str()) {
        Ok(schema) => schema,
        Err(text) => {
            let mut message = "Invalid tool_schema_json: ".to_owned();
            message.append(text.as_str());
            return Err(message);
        },
    };
    let declarations = match build_function_declarations(&schema) {
        Ok(declarations) => declarations,
        Err(text) => {
            return Err(text);
        },
    };
    let mut prompt = "<bos><start_of_turn>developer\n".to_owned();
    prompt.append(developer_prompt.as_str());
    prompt.append("\n\n");
    prompt.append(declarations.as_str());
    prompt.append("<end_of_turn>\n<start_of_turn>user\n");
    prompt.append(user_query.as_str());
    prompt.append("<end_of_turn>\n<start_of_turn>model\n");
    Ok(prompt)
}

/// A schema that lists one tool is that tool.
pub proof fn law_list_of_one_tool(tool: JsonTree)
    requires
        !(tool is Array),
    ensures
        schema_declarations(JsonTree::Array(seq![tool])) == schema_declarations(tool),
{
    reveal_with_fuel(declarations, 2);
    let tools = seq![tool];
    assert(declarations(tools, 0) == Ok::<Seq<char>, Seq<char>>(Seq::empty()));
    assert(declarations(tools, 1) == tool_declaration(tool));
}

/// Space around the developer's prompt or the user's query changes nothing.
pub proof fn law_prompt_ignores_outer_space(
    developer_prompt: Seq<char>,
    tool_schema_json: Seq<char>,
    user_query: Seq<char>,
    other_developer_prompt: Seq<char>,
    other_user_query: Seq<char>,
)
    requires
        trim(developer_prompt) == trim(other_developer_prompt),
        trim(user_query) == trim(other_user_query),
    ensures
        prompt_for(developer_prompt, tool_schema_json, user_query) == prompt_for(
            other_developer_prompt,
            tool_schema_json,
            other_user_query,
        ),
{
}

/// Only the key `type` changes how a value is written.
proof fn lemma_key_is_free(key: Seq<char>, tree: JsonTree)
    requires
        key != "type"@,
    ensures
        serialized(Some(key), tree) == serialized(None, tree),
{
}

/// How the parameters of a function that names none are written.
proof fn lemma_no_parameters_text()
    ensures
        serialized(None, no_parameters())
            == "{properties:{},type:<escape>OBJECT<escape>}"@,
{
    let tree = no_parameters();
    let fields = tree->Object_0;
    let nothing = JsonTree::Object(Seq::<(Seq<char>, JsonTree)>::empty());
    reveal_strlit("properties");
    reveal_strlit("type");
    reveal_strlit("object");
    reveal_strlit("<escape>");
    reveal_strlit("{");
    reveal_strlit("}");
    reveal_strlit(":");
    reveal_strlit(",");
    reveal_strlit("{properties:{},type:<escape>OBJECT<escape>}");
    assert(serialized_fields(nothing, 0) =~= Seq::<char>::empty());
    assert(serialized(Some("properties"@), nothing) =~= seq!['{', '}']);
    assert(serialized_fields(tree, 0) =~= Seq::<char>::empty());
    assert(fields[0] == ("properties"@, nothing));
    assert(serialized_fields(tree, 1) == "properties"@ + ":"@ + serialized(
        Some("properties"@),
        nothing,
    ));
    assert(ascii_upper_text("object"@) =~= seq!['O', 'B', 'J', 'E', 'C', 'T']);
    assert(serialized(Some("type"@), JsonTree::Text("object"@)) == wrapped(
        ascii_upper_text("object"@),
    ));
    assert(fields[1] == ("type"@, JsonTree::Text("object"@)));
    assert(serialized_fields(tree, 2) == serialized_fields(tree, 1) + ","@ + ("type"@ + ":"@
        + serialized(Some("type"@), JsonTree::Text("object"@))));
    assert(serialized(None, tree) =~= "{properties:{},type:<escape>OBJECT<escape>}"@);
}

/// What a declaration says of the description of a function: what its schema
/// says, or nothing.
pub open spec fn declared_description(description: Option<JsonTree>) -> Seq<char> {
    match description {
        Some(value) => serialized(None, value),
        None => "<escape><escape>"@,
    }
}

/// What a declaration says of the parameters of a function: what its schema
/// says, or that there are none.
pub open spec fn declared_parameters(parameters: Option<JsonTree>) -> Seq<char> {
    match parameters {
        Some(value) => serialized(None, value),
        None => "{properties:{},type:<escape>OBJECT<escape>}"@,
    }
}

/// A function with a name is declared, and no other. The declaration begins with
/// the name and the description, ends with the parameters, and holds no more.
pub proof fn law_declaration_tells_of_the_function(fields: Fields)
    ensures
        function_declaration(fields) is Ok <==> (field(fields, "name"@) matches Some(
            JsonTree::Text(name),
        ) && trim(name).len() > 0),
        function_declaration(fields) matches Ok(text) ==> {
            let name = trim(field(fields, "name"@)->Some_0->Text_0);
            let head = "<start_function_declaration>declaration:"@ + name + "{description:"@
                + declared_description(field(fields, "description"@));
            let tail = ",parameters:"@ + declared_parameters(field(fields, "parameters"@))
                + "}<end_function_declaration>"@;
            &&& begins_with(text, head)
            &&& ends_with(text, tail)
            &&& text.len() == head.len() + tail.len()
        },
{
    let description = field(fields, "description"@);
    let parameters = field(fields, "parameters"@);
    let d = or_default(description, no_description());
    let p = or_default(parameters, no_parameters());
    assert("description"@ != "type"@ && "parameters"@ != "type"@) by {
        reveal_strlit("description");
        reveal_strlit("parameters");
        reveal_strlit("type");
        assert("type"@.len() == 4);
    }
    lemma_key_is_free("description"@, d);
    lemma_key_is_free("parameters"@, p);
    lemma_no_parameters_text();
    assert(serialized(None, no_description()) =~= "<escape><escape>"@) by {
        reveal_strlit("<escape>");
        reveal_strlit("<escape><escape>");
    }
    if let Some(JsonTree::Text(name)) = field(fields, "name"@) {
        let head = "<start_function_declaration>declaration:"@ + trim(name) + "{description:"@
            + declared_description(description);
        let tail = ",parameters:"@ + declared_parameters(parameters)
            + "}<end_function_declaration>"@;
        assert(START_FUNCTION_DECLARATION_TOKEN@ + "declaration:"@
            =~= "<start_function_declaration>declaration:"@) by {
            reveal_strlit("<start_function_declaration>");
            reveal_strlit("declaration:");
            reveal_strlit("<start_function_declaration>declaration:");
        }
        assert("}"@ + END_FUNCTION_DECLARATION_TOKEN@ =~= "}<end_function_declaration>"@) by {
            reveal_strlit("}");
            reveal_strlit("<end_function_declaration>");
            reveal_strlit("}<end_function_declaration>");
        }
        if trim(name).len() > 0 {
            let text = function_declaration(fields)->Ok_0;
            assert(text =~= head + tail);
            lemma_ends_with(head, tail);
        }
    }
}

/// What a schema says of the description of a function changes nothing of what
/// is declared of its parameters, and the other way round.
pub proof fn law_description_and_parameters_are_apart(fields: Fields, other: Fields)
    requires
        field(fields, "name"@) == field(other, "name"@),
    ensures
        function_declaration(fields) is Ok <==> function_declaration(other) is Ok,
        function_declaration(fields) matches Ok(text) ==> function_declaration(other) matches Ok(
            other_text,
        ) && {
            let tail = ",parameters:"@ + declared_parameters(field(other, "parameters"@))
                + "}<end_function_declaration>"@;
            field(fields, "parameters"@) == field(other, "parameters"@) ==> ends_with(text, tail)
                && ends_with(other_text, tail)
        },
{
    law_declaration_tells_of_the_function(fields);
    law_declaration_tells_of_the_function(other);
}

/// A tool that says that it is a function is declared as that function, and any
/// other tool as it stands. What is no object is refused.
pub proof fn law_tool_is_declared_as_its_function(tool: JsonTree)
    ensures
        !(tool is Object) ==> tool_declaration(tool) is Err,
        tool matches JsonTree::Object(fields) ==> {
            let is_function = field(fields, "type"@) == Some(JsonTree::Text("function"@));
            &&& !is_function ==> tool_declaration(tool) == function_declaration(fields)
            &&& is_function ==> (field(fields, "function"@) matches Some(
                JsonTree::Object(function),
            ) ==> tool_declaration(tool) == function_declaration(function))
            &&& is_function && !(field(fields, "function"@) matches Some(JsonTree::Object(_)))
                ==> tool_declaration(tool) is Err
        },
{
}

/// The tools of a list are declared one behind the other, each on a line of its
/// own, and where one of them is refused all are.
pub proof fn law_tools_are_declared_in_order(tools: Seq<JsonTree>, last: JsonTree)
    requires
        tools.len() > 0,
    ensures
        schema_declarations(JsonTree::Array(tools.push(last))) is Ok <==> schema_declarations(
            JsonTree::Array(tools),
        ) is Ok && tool_declaration(last) is Ok,
        schema_declarations(JsonTree::Array(tools.push(last))) matches Ok(text)
            ==> schema_declarations(JsonTree::Array(tools)) matches Ok(before)
            && tool_declaration(last) matches Ok(line) && text == before + seq!['\n'] + line,
        schema_declarations(JsonTree::Array(seq![last])) == tool_declaration(last),
        schema_declarations(JsonTree::Array(Seq::empty())) is Err,
{
    lemma_earlier_tools(tools, last, tools.len());
    assert("\n"@ =~= seq!['\n']) by {
        reveal_strlit("\n");
    }
    let one = seq![last];
    assert(declarations(one, 0) == Ok::<Seq<char>, Seq<char>>(Seq::empty()));
    assert(declarations(one, 1) == tool_declaration(last));
    assert(tools.push(last).len() == tools.len() + 1);
}

proof fn lemma_earlier_tools(tools: Seq<JsonTree>, last: JsonTree, n: nat)
    requires
        n <= tools.len(),
    ensures
        declarations(tools.push(last), n) == declarations(tools, n),
    decreases n,
{
    if n > 0 {
        lemma_earlier_tools(tools, last, (n - 1) as nat);
    }
}

/// A prompt is made where neither the developer's prompt nor the query is blank
/// and the tools can be declared. It begins with the developer's turn, which
/// holds the developer's prompt and the tools, goes on with the user's turn,
/// which holds the query, and ends where the model is to go on.
pub proof fn law_prompt_holds_its_turns(
    developer_prompt: Seq<char>,
    tool_schema_json: Seq<char>,
    user_query: Seq<char>,
)
    ensures
        prompt_for(developer_prompt, tool_schema_json, user_query) is Ok <==> {
            &&& trim(developer_prompt).len() > 0
            &&& trim(user_query).len() > 0
            &&& json_parsed(tool_schema_json) matches Ok(schema) && schema_declarations(
                schema,
            ) is Ok
        },
        prompt_for(developer_prompt, tool_schema_json, user_query) matches Ok(text) ==> {
            let tools = schema_declarations(json_parsed(tool_schema_json)->Ok_0)->Ok_0;
            let developer = "<bos><start_of_turn>developer\n"@ + trim(developer_prompt) + "\n\n"@
                + tools + "<end_of_turn>\n"@;
            let user = "<start_of_turn>user\n"@ + trim(user_query)
                + "<end_of_turn>\n<start_of_turn>model\n"@;
            &&& begins_with(text, developer)
            &&& ends_with(text, user)
            &&& text.len() == developer.len() + user.len()
        },
{
    if let Ok(text) = prompt_for(developer_prompt, tool_schema_json, user_query) {
        let tools = schema_declarations(json_parsed(tool_schema_json)->Ok_0)->Ok_0;
        let developer = "<bos><start_of_turn>developer\n"@ + trim(developer_prompt) + "\n\n"@
            + tools + "<end_of_turn>\n"@;
        let user = "<start_of_turn>user\n"@ + trim(user_query)
            + "<end_of_turn>\n<start_of_turn>model\n"@;
        assert("<end_of_turn>\n<start_of_turn>user\n"@ =~= "<end_of_turn>\n"@
            + "<start_of_turn>user\n"@) by {
            reveal_strlit("<end_of_turn>\n<start_of_turn>user\n");
            reveal_strlit("<end_of_turn>\n");
            reveal_strlit("<start_of_turn>user\n");
        }
        assert(text =~= developer + user);
        lemma_ends_with(developer, user);
    }
}

} // verus!
