//! The fixed system prompt handed to the backend: the task statement,
//! the session rules, and the canonical protocol examples.

use vstd::prelude::*;
use vstd::string::StringExecFns;
use crate::protocol::{encode_action, spec_encode, ActionV, LLMResponse};

verus! {

pub const TASK_PREAMBLE: &'static str =
    "You are in a bash session and will interact directly with a terminal to complete the task: ";

pub const RULES_AND_FORMAT: &'static str = ".
Command limits:
You are not permitted to modify any file or folder that is not clearly necessary for completing the task.
You may use any terminal command as you see fit as long as you do not expect the command will violate user privacy.
But only use terminal programs with arguments that are noninteractive. For example, nano and sudo without -S are forbidden because they require interactive input.
Only use terminal programs that just return an output.
cd command does not work, don't use it, paths must be relative to current directory or absolute.
When the task is completed or if it cannot be completed, exit the terminal.
Format:
Each message will have a prefix, id>>, where id is the integer identifier.
The output format is json. Only one json can be outputted. Output EXACTLY the json format, nothing else. Here is an array of examples:
";

pub const EXAMPLES_EPILOGUE: &'static str = "
The format must be precisely one of these types.
Example session:
Terminal: 0>>
LLM: 1>>{\"Command\":\"echo -e '1\\\\n1\\\\n2\\\\n3\\\\n5' > fibonacci.txt\"}
Terminal: 2>>
LLM: 3>>{\"Command\":\"cat fibonacci.txt\"}
Terminal: 4>>1
1
2
3
5
\"Exit\"
The output is \"Exit\", not {\"Exit\"}, and all else is in the context.
Note due to json quirks you must use two slashes for newlines \\\\n within strings, because json parsing treats \\n as a real newline.
This is neccessary.
Everything you output must be a single line terminal command. If you need to think or just say something, use the colon command, example : \"my thoughts must be in quotes\".
Special Commands:
llmsee img_path, lets you see an image, no other command works for viewing images.
maskcontent id, masks the content with the specified id which frees space in the context window, use for content that takes up significant space (like documents/codefiles/etc) and is no longer expected to be needed.
Be especially aggressive with this for images as they take up significant context, often only a single image is needed in the entire context at a time.
usercontrol, hands control to the user, use this if you cannot do something yourself, for example don't know passcode.
agentcontrol, hands back control to you, you never call this.
Context:
Due to token output limits, sometimes a partial command is issued. In that case there will need to be multiple assistant messages in sequence to complete the entire command.
When the token context is nearly full, the terminal will give you a warning. At that point it may be wise to masking content.
Sometimes it is more appropriate to compress content than to erase it entirely. You can output summarized content, then mask the original in such cases.
Programming:
Implementations are rarely needed in the context once complete. When appropriate, mask implementations and keep what is really needed to avoid ambiguity such as types and perhaps a concise description.";

/// One example per protocol action, as shown to the model.
pub fn output_examples() -> (r: Vec<LLMResponse>)
    ensures
        r@.len() == 6,
        r@[0]@ == ActionV::Command("echo \"hello\""@),
        r@[1]@ == ActionV::LLMSee("img.png"@),
        r@[2]@ == ActionV::MaskContent(42),
        r@[3]@ == ActionV::UserControl,
        r@[4]@ == ActionV::AgentControl,
        r@[5]@ == ActionV::Exit,
{
    let mut v: Vec<LLMResponse> = Vec::new();
    v.push(LLMResponse::Command(String::from_str("echo \"hello\"")));
    v.push(LLMResponse::LLMSee(String::from_str("img.png")));
    v.push(LLMResponse::MaskContent(42));
    v.push(LLMResponse::UserControl);
    v.push(LLMResponse::AgentControl);
    v.push(LLMResponse::Exit);
    v
}

/// The canonically encoded example array, comma separated in brackets.
pub open spec fn spec_examples_json() -> Seq<char> {
    "["@ + spec_encode(ActionV::Command("echo \"hello\""@)) + ","@ + spec_encode(
        ActionV::LLMSee("img.png"@),
    ) + ","@ + spec_encode(ActionV::MaskContent(42)) + ","@ + spec_encode(ActionV::UserControl)
        + ","@ + spec_encode(ActionV::AgentControl) + ","@ + spec_encode(ActionV::Exit) + "]"@
}

/// The whole system prompt for a task.
pub open spec fn spec_system_prompt(task: Seq<char>) -> Seq<char> {
    TASK_PREAMBLE@ + task + RULES_AND_FORMAT@ + spec_examples_json() + EXAMPLES_EPILOGUE@
}

/// Build the system prompt: the preamble, the task, the session rules,
/// the encoded examples, and the epilogue.
pub fn generate_system_prompt(task: &str) -> (r: String)
    ensures
        r@ == spec_system_prompt(task@),
{
    let exs = output_examples();
    let mut ex = String::from_str("[");
    let e0 = encode_action(&exs[0]);
    ex.append(e0.as_str());
    ex.append(",");
    let e1 = encode_action(&exs[1]);
    ex.append(e1.as_str());
    ex.append(",");
    let e2 = encode_action(&exs[2]);
    ex.append(e2.as_str());
    ex.append(",");
    let e3 = encode_action(&exs[3]);
    ex.append(e3.as_str());
    ex.append(",");
    let e4 = encode_action(&exs[4]);
    ex.append(e4.as_str());
    ex.append(",");
    let e5 = encode_action(&exs[5]);
    ex.append(e5.as_str());
    ex.append("]");
    let mut s = String::from_str(TASK_PREAMBLE);
    s.append(task);
    s.append(RULES_AND_FORMAT);
    s.append(ex.as_str());
    s.append(EXAMPLES_EPILOGUE);
    proof {
        assert(ex@ =~= spec_examples_json());
        assert(s@ =~= spec_system_prompt(task@));
    }
    s
}

} // verus!
