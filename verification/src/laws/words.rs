//! Words of the protocols that are not the same: what one member of an object holds says
//! nothing of another one.

use vstd::prelude::*;
use vstd::string::*;

verus! {

/// The members of requests.
pub(crate) proof fn request_words()
    ensures
        "model"@ != "messages"@,
        "model"@ != "stream"@,
        "model"@ != "max_tokens"@,
        "model"@ != "temperature"@,
        "model"@ != "top_p"@,
        "model"@ != "metadata"@,
        "model"@ != "stop"@,
        "model"@ != "tools"@,
        "model"@ != "tool_choice"@,
        "model"@ != "reasoning_effort"@,
        "model"@ != "system"@,
        "model"@ != "thinking"@,
        "model"@ != "stop_sequences"@,
        "model"@ != "stream_options"@,
        "model"@ != "parallel_tool_calls"@,
        "model"@ != "user"@,
        "model"@ != "instructions"@,
        "model"@ != "input"@,
        "model"@ != "reasoning"@,
        "model"@ != "max_output_tokens"@,
        "model"@ != "store"@,
        "model"@ != "text"@,
        "model"@ != "response_format"@,
        "model"@ != "n"@,
        "model"@ != "seed"@,
        "model"@ != "max_completion_tokens"@,
        "messages"@ != "stream"@,
        "messages"@ != "max_tokens"@,
        "messages"@ != "temperature"@,
        "messages"@ != "top_p"@,
        "messages"@ != "metadata"@,
        "messages"@ != "stop"@,
        "messages"@ != "tools"@,
        "messages"@ != "tool_choice"@,
        "messages"@ != "reasoning_effort"@,
        "messages"@ != "system"@,
        "messages"@ != "thinking"@,
        "messages"@ != "stop_sequences"@,
        "messages"@ != "stream_options"@,
        "messages"@ != "parallel_tool_calls"@,
        "messages"@ != "user"@,
        "messages"@ != "instructions"@,
        "messages"@ != "input"@,
        "messages"@ != "reasoning"@,
        "messages"@ != "max_output_tokens"@,
        "messages"@ != "store"@,
        "messages"@ != "text"@,
        "messages"@ != "response_format"@,
        "messages"@ != "n"@,
        "messages"@ != "seed"@,
        "messages"@ != "max_completion_tokens"@,
        "stream"@ != "max_tokens"@,
        "stream"@ != "temperature"@,
        "stream"@ != "top_p"@,
        "stream"@ != "metadata"@,
        "stream"@ != "stop"@,
        "stream"@ != "tools"@,
        "stream"@ != "tool_choice"@,
        "stream"@ != "reasoning_effort"@,
        "stream"@ != "system"@,
        "stream"@ != "thinking"@,
        "stream"@ != "stop_sequences"@,
        "stream"@ != "stream_options"@,
        "stream"@ != "parallel_tool_calls"@,
        "stream"@ != "user"@,
        "stream"@ != "instructions"@,
        "stream"@ != "input"@,
        "stream"@ != "reasoning"@,
        "stream"@ != "max_output_tokens"@,
        "stream"@ != "store"@,
        "stream"@ != "text"@,
        "stream"@ != "response_format"@,
        "stream"@ != "n"@,
        "stream"@ != "seed"@,
        "stream"@ != "max_completion_tokens"@,
        "max_tokens"@ != "temperature"@,
        "max_tokens"@ != "top_p"@,
        "max_tokens"@ != "metadata"@,
        "max_tokens"@ != "stop"@,
        "max_tokens"@ != "tools"@,
        "max_tokens"@ != "tool_choice"@,
        "max_tokens"@ != "reasoning_effort"@,
        "max_tokens"@ != "system"@,
        "max_tokens"@ != "thinking"@,
        "max_tokens"@ != "stop_sequences"@,
        "max_tokens"@ != "stream_options"@,
        "max_tokens"@ != "parallel_tool_calls"@,
        "max_tokens"@ != "user"@,
        "max_tokens"@ != "instructions"@,
        "max_tokens"@ != "input"@,
        "max_tokens"@ != "reasoning"@,
        "max_tokens"@ != "max_output_tokens"@,
        "max_tokens"@ != "store"@,
        "max_tokens"@ != "text"@,
        "max_tokens"@ != "response_format"@,
        "max_tokens"@ != "n"@,
        "max_tokens"@ != "seed"@,
        "max_tokens"@ != "max_completion_tokens"@,
        "temperature"@ != "top_p"@,
        "temperature"@ != "metadata"@,
        "temperature"@ != "stop"@,
        "temperature"@ != "tools"@,
        "temperature"@ != "tool_choice"@,
        "temperature"@ != "reasoning_effort"@,
        "temperature"@ != "system"@,
        "temperature"@ != "thinking"@,
        "temperature"@ != "stop_sequences"@,
        "temperature"@ != "stream_options"@,
        "temperature"@ != "parallel_tool_calls"@,
        "temperature"@ != "user"@,
        "temperature"@ != "instructions"@,
        "temperature"@ != "input"@,
        "temperature"@ != "reasoning"@,
        "temperature"@ != "max_output_tokens"@,
        "temperature"@ != "store"@,
        "temperature"@ != "text"@,
        "temperature"@ != "response_format"@,
        "temperature"@ != "n"@,
        "temperature"@ != "seed"@,
        "temperature"@ != "max_completion_tokens"@,
        "top_p"@ != "metadata"@,
        "top_p"@ != "stop"@,
        "top_p"@ != "tools"@,
        "top_p"@ != "tool_choice"@,
        "top_p"@ != "reasoning_effort"@,
        "top_p"@ != "system"@,
        "top_p"@ != "thinking"@,
        "top_p"@ != "stop_sequences"@,
        "top_p"@ != "stream_options"@,
        "top_p"@ != "parallel_tool_calls"@,
        "top_p"@ != "user"@,
        "top_p"@ != "instructions"@,
        "top_p"@ != "input"@,
        "top_p"@ != "reasoning"@,
        "top_p"@ != "max_output_tokens"@,
        "top_p"@ != "store"@,
        "top_p"@ != "text"@,
        "top_p"@ != "response_format"@,
        "top_p"@ != "n"@,
        "top_p"@ != "seed"@,
        "top_p"@ != "max_completion_tokens"@,
        "metadata"@ != "stop"@,
        "metadata"@ != "tools"@,
        "metadata"@ != "tool_choice"@,
        "metadata"@ != "reasoning_effort"@,
        "metadata"@ != "system"@,
        "metadata"@ != "thinking"@,
        "metadata"@ != "stop_sequences"@,
        "metadata"@ != "stream_options"@,
        "metadata"@ != "parallel_tool_calls"@,
        "metadata"@ != "user"@,
        "metadata"@ != "instructions"@,
        "metadata"@ != "input"@,
        "metadata"@ != "reasoning"@,
        "metadata"@ != "max_output_tokens"@,
        "metadata"@ != "store"@,
        "metadata"@ != "text"@,
        "metadata"@ != "response_format"@,
        "metadata"@ != "n"@,
        "metadata"@ != "seed"@,
        "metadata"@ != "max_completion_tokens"@,
        "stop"@ != "tools"@,
        "stop"@ != "tool_choice"@,
        "stop"@ != "reasoning_effort"@,
        "stop"@ != "system"@,
        "stop"@ != "thinking"@,
        "stop"@ != "stop_sequences"@,
        "stop"@ != "stream_options"@,
        "stop"@ != "parallel_tool_calls"@,
        "stop"@ != "user"@,
        "stop"@ != "instructions"@,
        "stop"@ != "input"@,
        "stop"@ != "reasoning"@,
        "stop"@ != "max_output_tokens"@,
        "stop"@ != "store"@,
        "stop"@ != "text"@,
        "stop"@ != "response_format"@,
        "stop"@ != "n"@,
        "stop"@ != "seed"@,
        "stop"@ != "max_completion_tokens"@,
        "tools"@ != "tool_choice"@,
        "tools"@ != "reasoning_effort"@,
        "tools"@ != "system"@,
        "tools"@ != "thinking"@,
        "tools"@ != "stop_sequences"@,
        "tools"@ != "stream_options"@,
        "tools"@ != "parallel_tool_calls"@,
        "tools"@ != "user"@,
        "tools"@ != "instructions"@,
        "tools"@ != "input"@,
        "tools"@ != "reasoning"@,
        "tools"@ != "max_output_tokens"@,
        "tools"@ != "store"@,
        "tools"@ != "text"@,
        "tools"@ != "response_format"@,
        "tools"@ != "n"@,
        "tools"@ != "seed"@,
        "tools"@ != "max_completion_tokens"@,
        "tool_choice"@ != "reasoning_effort"@,
        "tool_choice"@ != "system"@,
        "tool_choice"@ != "thinking"@,
        "tool_choice"@ != "stop_sequences"@,
        "tool_choice"@ != "stream_options"@,
        "tool_choice"@ != "parallel_tool_calls"@,
        "tool_choice"@ != "user"@,
        "tool_choice"@ != "instructions"@,
        "tool_choice"@ != "input"@,
        "tool_choice"@ != "reasoning"@,
        "tool_choice"@ != "max_output_tokens"@,
        "tool_choice"@ != "store"@,
        "tool_choice"@ != "text"@,
        "tool_choice"@ != "response_format"@,
        "tool_choice"@ != "n"@,
        "tool_choice"@ != "seed"@,
        "tool_choice"@ != "max_completion_tokens"@,
        "reasoning_effort"@ != "system"@,
        "reasoning_effort"@ != "thinking"@,
        "reasoning_effort"@ != "stop_sequences"@,
        "reasoning_effort"@ != "stream_options"@,
        "reasoning_effort"@ != "parallel_tool_calls"@,
        "reasoning_effort"@ != "user"@,
        "reasoning_effort"@ != "instructions"@,
        "reasoning_effort"@ != "input"@,
        "reasoning_effort"@ != "reasoning"@,
        "reasoning_effort"@ != "max_output_tokens"@,
        "reasoning_effort"@ != "store"@,
        "reasoning_effort"@ != "text"@,
        "reasoning_effort"@ != "response_format"@,
        "reasoning_effort"@ != "n"@,
        "reasoning_effort"@ != "seed"@,
        "reasoning_effort"@ != "max_completion_tokens"@,
        "system"@ != "thinking"@,
        "system"@ != "stop_sequences"@,
        "system"@ != "stream_options"@,
        "system"@ != "parallel_tool_calls"@,
        "system"@ != "user"@,
        "system"@ != "instructions"@,
        "system"@ != "input"@,
        "system"@ != "reasoning"@,
        "system"@ != "max_output_tokens"@,
        "system"@ != "store"@,
        "system"@ != "text"@,
        "system"@ != "response_format"@,
        "system"@ != "n"@,
        "system"@ != "seed"@,
        "system"@ != "max_completion_tokens"@,
        "thinking"@ != "stop_sequences"@,
        "thinking"@ != "stream_options"@,
        "thinking"@ != "parallel_tool_calls"@,
        "thinking"@ != "user"@,
        "thinking"@ != "instructions"@,
        "thinking"@ != "input"@,
        "thinking"@ != "reasoning"@,
        "thinking"@ != "max_output_tokens"@,
        "thinking"@ != "store"@,
        "thinking"@ != "text"@,
        "thinking"@ != "response_format"@,
        "thinking"@ != "n"@,
        "thinking"@ != "seed"@,
        "thinking"@ != "max_completion_tokens"@,
        "stop_sequences"@ != "stream_options"@,
        "stop_sequences"@ != "parallel_tool_calls"@,
        "stop_sequences"@ != "user"@,
        "stop_sequences"@ != "instructions"@,
        "stop_sequences"@ != "input"@,
        "stop_sequences"@ != "reasoning"@,
        "stop_sequences"@ != "max_output_tokens"@,
        "stop_sequences"@ != "store"@,
        "stop_sequences"@ != "text"@,
        "stop_sequences"@ != "response_format"@,
        "stop_sequences"@ != "n"@,
        "stop_sequences"@ != "seed"@,
        "stop_sequences"@ != "max_completion_tokens"@,
        "stream_options"@ != "parallel_tool_calls"@,
        "stream_options"@ != "user"@,
        "stream_options"@ != "instructions"@,
        "stream_options"@ != "input"@,
        "stream_options"@ != "reasoning"@,
        "stream_options"@ != "max_output_tokens"@,
        "stream_options"@ != "store"@,
        "stream_options"@ != "text"@,
        "stream_options"@ != "response_format"@,
        "stream_options"@ != "n"@,
        "stream_options"@ != "seed"@,
        "stream_options"@ != "max_completion_tokens"@,
        "parallel_tool_calls"@ != "user"@,
        "parallel_tool_calls"@ != "instructions"@,
        "parallel_tool_calls"@ != "input"@,
        "parallel_tool_calls"@ != "reasoning"@,
        "parallel_tool_calls"@ != "max_output_tokens"@,
        "parallel_tool_calls"@ != "store"@,
        "parallel_tool_calls"@ != "text"@,
        "parallel_tool_calls"@ != "response_format"@,
        "parallel_tool_calls"@ != "n"@,
        "parallel_tool_calls"@ != "seed"@,
        "parallel_tool_calls"@ != "max_completion_tokens"@,
        "user"@ != "instructions"@,
        "user"@ != "input"@,
        "user"@ != "reasoning"@,
        "user"@ != "max_output_tokens"@,
        "user"@ != "store"@,
        "user"@ != "text"@,
        "user"@ != "response_format"@,
        "user"@ != "n"@,
        "user"@ != "seed"@,
        "user"@ != "max_completion_tokens"@,
        "instructions"@ != "input"@,
        "instructions"@ != "reasoning"@,
        "instructions"@ != "max_output_tokens"@,
        "instructions"@ != "store"@,
        "instructions"@ != "text"@,
        "instructions"@ != "response_format"@,
        "instructions"@ != "n"@,
        "instructions"@ != "seed"@,
        "instructions"@ != "max_completion_tokens"@,
        "input"@ != "reasoning"@,
        "input"@ != "max_output_tokens"@,
        "input"@ != "store"@,
        "input"@ != "text"@,
        "input"@ != "response_format"@,
        "input"@ != "n"@,
        "input"@ != "seed"@,
        "input"@ != "max_completion_tokens"@,
        "reasoning"@ != "max_output_tokens"@,
        "reasoning"@ != "store"@,
        "reasoning"@ != "text"@,
        "reasoning"@ != "response_format"@,
        "reasoning"@ != "n"@,
        "reasoning"@ != "seed"@,
        "reasoning"@ != "max_completion_tokens"@,
        "max_output_tokens"@ != "store"@,
        "max_output_tokens"@ != "text"@,
        "max_output_tokens"@ != "response_format"@,
        "max_output_tokens"@ != "n"@,
        "max_output_tokens"@ != "seed"@,
        "max_output_tokens"@ != "max_completion_tokens"@,
        "store"@ != "text"@,
        "store"@ != "response_format"@,
        "store"@ != "n"@,
        "store"@ != "seed"@,
        "store"@ != "max_completion_tokens"@,
        "text"@ != "response_format"@,
        "text"@ != "n"@,
        "text"@ != "seed"@,
        "text"@ != "max_completion_tokens"@,
        "response_format"@ != "n"@,
        "response_format"@ != "seed"@,
        "response_format"@ != "max_completion_tokens"@,
        "n"@ != "seed"@,
        "n"@ != "max_completion_tokens"@,
        "seed"@ != "max_completion_tokens"@,
{
    reveal_strlit("model");
    reveal_strlit("messages");
    reveal_strlit("stream");
    reveal_strlit("max_tokens");
    reveal_strlit("temperature");
    reveal_strlit("top_p");
    reveal_strlit("metadata");
    reveal_strlit("stop");
    reveal_strlit("tools");
    reveal_strlit("tool_choice");
    reveal_strlit("reasoning_effort");
    reveal_strlit("system");
    reveal_strlit("thinking");
    reveal_strlit("stop_sequences");
    reveal_strlit("stream_options");
    reveal_strlit("parallel_tool_calls");
    reveal_strlit("user");
    reveal_strlit("instructions");
    reveal_strlit("input");
    reveal_strlit("reasoning");
    reveal_strlit("max_output_tokens");
    reveal_strlit("store");
    reveal_strlit("text");
    reveal_strlit("response_format");
    reveal_strlit("n");
    reveal_strlit("seed");
    reveal_strlit("max_completion_tokens");
    assert("model"@.len() == 5);
    assert("messages"@.len() == 8);
    assert("stream"@.len() == 6);
    assert("max_tokens"@.len() == 10);
    assert("temperature"@.len() == 11);
    assert("top_p"@.len() == 5);
    assert("metadata"@.len() == 8);
    assert("stop"@.len() == 4);
    assert("tools"@.len() == 5);
    assert("tool_choice"@.len() == 11);
    assert("reasoning_effort"@.len() == 16);
    assert("system"@.len() == 6);
    assert("thinking"@.len() == 8);
    assert("stop_sequences"@.len() == 14);
    assert("stream_options"@.len() == 14);
    assert("parallel_tool_calls"@.len() == 19);
    assert("user"@.len() == 4);
    assert("instructions"@.len() == 12);
    assert("input"@.len() == 5);
    assert("reasoning"@.len() == 9);
    assert("max_output_tokens"@.len() == 17);
    assert("store"@.len() == 5);
    assert("text"@.len() == 4);
    assert("response_format"@.len() == 15);
    assert("n"@.len() == 1);
    assert("seed"@.len() == 4);
    assert("max_completion_tokens"@.len() == 21);
    assert("model"@[0] == 'm');
    assert("messages"@[0] == 'm');
    assert("messages"@[2] == 's');
    assert("stream"@[1] == 't');
    assert("temperature"@[1] == 'e');
    assert("top_p"@[0] == 't');
    assert("top_p"@[2] == 'p');
    assert("metadata"@[0] == 'm');
    assert("metadata"@[2] == 't');
    assert("stop"@[0] == 's');
    assert("stop"@[1] == 't');
    assert("tools"@[0] == 't');
    assert("tools"@[2] == 'o');
    assert("tool_choice"@[1] == 'o');
    assert("system"@[1] == 'y');
    assert("thinking"@[0] == 't');
    assert("stop_sequences"@[2] == 'o');
    assert("stream_options"@[2] == 'r');
    assert("user"@[0] == 'u');
    assert("input"@[0] == 'i');
    assert("store"@[0] == 's');
    assert("text"@[0] == 't');
    assert("seed"@[0] == 's');
    assert("seed"@[1] == 'e');
}

/// The members of messages, calls and blocks.
pub(crate) proof fn message_words()
    ensures
        "role"@ != "content"@,
        "role"@ != "reasoning_content"@,
        "role"@ != "tool_calls"@,
        "role"@ != "tool_call_id"@,
        "role"@ != "id"@,
        "role"@ != "type"@,
        "role"@ != "function"@,
        "role"@ != "name"@,
        "role"@ != "arguments"@,
        "role"@ != "description"@,
        "role"@ != "parameters"@,
        "role"@ != "text"@,
        "role"@ != "image_url"@,
        "role"@ != "url"@,
        "role"@ != "thinking"@,
        "role"@ != "input"@,
        "role"@ != "tool_use_id"@,
        "role"@ != "source"@,
        "role"@ != "media_type"@,
        "role"@ != "data"@,
        "role"@ != "input_schema"@,
        "role"@ != "index"@,
        "role"@ != "signature"@,
        "content"@ != "reasoning_content"@,
        "content"@ != "tool_calls"@,
        "content"@ != "tool_call_id"@,
        "content"@ != "id"@,
        "content"@ != "type"@,
        "content"@ != "function"@,
        "content"@ != "name"@,
        "content"@ != "arguments"@,
        "content"@ != "description"@,
        "content"@ != "parameters"@,
        "content"@ != "text"@,
        "content"@ != "image_url"@,
        "content"@ != "url"@,
        "content"@ != "thinking"@,
        "content"@ != "input"@,
        "content"@ != "tool_use_id"@,
        "content"@ != "source"@,
        "content"@ != "media_type"@,
        "content"@ != "data"@,
        "content"@ != "input_schema"@,
        "content"@ != "index"@,
        "content"@ != "signature"@,
        "reasoning_content"@ != "tool_calls"@,
        "reasoning_content"@ != "tool_call_id"@,
        "reasoning_content"@ != "id"@,
        "reasoning_content"@ != "type"@,
        "reasoning_content"@ != "function"@,
        "reasoning_content"@ != "name"@,
        "reasoning_content"@ != "arguments"@,
        "reasoning_content"@ != "description"@,
        "reasoning_content"@ != "parameters"@,
        "reasoning_content"@ != "text"@,
        "reasoning_content"@ != "image_url"@,
        "reasoning_content"@ != "url"@,
        "reasoning_content"@ != "thinking"@,
        "reasoning_content"@ != "input"@,
        "reasoning_content"@ != "tool_use_id"@,
        "reasoning_content"@ != "source"@,
        "reasoning_content"@ != "media_type"@,
        "reasoning_content"@ != "data"@,
        "reasoning_content"@ != "input_schema"@,
        "reasoning_content"@ != "index"@,
        "reasoning_content"@ != "signature"@,
        "tool_calls"@ != "tool_call_id"@,
        "tool_calls"@ != "id"@,
        "tool_calls"@ != "type"@,
        "tool_calls"@ != "function"@,
        "tool_calls"@ != "name"@,
        "tool_calls"@ != "arguments"@,
        "tool_calls"@ != "description"@,
        "tool_calls"@ != "parameters"@,
        "tool_calls"@ != "text"@,
        "tool_calls"@ != "image_url"@,
        "tool_calls"@ != "url"@,
        "tool_calls"@ != "thinking"@,
        "tool_calls"@ != "input"@,
        "tool_calls"@ != "tool_use_id"@,
        "tool_calls"@ != "source"@,
        "tool_calls"@ != "media_type"@,
        "tool_calls"@ != "data"@,
        "tool_calls"@ != "input_schema"@,
        "tool_calls"@ != "index"@,
        "tool_calls"@ != "signature"@,
        "tool_call_id"@ != "id"@,
        "tool_call_id"@ != "type"@,
        "tool_call_id"@ != "function"@,
        "tool_call_id"@ != "name"@,
        "tool_call_id"@ != "arguments"@,
        "tool_call_id"@ != "description"@,
        "tool_call_id"@ != "parameters"@,
        "tool_call_id"@ != "text"@,
        "tool_call_id"@ != "image_url"@,
        "tool_call_id"@ != "url"@,
        "tool_call_id"@ != "thinking"@,
        "tool_call_id"@ != "input"@,
        "tool_call_id"@ != "tool_use_id"@,
        "tool_call_id"@ != "source"@,
        "tool_call_id"@ != "media_type"@,
        "tool_call_id"@ != "data"@,
        "tool_call_id"@ != "input_schema"@,
        "tool_call_id"@ != "index"@,
        "tool_call_id"@ != "signature"@,
        "id"@ != "type"@,
        "id"@ != "function"@,
        "id"@ != "name"@,
        "id"@ != "arguments"@,
        "id"@ != "description"@,
        "id"@ != "parameters"@,
        "id"@ != "text"@,
        "id"@ != "image_url"@,
        "id"@ != "url"@,
        "id"@ != "thinking"@,
        "id"@ != "input"@,
        "id"@ != "tool_use_id"@,
        "id"@ != "source"@,
        "id"@ != "media_type"@,
        "id"@ != "data"@,
        "id"@ != "input_schema"@,
        "id"@ != "index"@,
        "id"@ != "signature"@,
        "type"@ != "function"@,
        "type"@ != "name"@,
        "type"@ != "arguments"@,
        "type"@ != "description"@,
        "type"@ != "parameters"@,
        "type"@ != "text"@,
        "type"@ != "image_url"@,
        "type"@ != "url"@,
        "type"@ != "thinking"@,
        "type"@ != "input"@,
        "type"@ != "tool_use_id"@,
        "type"@ != "source"@,
        "type"@ != "media_type"@,
        "type"@ != "data"@,
        "type"@ != "input_schema"@,
        "type"@ != "index"@,
        "type"@ != "signature"@,
        "function"@ != "name"@,
        "function"@ != "arguments"@,
        "function"@ != "description"@,
        "function"@ != "parameters"@,
        "function"@ != "text"@,
        "function"@ != "image_url"@,
        "function"@ != "url"@,
        "function"@ != "thinking"@,
        "function"@ != "input"@,
        "function"@ != "tool_use_id"@,
        "function"@ != "source"@,
        "function"@ != "media_type"@,
        "function"@ != "data"@,
        "function"@ != "input_schema"@,
        "function"@ != "index"@,
        "function"@ != "signature"@,
        "name"@ != "arguments"@,
        "name"@ != "description"@,
        "name"@ != "parameters"@,
        "name"@ != "text"@,
        "name"@ != "image_url"@,
        "name"@ != "url"@,
        "name"@ != "thinking"@,
        "name"@ != "input"@,
        "name"@ != "tool_use_id"@,
        "name"@ != "source"@,
        "name"@ != "media_type"@,
        "name"@ != "data"@,
        "name"@ != "input_schema"@,
        "name"@ != "index"@,
        "name"@ != "signature"@,
        "arguments"@ != "description"@,
        "arguments"@ != "parameters"@,
        "arguments"@ != "text"@,
        "arguments"@ != "image_url"@,
        "arguments"@ != "url"@,
        "arguments"@ != "thinking"@,
        "arguments"@ != "input"@,
        "arguments"@ != "tool_use_id"@,
        "arguments"@ != "source"@,
        "arguments"@ != "media_type"@,
        "arguments"@ != "data"@,
        "arguments"@ != "input_schema"@,
        "arguments"@ != "index"@,
        "arguments"@ != "signature"@,
        "description"@ != "parameters"@,
        "description"@ != "text"@,
        "description"@ != "image_url"@,
        "description"@ != "url"@,
        "description"@ != "thinking"@,
        "description"@ != "input"@,
        "description"@ != "tool_use_id"@,
        "description"@ != "source"@,
        "description"@ != "media_type"@,
        "description"@ != "data"@,
        "description"@ != "input_schema"@,
        "description"@ != "index"@,
        "description"@ != "signature"@,
        "parameters"@ != "text"@,
        "parameters"@ != "image_url"@,
        "parameters"@ != "url"@,
        "parameters"@ != "thinking"@,
        "parameters"@ != "input"@,
        "parameters"@ != "tool_use_id"@,
        "parameters"@ != "source"@,
        "parameters"@ != "media_type"@,
        "parameters"@ != "data"@,
        "parameters"@ != "input_schema"@,
        "parameters"@ != "index"@,
        "parameters"@ != "signature"@,
        "text"@ != "image_url"@,
        "text"@ != "url"@,
        "text"@ != "thinking"@,
        "text"@ != "input"@,
        "text"@ != "tool_use_id"@,
        "text"@ != "source"@,
        "text"@ != "media_type"@,
        "text"@ != "data"@,
        "text"@ != "input_schema"@,
        "text"@ != "index"@,
        "text"@ != "signature"@,
        "image_url"@ != "url"@,
        "image_url"@ != "thinking"@,
        "image_url"@ != "input"@,
        "image_url"@ != "tool_use_id"@,
        "image_url"@ != "source"@,
        "image_url"@ != "media_type"@,
        "image_url"@ != "data"@,
        "image_url"@ != "input_schema"@,
        "image_url"@ != "index"@,
        "image_url"@ != "signature"@,
        "url"@ != "thinking"@,
        "url"@ != "input"@,
        "url"@ != "tool_use_id"@,
        "url"@ != "source"@,
        "url"@ != "media_type"@,
        "url"@ != "data"@,
        "url"@ != "input_schema"@,
        "url"@ != "index"@,
        "url"@ != "signature"@,
        "thinking"@ != "input"@,
        "thinking"@ != "tool_use_id"@,
        "thinking"@ != "source"@,
        "thinking"@ != "media_type"@,
        "thinking"@ != "data"@,
        "thinking"@ != "input_schema"@,
        "thinking"@ != "index"@,
        "thinking"@ != "signature"@,
        "input"@ != "tool_use_id"@,
        "input"@ != "source"@,
        "input"@ != "media_type"@,
        "input"@ != "data"@,
        "input"@ != "input_schema"@,
        "input"@ != "index"@,
        "input"@ != "signature"@,
        "tool_use_id"@ != "source"@,
        "tool_use_id"@ != "media_type"@,
        "tool_use_id"@ != "data"@,
        "tool_use_id"@ != "input_schema"@,
        "tool_use_id"@ != "index"@,
        "tool_use_id"@ != "signature"@,
        "source"@ != "media_type"@,
        "source"@ != "data"@,
        "source"@ != "input_schema"@,
        "source"@ != "index"@,
        "source"@ != "signature"@,
        "media_type"@ != "data"@,
        "media_type"@ != "input_schema"@,
        "media_type"@ != "index"@,
        "media_type"@ != "signature"@,
        "data"@ != "input_schema"@,
        "data"@ != "index"@,
        "data"@ != "signature"@,
        "input_schema"@ != "index"@,
        "input_schema"@ != "signature"@,
        "index"@ != "signature"@,
{
    reveal_strlit("role");
    reveal_strlit("content");
    reveal_strlit("reasoning_content");
    reveal_strlit("tool_calls");
    reveal_strlit("tool_call_id");
    reveal_strlit("id");
    reveal_strlit("type");
    reveal_strlit("function");
    reveal_strlit("name");
    reveal_strlit("arguments");
    reveal_strlit("description");
    reveal_strlit("parameters");
    reveal_strlit("text");
    reveal_strlit("image_url");
    reveal_strlit("url");
    reveal_strlit("thinking");
    reveal_strlit("input");
    reveal_strlit("tool_use_id");
    reveal_strlit("source");
    reveal_strlit("media_type");
    reveal_strlit("data");
    reveal_strlit("input_schema");
    reveal_strlit("index");
    reveal_strlit("signature");
    assert("role"@.len() == 4);
    assert("content"@.len() == 7);
    assert("reasoning_content"@.len() == 17);
    assert("tool_calls"@.len() == 10);
    assert("tool_call_id"@.len() == 12);
    assert("id"@.len() == 2);
    assert("type"@.len() == 4);
    assert("function"@.len() == 8);
    assert("name"@.len() == 4);
    assert("arguments"@.len() == 9);
    assert("description"@.len() == 11);
    assert("parameters"@.len() == 10);
    assert("text"@.len() == 4);
    assert("image_url"@.len() == 9);
    assert("url"@.len() == 3);
    assert("thinking"@.len() == 8);
    assert("input"@.len() == 5);
    assert("tool_use_id"@.len() == 11);
    assert("source"@.len() == 6);
    assert("media_type"@.len() == 10);
    assert("data"@.len() == 4);
    assert("input_schema"@.len() == 12);
    assert("index"@.len() == 5);
    assert("signature"@.len() == 9);
    assert("role"@[0] == 'r');
    assert("tool_calls"@[0] == 't');
    assert("tool_call_id"@[0] == 't');
    assert("type"@[0] == 't');
    assert("type"@[1] == 'y');
    assert("function"@[0] == 'f');
    assert("name"@[0] == 'n');
    assert("arguments"@[0] == 'a');
    assert("description"@[0] == 'd');
    assert("parameters"@[0] == 'p');
    assert("text"@[0] == 't');
    assert("text"@[1] == 'e');
    assert("image_url"@[0] == 'i');
    assert("thinking"@[0] == 't');
    assert("input"@[2] == 'p');
    assert("tool_use_id"@[0] == 't');
    assert("media_type"@[0] == 'm');
    assert("data"@[0] == 'd');
    assert("input_schema"@[0] == 'i');
    assert("index"@[2] == 'd');
    assert("signature"@[0] == 's');
}

/// The roles.
pub(crate) proof fn role_words()
    ensures
        "system"@ != "user"@,
        "system"@ != "assistant"@,
        "system"@ != "tool"@,
        "system"@ != "developer"@,
        "user"@ != "assistant"@,
        "user"@ != "tool"@,
        "user"@ != "developer"@,
        "assistant"@ != "tool"@,
        "assistant"@ != "developer"@,
        "tool"@ != "developer"@,
{
    reveal_strlit("system");
    reveal_strlit("user");
    reveal_strlit("assistant");
    reveal_strlit("tool");
    reveal_strlit("developer");
    assert("system"@.len() == 6);
    assert("user"@.len() == 4);
    assert("assistant"@.len() == 9);
    assert("tool"@.len() == 4);
    assert("developer"@.len() == 9);
    assert("user"@[0] == 'u');
    assert("assistant"@[0] == 'a');
    assert("tool"@[0] == 't');
    assert("developer"@[0] == 'd');
}

/// The kinds of blocks.
pub(crate) proof fn kind_words()
    ensures
        "text"@ != "image"@,
        "text"@ != "image_url"@,
        "text"@ != "tool_use"@,
        "text"@ != "tool_result"@,
        "text"@ != "thinking"@,
        "text"@ != "redacted_thinking"@,
        "text"@ != "base64"@,
        "text"@ != "url"@,
        "text"@ != "input_text"@,
        "text"@ != "output_text"@,
        "text"@ != "input_image"@,
        "image"@ != "image_url"@,
        "image"@ != "tool_use"@,
        "image"@ != "tool_result"@,
        "image"@ != "thinking"@,
        "image"@ != "redacted_thinking"@,
        "image"@ != "base64"@,
        "image"@ != "url"@,
        "image"@ != "input_text"@,
        "image"@ != "output_text"@,
        "image"@ != "input_image"@,
        "image_url"@ != "tool_use"@,
        "image_url"@ != "tool_result"@,
        "image_url"@ != "thinking"@,
        "image_url"@ != "redacted_thinking"@,
        "image_url"@ != "base64"@,
        "image_url"@ != "url"@,
        "image_url"@ != "input_text"@,
        "image_url"@ != "output_text"@,
        "image_url"@ != "input_image"@,
        "tool_use"@ != "tool_result"@,
        "tool_use"@ != "thinking"@,
        "tool_use"@ != "redacted_thinking"@,
        "tool_use"@ != "base64"@,
        "tool_use"@ != "url"@,
        "tool_use"@ != "input_text"@,
        "tool_use"@ != "output_text"@,
        "tool_use"@ != "input_image"@,
        "tool_result"@ != "thinking"@,
        "tool_result"@ != "redacted_thinking"@,
        "tool_result"@ != "base64"@,
        "tool_result"@ != "url"@,
        "tool_result"@ != "input_text"@,
        "tool_result"@ != "output_text"@,
        "tool_result"@ != "input_image"@,
        "thinking"@ != "redacted_thinking"@,
        "thinking"@ != "base64"@,
        "thinking"@ != "url"@,
        "thinking"@ != "input_text"@,
        "thinking"@ != "output_text"@,
        "thinking"@ != "input_image"@,
        "redacted_thinking"@ != "base64"@,
        "redacted_thinking"@ != "url"@,
        "redacted_thinking"@ != "input_text"@,
        "redacted_thinking"@ != "output_text"@,
        "redacted_thinking"@ != "input_image"@,
        "base64"@ != "url"@,
        "base64"@ != "input_text"@,
        "base64"@ != "output_text"@,
        "base64"@ != "input_image"@,
        "url"@ != "input_text"@,
        "url"@ != "output_text"@,
        "url"@ != "input_image"@,
        "input_text"@ != "output_text"@,
        "input_text"@ != "input_image"@,
        "output_text"@ != "input_image"@,
{
    reveal_strlit("text");
    reveal_strlit("image");
    reveal_strlit("image_url");
    reveal_strlit("tool_use");
    reveal_strlit("tool_result");
    reveal_strlit("thinking");
    reveal_strlit("redacted_thinking");
    reveal_strlit("base64");
    reveal_strlit("url");
    reveal_strlit("input_text");
    reveal_strlit("output_text");
    reveal_strlit("input_image");
    assert("text"@.len() == 4);
    assert("image"@.len() == 5);
    assert("image_url"@.len() == 9);
    assert("tool_use"@.len() == 8);
    assert("tool_result"@.len() == 11);
    assert("thinking"@.len() == 8);
    assert("redacted_thinking"@.len() == 17);
    assert("base64"@.len() == 6);
    assert("url"@.len() == 3);
    assert("input_text"@.len() == 10);
    assert("output_text"@.len() == 11);
    assert("input_image"@.len() == 11);
    assert("tool_use"@[1] == 'o');
    assert("tool_result"@[0] == 't');
    assert("thinking"@[1] == 'h');
    assert("output_text"@[0] == 'o');
    assert("input_image"@[0] == 'i');
}

/// How a tool may be chosen.
pub(crate) proof fn choice_words()
    ensures
        "auto"@ != "none"@,
        "auto"@ != "required"@,
        "auto"@ != "any"@,
        "auto"@ != "tool"@,
        "auto"@ != "function"@,
        "none"@ != "required"@,
        "none"@ != "any"@,
        "none"@ != "tool"@,
        "none"@ != "function"@,
        "required"@ != "any"@,
        "required"@ != "tool"@,
        "required"@ != "function"@,
        "any"@ != "tool"@,
        "any"@ != "function"@,
        "tool"@ != "function"@,
{
    reveal_strlit("auto");
    reveal_strlit("none");
    reveal_strlit("required");
    reveal_strlit("any");
    reveal_strlit("tool");
    reveal_strlit("function");
    assert("auto"@.len() == 4);
    assert("none"@.len() == 4);
    assert("required"@.len() == 8);
    assert("any"@.len() == 3);
    assert("tool"@.len() == 4);
    assert("function"@.len() == 8);
    assert("auto"@[0] == 'a');
    assert("none"@[0] == 'n');
    assert("required"@[0] == 'r');
    assert("tool"@[0] == 't');
    assert("function"@[0] == 'f');
}

/// The levels of thinking.
pub(crate) proof fn level_words()
    ensures
        "none"@ != "off"@,
        "none"@ != "disabled"@,
        "none"@ != "enabled"@,
        "none"@ != "adaptive"@,
        "none"@ != "low"@,
        "none"@ != "medium"@,
        "none"@ != "high"@,
        "none"@ != "xhigh"@,
        "none"@ != "max"@,
        "none"@ != "minimal"@,
        "off"@ != "disabled"@,
        "off"@ != "enabled"@,
        "off"@ != "adaptive"@,
        "off"@ != "low"@,
        "off"@ != "medium"@,
        "off"@ != "high"@,
        "off"@ != "xhigh"@,
        "off"@ != "max"@,
        "off"@ != "minimal"@,
        "disabled"@ != "enabled"@,
        "disabled"@ != "adaptive"@,
        "disabled"@ != "low"@,
        "disabled"@ != "medium"@,
        "disabled"@ != "high"@,
        "disabled"@ != "xhigh"@,
        "disabled"@ != "max"@,
        "disabled"@ != "minimal"@,
        "enabled"@ != "adaptive"@,
        "enabled"@ != "low"@,
        "enabled"@ != "medium"@,
        "enabled"@ != "high"@,
        "enabled"@ != "xhigh"@,
        "enabled"@ != "max"@,
        "enabled"@ != "minimal"@,
        "adaptive"@ != "low"@,
        "adaptive"@ != "medium"@,
        "adaptive"@ != "high"@,
        "adaptive"@ != "xhigh"@,
        "adaptive"@ != "max"@,
        "adaptive"@ != "minimal"@,
        "low"@ != "medium"@,
        "low"@ != "high"@,
        "low"@ != "xhigh"@,
        "low"@ != "max"@,
        "low"@ != "minimal"@,
        "medium"@ != "high"@,
        "medium"@ != "xhigh"@,
        "medium"@ != "max"@,
        "medium"@ != "minimal"@,
        "high"@ != "xhigh"@,
        "high"@ != "max"@,
        "high"@ != "minimal"@,
        "xhigh"@ != "max"@,
        "xhigh"@ != "minimal"@,
        "max"@ != "minimal"@,
{
    reveal_strlit("none");
    reveal_strlit("off");
    reveal_strlit("disabled");
    reveal_strlit("enabled");
    reveal_strlit("adaptive");
    reveal_strlit("low");
    reveal_strlit("medium");
    reveal_strlit("high");
    reveal_strlit("xhigh");
    reveal_strlit("max");
    reveal_strlit("minimal");
    assert("none"@.len() == 4);
    assert("off"@.len() == 3);
    assert("disabled"@.len() == 8);
    assert("enabled"@.len() == 7);
    assert("adaptive"@.len() == 8);
    assert("low"@.len() == 3);
    assert("medium"@.len() == 6);
    assert("high"@.len() == 4);
    assert("xhigh"@.len() == 5);
    assert("max"@.len() == 3);
    assert("minimal"@.len() == 7);
    assert("none"@[0] == 'n');
    assert("off"@[0] == 'o');
    assert("disabled"@[0] == 'd');
    assert("enabled"@[0] == 'e');
    assert("adaptive"@[0] == 'a');
    assert("low"@[0] == 'l');
    assert("high"@[0] == 'h');
    assert("max"@[0] == 'm');
    assert("minimal"@[0] == 'm');
}

/// The events of the Messages protocol.
pub(crate) proof fn event_words()
    ensures
        "message_start"@ != "content_block_start"@,
        "message_start"@ != "content_block_delta"@,
        "message_start"@ != "content_block_stop"@,
        "message_start"@ != "message_delta"@,
        "message_start"@ != "message_stop"@,
        "message_start"@ != "error"@,
        "message_start"@ != "ping"@,
        "content_block_start"@ != "content_block_delta"@,
        "content_block_start"@ != "content_block_stop"@,
        "content_block_start"@ != "message_delta"@,
        "content_block_start"@ != "message_stop"@,
        "content_block_start"@ != "error"@,
        "content_block_start"@ != "ping"@,
        "content_block_delta"@ != "content_block_stop"@,
        "content_block_delta"@ != "message_delta"@,
        "content_block_delta"@ != "message_stop"@,
        "content_block_delta"@ != "error"@,
        "content_block_delta"@ != "ping"@,
        "content_block_stop"@ != "message_delta"@,
        "content_block_stop"@ != "message_stop"@,
        "content_block_stop"@ != "error"@,
        "content_block_stop"@ != "ping"@,
        "message_delta"@ != "message_stop"@,
        "message_delta"@ != "error"@,
        "message_delta"@ != "ping"@,
        "message_stop"@ != "error"@,
        "message_stop"@ != "ping"@,
        "error"@ != "ping"@,
{
    reveal_strlit("message_start");
    reveal_strlit("content_block_start");
    reveal_strlit("content_block_delta");
    reveal_strlit("content_block_stop");
    reveal_strlit("message_delta");
    reveal_strlit("message_stop");
    reveal_strlit("error");
    reveal_strlit("ping");
    assert("message_start"@.len() == 13);
    assert("content_block_start"@.len() == 19);
    assert("content_block_delta"@.len() == 19);
    assert("content_block_stop"@.len() == 18);
    assert("message_delta"@.len() == 13);
    assert("message_stop"@.len() == 12);
    assert("error"@.len() == 5);
    assert("ping"@.len() == 4);
    assert("message_start"@[8] == 's');
    assert("content_block_start"@[14] == 's');
    assert("content_block_delta"@[14] == 'd');
    assert("message_delta"@[8] == 'd');
}

/// The kinds of deltas.
pub(crate) proof fn delta_words()
    ensures
        "text_delta"@ != "thinking_delta"@,
        "text_delta"@ != "input_json_delta"@,
        "text_delta"@ != "signature_delta"@,
        "thinking_delta"@ != "input_json_delta"@,
        "thinking_delta"@ != "signature_delta"@,
        "input_json_delta"@ != "signature_delta"@,
{
    reveal_strlit("text_delta");
    reveal_strlit("thinking_delta");
    reveal_strlit("input_json_delta");
    reveal_strlit("signature_delta");
    assert("text_delta"@.len() == 10);
    assert("thinking_delta"@.len() == 14);
    assert("input_json_delta"@.len() == 16);
    assert("signature_delta"@.len() == 15);
}

/// The members of events.
pub(crate) proof fn event_members()
    ensures
        "type"@ != "message"@,
        "type"@ != "index"@,
        "type"@ != "content_block"@,
        "type"@ != "delta"@,
        "type"@ != "usage"@,
        "type"@ != "stop_reason"@,
        "type"@ != "stop_sequence"@,
        "type"@ != "output_tokens"@,
        "type"@ != "input_tokens"@,
        "type"@ != "cache_read_input_tokens"@,
        "type"@ != "partial_json"@,
        "type"@ != "text"@,
        "type"@ != "thinking"@,
        "type"@ != "error"@,
        "type"@ != "id"@,
        "type"@ != "role"@,
        "type"@ != "model"@,
        "type"@ != "content"@,
        "type"@ != "name"@,
        "type"@ != "input"@,
        "message"@ != "index"@,
        "message"@ != "content_block"@,
        "message"@ != "delta"@,
        "message"@ != "usage"@,
        "message"@ != "stop_reason"@,
        "message"@ != "stop_sequence"@,
        "message"@ != "output_tokens"@,
        "message"@ != "input_tokens"@,
        "message"@ != "cache_read_input_tokens"@,
        "message"@ != "partial_json"@,
        "message"@ != "text"@,
        "message"@ != "thinking"@,
        "message"@ != "error"@,
        "message"@ != "id"@,
        "message"@ != "role"@,
        "message"@ != "model"@,
        "message"@ != "content"@,
        "message"@ != "name"@,
        "message"@ != "input"@,
        "index"@ != "content_block"@,
        "index"@ != "delta"@,
        "index"@ != "usage"@,
        "index"@ != "stop_reason"@,
        "index"@ != "stop_sequence"@,
        "index"@ != "output_tokens"@,
        "index"@ != "input_tokens"@,
        "index"@ != "cache_read_input_tokens"@,
        "index"@ != "partial_json"@,
        "index"@ != "text"@,
        "index"@ != "thinking"@,
        "index"@ != "error"@,
        "index"@ != "id"@,
        "index"@ != "role"@,
        "index"@ != "model"@,
        "index"@ != "content"@,
        "index"@ != "name"@,
        "index"@ != "input"@,
        "content_block"@ != "delta"@,
        "content_block"@ != "usage"@,
        "content_block"@ != "stop_reason"@,
        "content_block"@ != "stop_sequence"@,
        "content_block"@ != "output_tokens"@,
        "content_block"@ != "input_tokens"@,
        "content_block"@ != "cache_read_input_tokens"@,
        "content_block"@ != "partial_json"@,
        "content_block"@ != "text"@,
        "content_block"@ != "thinking"@,
        "content_block"@ != "error"@,
        "content_block"@ != "id"@,
        "content_block"@ != "role"@,
        "content_block"@ != "model"@,
        "content_block"@ != "content"@,
        "content_block"@ != "name"@,
        "content_block"@ != "input"@,
        "delta"@ != "usage"@,
        "delta"@ != "stop_reason"@,
        "delta"@ != "stop_sequence"@,
        "delta"@ != "output_tokens"@,
        "delta"@ != "input_tokens"@,
        "delta"@ != "cache_read_input_tokens"@,
        "delta"@ != "partial_json"@,
        "delta"@ != "text"@,
        "delta"@ != "thinking"@,
        "delta"@ != "error"@,
        "delta"@ != "id"@,
        "delta"@ != "role"@,
        "delta"@ != "model"@,
        "delta"@ != "content"@,
        "delta"@ != "name"@,
        "delta"@ != "input"@,
        "usage"@ != "stop_reason"@,
        "usage"@ != "stop_sequence"@,
        "usage"@ != "output_tokens"@,
        "usage"@ != "input_tokens"@,
        "usage"@ != "cache_read_input_tokens"@,
        "usage"@ != "partial_json"@,
        "usage"@ != "text"@,
        "usage"@ != "thinking"@,
        "usage"@ != "error"@,
        "usage"@ != "id"@,
        "usage"@ != "role"@,
        "usage"@ != "model"@,
        "usage"@ != "content"@,
        "usage"@ != "name"@,
        "usage"@ != "input"@,
        "stop_reason"@ != "stop_sequence"@,
        "stop_reason"@ != "output_tokens"@,
        "stop_reason"@ != "input_tokens"@,
        "stop_reason"@ != "cache_read_input_tokens"@,
        "stop_reason"@ != "partial_json"@,
        "stop_reason"@ != "text"@,
        "stop_reason"@ != "thinking"@,
        "stop_reason"@ != "error"@,
        "stop_reason"@ != "id"@,
        "stop_reason"@ != "role"@,
        "stop_reason"@ != "model"@,
        "stop_reason"@ != "content"@,
        "stop_reason"@ != "name"@,
        "stop_reason"@ != "input"@,
        "stop_sequence"@ != "output_tokens"@,
        "stop_sequence"@ != "input_tokens"@,
        "stop_sequence"@ != "cache_read_input_tokens"@,
        "stop_sequence"@ != "partial_json"@,
        "stop_sequence"@ != "text"@,
        "stop_sequence"@ != "thinking"@,
        "stop_sequence"@ != "error"@,
        "stop_sequence"@ != "id"@,
        "stop_sequence"@ != "role"@,
        "stop_sequence"@ != "model"@,
        "stop_sequence"@ != "content"@,
        "stop_sequence"@ != "name"@,
        "stop_sequence"@ != "input"@,
        "output_tokens"@ != "input_tokens"@,
        "output_tokens"@ != "cache_read_input_tokens"@,
        "output_tokens"@ != "partial_json"@,
        "output_tokens"@ != "text"@,
        "output_tokens"@ != "thinking"@,
        "output_tokens"@ != "error"@,
        "output_tokens"@ != "id"@,
        "output_tokens"@ != "role"@,
        "output_tokens"@ != "model"@,
        "output_tokens"@ != "content"@,
        "output_tokens"@ != "name"@,
        "output_tokens"@ != "input"@,
        "input_tokens"@ != "cache_read_input_tokens"@,
        "input_tokens"@ != "partial_json"@,
        "input_tokens"@ != "text"@,
        "input_tokens"@ != "thinking"@,
        "input_tokens"@ != "error"@,
        "input_tokens"@ != "id"@,
        "input_tokens"@ != "role"@,
        "input_tokens"@ != "model"@,
        "input_tokens"@ != "content"@,
        "input_tokens"@ != "name"@,
        "input_tokens"@ != "input"@,
        "cache_read_input_tokens"@ != "partial_json"@,
        "cache_read_input_tokens"@ != "text"@,
        "cache_read_input_tokens"@ != "thinking"@,
        "cache_read_input_tokens"@ != "error"@,
        "cache_read_input_tokens"@ != "id"@,
        "cache_read_input_tokens"@ != "role"@,
        "cache_read_input_tokens"@ != "model"@,
        "cache_read_input_tokens"@ != "content"@,
        "cache_read_input_tokens"@ != "name"@,
        "cache_read_input_tokens"@ != "input"@,
        "partial_json"@ != "text"@,
        "partial_json"@ != "thinking"@,
        "partial_json"@ != "error"@,
        "partial_json"@ != "id"@,
        "partial_json"@ != "role"@,
        "partial_json"@ != "model"@,
        "partial_json"@ != "content"@,
        "partial_json"@ != "name"@,
        "partial_json"@ != "input"@,
        "text"@ != "thinking"@,
        "text"@ != "error"@,
        "text"@ != "id"@,
        "text"@ != "role"@,
        "text"@ != "model"@,
        "text"@ != "content"@,
        "text"@ != "name"@,
        "text"@ != "input"@,
        "thinking"@ != "error"@,
        "thinking"@ != "id"@,
        "thinking"@ != "role"@,
        "thinking"@ != "model"@,
        "thinking"@ != "content"@,
        "thinking"@ != "name"@,
        "thinking"@ != "input"@,
        "error"@ != "id"@,
        "error"@ != "role"@,
        "error"@ != "model"@,
        "error"@ != "content"@,
        "error"@ != "name"@,
        "error"@ != "input"@,
        "id"@ != "role"@,
        "id"@ != "model"@,
        "id"@ != "content"@,
        "id"@ != "name"@,
        "id"@ != "input"@,
        "role"@ != "model"@,
        "role"@ != "content"@,
        "role"@ != "name"@,
        "role"@ != "input"@,
        "model"@ != "content"@,
        "model"@ != "name"@,
        "model"@ != "input"@,
        "content"@ != "name"@,
        "content"@ != "input"@,
        "name"@ != "input"@,
{
    reveal_strlit("type");
    reveal_strlit("message");
    reveal_strlit("index");
    reveal_strlit("content_block");
    reveal_strlit("delta");
    reveal_strlit("usage");
    reveal_strlit("stop_reason");
    reveal_strlit("stop_sequence");
    reveal_strlit("output_tokens");
    reveal_strlit("input_tokens");
    reveal_strlit("cache_read_input_tokens");
    reveal_strlit("partial_json");
    reveal_strlit("text");
    reveal_strlit("thinking");
    reveal_strlit("error");
    reveal_strlit("id");
    reveal_strlit("role");
    reveal_strlit("model");
    reveal_strlit("content");
    reveal_strlit("name");
    reveal_strlit("input");
    assert("type"@.len() == 4);
    assert("message"@.len() == 7);
    assert("index"@.len() == 5);
    assert("content_block"@.len() == 13);
    assert("delta"@.len() == 5);
    assert("usage"@.len() == 5);
    assert("stop_reason"@.len() == 11);
    assert("stop_sequence"@.len() == 13);
    assert("output_tokens"@.len() == 13);
    assert("input_tokens"@.len() == 12);
    assert("cache_read_input_tokens"@.len() == 23);
    assert("partial_json"@.len() == 12);
    assert("text"@.len() == 4);
    assert("thinking"@.len() == 8);
    assert("error"@.len() == 5);
    assert("id"@.len() == 2);
    assert("role"@.len() == 4);
    assert("model"@.len() == 5);
    assert("content"@.len() == 7);
    assert("name"@.len() == 4);
    assert("input"@.len() == 5);
    assert("type"@[0] == 't');
    assert("type"@[1] == 'y');
    assert("message"@[0] == 'm');
    assert("index"@[0] == 'i');
    assert("index"@[2] == 'd');
    assert("content_block"@[0] == 'c');
    assert("delta"@[0] == 'd');
    assert("usage"@[0] == 'u');
    assert("stop_sequence"@[0] == 's');
    assert("output_tokens"@[0] == 'o');
    assert("input_tokens"@[0] == 'i');
    assert("partial_json"@[0] == 'p');
    assert("text"@[0] == 't');
    assert("text"@[1] == 'e');
    assert("error"@[0] == 'e');
    assert("role"@[0] == 'r');
    assert("model"@[0] == 'm');
    assert("content"@[0] == 'c');
    assert("name"@[0] == 'n');
    assert("input"@[0] == 'i');
    assert("input"@[2] == 'p');
}

/// Why a stream ends.
pub(crate) proof fn reason_words()
    ensures
        "stop"@ != "length"@,
        "stop"@ != "tool_calls"@,
        "stop"@ != "content_filter"@,
        "stop"@ != "end_turn"@,
        "stop"@ != "max_tokens"@,
        "stop"@ != "tool_use"@,
        "stop"@ != "stop_sequence"@,
        "length"@ != "tool_calls"@,
        "length"@ != "content_filter"@,
        "length"@ != "end_turn"@,
        "length"@ != "max_tokens"@,
        "length"@ != "tool_use"@,
        "length"@ != "stop_sequence"@,
        "tool_calls"@ != "content_filter"@,
        "tool_calls"@ != "end_turn"@,
        "tool_calls"@ != "max_tokens"@,
        "tool_calls"@ != "tool_use"@,
        "tool_calls"@ != "stop_sequence"@,
        "content_filter"@ != "end_turn"@,
        "content_filter"@ != "max_tokens"@,
        "content_filter"@ != "tool_use"@,
        "content_filter"@ != "stop_sequence"@,
        "end_turn"@ != "max_tokens"@,
        "end_turn"@ != "tool_use"@,
        "end_turn"@ != "stop_sequence"@,
        "max_tokens"@ != "tool_use"@,
        "max_tokens"@ != "stop_sequence"@,
        "tool_use"@ != "stop_sequence"@,
{
    reveal_strlit("stop");
    reveal_strlit("length");
    reveal_strlit("tool_calls");
    reveal_strlit("content_filter");
    reveal_strlit("end_turn");
    reveal_strlit("max_tokens");
    reveal_strlit("tool_use");
    reveal_strlit("stop_sequence");
    assert("stop"@.len() == 4);
    assert("length"@.len() == 6);
    assert("tool_calls"@.len() == 10);
    assert("content_filter"@.len() == 14);
    assert("end_turn"@.len() == 8);
    assert("max_tokens"@.len() == 10);
    assert("tool_use"@.len() == 8);
    assert("stop_sequence"@.len() == 13);
    assert("tool_calls"@[0] == 't');
    assert("end_turn"@[0] == 'e');
    assert("max_tokens"@[0] == 'm');
    assert("tool_use"@[0] == 't');
}

/// The members of chat chunks.
pub(crate) proof fn chunk_words()
    ensures
        "id"@ != "object"@,
        "id"@ != "created"@,
        "id"@ != "model"@,
        "id"@ != "choices"@,
        "id"@ != "usage"@,
        "id"@ != "index"@,
        "id"@ != "delta"@,
        "id"@ != "finish_reason"@,
        "id"@ != "role"@,
        "id"@ != "content"@,
        "id"@ != "reasoning_content"@,
        "id"@ != "tool_calls"@,
        "id"@ != "type"@,
        "id"@ != "function"@,
        "id"@ != "name"@,
        "id"@ != "arguments"@,
        "id"@ != "error"@,
        "id"@ != "message"@,
        "object"@ != "created"@,
        "object"@ != "model"@,
        "object"@ != "choices"@,
        "object"@ != "usage"@,
        "object"@ != "index"@,
        "object"@ != "delta"@,
        "object"@ != "finish_reason"@,
        "object"@ != "role"@,
        "object"@ != "content"@,
        "object"@ != "reasoning_content"@,
        "object"@ != "tool_calls"@,
        "object"@ != "type"@,
        "object"@ != "function"@,
        "object"@ != "name"@,
        "object"@ != "arguments"@,
        "object"@ != "error"@,
        "object"@ != "message"@,
        "created"@ != "model"@,
        "created"@ != "choices"@,
        "created"@ != "usage"@,
        "created"@ != "index"@,
        "created"@ != "delta"@,
        "created"@ != "finish_reason"@,
        "created"@ != "role"@,
        "created"@ != "content"@,
        "created"@ != "reasoning_content"@,
        "created"@ != "tool_calls"@,
        "created"@ != "type"@,
        "created"@ != "function"@,
        "created"@ != "name"@,
        "created"@ != "arguments"@,
        "created"@ != "error"@,
        "created"@ != "message"@,
        "model"@ != "choices"@,
        "model"@ != "usage"@,
        "model"@ != "index"@,
        "model"@ != "delta"@,
        "model"@ != "finish_reason"@,
        "model"@ != "role"@,
        "model"@ != "content"@,
        "model"@ != "reasoning_content"@,
        "model"@ != "tool_calls"@,
        "model"@ != "type"@,
        "model"@ != "function"@,
        "model"@ != "name"@,
        "model"@ != "arguments"@,
        "model"@ != "error"@,
        "model"@ != "message"@,
        "choices"@ != "usage"@,
        "choices"@ != "index"@,
        "choices"@ != "delta"@,
        "choices"@ != "finish_reason"@,
        "choices"@ != "role"@,
        "choices"@ != "content"@,
        "choices"@ != "reasoning_content"@,
        "choices"@ != "tool_calls"@,
        "choices"@ != "type"@,
        "choices"@ != "function"@,
        "choices"@ != "name"@,
        "choices"@ != "arguments"@,
        "choices"@ != "error"@,
        "choices"@ != "message"@,
        "usage"@ != "index"@,
        "usage"@ != "delta"@,
        "usage"@ != "finish_reason"@,
        "usage"@ != "role"@,
        "usage"@ != "content"@,
        "usage"@ != "reasoning_content"@,
        "usage"@ != "tool_calls"@,
        "usage"@ != "type"@,
        "usage"@ != "function"@,
        "usage"@ != "name"@,
        "usage"@ != "arguments"@,
        "usage"@ != "error"@,
        "usage"@ != "message"@,
        "index"@ != "delta"@,
        "index"@ != "finish_reason"@,
        "index"@ != "role"@,
        "index"@ != "content"@,
        "index"@ != "reasoning_content"@,
        "index"@ != "tool_calls"@,
        "index"@ != "type"@,
        "index"@ != "function"@,
        "index"@ != "name"@,
        "index"@ != "arguments"@,
        "index"@ != "error"@,
        "index"@ != "message"@,
        "delta"@ != "finish_reason"@,
        "delta"@ != "role"@,
        "delta"@ != "content"@,
        "delta"@ != "reasoning_content"@,
        "delta"@ != "tool_calls"@,
        "delta"@ != "type"@,
        "delta"@ != "function"@,
        "delta"@ != "name"@,
        "delta"@ != "arguments"@,
        "delta"@ != "error"@,
        "delta"@ != "message"@,
        "finish_reason"@ != "role"@,
        "finish_reason"@ != "content"@,
        "finish_reason"@ != "reasoning_content"@,
        "finish_reason"@ != "tool_calls"@,
        "finish_reason"@ != "type"@,
        "finish_reason"@ != "function"@,
        "finish_reason"@ != "name"@,
        "finish_reason"@ != "arguments"@,
        "finish_reason"@ != "error"@,
        "finish_reason"@ != "message"@,
        "role"@ != "content"@,
        "role"@ != "reasoning_content"@,
        "role"@ != "tool_calls"@,
        "role"@ != "type"@,
        "role"@ != "function"@,
        "role"@ != "name"@,
        "role"@ != "arguments"@,
        "role"@ != "error"@,
        "role"@ != "message"@,
        "content"@ != "reasoning_content"@,
        "content"@ != "tool_calls"@,
        "content"@ != "type"@,
        "content"@ != "function"@,
        "content"@ != "name"@,
        "content"@ != "arguments"@,
        "content"@ != "error"@,
        "content"@ != "message"@,
        "reasoning_content"@ != "tool_calls"@,
        "reasoning_content"@ != "type"@,
        "reasoning_content"@ != "function"@,
        "reasoning_content"@ != "name"@,
        "reasoning_content"@ != "arguments"@,
        "reasoning_content"@ != "error"@,
        "reasoning_content"@ != "message"@,
        "tool_calls"@ != "type"@,
        "tool_calls"@ != "function"@,
        "tool_calls"@ != "name"@,
        "tool_calls"@ != "arguments"@,
        "tool_calls"@ != "error"@,
        "tool_calls"@ != "message"@,
        "type"@ != "function"@,
        "type"@ != "name"@,
        "type"@ != "arguments"@,
        "type"@ != "error"@,
        "type"@ != "message"@,
        "function"@ != "name"@,
        "function"@ != "arguments"@,
        "function"@ != "error"@,
        "function"@ != "message"@,
        "name"@ != "arguments"@,
        "name"@ != "error"@,
        "name"@ != "message"@,
        "arguments"@ != "error"@,
        "arguments"@ != "message"@,
        "error"@ != "message"@,
{
    reveal_strlit("id");
    reveal_strlit("object");
    reveal_strlit("created");
    reveal_strlit("model");
    reveal_strlit("choices");
    reveal_strlit("usage");
    reveal_strlit("index");
    reveal_strlit("delta");
    reveal_strlit("finish_reason");
    reveal_strlit("role");
    reveal_strlit("content");
    reveal_strlit("reasoning_content");
    reveal_strlit("tool_calls");
    reveal_strlit("type");
    reveal_strlit("function");
    reveal_strlit("name");
    reveal_strlit("arguments");
    reveal_strlit("error");
    reveal_strlit("message");
    assert("id"@.len() == 2);
    assert("object"@.len() == 6);
    assert("created"@.len() == 7);
    assert("model"@.len() == 5);
    assert("choices"@.len() == 7);
    assert("usage"@.len() == 5);
    assert("index"@.len() == 5);
    assert("delta"@.len() == 5);
    assert("finish_reason"@.len() == 13);
    assert("role"@.len() == 4);
    assert("content"@.len() == 7);
    assert("reasoning_content"@.len() == 17);
    assert("tool_calls"@.len() == 10);
    assert("type"@.len() == 4);
    assert("function"@.len() == 8);
    assert("name"@.len() == 4);
    assert("arguments"@.len() == 9);
    assert("error"@.len() == 5);
    assert("message"@.len() == 7);
    assert("created"@[0] == 'c');
    assert("created"@[1] == 'r');
    assert("model"@[0] == 'm');
    assert("choices"@[0] == 'c');
    assert("choices"@[1] == 'h');
    assert("usage"@[0] == 'u');
    assert("index"@[0] == 'i');
    assert("delta"@[0] == 'd');
    assert("role"@[0] == 'r');
    assert("content"@[0] == 'c');
    assert("content"@[1] == 'o');
    assert("type"@[0] == 't');
    assert("name"@[0] == 'n');
    assert("error"@[0] == 'e');
    assert("message"@[0] == 'm');
}

/// The counts of tokens.
pub(crate) proof fn count_words()
    ensures
        "prompt_tokens"@ != "completion_tokens"@,
        "prompt_tokens"@ != "total_tokens"@,
        "prompt_tokens"@ != "prompt_tokens_details"@,
        "prompt_tokens"@ != "completion_tokens_details"@,
        "prompt_tokens"@ != "cached_tokens"@,
        "prompt_tokens"@ != "reasoning_tokens"@,
        "prompt_tokens"@ != "input_tokens"@,
        "prompt_tokens"@ != "output_tokens"@,
        "prompt_tokens"@ != "input_tokens_details"@,
        "prompt_tokens"@ != "output_tokens_details"@,
        "prompt_tokens"@ != "cache_read_input_tokens"@,
        "prompt_tokens"@ != "cache_creation_input_tokens"@,
        "completion_tokens"@ != "total_tokens"@,
        "completion_tokens"@ != "prompt_tokens_details"@,
        "completion_tokens"@ != "completion_tokens_details"@,
        "completion_tokens"@ != "cached_tokens"@,
        "completion_tokens"@ != "reasoning_tokens"@,
        "completion_tokens"@ != "input_tokens"@,
        "completion_tokens"@ != "output_tokens"@,
        "completion_tokens"@ != "input_tokens_details"@,
        "completion_tokens"@ != "output_tokens_details"@,
        "completion_tokens"@ != "cache_read_input_tokens"@,
        "completion_tokens"@ != "cache_creation_input_tokens"@,
        "total_tokens"@ != "prompt_tokens_details"@,
        "total_tokens"@ != "completion_tokens_details"@,
        "total_tokens"@ != "cached_tokens"@,
        "total_tokens"@ != "reasoning_tokens"@,
        "total_tokens"@ != "input_tokens"@,
        "total_tokens"@ != "output_tokens"@,
        "total_tokens"@ != "input_tokens_details"@,
        "total_tokens"@ != "output_tokens_details"@,
        "total_tokens"@ != "cache_read_input_tokens"@,
        "total_tokens"@ != "cache_creation_input_tokens"@,
        "prompt_tokens_details"@ != "completion_tokens_details"@,
        "prompt_tokens_details"@ != "cached_tokens"@,
        "prompt_tokens_details"@ != "reasoning_tokens"@,
        "prompt_tokens_details"@ != "input_tokens"@,
        "prompt_tokens_details"@ != "output_tokens"@,
        "prompt_tokens_details"@ != "input_tokens_details"@,
        "prompt_tokens_details"@ != "output_tokens_details"@,
        "prompt_tokens_details"@ != "cache_read_input_tokens"@,
        "prompt_tokens_details"@ != "cache_creation_input_tokens"@,
        "completion_tokens_details"@ != "cached_tokens"@,
        "completion_tokens_details"@ != "reasoning_tokens"@,
        "completion_tokens_details"@ != "input_tokens"@,
        "completion_tokens_details"@ != "output_tokens"@,
        "completion_tokens_details"@ != "input_tokens_details"@,
        "completion_tokens_details"@ != "output_tokens_details"@,
        "completion_tokens_details"@ != "cache_read_input_tokens"@,
        "completion_tokens_details"@ != "cache_creation_input_tokens"@,
        "cached_tokens"@ != "reasoning_tokens"@,
        "cached_tokens"@ != "input_tokens"@,
        "cached_tokens"@ != "output_tokens"@,
        "cached_tokens"@ != "input_tokens_details"@,
        "cached_tokens"@ != "output_tokens_details"@,
        "cached_tokens"@ != "cache_read_input_tokens"@,
        "cached_tokens"@ != "cache_creation_input_tokens"@,
        "reasoning_tokens"@ != "input_tokens"@,
        "reasoning_tokens"@ != "output_tokens"@,
        "reasoning_tokens"@ != "input_tokens_details"@,
        "reasoning_tokens"@ != "output_tokens_details"@,
        "reasoning_tokens"@ != "cache_read_input_tokens"@,
        "reasoning_tokens"@ != "cache_creation_input_tokens"@,
        "input_tokens"@ != "output_tokens"@,
        "input_tokens"@ != "input_tokens_details"@,
        "input_tokens"@ != "output_tokens_details"@,
        "input_tokens"@ != "cache_read_input_tokens"@,
        "input_tokens"@ != "cache_creation_input_tokens"@,
        "output_tokens"@ != "input_tokens_details"@,
        "output_tokens"@ != "output_tokens_details"@,
        "output_tokens"@ != "cache_read_input_tokens"@,
        "output_tokens"@ != "cache_creation_input_tokens"@,
        "input_tokens_details"@ != "output_tokens_details"@,
        "input_tokens_details"@ != "cache_read_input_tokens"@,
        "input_tokens_details"@ != "cache_creation_input_tokens"@,
        "output_tokens_details"@ != "cache_read_input_tokens"@,
        "output_tokens_details"@ != "cache_creation_input_tokens"@,
        "cache_read_input_tokens"@ != "cache_creation_input_tokens"@,
{
    reveal_strlit("prompt_tokens");
    reveal_strlit("completion_tokens");
    reveal_strlit("total_tokens");
    reveal_strlit("prompt_tokens_details");
    reveal_strlit("completion_tokens_details");
    reveal_strlit("cached_tokens");
    reveal_strlit("reasoning_tokens");
    reveal_strlit("input_tokens");
    reveal_strlit("output_tokens");
    reveal_strlit("input_tokens_details");
    reveal_strlit("output_tokens_details");
    reveal_strlit("cache_read_input_tokens");
    reveal_strlit("cache_creation_input_tokens");
    assert("prompt_tokens"@.len() == 13);
    assert("completion_tokens"@.len() == 17);
    assert("total_tokens"@.len() == 12);
    assert("prompt_tokens_details"@.len() == 21);
    assert("completion_tokens_details"@.len() == 25);
    assert("cached_tokens"@.len() == 13);
    assert("reasoning_tokens"@.len() == 16);
    assert("input_tokens"@.len() == 12);
    assert("output_tokens"@.len() == 13);
    assert("input_tokens_details"@.len() == 20);
    assert("output_tokens_details"@.len() == 21);
    assert("cache_read_input_tokens"@.len() == 23);
    assert("cache_creation_input_tokens"@.len() == 27);
    assert("prompt_tokens"@[0] == 'p');
    assert("total_tokens"@[0] == 't');
    assert("prompt_tokens_details"@[0] == 'p');
    assert("cached_tokens"@[0] == 'c');
    assert("input_tokens"@[0] == 'i');
    assert("output_tokens"@[0] == 'o');
    assert("output_tokens_details"@[0] == 'o');
}

/// The events of the Responses protocol.
pub(crate) proof fn response_events()
    ensures
        "response.created"@ != "response.output_text.delta"@,
        "response.created"@ != "response.refusal.delta"@,
        "response.created"@ != "response.reasoning_summary_text.delta"@,
        "response.created"@ != "response.reasoning_text.delta"@,
        "response.created"@ != "response.output_item.added"@,
        "response.created"@ != "response.function_call_arguments.delta"@,
        "response.created"@ != "response.custom_tool_call_input.delta"@,
        "response.created"@ != "response.function_call_arguments.done"@,
        "response.created"@ != "response.custom_tool_call_input.done"@,
        "response.created"@ != "response.output_item.done"@,
        "response.created"@ != "error"@,
        "response.created"@ != "response.failed"@,
        "response.created"@ != "response.completed"@,
        "response.created"@ != "response.done"@,
        "response.created"@ != "response.incomplete"@,
        "response.created"@ != "response.in_progress"@,
        "response.output_text.delta"@ != "response.refusal.delta"@,
        "response.output_text.delta"@ != "response.reasoning_summary_text.delta"@,
        "response.output_text.delta"@ != "response.reasoning_text.delta"@,
        "response.output_text.delta"@ != "response.output_item.added"@,
        "response.output_text.delta"@ != "response.function_call_arguments.delta"@,
        "response.output_text.delta"@ != "response.custom_tool_call_input.delta"@,
        "response.output_text.delta"@ != "response.function_call_arguments.done"@,
        "response.output_text.delta"@ != "response.custom_tool_call_input.done"@,
        "response.output_text.delta"@ != "response.output_item.done"@,
        "response.output_text.delta"@ != "error"@,
        "response.output_text.delta"@ != "response.failed"@,
        "response.output_text.delta"@ != "response.completed"@,
        "response.output_text.delta"@ != "response.done"@,
        "response.output_text.delta"@ != "response.incomplete"@,
        "response.output_text.delta"@ != "response.in_progress"@,
        "response.refusal.delta"@ != "response.reasoning_summary_text.delta"@,
        "response.refusal.delta"@ != "response.reasoning_text.delta"@,
        "response.refusal.delta"@ != "response.output_item.added"@,
        "response.refusal.delta"@ != "response.function_call_arguments.delta"@,
        "response.refusal.delta"@ != "response.custom_tool_call_input.delta"@,
        "response.refusal.delta"@ != "response.function_call_arguments.done"@,
        "response.refusal.delta"@ != "response.custom_tool_call_input.done"@,
        "response.refusal.delta"@ != "response.output_item.done"@,
        "response.refusal.delta"@ != "error"@,
        "response.refusal.delta"@ != "response.failed"@,
        "response.refusal.delta"@ != "response.completed"@,
        "response.refusal.delta"@ != "response.done"@,
        "response.refusal.delta"@ != "response.incomplete"@,
        "response.refusal.delta"@ != "response.in_progress"@,
        "response.reasoning_summary_text.delta"@ != "response.reasoning_text.delta"@,
        "response.reasoning_summary_text.delta"@ != "response.output_item.added"@,
        "response.reasoning_summary_text.delta"@ != "response.function_call_arguments.delta"@,
        "response.reasoning_summary_text.delta"@ != "response.custom_tool_call_input.delta"@,
        "response.reasoning_summary_text.delta"@ != "response.function_call_arguments.done"@,
        "response.reasoning_summary_text.delta"@ != "response.custom_tool_call_input.done"@,
        "response.reasoning_summary_text.delta"@ != "response.output_item.done"@,
        "response.reasoning_summary_text.delta"@ != "error"@,
        "response.reasoning_summary_text.delta"@ != "response.failed"@,
        "response.reasoning_summary_text.delta"@ != "response.completed"@,
        "response.reasoning_summary_text.delta"@ != "response.done"@,
        "response.reasoning_summary_text.delta"@ != "response.incomplete"@,
        "response.reasoning_summary_text.delta"@ != "response.in_progress"@,
        "response.reasoning_text.delta"@ != "response.output_item.added"@,
        "response.reasoning_text.delta"@ != "response.function_call_arguments.delta"@,
        "response.reasoning_text.delta"@ != "response.custom_tool_call_input.delta"@,
        "response.reasoning_text.delta"@ != "response.function_call_arguments.done"@,
        "response.reasoning_text.delta"@ != "response.custom_tool_call_input.done"@,
        "response.reasoning_text.delta"@ != "response.output_item.done"@,
        "response.reasoning_text.delta"@ != "error"@,
        "response.reasoning_text.delta"@ != "response.failed"@,
        "response.reasoning_text.delta"@ != "response.completed"@,
        "response.reasoning_text.delta"@ != "response.done"@,
        "response.reasoning_text.delta"@ != "response.incomplete"@,
        "response.reasoning_text.delta"@ != "response.in_progress"@,
        "response.output_item.added"@ != "response.function_call_arguments.delta"@,
        "response.output_item.added"@ != "response.custom_tool_call_input.delta"@,
        "response.output_item.added"@ != "response.function_call_arguments.done"@,
        "response.output_item.added"@ != "response.custom_tool_call_input.done"@,
        "response.output_item.added"@ != "response.output_item.done"@,
        "response.output_item.added"@ != "error"@,
        "response.output_item.added"@ != "response.failed"@,
        "response.output_item.added"@ != "response.completed"@,
        "response.output_item.added"@ != "response.done"@,
        "response.output_item.added"@ != "response.incomplete"@,
        "response.output_item.added"@ != "response.in_progress"@,
        "response.function_call_arguments.delta"@ != "response.custom_tool_call_input.delta"@,
        "response.function_call_arguments.delta"@ != "response.function_call_arguments.done"@,
        "response.function_call_arguments.delta"@ != "response.custom_tool_call_input.done"@,
        "response.function_call_arguments.delta"@ != "response.output_item.done"@,
        "response.function_call_arguments.delta"@ != "error"@,
        "response.function_call_arguments.delta"@ != "response.failed"@,
        "response.function_call_arguments.delta"@ != "response.completed"@,
        "response.function_call_arguments.delta"@ != "response.done"@,
        "response.function_call_arguments.delta"@ != "response.incomplete"@,
        "response.function_call_arguments.delta"@ != "response.in_progress"@,
        "response.custom_tool_call_input.delta"@ != "response.function_call_arguments.done"@,
        "response.custom_tool_call_input.delta"@ != "response.custom_tool_call_input.done"@,
        "response.custom_tool_call_input.delta"@ != "response.output_item.done"@,
        "response.custom_tool_call_input.delta"@ != "error"@,
        "response.custom_tool_call_input.delta"@ != "response.failed"@,
        "response.custom_tool_call_input.delta"@ != "response.completed"@,
        "response.custom_tool_call_input.delta"@ != "response.done"@,
        "response.custom_tool_call_input.delta"@ != "response.incomplete"@,
        "response.custom_tool_call_input.delta"@ != "response.in_progress"@,
        "response.function_call_arguments.done"@ != "response.custom_tool_call_input.done"@,
        "response.function_call_arguments.done"@ != "response.output_item.done"@,
        "response.function_call_arguments.done"@ != "error"@,
        "response.function_call_arguments.done"@ != "response.failed"@,
        "response.function_call_arguments.done"@ != "response.completed"@,
        "response.function_call_arguments.done"@ != "response.done"@,
        "response.function_call_arguments.done"@ != "response.incomplete"@,
        "response.function_call_arguments.done"@ != "response.in_progress"@,
        "response.custom_tool_call_input.done"@ != "response.output_item.done"@,
        "response.custom_tool_call_input.done"@ != "error"@,
        "response.custom_tool_call_input.done"@ != "response.failed"@,
        "response.custom_tool_call_input.done"@ != "response.completed"@,
        "response.custom_tool_call_input.done"@ != "response.done"@,
        "response.custom_tool_call_input.done"@ != "response.incomplete"@,
        "response.custom_tool_call_input.done"@ != "response.in_progress"@,
        "response.output_item.done"@ != "error"@,
        "response.output_item.done"@ != "response.failed"@,
        "response.output_item.done"@ != "response.completed"@,
        "response.output_item.done"@ != "response.done"@,
        "response.output_item.done"@ != "response.incomplete"@,
        "response.output_item.done"@ != "response.in_progress"@,
        "error"@ != "response.failed"@,
        "error"@ != "response.completed"@,
        "error"@ != "response.done"@,
        "error"@ != "response.incomplete"@,
        "error"@ != "response.in_progress"@,
        "response.failed"@ != "response.completed"@,
        "response.failed"@ != "response.done"@,
        "response.failed"@ != "response.incomplete"@,
        "response.failed"@ != "response.in_progress"@,
        "response.completed"@ != "response.done"@,
        "response.completed"@ != "response.incomplete"@,
        "response.completed"@ != "response.in_progress"@,
        "response.done"@ != "response.incomplete"@,
        "response.done"@ != "response.in_progress"@,
        "response.incomplete"@ != "response.in_progress"@,
{
    reveal_strlit("response.created");
    reveal_strlit("response.output_text.delta");
    reveal_strlit("response.refusal.delta");
    reveal_strlit("response.reasoning_summary_text.delta");
    reveal_strlit("response.reasoning_text.delta");
    reveal_strlit("response.output_item.added");
    reveal_strlit("response.function_call_arguments.delta");
    reveal_strlit("response.custom_tool_call_input.delta");
    reveal_strlit("response.function_call_arguments.done");
    reveal_strlit("response.custom_tool_call_input.done");
    reveal_strlit("response.output_item.done");
    reveal_strlit("error");
    reveal_strlit("response.failed");
    reveal_strlit("response.completed");
    reveal_strlit("response.done");
    reveal_strlit("response.incomplete");
    reveal_strlit("response.in_progress");
    assert("response.created"@.len() == 16);
    assert("response.output_text.delta"@.len() == 26);
    assert("response.refusal.delta"@.len() == 22);
    assert("response.reasoning_summary_text.delta"@.len() == 37);
    assert("response.reasoning_text.delta"@.len() == 29);
    assert("response.output_item.added"@.len() == 26);
    assert("response.function_call_arguments.delta"@.len() == 38);
    assert("response.custom_tool_call_input.delta"@.len() == 37);
    assert("response.function_call_arguments.done"@.len() == 37);
    assert("response.custom_tool_call_input.done"@.len() == 36);
    assert("response.output_item.done"@.len() == 25);
    assert("error"@.len() == 5);
    assert("response.failed"@.len() == 15);
    assert("response.completed"@.len() == 18);
    assert("response.done"@.len() == 13);
    assert("response.incomplete"@.len() == 19);
    assert("response.in_progress"@.len() == 20);
    assert("response.output_text.delta"@[16] == 't');
    assert("response.reasoning_summary_text.delta"@[9] == 'r');
    assert("response.output_item.added"@[16] == 'i');
    assert("response.custom_tool_call_input.delta"@[9] == 'c');
    assert("response.function_call_arguments.done"@[9] == 'f');
}

/// The kinds of items.
pub(crate) proof fn item_kinds()
    ensures
        "message"@ != "reasoning"@,
        "message"@ != "function_call"@,
        "message"@ != "custom_tool_call"@,
        "message"@ != "function_call_output"@,
        "message"@ != "custom_tool_call_output"@,
        "reasoning"@ != "function_call"@,
        "reasoning"@ != "custom_tool_call"@,
        "reasoning"@ != "function_call_output"@,
        "reasoning"@ != "custom_tool_call_output"@,
        "function_call"@ != "custom_tool_call"@,
        "function_call"@ != "function_call_output"@,
        "function_call"@ != "custom_tool_call_output"@,
        "custom_tool_call"@ != "function_call_output"@,
        "custom_tool_call"@ != "custom_tool_call_output"@,
        "function_call_output"@ != "custom_tool_call_output"@,
{
    reveal_strlit("message");
    reveal_strlit("reasoning");
    reveal_strlit("function_call");
    reveal_strlit("custom_tool_call");
    reveal_strlit("function_call_output");
    reveal_strlit("custom_tool_call_output");
    assert("message"@.len() == 7);
    assert("reasoning"@.len() == 9);
    assert("function_call"@.len() == 13);
    assert("custom_tool_call"@.len() == 16);
    assert("function_call_output"@.len() == 20);
    assert("custom_tool_call_output"@.len() == 23);
}

/// The members of a response.
pub(crate) proof fn envelope_words()
    ensures
        "id"@ != "object"@,
        "id"@ != "created_at"@,
        "id"@ != "status"@,
        "id"@ != "completed_at"@,
        "id"@ != "background"@,
        "id"@ != "error"@,
        "id"@ != "incomplete_details"@,
        "id"@ != "instructions"@,
        "id"@ != "max_output_tokens"@,
        "id"@ != "max_tool_calls"@,
        "id"@ != "model"@,
        "id"@ != "output"@,
        "id"@ != "parallel_tool_calls"@,
        "id"@ != "previous_response_id"@,
        "id"@ != "reasoning"@,
        "id"@ != "store"@,
        "id"@ != "temperature"@,
        "id"@ != "text"@,
        "id"@ != "tool_choice"@,
        "id"@ != "tools"@,
        "id"@ != "top_logprobs"@,
        "id"@ != "top_p"@,
        "id"@ != "truncation"@,
        "id"@ != "usage"@,
        "id"@ != "user"@,
        "id"@ != "metadata"@,
        "id"@ != "output_text"@,
        "object"@ != "created_at"@,
        "object"@ != "status"@,
        "object"@ != "completed_at"@,
        "object"@ != "background"@,
        "object"@ != "error"@,
        "object"@ != "incomplete_details"@,
        "object"@ != "instructions"@,
        "object"@ != "max_output_tokens"@,
        "object"@ != "max_tool_calls"@,
        "object"@ != "model"@,
        "object"@ != "output"@,
        "object"@ != "parallel_tool_calls"@,
        "object"@ != "previous_response_id"@,
        "object"@ != "reasoning"@,
        "object"@ != "store"@,
        "object"@ != "temperature"@,
        "object"@ != "text"@,
        "object"@ != "tool_choice"@,
        "object"@ != "tools"@,
        "object"@ != "top_logprobs"@,
        "object"@ != "top_p"@,
        "object"@ != "truncation"@,
        "object"@ != "usage"@,
        "object"@ != "user"@,
        "object"@ != "metadata"@,
        "object"@ != "output_text"@,
        "created_at"@ != "status"@,
        "created_at"@ != "completed_at"@,
        "created_at"@ != "background"@,
        "created_at"@ != "error"@,
        "created_at"@ != "incomplete_details"@,
        "created_at"@ != "instructions"@,
        "created_at"@ != "max_output_tokens"@,
        "created_at"@ != "max_tool_calls"@,
        "created_at"@ != "model"@,
        "created_at"@ != "output"@,
        "created_at"@ != "parallel_tool_calls"@,
        "created_at"@ != "previous_response_id"@,
        "created_at"@ != "reasoning"@,
        "created_at"@ != "store"@,
        "created_at"@ != "temperature"@,
        "created_at"@ != "text"@,
        "created_at"@ != "tool_choice"@,
        "created_at"@ != "tools"@,
        "created_at"@ != "top_logprobs"@,
        "created_at"@ != "top_p"@,
        "created_at"@ != "truncation"@,
        "created_at"@ != "usage"@,
        "created_at"@ != "user"@,
        "created_at"@ != "metadata"@,
        "created_at"@ != "output_text"@,
        "status"@ != "completed_at"@,
        "status"@ != "background"@,
        "status"@ != "error"@,
        "status"@ != "incomplete_details"@,
        "status"@ != "instructions"@,
        "status"@ != "max_output_tokens"@,
        "status"@ != "max_tool_calls"@,
        "status"@ != "model"@,
        "status"@ != "output"@,
        "status"@ != "parallel_tool_calls"@,
        "status"@ != "previous_response_id"@,
        "status"@ != "reasoning"@,
        "status"@ != "store"@,
        "status"@ != "temperature"@,
        "status"@ != "text"@,
        "status"@ != "tool_choice"@,
        "status"@ != "tools"@,
        "status"@ != "top_logprobs"@,
        "status"@ != "top_p"@,
        "status"@ != "truncation"@,
        "status"@ != "usage"@,
        "status"@ != "user"@,
        "status"@ != "metadata"@,
        "status"@ != "output_text"@,
        "completed_at"@ != "background"@,
        "completed_at"@ != "error"@,
        "completed_at"@ != "incomplete_details"@,
        "completed_at"@ != "instructions"@,
        "completed_at"@ != "max_output_tokens"@,
        "completed_at"@ != "max_tool_calls"@,
        "completed_at"@ != "model"@,
        "completed_at"@ != "output"@,
        "completed_at"@ != "parallel_tool_calls"@,
        "completed_at"@ != "previous_response_id"@,
        "completed_at"@ != "reasoning"@,
        "completed_at"@ != "store"@,
        "completed_at"@ != "temperature"@,
        "completed_at"@ != "text"@,
        "completed_at"@ != "tool_choice"@,
        "completed_at"@ != "tools"@,
        "completed_at"@ != "top_logprobs"@,
        "completed_at"@ != "top_p"@,
        "completed_at"@ != "truncation"@,
        "completed_at"@ != "usage"@,
        "completed_at"@ != "user"@,
        "completed_at"@ != "metadata"@,
        "completed_at"@ != "output_text"@,
        "background"@ != "error"@,
        "background"@ != "incomplete_details"@,
        "background"@ != "instructions"@,
        "background"@ != "max_output_tokens"@,
        "background"@ != "max_tool_calls"@,
        "background"@ != "model"@,
        "background"@ != "output"@,
        "background"@ != "parallel_tool_calls"@,
        "background"@ != "previous_response_id"@,
        "background"@ != "reasoning"@,
        "background"@ != "store"@,
        "background"@ != "temperature"@,
        "background"@ != "text"@,
        "background"@ != "tool_choice"@,
        "background"@ != "tools"@,
        "background"@ != "top_logprobs"@,
        "background"@ != "top_p"@,
        "background"@ != "truncation"@,
        "background"@ != "usage"@,
        "background"@ != "user"@,
        "background"@ != "metadata"@,
        "background"@ != "output_text"@,
        "error"@ != "incomplete_details"@,
        "error"@ != "instructions"@,
        "error"@ != "max_output_tokens"@,
        "error"@ != "max_tool_calls"@,
        "error"@ != "model"@,
        "error"@ != "output"@,
        "error"@ != "parallel_tool_calls"@,
        "error"@ != "previous_response_id"@,
        "error"@ != "reasoning"@,
        "error"@ != "store"@,
        "error"@ != "temperature"@,
        "error"@ != "text"@,
        "error"@ != "tool_choice"@,
        "error"@ != "tools"@,
        "error"@ != "top_logprobs"@,
        "error"@ != "top_p"@,
        "error"@ != "truncation"@,
        "error"@ != "usage"@,
        "error"@ != "user"@,
        "error"@ != "metadata"@,
        "error"@ != "output_text"@,
        "incomplete_details"@ != "instructions"@,
        "incomplete_details"@ != "max_output_tokens"@,
        "incomplete_details"@ != "max_tool_calls"@,
        "incomplete_details"@ != "model"@,
        "incomplete_details"@ != "output"@,
        "incomplete_details"@ != "parallel_tool_calls"@,
        "incomplete_details"@ != "previous_response_id"@,
        "incomplete_details"@ != "reasoning"@,
        "incomplete_details"@ != "store"@,
        "incomplete_details"@ != "temperature"@,
        "incomplete_details"@ != "text"@,
        "incomplete_details"@ != "tool_choice"@,
        "incomplete_details"@ != "tools"@,
        "incomplete_details"@ != "top_logprobs"@,
        "incomplete_details"@ != "top_p"@,
        "incomplete_details"@ != "truncation"@,
        "incomplete_details"@ != "usage"@,
        "incomplete_details"@ != "user"@,
        "incomplete_details"@ != "metadata"@,
        "incomplete_details"@ != "output_text"@,
        "instructions"@ != "max_output_tokens"@,
        "instructions"@ != "max_tool_calls"@,
        "instructions"@ != "model"@,
        "instructions"@ != "output"@,
        "instructions"@ != "parallel_tool_calls"@,
        "instructions"@ != "previous_response_id"@,
        "instructions"@ != "reasoning"@,
        "instructions"@ != "store"@,
        "instructions"@ != "temperature"@,
        "instructions"@ != "text"@,
        "instructions"@ != "tool_choice"@,
        "instructions"@ != "tools"@,
        "instructions"@ != "top_logprobs"@,
        "instructions"@ != "top_p"@,
        "instructions"@ != "truncation"@,
        "instructions"@ != "usage"@,
        "instructions"@ != "user"@,
        "instructions"@ != "metadata"@,
        "instructions"@ != "output_text"@,
        "max_output_tokens"@ != "max_tool_calls"@,
        "max_output_tokens"@ != "model"@,
        "max_output_tokens"@ != "output"@,
        "max_output_tokens"@ != "parallel_tool_calls"@,
        "max_output_tokens"@ != "previous_response_id"@,
        "max_output_tokens"@ != "reasoning"@,
        "max_output_tokens"@ != "store"@,
        "max_output_tokens"@ != "temperature"@,
        "max_output_tokens"@ != "text"@,
        "max_output_tokens"@ != "tool_choice"@,
        "max_output_tokens"@ != "tools"@,
        "max_output_tokens"@ != "top_logprobs"@,
        "max_output_tokens"@ != "top_p"@,
        "max_output_tokens"@ != "truncation"@,
        "max_output_tokens"@ != "usage"@,
        "max_output_tokens"@ != "user"@,
        "max_output_tokens"@ != "metadata"@,
        "max_output_tokens"@ != "output_text"@,
        "max_tool_calls"@ != "model"@,
        "max_tool_calls"@ != "output"@,
        "max_tool_calls"@ != "parallel_tool_calls"@,
        "max_tool_calls"@ != "previous_response_id"@,
        "max_tool_calls"@ != "reasoning"@,
        "max_tool_calls"@ != "store"@,
        "max_tool_calls"@ != "temperature"@,
        "max_tool_calls"@ != "text"@,
        "max_tool_calls"@ != "tool_choice"@,
        "max_tool_calls"@ != "tools"@,
        "max_tool_calls"@ != "top_logprobs"@,
        "max_tool_calls"@ != "top_p"@,
        "max_tool_calls"@ != "truncation"@,
        "max_tool_calls"@ != "usage"@,
        "max_tool_calls"@ != "user"@,
        "max_tool_calls"@ != "metadata"@,
        "max_tool_calls"@ != "output_text"@,
        "model"@ != "output"@,
        "model"@ != "parallel_tool_calls"@,
        "model"@ != "previous_response_id"@,
        "model"@ != "reasoning"@,
        "model"@ != "store"@,
        "model"@ != "temperature"@,
        "model"@ != "text"@,
        "model"@ != "tool_choice"@,
        "model"@ != "tools"@,
        "model"@ != "top_logprobs"@,
        "model"@ != "top_p"@,
        "model"@ != "truncation"@,
        "model"@ != "usage"@,
        "model"@ != "user"@,
        "model"@ != "metadata"@,
        "model"@ != "output_text"@,
        "output"@ != "parallel_tool_calls"@,
        "output"@ != "previous_response_id"@,
        "output"@ != "reasoning"@,
        "output"@ != "store"@,
        "output"@ != "temperature"@,
        "output"@ != "text"@,
        "output"@ != "tool_choice"@,
        "output"@ != "tools"@,
        "output"@ != "top_logprobs"@,
        "output"@ != "top_p"@,
        "output"@ != "truncation"@,
        "output"@ != "usage"@,
        "output"@ != "user"@,
        "output"@ != "metadata"@,
        "output"@ != "output_text"@,
        "parallel_tool_calls"@ != "previous_response_id"@,
        "parallel_tool_calls"@ != "reasoning"@,
        "parallel_tool_calls"@ != "store"@,
        "parallel_tool_calls"@ != "temperature"@,
        "parallel_tool_calls"@ != "text"@,
        "parallel_tool_calls"@ != "tool_choice"@,
        "parallel_tool_calls"@ != "tools"@,
        "parallel_tool_calls"@ != "top_logprobs"@,
        "parallel_tool_calls"@ != "top_p"@,
        "parallel_tool_calls"@ != "truncation"@,
        "parallel_tool_calls"@ != "usage"@,
        "parallel_tool_calls"@ != "user"@,
        "parallel_tool_calls"@ != "metadata"@,
        "parallel_tool_calls"@ != "output_text"@,
        "previous_response_id"@ != "reasoning"@,
        "previous_response_id"@ != "store"@,
        "previous_response_id"@ != "temperature"@,
        "previous_response_id"@ != "text"@,
        "previous_response_id"@ != "tool_choice"@,
        "previous_response_id"@ != "tools"@,
        "previous_response_id"@ != "top_logprobs"@,
        "previous_response_id"@ != "top_p"@,
        "previous_response_id"@ != "truncation"@,
        "previous_response_id"@ != "usage"@,
        "previous_response_id"@ != "user"@,
        "previous_response_id"@ != "metadata"@,
        "previous_response_id"@ != "output_text"@,
        "reasoning"@ != "store"@,
        "reasoning"@ != "temperature"@,
        "reasoning"@ != "text"@,
        "reasoning"@ != "tool_choice"@,
        "reasoning"@ != "tools"@,
        "reasoning"@ != "top_logprobs"@,
        "reasoning"@ != "top_p"@,
        "reasoning"@ != "truncation"@,
        "reasoning"@ != "usage"@,
        "reasoning"@ != "user"@,
        "reasoning"@ != "metadata"@,
        "reasoning"@ != "output_text"@,
        "store"@ != "temperature"@,
        "store"@ != "text"@,
        "store"@ != "tool_choice"@,
        "store"@ != "tools"@,
        "store"@ != "top_logprobs"@,
        "store"@ != "top_p"@,
        "store"@ != "truncation"@,
        "store"@ != "usage"@,
        "store"@ != "user"@,
        "store"@ != "metadata"@,
        "store"@ != "output_text"@,
        "temperature"@ != "text"@,
        "temperature"@ != "tool_choice"@,
        "temperature"@ != "tools"@,
        "temperature"@ != "top_logprobs"@,
        "temperature"@ != "top_p"@,
        "temperature"@ != "truncation"@,
        "temperature"@ != "usage"@,
        "temperature"@ != "user"@,
        "temperature"@ != "metadata"@,
        "temperature"@ != "output_text"@,
        "text"@ != "tool_choice"@,
        "text"@ != "tools"@,
        "text"@ != "top_logprobs"@,
        "text"@ != "top_p"@,
        "text"@ != "truncation"@,
        "text"@ != "usage"@,
        "text"@ != "user"@,
        "text"@ != "metadata"@,
        "text"@ != "output_text"@,
        "tool_choice"@ != "tools"@,
        "tool_choice"@ != "top_logprobs"@,
        "tool_choice"@ != "top_p"@,
        "tool_choice"@ != "truncation"@,
        "tool_choice"@ != "usage"@,
        "tool_choice"@ != "user"@,
        "tool_choice"@ != "metadata"@,
        "tool_choice"@ != "output_text"@,
        "tools"@ != "top_logprobs"@,
        "tools"@ != "top_p"@,
        "tools"@ != "truncation"@,
        "tools"@ != "usage"@,
        "tools"@ != "user"@,
        "tools"@ != "metadata"@,
        "tools"@ != "output_text"@,
        "top_logprobs"@ != "top_p"@,
        "top_logprobs"@ != "truncation"@,
        "top_logprobs"@ != "usage"@,
        "top_logprobs"@ != "user"@,
        "top_logprobs"@ != "metadata"@,
        "top_logprobs"@ != "output_text"@,
        "top_p"@ != "truncation"@,
        "top_p"@ != "usage"@,
        "top_p"@ != "user"@,
        "top_p"@ != "metadata"@,
        "top_p"@ != "output_text"@,
        "truncation"@ != "usage"@,
        "truncation"@ != "user"@,
        "truncation"@ != "metadata"@,
        "truncation"@ != "output_text"@,
        "usage"@ != "user"@,
        "usage"@ != "metadata"@,
        "usage"@ != "output_text"@,
        "user"@ != "metadata"@,
        "user"@ != "output_text"@,
        "metadata"@ != "output_text"@,
{
    reveal_strlit("id");
    reveal_strlit("object");
    reveal_strlit("created_at");
    reveal_strlit("status");
    reveal_strlit("completed_at");
    reveal_strlit("background");
    reveal_strlit("error");
    reveal_strlit("incomplete_details");
    reveal_strlit("instructions");
    reveal_strlit("max_output_tokens");
    reveal_strlit("max_tool_calls");
    reveal_strlit("model");
    reveal_strlit("output");
    reveal_strlit("parallel_tool_calls");
    reveal_strlit("previous_response_id");
    reveal_strlit("reasoning");
    reveal_strlit("store");
    reveal_strlit("temperature");
    reveal_strlit("text");
    reveal_strlit("tool_choice");
    reveal_strlit("tools");
    reveal_strlit("top_logprobs");
    reveal_strlit("top_p");
    reveal_strlit("truncation");
    reveal_strlit("usage");
    reveal_strlit("user");
    reveal_strlit("metadata");
    reveal_strlit("output_text");
    assert("id"@.len() == 2);
    assert("object"@.len() == 6);
    assert("created_at"@.len() == 10);
    assert("status"@.len() == 6);
    assert("completed_at"@.len() == 12);
    assert("background"@.len() == 10);
    assert("error"@.len() == 5);
    assert("incomplete_details"@.len() == 18);
    assert("instructions"@.len() == 12);
    assert("max_output_tokens"@.len() == 17);
    assert("max_tool_calls"@.len() == 14);
    assert("model"@.len() == 5);
    assert("output"@.len() == 6);
    assert("parallel_tool_calls"@.len() == 19);
    assert("previous_response_id"@.len() == 20);
    assert("reasoning"@.len() == 9);
    assert("store"@.len() == 5);
    assert("temperature"@.len() == 11);
    assert("text"@.len() == 4);
    assert("tool_choice"@.len() == 11);
    assert("tools"@.len() == 5);
    assert("top_logprobs"@.len() == 12);
    assert("top_p"@.len() == 5);
    assert("truncation"@.len() == 10);
    assert("usage"@.len() == 5);
    assert("user"@.len() == 4);
    assert("metadata"@.len() == 8);
    assert("output_text"@.len() == 11);
    assert("object"@[0] == 'o');
    assert("object"@[1] == 'b');
    assert("created_at"@[0] == 'c');
    assert("status"@[0] == 's');
    assert("completed_at"@[0] == 'c');
    assert("background"@[0] == 'b');
    assert("error"@[0] == 'e');
    assert("instructions"@[0] == 'i');
    assert("model"@[0] == 'm');
    assert("output"@[0] == 'o');
    assert("output"@[1] == 'u');
    assert("store"@[0] == 's');
    assert("temperature"@[0] == 't');
    assert("temperature"@[1] == 'e');
    assert("text"@[0] == 't');
    assert("tool_choice"@[0] == 't');
    assert("tool_choice"@[1] == 'o');
    assert("tools"@[0] == 't');
    assert("tools"@[2] == 'o');
    assert("top_logprobs"@[0] == 't');
    assert("top_p"@[0] == 't');
    assert("top_p"@[2] == 'p');
    assert("truncation"@[0] == 't');
    assert("usage"@[0] == 'u');
    assert("user"@[0] == 'u');
    assert("output_text"@[0] == 'o');
}

/// The members of requests that both protocols share.
pub(crate) proof fn chat_request_words()
    ensures
        "model"@ != "messages"@,
        "model"@ != "input"@,
        "model"@ != "stream"@,
        "model"@ != "instructions"@,
        "model"@ != "max_output_tokens"@,
        "model"@ != "temperature"@,
        "model"@ != "top_p"@,
        "model"@ != "service_tier"@,
        "model"@ != "parallel_tool_calls"@,
        "model"@ != "user"@,
        "model"@ != "metadata"@,
        "model"@ != "tools"@,
        "model"@ != "tool_choice"@,
        "model"@ != "text"@,
        "model"@ != "reasoning"@,
        "model"@ != "store"@,
        "model"@ != "max_completion_tokens"@,
        "model"@ != "response_format"@,
        "model"@ != "reasoning_effort"@,
        "messages"@ != "input"@,
        "messages"@ != "stream"@,
        "messages"@ != "instructions"@,
        "messages"@ != "max_output_tokens"@,
        "messages"@ != "temperature"@,
        "messages"@ != "top_p"@,
        "messages"@ != "service_tier"@,
        "messages"@ != "parallel_tool_calls"@,
        "messages"@ != "user"@,
        "messages"@ != "metadata"@,
        "messages"@ != "tools"@,
        "messages"@ != "tool_choice"@,
        "messages"@ != "text"@,
        "messages"@ != "reasoning"@,
        "messages"@ != "store"@,
        "messages"@ != "max_completion_tokens"@,
        "messages"@ != "response_format"@,
        "messages"@ != "reasoning_effort"@,
        "input"@ != "stream"@,
        "input"@ != "instructions"@,
        "input"@ != "max_output_tokens"@,
        "input"@ != "temperature"@,
        "input"@ != "top_p"@,
        "input"@ != "service_tier"@,
        "input"@ != "parallel_tool_calls"@,
        "input"@ != "user"@,
        "input"@ != "metadata"@,
        "input"@ != "tools"@,
        "input"@ != "tool_choice"@,
        "input"@ != "text"@,
        "input"@ != "reasoning"@,
        "input"@ != "store"@,
        "input"@ != "max_completion_tokens"@,
        "input"@ != "response_format"@,
        "input"@ != "reasoning_effort"@,
        "stream"@ != "instructions"@,
        "stream"@ != "max_output_tokens"@,
        "stream"@ != "temperature"@,
        "stream"@ != "top_p"@,
        "stream"@ != "service_tier"@,
        "stream"@ != "parallel_tool_calls"@,
        "stream"@ != "user"@,
        "stream"@ != "metadata"@,
        "stream"@ != "tools"@,
        "stream"@ != "tool_choice"@,
        "stream"@ != "text"@,
        "stream"@ != "reasoning"@,
        "stream"@ != "store"@,
        "stream"@ != "max_completion_tokens"@,
        "stream"@ != "response_format"@,
        "stream"@ != "reasoning_effort"@,
        "instructions"@ != "max_output_tokens"@,
        "instructions"@ != "temperature"@,
        "instructions"@ != "top_p"@,
        "instructions"@ != "service_tier"@,
        "instructions"@ != "parallel_tool_calls"@,
        "instructions"@ != "user"@,
        "instructions"@ != "metadata"@,
        "instructions"@ != "tools"@,
        "instructions"@ != "tool_choice"@,
        "instructions"@ != "text"@,
        "instructions"@ != "reasoning"@,
        "instructions"@ != "store"@,
        "instructions"@ != "max_completion_tokens"@,
        "instructions"@ != "response_format"@,
        "instructions"@ != "reasoning_effort"@,
        "max_output_tokens"@ != "temperature"@,
        "max_output_tokens"@ != "top_p"@,
        "max_output_tokens"@ != "service_tier"@,
        "max_output_tokens"@ != "parallel_tool_calls"@,
        "max_output_tokens"@ != "user"@,
        "max_output_tokens"@ != "metadata"@,
        "max_output_tokens"@ != "tools"@,
        "max_output_tokens"@ != "tool_choice"@,
        "max_output_tokens"@ != "text"@,
        "max_output_tokens"@ != "reasoning"@,
        "max_output_tokens"@ != "store"@,
        "max_output_tokens"@ != "max_completion_tokens"@,
        "max_output_tokens"@ != "response_format"@,
        "max_output_tokens"@ != "reasoning_effort"@,
        "temperature"@ != "top_p"@,
        "temperature"@ != "service_tier"@,
        "temperature"@ != "parallel_tool_calls"@,
        "temperature"@ != "user"@,
        "temperature"@ != "metadata"@,
        "temperature"@ != "tools"@,
        "temperature"@ != "tool_choice"@,
        "temperature"@ != "text"@,
        "temperature"@ != "reasoning"@,
        "temperature"@ != "store"@,
        "temperature"@ != "max_completion_tokens"@,
        "temperature"@ != "response_format"@,
        "temperature"@ != "reasoning_effort"@,
        "top_p"@ != "service_tier"@,
        "top_p"@ != "parallel_tool_calls"@,
        "top_p"@ != "user"@,
        "top_p"@ != "metadata"@,
        "top_p"@ != "tools"@,
        "top_p"@ != "tool_choice"@,
        "top_p"@ != "text"@,
        "top_p"@ != "reasoning"@,
        "top_p"@ != "store"@,
        "top_p"@ != "max_completion_tokens"@,
        "top_p"@ != "response_format"@,
        "top_p"@ != "reasoning_effort"@,
        "service_tier"@ != "parallel_tool_calls"@,
        "service_tier"@ != "user"@,
        "service_tier"@ != "metadata"@,
        "service_tier"@ != "tools"@,
        "service_tier"@ != "tool_choice"@,
        "service_tier"@ != "text"@,
        "service_tier"@ != "reasoning"@,
        "service_tier"@ != "store"@,
        "service_tier"@ != "max_completion_tokens"@,
        "service_tier"@ != "response_format"@,
        "service_tier"@ != "reasoning_effort"@,
        "parallel_tool_calls"@ != "user"@,
        "parallel_tool_calls"@ != "metadata"@,
        "parallel_tool_calls"@ != "tools"@,
        "parallel_tool_calls"@ != "tool_choice"@,
        "parallel_tool_calls"@ != "text"@,
        "parallel_tool_calls"@ != "reasoning"@,
        "parallel_tool_calls"@ != "store"@,
        "parallel_tool_calls"@ != "max_completion_tokens"@,
        "parallel_tool_calls"@ != "response_format"@,
        "parallel_tool_calls"@ != "reasoning_effort"@,
        "user"@ != "metadata"@,
        "user"@ != "tools"@,
        "user"@ != "tool_choice"@,
        "user"@ != "text"@,
        "user"@ != "reasoning"@,
        "user"@ != "store"@,
        "user"@ != "max_completion_tokens"@,
        "user"@ != "response_format"@,
        "user"@ != "reasoning_effort"@,
        "metadata"@ != "tools"@,
        "metadata"@ != "tool_choice"@,
        "metadata"@ != "text"@,
        "metadata"@ != "reasoning"@,
        "metadata"@ != "store"@,
        "metadata"@ != "max_completion_tokens"@,
        "metadata"@ != "response_format"@,
        "metadata"@ != "reasoning_effort"@,
        "tools"@ != "tool_choice"@,
        "tools"@ != "text"@,
        "tools"@ != "reasoning"@,
        "tools"@ != "store"@,
        "tools"@ != "max_completion_tokens"@,
        "tools"@ != "response_format"@,
        "tools"@ != "reasoning_effort"@,
        "tool_choice"@ != "text"@,
        "tool_choice"@ != "reasoning"@,
        "tool_choice"@ != "store"@,
        "tool_choice"@ != "max_completion_tokens"@,
        "tool_choice"@ != "response_format"@,
        "tool_choice"@ != "reasoning_effort"@,
        "text"@ != "reasoning"@,
        "text"@ != "store"@,
        "text"@ != "max_completion_tokens"@,
        "text"@ != "response_format"@,
        "text"@ != "reasoning_effort"@,
        "reasoning"@ != "store"@,
        "reasoning"@ != "max_completion_tokens"@,
        "reasoning"@ != "response_format"@,
        "reasoning"@ != "reasoning_effort"@,
        "store"@ != "max_completion_tokens"@,
        "store"@ != "response_format"@,
        "store"@ != "reasoning_effort"@,
        "max_completion_tokens"@ != "response_format"@,
        "max_completion_tokens"@ != "reasoning_effort"@,
        "response_format"@ != "reasoning_effort"@,
{
    reveal_strlit("model");
    reveal_strlit("messages");
    reveal_strlit("input");
    reveal_strlit("stream");
    reveal_strlit("instructions");
    reveal_strlit("max_output_tokens");
    reveal_strlit("temperature");
    reveal_strlit("top_p");
    reveal_strlit("service_tier");
    reveal_strlit("parallel_tool_calls");
    reveal_strlit("user");
    reveal_strlit("metadata");
    reveal_strlit("tools");
    reveal_strlit("tool_choice");
    reveal_strlit("text");
    reveal_strlit("reasoning");
    reveal_strlit("store");
    reveal_strlit("max_completion_tokens");
    reveal_strlit("response_format");
    reveal_strlit("reasoning_effort");
    assert("model"@.len() == 5);
    assert("messages"@.len() == 8);
    assert("input"@.len() == 5);
    assert("stream"@.len() == 6);
    assert("instructions"@.len() == 12);
    assert("max_output_tokens"@.len() == 17);
    assert("temperature"@.len() == 11);
    assert("top_p"@.len() == 5);
    assert("service_tier"@.len() == 12);
    assert("parallel_tool_calls"@.len() == 19);
    assert("user"@.len() == 4);
    assert("metadata"@.len() == 8);
    assert("tools"@.len() == 5);
    assert("tool_choice"@.len() == 11);
    assert("text"@.len() == 4);
    assert("reasoning"@.len() == 9);
    assert("store"@.len() == 5);
    assert("max_completion_tokens"@.len() == 21);
    assert("response_format"@.len() == 15);
    assert("reasoning_effort"@.len() == 16);
    assert("model"@[0] == 'm');
    assert("messages"@[2] == 's');
    assert("input"@[0] == 'i');
    assert("instructions"@[0] == 'i');
    assert("temperature"@[1] == 'e');
    assert("top_p"@[0] == 't');
    assert("top_p"@[2] == 'p');
    assert("service_tier"@[0] == 's');
    assert("user"@[0] == 'u');
    assert("metadata"@[2] == 't');
    assert("tools"@[0] == 't');
    assert("tools"@[2] == 'o');
    assert("tool_choice"@[1] == 'o');
    assert("text"@[0] == 't');
    assert("store"@[0] == 's');
}

/// The members of items.
pub(crate) proof fn item_words()
    ensures
        "type"@ != "id"@,
        "type"@ != "call_id"@,
        "type"@ != "name"@,
        "type"@ != "arguments"@,
        "type"@ != "role"@,
        "type"@ != "content"@,
        "type"@ != "text"@,
        "type"@ != "image_url"@,
        "type"@ != "output"@,
        "type"@ != "input"@,
        "type"@ != "status"@,
        "type"@ != "summary"@,
        "type"@ != "annotations"@,
        "type"@ != "logprobs"@,
        "type"@ != "namespace"@,
        "type"@ != "reason"@,
        "id"@ != "call_id"@,
        "id"@ != "name"@,
        "id"@ != "arguments"@,
        "id"@ != "role"@,
        "id"@ != "content"@,
        "id"@ != "text"@,
        "id"@ != "image_url"@,
        "id"@ != "output"@,
        "id"@ != "input"@,
        "id"@ != "status"@,
        "id"@ != "summary"@,
        "id"@ != "annotations"@,
        "id"@ != "logprobs"@,
        "id"@ != "namespace"@,
        "id"@ != "reason"@,
        "call_id"@ != "name"@,
        "call_id"@ != "arguments"@,
        "call_id"@ != "role"@,
        "call_id"@ != "content"@,
        "call_id"@ != "text"@,
        "call_id"@ != "image_url"@,
        "call_id"@ != "output"@,
        "call_id"@ != "input"@,
        "call_id"@ != "status"@,
        "call_id"@ != "summary"@,
        "call_id"@ != "annotations"@,
        "call_id"@ != "logprobs"@,
        "call_id"@ != "namespace"@,
        "call_id"@ != "reason"@,
        "name"@ != "arguments"@,
        "name"@ != "role"@,
        "name"@ != "content"@,
        "name"@ != "text"@,
        "name"@ != "image_url"@,
        "name"@ != "output"@,
        "name"@ != "input"@,
        "name"@ != "status"@,
        "name"@ != "summary"@,
        "name"@ != "annotations"@,
        "name"@ != "logprobs"@,
        "name"@ != "namespace"@,
        "name"@ != "reason"@,
        "arguments"@ != "role"@,
        "arguments"@ != "content"@,
        "arguments"@ != "text"@,
        "arguments"@ != "image_url"@,
        "arguments"@ != "output"@,
        "arguments"@ != "input"@,
        "arguments"@ != "status"@,
        "arguments"@ != "summary"@,
        "arguments"@ != "annotations"@,
        "arguments"@ != "logprobs"@,
        "arguments"@ != "namespace"@,
        "arguments"@ != "reason"@,
        "role"@ != "content"@,
        "role"@ != "text"@,
        "role"@ != "image_url"@,
        "role"@ != "output"@,
        "role"@ != "input"@,
        "role"@ != "status"@,
        "role"@ != "summary"@,
        "role"@ != "annotations"@,
        "role"@ != "logprobs"@,
        "role"@ != "namespace"@,
        "role"@ != "reason"@,
        "content"@ != "text"@,
        "content"@ != "image_url"@,
        "content"@ != "output"@,
        "content"@ != "input"@,
        "content"@ != "status"@,
        "content"@ != "summary"@,
        "content"@ != "annotations"@,
        "content"@ != "logprobs"@,
        "content"@ != "namespace"@,
        "content"@ != "reason"@,
        "text"@ != "image_url"@,
        "text"@ != "output"@,
        "text"@ != "input"@,
        "text"@ != "status"@,
        "text"@ != "summary"@,
        "text"@ != "annotations"@,
        "text"@ != "logprobs"@,
        "text"@ != "namespace"@,
        "text"@ != "reason"@,
        "image_url"@ != "output"@,
        "image_url"@ != "input"@,
        "image_url"@ != "status"@,
        "image_url"@ != "summary"@,
        "image_url"@ != "annotations"@,
        "image_url"@ != "logprobs"@,
        "image_url"@ != "namespace"@,
        "image_url"@ != "reason"@,
        "output"@ != "input"@,
        "output"@ != "status"@,
        "output"@ != "summary"@,
        "output"@ != "annotations"@,
        "output"@ != "logprobs"@,
        "output"@ != "namespace"@,
        "output"@ != "reason"@,
        "input"@ != "status"@,
        "input"@ != "summary"@,
        "input"@ != "annotations"@,
        "input"@ != "logprobs"@,
        "input"@ != "namespace"@,
        "input"@ != "reason"@,
        "status"@ != "summary"@,
        "status"@ != "annotations"@,
        "status"@ != "logprobs"@,
        "status"@ != "namespace"@,
        "status"@ != "reason"@,
        "summary"@ != "annotations"@,
        "summary"@ != "logprobs"@,
        "summary"@ != "namespace"@,
        "summary"@ != "reason"@,
        "annotations"@ != "logprobs"@,
        "annotations"@ != "namespace"@,
        "annotations"@ != "reason"@,
        "logprobs"@ != "namespace"@,
        "logprobs"@ != "reason"@,
        "namespace"@ != "reason"@,
{
    reveal_strlit("type");
    reveal_strlit("id");
    reveal_strlit("call_id");
    reveal_strlit("name");
    reveal_strlit("arguments");
    reveal_strlit("role");
    reveal_strlit("content");
    reveal_strlit("text");
    reveal_strlit("image_url");
    reveal_strlit("output");
    reveal_strlit("input");
    reveal_strlit("status");
    reveal_strlit("summary");
    reveal_strlit("annotations");
    reveal_strlit("logprobs");
    reveal_strlit("namespace");
    reveal_strlit("reason");
    assert("type"@.len() == 4);
    assert("id"@.len() == 2);
    assert("call_id"@.len() == 7);
    assert("name"@.len() == 4);
    assert("arguments"@.len() == 9);
    assert("role"@.len() == 4);
    assert("content"@.len() == 7);
    assert("text"@.len() == 4);
    assert("image_url"@.len() == 9);
    assert("output"@.len() == 6);
    assert("input"@.len() == 5);
    assert("status"@.len() == 6);
    assert("summary"@.len() == 7);
    assert("annotations"@.len() == 11);
    assert("logprobs"@.len() == 8);
    assert("namespace"@.len() == 9);
    assert("reason"@.len() == 6);
    assert("type"@[0] == 't');
    assert("type"@[1] == 'y');
    assert("call_id"@[0] == 'c');
    assert("call_id"@[1] == 'a');
    assert("name"@[0] == 'n');
    assert("arguments"@[0] == 'a');
    assert("role"@[0] == 'r');
    assert("content"@[0] == 'c');
    assert("content"@[1] == 'o');
    assert("text"@[0] == 't');
    assert("text"@[1] == 'e');
    assert("image_url"@[0] == 'i');
    assert("output"@[0] == 'o');
    assert("status"@[0] == 's');
    assert("summary"@[0] == 's');
    assert("namespace"@[0] == 'n');
    assert("reason"@[0] == 'r');
}

/// The members of formats.
pub(crate) proof fn format_words()
    ensures
        "type"@ != "json_schema"@,
        "type"@ != "name"@,
        "type"@ != "description"@,
        "type"@ != "schema"@,
        "type"@ != "strict"@,
        "type"@ != "format"@,
        "type"@ != "effort"@,
        "type"@ != "summary"@,
        "type"@ != "parameters"@,
        "type"@ != "input_schema"@,
        "type"@ != "properties"@,
        "type"@ != "budget_tokens"@,
        "type"@ != "function"@,
        "json_schema"@ != "name"@,
        "json_schema"@ != "description"@,
        "json_schema"@ != "schema"@,
        "json_schema"@ != "strict"@,
        "json_schema"@ != "format"@,
        "json_schema"@ != "effort"@,
        "json_schema"@ != "summary"@,
        "json_schema"@ != "parameters"@,
        "json_schema"@ != "input_schema"@,
        "json_schema"@ != "properties"@,
        "json_schema"@ != "budget_tokens"@,
        "json_schema"@ != "function"@,
        "name"@ != "description"@,
        "name"@ != "schema"@,
        "name"@ != "strict"@,
        "name"@ != "format"@,
        "name"@ != "effort"@,
        "name"@ != "summary"@,
        "name"@ != "parameters"@,
        "name"@ != "input_schema"@,
        "name"@ != "properties"@,
        "name"@ != "budget_tokens"@,
        "name"@ != "function"@,
        "description"@ != "schema"@,
        "description"@ != "strict"@,
        "description"@ != "format"@,
        "description"@ != "effort"@,
        "description"@ != "summary"@,
        "description"@ != "parameters"@,
        "description"@ != "input_schema"@,
        "description"@ != "properties"@,
        "description"@ != "budget_tokens"@,
        "description"@ != "function"@,
        "schema"@ != "strict"@,
        "schema"@ != "format"@,
        "schema"@ != "effort"@,
        "schema"@ != "summary"@,
        "schema"@ != "parameters"@,
        "schema"@ != "input_schema"@,
        "schema"@ != "properties"@,
        "schema"@ != "budget_tokens"@,
        "schema"@ != "function"@,
        "strict"@ != "format"@,
        "strict"@ != "effort"@,
        "strict"@ != "summary"@,
        "strict"@ != "parameters"@,
        "strict"@ != "input_schema"@,
        "strict"@ != "properties"@,
        "strict"@ != "budget_tokens"@,
        "strict"@ != "function"@,
        "format"@ != "effort"@,
        "format"@ != "summary"@,
        "format"@ != "parameters"@,
        "format"@ != "input_schema"@,
        "format"@ != "properties"@,
        "format"@ != "budget_tokens"@,
        "format"@ != "function"@,
        "effort"@ != "summary"@,
        "effort"@ != "parameters"@,
        "effort"@ != "input_schema"@,
        "effort"@ != "properties"@,
        "effort"@ != "budget_tokens"@,
        "effort"@ != "function"@,
        "summary"@ != "parameters"@,
        "summary"@ != "input_schema"@,
        "summary"@ != "properties"@,
        "summary"@ != "budget_tokens"@,
        "summary"@ != "function"@,
        "parameters"@ != "input_schema"@,
        "parameters"@ != "properties"@,
        "parameters"@ != "budget_tokens"@,
        "parameters"@ != "function"@,
        "input_schema"@ != "properties"@,
        "input_schema"@ != "budget_tokens"@,
        "input_schema"@ != "function"@,
        "properties"@ != "budget_tokens"@,
        "properties"@ != "function"@,
        "budget_tokens"@ != "function"@,
{
    reveal_strlit("type");
    reveal_strlit("json_schema");
    reveal_strlit("name");
    reveal_strlit("description");
    reveal_strlit("schema");
    reveal_strlit("strict");
    reveal_strlit("format");
    reveal_strlit("effort");
    reveal_strlit("summary");
    reveal_strlit("parameters");
    reveal_strlit("input_schema");
    reveal_strlit("properties");
    reveal_strlit("budget_tokens");
    reveal_strlit("function");
    assert("type"@.len() == 4);
    assert("json_schema"@.len() == 11);
    assert("name"@.len() == 4);
    assert("description"@.len() == 11);
    assert("schema"@.len() == 6);
    assert("strict"@.len() == 6);
    assert("format"@.len() == 6);
    assert("effort"@.len() == 6);
    assert("summary"@.len() == 7);
    assert("parameters"@.len() == 10);
    assert("input_schema"@.len() == 12);
    assert("properties"@.len() == 10);
    assert("budget_tokens"@.len() == 13);
    assert("function"@.len() == 8);
    assert("type"@[0] == 't');
    assert("json_schema"@[0] == 'j');
    assert("name"@[0] == 'n');
    assert("description"@[0] == 'd');
    assert("schema"@[0] == 's');
    assert("schema"@[1] == 'c');
    assert("strict"@[0] == 's');
    assert("strict"@[1] == 't');
    assert("format"@[0] == 'f');
    assert("effort"@[0] == 'e');
    assert("parameters"@[1] == 'a');
    assert("properties"@[1] == 'r');
}

/// The kinds of parts.
pub(crate) proof fn part_kinds()
    ensures
        "input_text"@ != "text"@,
        "input_text"@ != "output_text"@,
        "input_text"@ != "input_image"@,
        "input_text"@ != "image_url"@,
        "input_text"@ != "input_file"@,
        "input_text"@ != "additional_tools"@,
        "input_text"@ != "message"@,
        "input_text"@ != "reasoning"@,
        "input_text"@ != "function_call"@,
        "input_text"@ != "custom_tool_call"@,
        "input_text"@ != "function_call_output"@,
        "input_text"@ != "custom_tool_call_output"@,
        "text"@ != "output_text"@,
        "text"@ != "input_image"@,
        "text"@ != "image_url"@,
        "text"@ != "input_file"@,
        "text"@ != "additional_tools"@,
        "text"@ != "message"@,
        "text"@ != "reasoning"@,
        "text"@ != "function_call"@,
        "text"@ != "custom_tool_call"@,
        "text"@ != "function_call_output"@,
        "text"@ != "custom_tool_call_output"@,
        "output_text"@ != "input_image"@,
        "output_text"@ != "image_url"@,
        "output_text"@ != "input_file"@,
        "output_text"@ != "additional_tools"@,
        "output_text"@ != "message"@,
        "output_text"@ != "reasoning"@,
        "output_text"@ != "function_call"@,
        "output_text"@ != "custom_tool_call"@,
        "output_text"@ != "function_call_output"@,
        "output_text"@ != "custom_tool_call_output"@,
        "input_image"@ != "image_url"@,
        "input_image"@ != "input_file"@,
        "input_image"@ != "additional_tools"@,
        "input_image"@ != "message"@,
        "input_image"@ != "reasoning"@,
        "input_image"@ != "function_call"@,
        "input_image"@ != "custom_tool_call"@,
        "input_image"@ != "function_call_output"@,
        "input_image"@ != "custom_tool_call_output"@,
        "image_url"@ != "input_file"@,
        "image_url"@ != "additional_tools"@,
        "image_url"@ != "message"@,
        "image_url"@ != "reasoning"@,
        "image_url"@ != "function_call"@,
        "image_url"@ != "custom_tool_call"@,
        "image_url"@ != "function_call_output"@,
        "image_url"@ != "custom_tool_call_output"@,
        "input_file"@ != "additional_tools"@,
        "input_file"@ != "message"@,
        "input_file"@ != "reasoning"@,
        "input_file"@ != "function_call"@,
        "input_file"@ != "custom_tool_call"@,
        "input_file"@ != "function_call_output"@,
        "input_file"@ != "custom_tool_call_output"@,
        "additional_tools"@ != "message"@,
        "additional_tools"@ != "reasoning"@,
        "additional_tools"@ != "function_call"@,
        "additional_tools"@ != "custom_tool_call"@,
        "additional_tools"@ != "function_call_output"@,
        "additional_tools"@ != "custom_tool_call_output"@,
        "message"@ != "reasoning"@,
        "message"@ != "function_call"@,
        "message"@ != "custom_tool_call"@,
        "message"@ != "function_call_output"@,
        "message"@ != "custom_tool_call_output"@,
        "reasoning"@ != "function_call"@,
        "reasoning"@ != "custom_tool_call"@,
        "reasoning"@ != "function_call_output"@,
        "reasoning"@ != "custom_tool_call_output"@,
        "function_call"@ != "custom_tool_call"@,
        "function_call"@ != "function_call_output"@,
        "function_call"@ != "custom_tool_call_output"@,
        "custom_tool_call"@ != "function_call_output"@,
        "custom_tool_call"@ != "custom_tool_call_output"@,
        "function_call_output"@ != "custom_tool_call_output"@,
{
    reveal_strlit("input_text");
    reveal_strlit("text");
    reveal_strlit("output_text");
    reveal_strlit("input_image");
    reveal_strlit("image_url");
    reveal_strlit("input_file");
    reveal_strlit("additional_tools");
    reveal_strlit("message");
    reveal_strlit("reasoning");
    reveal_strlit("function_call");
    reveal_strlit("custom_tool_call");
    reveal_strlit("function_call_output");
    reveal_strlit("custom_tool_call_output");
    assert("input_text"@.len() == 10);
    assert("text"@.len() == 4);
    assert("output_text"@.len() == 11);
    assert("input_image"@.len() == 11);
    assert("image_url"@.len() == 9);
    assert("input_file"@.len() == 10);
    assert("additional_tools"@.len() == 16);
    assert("message"@.len() == 7);
    assert("reasoning"@.len() == 9);
    assert("function_call"@.len() == 13);
    assert("custom_tool_call"@.len() == 16);
    assert("function_call_output"@.len() == 20);
    assert("custom_tool_call_output"@.len() == 23);
    assert("input_text"@[6] == 't');
    assert("output_text"@[0] == 'o');
    assert("input_image"@[0] == 'i');
    assert("image_url"@[0] == 'i');
    assert("input_file"@[6] == 'f');
    assert("additional_tools"@[0] == 'a');
    assert("reasoning"@[0] == 'r');
    assert("custom_tool_call"@[0] == 'c');
}

/// The events of a Responses stream.
pub(crate) proof fn stream_events()
    ensures
        "response.created"@ != "response.output_item.added"@,
        "response.created"@ != "response.reasoning_summary_part.added"@,
        "response.created"@ != "response.reasoning_summary_text.delta"@,
        "response.created"@ != "response.reasoning_summary_text.done"@,
        "response.created"@ != "response.reasoning_summary_part.done"@,
        "response.created"@ != "response.output_item.done"@,
        "response.created"@ != "response.content_part.added"@,
        "response.created"@ != "response.output_text.delta"@,
        "response.created"@ != "response.output_text.done"@,
        "response.created"@ != "response.content_part.done"@,
        "response.created"@ != "response.function_call_arguments.delta"@,
        "response.created"@ != "response.function_call_arguments.done"@,
        "response.created"@ != "response.custom_tool_call_input.done"@,
        "response.created"@ != "error"@,
        "response.created"@ != "response.failed"@,
        "response.created"@ != "response.completed"@,
        "response.output_item.added"@ != "response.reasoning_summary_part.added"@,
        "response.output_item.added"@ != "response.reasoning_summary_text.delta"@,
        "response.output_item.added"@ != "response.reasoning_summary_text.done"@,
        "response.output_item.added"@ != "response.reasoning_summary_part.done"@,
        "response.output_item.added"@ != "response.output_item.done"@,
        "response.output_item.added"@ != "response.content_part.added"@,
        "response.output_item.added"@ != "response.output_text.delta"@,
        "response.output_item.added"@ != "response.output_text.done"@,
        "response.output_item.added"@ != "response.content_part.done"@,
        "response.output_item.added"@ != "response.function_call_arguments.delta"@,
        "response.output_item.added"@ != "response.function_call_arguments.done"@,
        "response.output_item.added"@ != "response.custom_tool_call_input.done"@,
        "response.output_item.added"@ != "error"@,
        "response.output_item.added"@ != "response.failed"@,
        "response.output_item.added"@ != "response.completed"@,
        "response.reasoning_summary_part.added"@ != "response.reasoning_summary_text.delta"@,
        "response.reasoning_summary_part.added"@ != "response.reasoning_summary_text.done"@,
        "response.reasoning_summary_part.added"@ != "response.reasoning_summary_part.done"@,
        "response.reasoning_summary_part.added"@ != "response.output_item.done"@,
        "response.reasoning_summary_part.added"@ != "response.content_part.added"@,
        "response.reasoning_summary_part.added"@ != "response.output_text.delta"@,
        "response.reasoning_summary_part.added"@ != "response.output_text.done"@,
        "response.reasoning_summary_part.added"@ != "response.content_part.done"@,
        "response.reasoning_summary_part.added"@ != "response.function_call_arguments.delta"@,
        "response.reasoning_summary_part.added"@ != "response.function_call_arguments.done"@,
        "response.reasoning_summary_part.added"@ != "response.custom_tool_call_input.done"@,
        "response.reasoning_summary_part.added"@ != "error"@,
        "response.reasoning_summary_part.added"@ != "response.failed"@,
        "response.reasoning_summary_part.added"@ != "response.completed"@,
        "response.reasoning_summary_text.delta"@ != "response.reasoning_summary_text.done"@,
        "response.reasoning_summary_text.delta"@ != "response.reasoning_summary_part.done"@,
        "response.reasoning_summary_text.delta"@ != "response.output_item.done"@,
        "response.reasoning_summary_text.delta"@ != "response.content_part.added"@,
        "response.reasoning_summary_text.delta"@ != "response.output_text.delta"@,
        "response.reasoning_summary_text.delta"@ != "response.output_text.done"@,
        "response.reasoning_summary_text.delta"@ != "response.content_part.done"@,
        "response.reasoning_summary_text.delta"@ != "response.function_call_arguments.delta"@,
        "response.reasoning_summary_text.delta"@ != "response.function_call_arguments.done"@,
        "response.reasoning_summary_text.delta"@ != "response.custom_tool_call_input.done"@,
        "response.reasoning_summary_text.delta"@ != "error"@,
        "response.reasoning_summary_text.delta"@ != "response.failed"@,
        "response.reasoning_summary_text.delta"@ != "response.completed"@,
        "response.reasoning_summary_text.done"@ != "response.reasoning_summary_part.done"@,
        "response.reasoning_summary_text.done"@ != "response.output_item.done"@,
        "response.reasoning_summary_text.done"@ != "response.content_part.added"@,
        "response.reasoning_summary_text.done"@ != "response.output_text.delta"@,
        "response.reasoning_summary_text.done"@ != "response.output_text.done"@,
        "response.reasoning_summary_text.done"@ != "response.content_part.done"@,
        "response.reasoning_summary_text.done"@ != "response.function_call_arguments.delta"@,
        "response.reasoning_summary_text.done"@ != "response.function_call_arguments.done"@,
        "response.reasoning_summary_text.done"@ != "response.custom_tool_call_input.done"@,
        "response.reasoning_summary_text.done"@ != "error"@,
        "response.reasoning_summary_text.done"@ != "response.failed"@,
        "response.reasoning_summary_text.done"@ != "response.completed"@,
        "response.reasoning_summary_part.done"@ != "response.output_item.done"@,
        "response.reasoning_summary_part.done"@ != "response.content_part.added"@,
        "response.reasoning_summary_part.done"@ != "response.output_text.delta"@,
        "response.reasoning_summary_part.done"@ != "response.output_text.done"@,
        "response.reasoning_summary_part.done"@ != "response.content_part.done"@,
        "response.reasoning_summary_part.done"@ != "response.function_call_arguments.delta"@,
        "response.reasoning_summary_part.done"@ != "response.function_call_arguments.done"@,
        "response.reasoning_summary_part.done"@ != "response.custom_tool_call_input.done"@,
        "response.reasoning_summary_part.done"@ != "error"@,
        "response.reasoning_summary_part.done"@ != "response.failed"@,
        "response.reasoning_summary_part.done"@ != "response.completed"@,
        "response.output_item.done"@ != "response.content_part.added"@,
        "response.output_item.done"@ != "response.output_text.delta"@,
        "response.output_item.done"@ != "response.output_text.done"@,
        "response.output_item.done"@ != "response.content_part.done"@,
        "response.output_item.done"@ != "response.function_call_arguments.delta"@,
        "response.output_item.done"@ != "response.function_call_arguments.done"@,
        "response.output_item.done"@ != "response.custom_tool_call_input.done"@,
        "response.output_item.done"@ != "error"@,
        "response.output_item.done"@ != "response.failed"@,
        "response.output_item.done"@ != "response.completed"@,
        "response.content_part.added"@ != "response.output_text.delta"@,
        "response.content_part.added"@ != "response.output_text.done"@,
        "response.content_part.added"@ != "response.content_part.done"@,
        "response.content_part.added"@ != "response.function_call_arguments.delta"@,
        "response.content_part.added"@ != "response.function_call_arguments.done"@,
        "response.content_part.added"@ != "response.custom_tool_call_input.done"@,
        "response.content_part.added"@ != "error"@,
        "response.content_part.added"@ != "response.failed"@,
        "response.content_part.added"@ != "response.completed"@,
        "response.output_text.delta"@ != "response.output_text.done"@,
        "response.output_text.delta"@ != "response.content_part.done"@,
        "response.output_text.delta"@ != "response.function_call_arguments.delta"@,
        "response.output_text.delta"@ != "response.function_call_arguments.done"@,
        "response.output_text.delta"@ != "response.custom_tool_call_input.done"@,
        "response.output_text.delta"@ != "error"@,
        "response.output_text.delta"@ != "response.failed"@,
        "response.output_text.delta"@ != "response.completed"@,
        "response.output_text.done"@ != "response.content_part.done"@,
        "response.output_text.done"@ != "response.function_call_arguments.delta"@,
        "response.output_text.done"@ != "response.function_call_arguments.done"@,
        "response.output_text.done"@ != "response.custom_tool_call_input.done"@,
        "response.output_text.done"@ != "error"@,
        "response.output_text.done"@ != "response.failed"@,
        "response.output_text.done"@ != "response.completed"@,
        "response.content_part.done"@ != "response.function_call_arguments.delta"@,
        "response.content_part.done"@ != "response.function_call_arguments.done"@,
        "response.content_part.done"@ != "response.custom_tool_call_input.done"@,
        "response.content_part.done"@ != "error"@,
        "response.content_part.done"@ != "response.failed"@,
        "response.content_part.done"@ != "response.completed"@,
        "response.function_call_arguments.delta"@ != "response.function_call_arguments.done"@,
        "response.function_call_arguments.delta"@ != "response.custom_tool_call_input.done"@,
        "response.function_call_arguments.delta"@ != "error"@,
        "response.function_call_arguments.delta"@ != "response.failed"@,
        "response.function_call_arguments.delta"@ != "response.completed"@,
        "response.function_call_arguments.done"@ != "response.custom_tool_call_input.done"@,
        "response.function_call_arguments.done"@ != "error"@,
        "response.function_call_arguments.done"@ != "response.failed"@,
        "response.function_call_arguments.done"@ != "response.completed"@,
        "response.custom_tool_call_input.done"@ != "error"@,
        "response.custom_tool_call_input.done"@ != "response.failed"@,
        "response.custom_tool_call_input.done"@ != "response.completed"@,
        "error"@ != "response.failed"@,
        "error"@ != "response.completed"@,
        "response.failed"@ != "response.completed"@,
{
    reveal_strlit("response.created");
    reveal_strlit("response.output_item.added");
    reveal_strlit("response.reasoning_summary_part.added");
    reveal_strlit("response.reasoning_summary_text.delta");
    reveal_strlit("response.reasoning_summary_text.done");
    reveal_strlit("response.reasoning_summary_part.done");
    reveal_strlit("response.output_item.done");
    reveal_strlit("response.content_part.added");
    reveal_strlit("response.output_text.delta");
    reveal_strlit("response.output_text.done");
    reveal_strlit("response.content_part.done");
    reveal_strlit("response.function_call_arguments.delta");
    reveal_strlit("response.function_call_arguments.done");
    reveal_strlit("response.custom_tool_call_input.done");
    reveal_strlit("error");
    reveal_strlit("response.failed");
    reveal_strlit("response.completed");
    assert("response.created"@.len() == 16);
    assert("response.output_item.added"@.len() == 26);
    assert("response.reasoning_summary_part.added"@.len() == 37);
    assert("response.reasoning_summary_text.delta"@.len() == 37);
    assert("response.reasoning_summary_text.done"@.len() == 36);
    assert("response.reasoning_summary_part.done"@.len() == 36);
    assert("response.output_item.done"@.len() == 25);
    assert("response.content_part.added"@.len() == 27);
    assert("response.output_text.delta"@.len() == 26);
    assert("response.output_text.done"@.len() == 25);
    assert("response.content_part.done"@.len() == 26);
    assert("response.function_call_arguments.delta"@.len() == 38);
    assert("response.function_call_arguments.done"@.len() == 37);
    assert("response.custom_tool_call_input.done"@.len() == 36);
    assert("error"@.len() == 5);
    assert("response.failed"@.len() == 15);
    assert("response.completed"@.len() == 18);
    assert("response.output_item.added"@[9] == 'o');
    assert("response.output_item.added"@[16] == 'i');
    assert("response.reasoning_summary_part.added"@[9] == 'r');
    assert("response.reasoning_summary_part.added"@[27] == 'p');
    assert("response.reasoning_summary_text.delta"@[9] == 'r');
    assert("response.reasoning_summary_text.delta"@[27] == 't');
    assert("response.reasoning_summary_text.done"@[9] == 'r');
    assert("response.reasoning_summary_text.done"@[27] == 't');
    assert("response.reasoning_summary_part.done"@[9] == 'r');
    assert("response.reasoning_summary_part.done"@[27] == 'p');
    assert("response.output_item.done"@[16] == 'i');
    assert("response.output_text.delta"@[9] == 'o');
    assert("response.output_text.delta"@[16] == 't');
    assert("response.output_text.done"@[16] == 't');
    assert("response.content_part.done"@[9] == 'c');
    assert("response.function_call_arguments.done"@[9] == 'f');
    assert("response.custom_tool_call_input.done"@[9] == 'c');
}

/// The members of the events of a Responses stream.
pub(crate) proof fn stream_members()
    ensures
        "delta"@ != "type"@,
        "delta"@ != "sequence_number"@,
        "delta"@ != "item_id"@,
        "delta"@ != "output_index"@,
        "delta"@ != "content_index"@,
        "delta"@ != "summary_index"@,
        "delta"@ != "call_id"@,
        "delta"@ != "name"@,
        "delta"@ != "text"@,
        "delta"@ != "part"@,
        "delta"@ != "item"@,
        "delta"@ != "arguments"@,
        "delta"@ != "input"@,
        "delta"@ != "response"@,
        "delta"@ != "code"@,
        "delta"@ != "message"@,
        "delta"@ != "param"@,
        "type"@ != "sequence_number"@,
        "type"@ != "item_id"@,
        "type"@ != "output_index"@,
        "type"@ != "content_index"@,
        "type"@ != "summary_index"@,
        "type"@ != "call_id"@,
        "type"@ != "name"@,
        "type"@ != "text"@,
        "type"@ != "part"@,
        "type"@ != "item"@,
        "type"@ != "arguments"@,
        "type"@ != "input"@,
        "type"@ != "response"@,
        "type"@ != "code"@,
        "type"@ != "message"@,
        "type"@ != "param"@,
        "sequence_number"@ != "item_id"@,
        "sequence_number"@ != "output_index"@,
        "sequence_number"@ != "content_index"@,
        "sequence_number"@ != "summary_index"@,
        "sequence_number"@ != "call_id"@,
        "sequence_number"@ != "name"@,
        "sequence_number"@ != "text"@,
        "sequence_number"@ != "part"@,
        "sequence_number"@ != "item"@,
        "sequence_number"@ != "arguments"@,
        "sequence_number"@ != "input"@,
        "sequence_number"@ != "response"@,
        "sequence_number"@ != "code"@,
        "sequence_number"@ != "message"@,
        "sequence_number"@ != "param"@,
        "item_id"@ != "output_index"@,
        "item_id"@ != "content_index"@,
        "item_id"@ != "summary_index"@,
        "item_id"@ != "call_id"@,
        "item_id"@ != "name"@,
        "item_id"@ != "text"@,
        "item_id"@ != "part"@,
        "item_id"@ != "item"@,
        "item_id"@ != "arguments"@,
        "item_id"@ != "input"@,
        "item_id"@ != "response"@,
        "item_id"@ != "code"@,
        "item_id"@ != "message"@,
        "item_id"@ != "param"@,
        "output_index"@ != "content_index"@,
        "output_index"@ != "summary_index"@,
        "output_index"@ != "call_id"@,
        "output_index"@ != "name"@,
        "output_index"@ != "text"@,
        "output_index"@ != "part"@,
        "output_index"@ != "item"@,
        "output_index"@ != "arguments"@,
        "output_index"@ != "input"@,
        "output_index"@ != "response"@,
        "output_index"@ != "code"@,
        "output_index"@ != "message"@,
        "output_index"@ != "param"@,
        "content_index"@ != "summary_index"@,
        "content_index"@ != "call_id"@,
        "content_index"@ != "name"@,
        "content_index"@ != "text"@,
        "content_index"@ != "part"@,
        "content_index"@ != "item"@,
        "content_index"@ != "arguments"@,
        "content_index"@ != "input"@,
        "content_index"@ != "response"@,
        "content_index"@ != "code"@,
        "content_index"@ != "message"@,
        "content_index"@ != "param"@,
        "summary_index"@ != "call_id"@,
        "summary_index"@ != "name"@,
        "summary_index"@ != "text"@,
        "summary_index"@ != "part"@,
        "summary_index"@ != "item"@,
        "summary_index"@ != "arguments"@,
        "summary_index"@ != "input"@,
        "summary_index"@ != "response"@,
        "summary_index"@ != "code"@,
        "summary_index"@ != "message"@,
        "summary_index"@ != "param"@,
        "call_id"@ != "name"@,
        "call_id"@ != "text"@,
        "call_id"@ != "part"@,
        "call_id"@ != "item"@,
        "call_id"@ != "arguments"@,
        "call_id"@ != "input"@,
        "call_id"@ != "response"@,
        "call_id"@ != "code"@,
        "call_id"@ != "message"@,
        "call_id"@ != "param"@,
        "name"@ != "text"@,
        "name"@ != "part"@,
        "name"@ != "item"@,
        "name"@ != "arguments"@,
        "name"@ != "input"@,
        "name"@ != "response"@,
        "name"@ != "code"@,
        "name"@ != "message"@,
        "name"@ != "param"@,
        "text"@ != "part"@,
        "text"@ != "item"@,
        "text"@ != "arguments"@,
        "text"@ != "input"@,
        "text"@ != "response"@,
        "text"@ != "code"@,
        "text"@ != "message"@,
        "text"@ != "param"@,
        "part"@ != "item"@,
        "part"@ != "arguments"@,
        "part"@ != "input"@,
        "part"@ != "response"@,
        "part"@ != "code"@,
        "part"@ != "message"@,
        "part"@ != "param"@,
        "item"@ != "arguments"@,
        "item"@ != "input"@,
        "item"@ != "response"@,
        "item"@ != "code"@,
        "item"@ != "message"@,
        "item"@ != "param"@,
        "arguments"@ != "input"@,
        "arguments"@ != "response"@,
        "arguments"@ != "code"@,
        "arguments"@ != "message"@,
        "arguments"@ != "param"@,
        "input"@ != "response"@,
        "input"@ != "code"@,
        "input"@ != "message"@,
        "input"@ != "param"@,
        "response"@ != "code"@,
        "response"@ != "message"@,
        "response"@ != "param"@,
        "code"@ != "message"@,
        "code"@ != "param"@,
        "message"@ != "param"@,
{
    reveal_strlit("delta");
    reveal_strlit("type");
    reveal_strlit("sequence_number");
    reveal_strlit("item_id");
    reveal_strlit("output_index");
    reveal_strlit("content_index");
    reveal_strlit("summary_index");
    reveal_strlit("call_id");
    reveal_strlit("name");
    reveal_strlit("text");
    reveal_strlit("part");
    reveal_strlit("item");
    reveal_strlit("arguments");
    reveal_strlit("input");
    reveal_strlit("response");
    reveal_strlit("code");
    reveal_strlit("message");
    reveal_strlit("param");
    assert("delta"@.len() == 5);
    assert("type"@.len() == 4);
    assert("sequence_number"@.len() == 15);
    assert("item_id"@.len() == 7);
    assert("output_index"@.len() == 12);
    assert("content_index"@.len() == 13);
    assert("summary_index"@.len() == 13);
    assert("call_id"@.len() == 7);
    assert("name"@.len() == 4);
    assert("text"@.len() == 4);
    assert("part"@.len() == 4);
    assert("item"@.len() == 4);
    assert("arguments"@.len() == 9);
    assert("input"@.len() == 5);
    assert("response"@.len() == 8);
    assert("code"@.len() == 4);
    assert("message"@.len() == 7);
    assert("param"@.len() == 5);
    assert("delta"@[0] == 'd');
    assert("type"@[0] == 't');
    assert("type"@[1] == 'y');
    assert("item_id"@[0] == 'i');
    assert("content_index"@[0] == 'c');
    assert("summary_index"@[0] == 's');
    assert("call_id"@[0] == 'c');
    assert("name"@[0] == 'n');
    assert("text"@[0] == 't');
    assert("text"@[1] == 'e');
    assert("part"@[0] == 'p');
    assert("item"@[0] == 'i');
    assert("input"@[0] == 'i');
    assert("code"@[0] == 'c');
    assert("message"@[0] == 'm');
    assert("param"@[0] == 'p');
}

} // verus!
