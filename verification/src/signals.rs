//! Signal extraction from a transcript record's message content: tool
//! invocation and tool result markers, interruption markers, local no-op
//! commands, and displayable text.

use vstd::prelude::*;

use crate::text::{contains_seq, str_contains, str_eq, str_trim, trim_spec};

verus! {

/// One typed content block of a structured message body.
#[derive(Debug, Clone)]
pub struct ContentBlock {
    pub block_type: Option<String>,
    pub text: Option<String>,
}

/// A message body: absent (or of an unrecognised shape), a plain string, or
/// a list of typed content blocks.
#[derive(Debug, Clone)]
pub enum MessageContent {
    Absent,
    Text(String),
    Blocks(Vec<ContentBlock>),
}

/// The block carries the given type tag.
pub open spec fn block_has_type(b: ContentBlock, t: Seq<char>) -> bool {
    b.block_type matches Some(bt) && bt@ == t
}

/// The content is a block list holding at least one block of the given type.
pub open spec fn spec_has_block_of_type(c: MessageContent, t: Seq<char>) -> bool {
    c matches MessageContent::Blocks(blocks) && exists|i: int|
        0 <= i < blocks@.len() && block_has_type(#[trigger] blocks@[i], t)
}

#[verifier::loop_isolation(false)]
fn has_block_of_type(content: &MessageContent, t: &str) -> (r: bool)
    ensures
        r == spec_has_block_of_type(*content, t@),
{
    match content {
        MessageContent::Blocks(blocks) => {
            let mut i: usize = 0;
            while i < blocks.len()
                invariant
                    i <= blocks.len(),
                    forall|j: int| 0 <= j < i ==> !block_has_type(#[trigger] blocks@[j], t@),
                decreases blocks.len() - i,
            {
                match &blocks[i].block_type {
                    Some(bt) => {
                        if str_eq(bt.as_str(), t) {
                            assert(block_has_type(content->Blocks_0@[i as int], t@));
                            return true;
                        }
                    },
                    None => {},
                }
                i += 1;
            }
            false
        },
        _ => false,
    }
}

/// Whether the message content contains a tool invocation block.
pub fn has_tool_use(content: &MessageContent) -> (r: bool)
    ensures
        r == spec_has_block_of_type(*content, "tool_use"@),
{
    has_block_of_type(content, "tool_use")
}

/// Whether the message content contains a tool result block.
pub fn has_tool_result(content: &MessageContent) -> (r: bool)
    ensures
        r == spec_has_block_of_type(*content, "tool_result"@),
{
    has_block_of_type(content, "tool_result")
}

/// The text field of the first block that has one, if any.
pub open spec fn first_block_text(blocks: Seq<ContentBlock>) -> Option<Seq<char>>
    decreases blocks.len(),
{
    if blocks.len() == 0 {
        None
    } else {
        match blocks[0].text {
            Some(t) => Some(t@),
            None => first_block_text(blocks.drop_first()),
        }
    }
}

/// The text of a message content: a plain string body itself, or the text of
/// the first block carrying one, or empty.
pub open spec fn spec_extract_text(c: MessageContent) -> Seq<char> {
    match c {
        MessageContent::Text(s) => s@,
        MessageContent::Blocks(blocks) => match first_block_text(blocks@) {
            Some(t) => t,
            None => Seq::<char>::empty(),
        },
        MessageContent::Absent => Seq::<char>::empty(),
    }
}

/// Extracts the text of a message content.
#[verifier::loop_isolation(false)]
pub fn extract_text_content(content: &MessageContent) -> (r: &str)
    ensures
        r@ == spec_extract_text(*content),
{
    proof {
        reveal_strlit("");
        assert(""@ =~= Seq::<char>::empty());
    }
    match content {
        MessageContent::Text(s) => s.as_str(),
        MessageContent::Blocks(blocks) => {
            assert(blocks@.skip(0) =~= blocks@);
            let mut i: usize = 0;
            while i < blocks.len()
                invariant
                    i <= blocks.len(),
                    first_block_text(blocks@) == first_block_text(blocks@.skip(i as int)),
                decreases blocks.len() - i,
            {
                proof {
                    assert(blocks@.skip(i as int).drop_first() =~= blocks@.skip(i + 1));
                    assert(blocks@.skip(i as int)[0] == blocks@[i as int]);
                }
                match &blocks[i].text {
                    Some(t) => {
                        assert(first_block_text(content->Blocks_0@) == Some(t@));
                        return t.as_str();
                    },
                    None => {},
                }
                i += 1;
            }
            assert(blocks@.skip(blocks@.len() as int) =~= Seq::<ContentBlock>::empty());
            ""
        },
        MessageContent::Absent => "",
    }
}

/// The marker text written into a transcript when the user interrupts a
/// request.
pub open spec fn spec_is_interrupted(c: MessageContent) -> bool {
    contains_seq(spec_extract_text(c), "[Request interrupted by user]"@)
}

/// Whether the message content indicates an interrupted request.
pub fn is_interrupted_request(content: &MessageContent) -> (r: bool)
    ensures
        r == spec_is_interrupted(*content),
{
    let text = extract_text_content(content);
    str_contains(text, "[Request interrupted by user]")
}

/// The trimmed text equals the command, or starts with the command followed
/// by a space.
pub open spec fn matches_command(text: Seq<char>, cmd: Seq<char>) -> bool {
    crate::text::eq_or_extends(text, cmd, ' ')
}

fn cmd_matches(text: &str, cmd: &str) -> (r: bool)
    ensures
        r == matches_command(text@, cmd@),
{
    crate::text::str_eq_or_extends(text, cmd, ' ')
}

/// The trimmed message text is one of the local no-op commands, standing
/// alone or followed by arguments.
pub open spec fn spec_is_local_command(c: MessageContent) -> bool {
    let t = trim_spec(spec_extract_text(c));
    ||| matches_command(t, "/clear"@)
    ||| matches_command(t, "/compact"@)
    ||| matches_command(t, "/help"@)
    ||| matches_command(t, "/config"@)
    ||| matches_command(t, "/cost"@)
    ||| matches_command(t, "/doctor"@)
    ||| matches_command(t, "/init"@)
    ||| matches_command(t, "/login"@)
    ||| matches_command(t, "/logout"@)
    ||| matches_command(t, "/memory"@)
    ||| matches_command(t, "/model"@)
    ||| matches_command(t, "/permissions"@)
    ||| matches_command(t, "/pr-comments"@)
    ||| matches_command(t, "/review"@)
    ||| matches_command(t, "/status"@)
    ||| matches_command(t, "/terminal-setup"@)
    ||| matches_command(t, "/vim"@)
}

/// Whether the message content is a local command that the CLI handles by
/// itself, so that no agent turn will follow it.
pub fn is_local_slash_command(content: &MessageContent) -> (r: bool)
    ensures
        r == spec_is_local_command(*content),
{
    let text = str_trim(extract_text_content(content));
    ||| cmd_matches(text, "/clear")
    ||| cmd_matches(text, "/compact")
    ||| cmd_matches(text, "/help")
    ||| cmd_matches(text, "/config")
    ||| cmd_matches(text, "/cost")
    ||| cmd_matches(text, "/doctor")
    ||| cmd_matches(text, "/init")
    ||| cmd_matches(text, "/login")
    ||| cmd_matches(text, "/logout")
    ||| cmd_matches(text, "/memory")
    ||| cmd_matches(text, "/model")
    ||| cmd_matches(text, "/permissions")
    ||| cmd_matches(text, "/pr-comments")
    ||| cmd_matches(text, "/review")
    ||| cmd_matches(text, "/status")
    ||| cmd_matches(text, "/terminal-setup")
    ||| cmd_matches(text, "/vim")
}

/// The text of the first block carrying non-empty text, if any.
pub open spec fn first_nonempty_block_text(blocks: Seq<ContentBlock>) -> Option<Seq<char>>
    decreases blocks.len(),
{
    if blocks.len() == 0 {
        None
    } else {
        match blocks[0].text {
            Some(t) => if t@.len() > 0 {
                Some(t@)
            } else {
                first_nonempty_block_text(blocks.drop_first())
            },
            None => first_nonempty_block_text(blocks.drop_first()),
        }
    }
}

/// The displayable text of a message content, if it has any: a non-empty
/// string body, or the text of the first block carrying non-empty text.
pub open spec fn spec_preview_text(c: MessageContent) -> Option<Seq<char>> {
    match c {
        MessageContent::Text(s) => if s@.len() > 0 {
            Some(s@)
        } else {
            None
        },
        MessageContent::Blocks(blocks) => first_nonempty_block_text(blocks@),
        MessageContent::Absent => None,
    }
}

/// Extracts the displayable text of a message content, if it has any.
#[verifier::loop_isolation(false)]
pub fn content_preview_text(content: &MessageContent) -> (r: Option<&str>)
    ensures
        r.deep_view() == spec_preview_text(*content),
{
    match content {
        MessageContent::Text(s) => {
            if s.as_str().is_empty() {
                None
            } else {
                Some(s.as_str())
            }
        },
        MessageContent::Blocks(blocks) => {
            assert(blocks@.skip(0) =~= blocks@);
            let mut i: usize = 0;
            while i < blocks.len()
                invariant
                    i <= blocks.len(),
                    first_nonempty_block_text(blocks@) == first_nonempty_block_text(
                        blocks@.skip(i as int),
                    ),
                decreases blocks.len() - i,
            {
                proof {
                    assert(blocks@.skip(i as int).drop_first() =~= blocks@.skip(i + 1));
                    assert(blocks@.skip(i as int)[0] == blocks@[i as int]);
                }
                match &blocks[i].text {
                    Some(t) => {
                        if !t.as_str().is_empty() {
                            assert(first_nonempty_block_text(content->Blocks_0@) == Some(t@));
                            return Some(t.as_str());
                        }
                    },
                    None => {},
                }
                i += 1;
            }
            assert(blocks@.skip(blocks@.len() as int) =~= Seq::<ContentBlock>::empty());
            None
        },
        MessageContent::Absent => None,
    }
}

/// The message content is non-empty: a non-empty string body or a non-empty
/// block list. Only such a record determines the status signals.
pub open spec fn spec_has_content(c: MessageContent) -> bool {
    match c {
        MessageContent::Text(s) => s@.len() > 0,
        MessageContent::Blocks(blocks) => blocks@.len() > 0,
        MessageContent::Absent => false,
    }
}

/// Whether the message content is non-empty.
pub fn has_content(content: &MessageContent) -> (r: bool)
    ensures
        r == spec_has_content(*content),
{
    match content {
        MessageContent::Text(s) => !s.as_str().is_empty(),
        MessageContent::Blocks(blocks) => blocks.len() > 0,
        MessageContent::Absent => false,
    }
}

} // verus!
