use vstd::prelude::*;

verus! {

/// The pattern a hyperlink must match: scheme `http` or `https`, an
/// optional `www.`, a host of URL characters ending in a segment of one to
/// six characters, and an optional path or query.
pub const LINK_PATTERN: &'static str =
    r#"https?://(www\.)?[-a-zA-Z0-9@:%._\+~#=]{1,256}\.[a-zA-Z0-9()]{1,6}\b([-a-zA-Z0-9()@:%_\+.~#?&/=]*)"#;

#[verifier::external_type_specification]
#[verifier::external_body]
pub struct ExRegexError(regex::Error);

/// Whether the regex engine accepts `pattern`.
pub uninterp spec fn regex_compiles(pattern: Seq<char>) -> bool;

/// Whether `pattern` matches somewhere in `text`.
pub uninterp spec fn regex_finds(pattern: Seq<char>, text: Seq<char>) -> bool;

/// Relies on regex::Regex::new, which compiles `pattern` or reports why it
/// cannot, and on regex::Regex::is_match, which tells whether the compiled
/// pattern matches anywhere in `text`. Both depend on their arguments alone.
#[verifier::external_body]
fn regex_search(pattern: &str, text: &str) -> (r: Result<bool, regex::Error>)
    ensures
        r is Ok <==> regex_compiles(pattern@),
        r matches Ok(found) ==> found == regex_finds(pattern@, text@),
{
    match regex::Regex::new(pattern) {
        Ok(re) => Ok(re.is_match(text)),
        Err(e) => Err(e),
    }
}

/// Whether `text` holds a hyperlink. An empty text holds none, and a link
/// pattern that the engine refused would find none.
pub open spec fn holds_link(text: Seq<char>) -> bool {
    &&& text.len() > 0
    &&& regex_compiles(LINK_PATTERN@)
    &&& regex_finds(LINK_PATTERN@, text)
}

/// Whether a message with `attachments` attachments and this text is exempt
/// from moderation.
pub open spec fn exempt(attachments: nat, text: Seq<char>) -> bool {
    attachments > 0 || holds_link(text)
}

/// What the moderation gate reads of an incoming message.
pub struct IncomingMessage {
    pub author_is_bot: bool,
    pub channel_id: u64,
    pub content: String,
    pub attachment_count: usize,
}

/// Whether `text` holds a hyperlink. The pattern is only consulted for a
/// text that is not empty.
pub fn contains_link(text: &str) -> (r: bool)
    ensures
        r == holds_link(text@),
{
    if text.is_empty() {
        return false;
    }
    match regex_search(LINK_PATTERN, text) {
        Ok(found) => found,
        Err(_) => false,
    }
}

/// Whether a message is exempt, given its number of attachments and whether
/// its text holds a hyperlink.
pub fn exempt_given(attachment_count: usize, link_found: bool) -> (r: bool)
    ensures
        r == (attachment_count > 0 || link_found),
{
    attachment_count > 0 || link_found
}

/// Whether `message` is exempt from moderation: it carries an attachment or
/// its text holds a hyperlink.
pub fn is_exempt(message: &IncomingMessage) -> (r: bool)
    ensures
        r == exempt(message.attachment_count as nat, message.content@),
{
    if message.attachment_count > 0 {
        return true;
    }
    let link_found = contains_link(message.content.as_str());
    exempt_given(message.attachment_count, link_found)
}

} // verus!
