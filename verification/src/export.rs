//! Rendering a conversation as Markdown.

use vstd::prelude::*;
use crate::message::{spec_image_count, spec_text_str, Message, MessageView, Role};
use crate::text::{decimal, push_decimal, push_str};

verus! {

/// The label a message is introduced with.
pub open spec fn spec_role_label(r: Role) -> Seq<char> {
    match r {
        Role::User => "**You**"@,
        Role::Assistant => "**AI**"@,
        Role::System => "**System**"@,
        Role::Tool => "**Tool**"@,
    }
}

pub fn role_label(r: Role) -> (s: &'static str)
    ensures
        s@ == spec_role_label(r),
{
    match r {
        Role::User => "**You**",
        Role::Assistant => "**AI**",
        Role::System => "**System**",
        Role::Tool => "**Tool**",
    }
}

/// The note that follows the text of a message with images.
pub open spec fn spec_image_note(count: nat) -> Seq<char> {
    if count > 0 {
        "\n\n_("@ + decimal(count) + " image attachment(s))_"@
    } else {
        Seq::empty()
    }
}

/// One message's section: its label, its text, the image note, and a rule.
pub open spec fn spec_section(m: MessageView) -> Seq<char> {
    spec_role_label(m.role) + ":\n\n"@ + spec_text_str(m.content) + spec_image_note(spec_image_count(m.content))
        + "\n\n---\n\n"@
}

pub open spec fn spec_sections(msgs: Seq<MessageView>) -> Seq<char>
    decreases msgs.len(),
{
    if msgs.len() == 0 {
        Seq::empty()
    } else {
        spec_sections(msgs.drop_last()) + spec_section(msgs.last())
    }
}

/// A conversation as Markdown: a title heading, then one section per
/// message.
pub open spec fn spec_markdown(title: Seq<char>, msgs: Seq<MessageView>) -> Seq<char> {
    "# "@ + title + "\n\n"@ + spec_sections(msgs)
}

pub fn render_markdown(title: &str, messages: &Vec<Message>) -> (r: String)
    ensures
        r@ == spec_markdown(title@, messages@.map_values(|m: Message| m@)),
{
    let ghost mv = messages@.map_values(|m: Message| m@);
    let mut out = String::new();
    push_str(&mut out, "# ");
    push_str(&mut out, title);
    push_str(&mut out, "\n\n");
    let ghost head = out@;
    assert(head =~= "# "@ + title@ + "\n\n"@);
    let mut i: usize = 0;
    while i < messages.len()
        invariant
            i <= messages.len(),
            mv == messages@.map_values(|m: Message| m@),
            out@ == head + spec_sections(mv.take(i as int)),
        decreases messages.len() - i,
    {
        let msg = &messages[i];
        assert(mv[i as int] == msg@);
        assert(mv.take(i as int + 1).drop_last() =~= mv.take(i as int));
        let ghost before = out@;
        push_str(&mut out, role_label(msg.role));
        push_str(&mut out, ":\n\n");
        let body = msg.text_str();
        push_str(&mut out, body.as_str());
        let count = msg.image_count();
        if count > 0 {
            push_str(&mut out, "\n\n_(");
            push_decimal(&mut out, count as u64);
            push_str(&mut out, " image attachment(s))_");
        }
        push_str(&mut out, "\n\n---\n\n");
        assert(out@ =~= before + spec_section(msg@));
        i = i + 1;
        assert(out@ =~= head + spec_sections(mv.take(i as int)));
    }
    assert(mv.take(messages.len() as int) =~= mv);
    out
}

} // verus!
