//! Rich messages ("embeds") as plain data: what the bot shows is decided
//! here and handed to the Discord client to send.

use vstd::prelude::*;

verus! {

/// Colour of messages that report success.
pub const COLOR_SUCCESS: u32 = 0x57F287;

/// Colour of messages that report an error.
pub const COLOR_ERROR: u32 = 0xED4245;

/// Colour of messages that warn.
pub const COLOR_WARNING: u32 = 0xFEE75C;

/// Colour of informational messages.
pub const COLOR_INFO: u32 = 0x5865F2;

/// One named field of an embed.
pub struct EmbedField {
    pub name: String,
    pub value: String,
    pub inline: bool,
}

/// A field as characters: name, value and whether it is shown inline.
pub type FieldView = (Seq<char>, Seq<char>, bool);

impl View for EmbedField {
    type V = FieldView;

    open spec fn view(&self) -> FieldView {
        (self.name@, self.value@, self.inline)
    }
}

/// A message embed: title, description, fields in order, optional footer
/// and a colour.
pub struct Embed {
    pub title: String,
    pub description: String,
    pub fields: Vec<EmbedField>,
    pub footer: Option<String>,
    pub color: u32,
}

/// An embed as characters.
pub struct EmbedView {
    pub title: Seq<char>,
    pub description: Seq<char>,
    pub fields: Seq<FieldView>,
    pub footer: Option<Seq<char>>,
    pub color: u32,
}

/// The view of an optional string.
pub open spec fn opt_view(s: Option<String>) -> Option<Seq<char>> {
    match s {
        Some(t) => Some(t@),
        None => None,
    }
}

impl View for Embed {
    type V = EmbedView;

    open spec fn view(&self) -> EmbedView {
        EmbedView {
            title: self.title@,
            description: self.description@,
            fields: self.fields@.map_values(|f: EmbedField| f@),
            footer: opt_view(self.footer),
            color: self.color,
        }
    }
}

/// An embed with a title, a description and a colour, and nothing else.
pub open spec fn simple_embed(title: Seq<char>, description: Seq<char>, color: u32) -> EmbedView {
    EmbedView { title, description, fields: Seq::empty(), footer: None, color }
}

impl Embed {
    /// An embed with a title, a description and a colour.
    pub fn new(title: String, description: String, color: u32) -> (e: Embed)
        ensures
            e@ == simple_embed(title@, description@, color),
    {
        let e = Embed { title, description, fields: Vec::new(), footer: None, color };
        assert(e@.fields =~= Seq::<FieldView>::empty());
        e
    }

    /// Adds a field after the existing ones.
    pub fn add_field(&mut self, name: String, value: String, inline: bool)
        ensures
            final(self)@ == (EmbedView {
                fields: old(self)@.fields.push((name@, value@, inline)),
                ..old(self)@
            }),
    {
        let ghost name_view = name@;
        let ghost value_view = value@;
        self.fields.push(EmbedField { name, value, inline });
        assert(self@.fields =~= old(self)@.fields.push((name_view, value_view, inline)));
    }
}

} // verus!
