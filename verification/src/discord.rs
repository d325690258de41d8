//! What the bot shows on Discord, as plain values: replies, embeds, and the
//! rows of buttons and menus below a message.

use vstd::prelude::*;

use crate::text;

verus! {

/// A colour bar beside an embed: one of Discord's named colours, or a raw
/// RGB value.
#[derive(Clone, Copy, Debug, PartialEq, Eq, Structural)]
pub enum Colour {
    Blue,
    Blurple,
    DarkGrey,
    Orange,
    Purple,
    Red,
    Rgb(u32),
}

/// A titled block of text inside an embed.
#[derive(Debug, PartialEq, Eq)]
pub struct EmbedField {
    pub name: String,
    pub value: String,
    pub inline: bool,
}

/// `EmbedField`, over characters.
pub struct EmbedFieldView {
    pub name: Seq<char>,
    pub value: Seq<char>,
    pub inline: bool,
}

impl View for EmbedField {
    type V = EmbedFieldView;

    open spec fn view(&self) -> EmbedFieldView {
        EmbedFieldView { name: self.name@, value: self.value@, inline: self.inline }
    }
}

/// A message's framed card.
#[derive(Debug, PartialEq, Eq)]
pub struct Embed {
    pub title: String,
    pub description: String,
    pub fields: Vec<EmbedField>,
    pub footer: Option<String>,
    pub colour: Colour,
    pub thumbnail: Option<String>,
}

/// `Embed`, over characters.
pub struct EmbedView {
    pub title: Seq<char>,
    pub description: Seq<char>,
    pub fields: Seq<EmbedFieldView>,
    pub footer: Option<Seq<char>>,
    pub colour: Colour,
    pub thumbnail: Option<Seq<char>>,
}

impl View for Embed {
    type V = EmbedView;

    open spec fn view(&self) -> EmbedView {
        EmbedView {
            title: self.title@,
            description: self.description@,
            fields: self.fields@.map_values(|f: EmbedField| f@),
            footer: text::opt_text(self.footer),
            colour: self.colour,
            thumbnail: text::opt_text(self.thumbnail),
        }
    }
}

/// How a button is painted.
#[derive(Clone, Copy, Debug, PartialEq, Eq, Structural)]
pub enum ButtonStyle {
    Primary,
    Secondary,
    Success,
}

/// A button below a message.
#[derive(Debug, PartialEq, Eq)]
pub struct Button {
    pub custom_id: String,
    pub label: Option<String>,
    pub emoji: Option<char>,
    pub style: ButtonStyle,
    pub disabled: bool,
}

/// `Button`, over characters.
pub struct ButtonView {
    pub custom_id: Seq<char>,
    pub label: Option<Seq<char>>,
    pub emoji: Option<char>,
    pub style: ButtonStyle,
    pub disabled: bool,
}

impl View for Button {
    type V = ButtonView;

    open spec fn view(&self) -> ButtonView {
        ButtonView {
            custom_id: self.custom_id@,
            label: text::opt_text(self.label),
            emoji: self.emoji,
            style: self.style,
            disabled: self.disabled,
        }
    }
}

/// One choice of a drop-down menu.
#[derive(Debug, PartialEq, Eq)]
pub struct SelectOption {
    pub label: String,
    pub value: String,
    pub description: String,
}

/// `SelectOption`, over characters.
pub struct SelectOptionView {
    pub label: Seq<char>,
    pub value: Seq<char>,
    pub description: Seq<char>,
}

impl View for SelectOption {
    type V = SelectOptionView;

    open spec fn view(&self) -> SelectOptionView {
        SelectOptionView {
            label: self.label@,
            value: self.value@,
            description: self.description@,
        }
    }
}

/// A drop-down menu below a message.
#[derive(Debug, PartialEq, Eq)]
pub struct SelectMenu {
    pub custom_id: String,
    pub options: Vec<SelectOption>,
    pub placeholder: String,
}

/// `SelectMenu`, over characters.
pub struct SelectMenuView {
    pub custom_id: Seq<char>,
    pub options: Seq<SelectOptionView>,
    pub placeholder: Seq<char>,
}

impl View for SelectMenu {
    type V = SelectMenuView;

    open spec fn view(&self) -> SelectMenuView {
        SelectMenuView {
            custom_id: self.custom_id@,
            options: self.options@.map_values(|o: SelectOption| o@),
            placeholder: self.placeholder@,
        }
    }
}

/// One row of controls below a message.
#[derive(Debug, PartialEq, Eq)]
pub enum ActionRow {
    Buttons(Vec<Button>),
    Select(SelectMenu),
}

/// `ActionRow`, over characters.
pub enum ActionRowView {
    Buttons(Seq<ButtonView>),
    Select(SelectMenuView),
}

impl View for ActionRow {
    type V = ActionRowView;

    open spec fn view(&self) -> ActionRowView {
        match self {
            ActionRow::Buttons(buttons) => ActionRowView::Buttons(
                buttons@.map_values(|b: Button| b@),
            ),
            ActionRow::Select(menu) => ActionRowView::Select(menu@),
        }
    }
}

/// The rows of controls below a message, over characters.
pub open spec fn rows(list: Seq<ActionRow>) -> Seq<ActionRowView> {
    list.map_values(|r: ActionRow| r@)
}

/// The answer to a command. An ephemeral one is visible to its recipient
/// only.
#[derive(Debug, PartialEq, Eq)]
pub struct Reply {
    pub content: String,
    pub ephemeral: bool,
}

/// A card is seen with its own texts and all of its fields, in order.
pub proof fn law_cards_are_seen_as_they_are(embed: Embed, i: int)
    ensures
        embed@.title == embed.title@,
        embed@.description == embed.description@,
        embed@.colour == embed.colour,
        embed@.footer is Some == embed.footer is Some,
        embed.footer matches Some(f) ==> embed@.footer == Some(f@),
        embed@.thumbnail is Some == embed.thumbnail is Some,
        embed.thumbnail matches Some(t) ==> embed@.thumbnail == Some(t@),
        embed@.fields.len() == embed.fields@.len(),
        0 <= i < embed.fields@.len() ==> {
            &&& embed@.fields[i].name == embed.fields@[i].name@
            &&& embed@.fields[i].value == embed.fields@[i].value@
            &&& embed@.fields[i].inline == embed.fields@[i].inline
        },
{
}

/// Buttons are seen one by one, in order, and so are the choices of a menu
/// and the rows of a message.
pub proof fn law_controls_are_seen_as_they_are(
    list: Seq<ActionRow>,
    buttons: Vec<Button>,
    menu: SelectMenu,
    i: int,
)
    ensures
        rows(list).len() == list.len(),
        0 <= i < list.len() ==> rows(list)[i] == list[i]@,
        ActionRow::Select(menu)@ == ActionRowView::Select(menu@),
        menu@.custom_id == menu.custom_id@,
        menu@.placeholder == menu.placeholder@,
        menu@.options.len() == menu.options@.len(),
        0 <= i < menu.options@.len() ==> {
            &&& menu@.options[i].label == menu.options@[i].label@
            &&& menu@.options[i].value == menu.options@[i].value@
            &&& menu@.options[i].description == menu.options@[i].description@
        },
        ActionRow::Buttons(buttons)@ matches ActionRowView::Buttons(seen) && seen.len()
            == buttons@.len() && (0 <= i < seen.len() ==> {
            &&& seen[i].custom_id == buttons@[i].custom_id@
            &&& seen[i].label is Some == buttons@[i].label is Some
            &&& buttons@[i].label matches Some(l) ==> seen[i].label == Some(l@)
            &&& seen[i].emoji == buttons@[i].emoji
            &&& seen[i].style == buttons@[i].style
            &&& seen[i].disabled == buttons@[i].disabled
        }),
{
}

} // verus!
