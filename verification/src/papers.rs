//! Role-button panels ("papers"): one embed per channel whose buttons
//! grant a role or open a link.  The panel is a durable record keyed by
//! `channel_message`; the chat message is a disposable projection of it.
//! Sub-commands edit one field or one button at a time, persist the
//! record, and re-render the message outside the library.
use vstd::prelude::*;

use crate::codec;
use crate::colors;
use crate::store::{store_tbl, DbError, Store};
use crate::text;

verus! {

/// The table of panels.
pub open spec fn papers_table() -> Seq<char> {
    "papers"@
}

/// How the panel's embed is rendered.
pub struct EmbedConfig {
    pub title: Option<String>,
    pub description: Option<String>,
    pub url: Option<String>,
    pub color: Option<u32>,
    pub author_name: Option<String>,
    pub author_url: Option<String>,
    pub author_icon_url: Option<String>,
    pub footer_text: Option<String>,
    pub footer_icon_url: Option<String>,
    pub image_url: Option<String>,
    pub thumbnail_url: Option<String>,
}

pub ghost struct EmbedConfigV {
    pub title: Option<Seq<char>>,
    pub description: Option<Seq<char>>,
    pub url: Option<Seq<char>>,
    pub color: Option<u32>,
    pub author_name: Option<Seq<char>>,
    pub author_url: Option<Seq<char>>,
    pub author_icon_url: Option<Seq<char>>,
    pub footer_text: Option<Seq<char>>,
    pub footer_icon_url: Option<Seq<char>>,
    pub image_url: Option<Seq<char>>,
    pub thumbnail_url: Option<Seq<char>>,
}

/// The ghost image of an optional string.
pub open spec fn opt_view(o: Option<String>) -> Option<Seq<char>> {
    match o {
        Some(s) => Some(s@),
        None => None,
    }
}

impl View for EmbedConfig {
    type V = EmbedConfigV;

    open spec fn view(&self) -> EmbedConfigV {
        EmbedConfigV {
            title: opt_view(self.title),
            description: opt_view(self.description),
            url: opt_view(self.url),
            color: self.color,
            author_name: opt_view(self.author_name),
            author_url: opt_view(self.author_url),
            author_icon_url: opt_view(self.author_icon_url),
            footer_text: opt_view(self.footer_text),
            footer_icon_url: opt_view(self.footer_icon_url),
            image_url: opt_view(self.image_url),
            thumbnail_url: opt_view(self.thumbnail_url),
        }
    }
}

/// The panel's embed as first created: a role prompt in the primary
/// color, everything else unset.
pub open spec fn sp_default_panel_embed() -> EmbedConfigV {
    EmbedConfigV {
        title: Some("\u{1f4cb} Get Your Roles"@),
        description: Some("Click the buttons below to get your roles!"@),
        url: None,
        color: Some(colors::PRIMARY),
        author_name: None,
        author_url: None,
        author_icon_url: None,
        footer_text: None,
        footer_icon_url: None,
        image_url: None,
        thumbnail_url: None,
    }
}

impl EmbedConfig {
    /// The panel's embed as first created, as [`sp_default_panel_embed`].
    pub fn role_panel_default() -> (r: EmbedConfig)
        ensures
            r@ == sp_default_panel_embed(),
    {
        EmbedConfig {
            title: Some("\u{1f4cb} Get Your Roles".to_owned()),
            description: Some("Click the buttons below to get your roles!".to_owned()),
            url: None,
            color: Some(colors::PRIMARY),
            author_name: None,
            author_url: None,
            author_icon_url: None,
            footer_text: None,
            footer_icon_url: None,
            image_url: None,
            thumbnail_url: None,
        }
    }
}

/// What a button does when pressed.
pub enum ButtonType {
    Role { role_id: u64 },
    Link { url: String },
}

pub ghost enum ButtonTypeV {
    Role { role_id: u64 },
    Link { url: Seq<char> },
}

impl View for ButtonType {
    type V = ButtonTypeV;

    open spec fn view(&self) -> ButtonTypeV {
        match self {
            ButtonType::Role { role_id } => ButtonTypeV::Role { role_id: *role_id },
            ButtonType::Link { url } => ButtonTypeV::Link { url: url@ },
        }
    }
}

#[derive(Clone, Copy, Debug, PartialEq, Eq, Structural)]
pub enum ButtonStyle {
    Primary,
    Secondary,
    Success,
    Danger,
}

impl Default for ButtonStyle {
    fn default() -> (r: Self)
        ensures
            r == ButtonStyle::Primary,
    {
        ButtonStyle::Primary
    }
}

/// The stored label of a style.
pub open spec fn style_label(s: ButtonStyle) -> Seq<char> {
    match s {
        ButtonStyle::Primary => "Primary"@,
        ButtonStyle::Secondary => "Secondary"@,
        ButtonStyle::Success => "Success"@,
        ButtonStyle::Danger => "Danger"@,
    }
}

/// The style a stored label names.
pub open spec fn label_to_style(l: Seq<char>) -> Option<ButtonStyle> {
    if l == "Primary"@ {
        Some(ButtonStyle::Primary)
    } else if l == "Secondary"@ {
        Some(ButtonStyle::Secondary)
    } else if l == "Success"@ {
        Some(ButtonStyle::Success)
    } else if l == "Danger"@ {
        Some(ButtonStyle::Danger)
    } else {
        None
    }
}

pub proof fn lemma_style_label_roundtrip(s: ButtonStyle)
    ensures
        label_to_style(style_label(s)) == Some(s),
{
    reveal_strlit("Primary");
    reveal_strlit("Secondary");
    reveal_strlit("Success");
    reveal_strlit("Danger");
    assert("Primary"@.len() == 7 && "Secondary"@.len() == 9 && "Success"@.len() == 7
        && "Danger"@.len() == 6);
    assert("Success"@[0] == 'S' && "Primary"@[0] == 'P');
}

impl ButtonStyle {
    /// Read a style from user input, ignoring ASCII case.
    pub fn from_str(s: &str) -> (r: Option<ButtonStyle>)
        ensures
            r == sp_style_from_input(s@),
    {
        let low = text::to_ascii_lower(s);
        if text::str_eq_str(low.as_str(), "primary") {
            Some(ButtonStyle::Primary)
        } else if text::str_eq_str(low.as_str(), "secondary") {
            Some(ButtonStyle::Secondary)
        } else if text::str_eq_str(low.as_str(), "success") {
            Some(ButtonStyle::Success)
        } else if text::str_eq_str(low.as_str(), "danger") {
            Some(ButtonStyle::Danger)
        } else {
            None
        }
    }

    pub fn as_str(&self) -> (r: &'static str)
        ensures
            r@ == style_label(*self),
    {
        match self {
            ButtonStyle::Primary => "Primary",
            ButtonStyle::Secondary => "Secondary",
            ButtonStyle::Success => "Success",
            ButtonStyle::Danger => "Danger",
        }
    }
}

/// The style a user's free-form input names.
pub open spec fn sp_style_from_input(s: Seq<char>) -> Option<ButtonStyle> {
    let l = text::lower_chars(s);
    if l == "primary"@ {
        Some(ButtonStyle::Primary)
    } else if l == "secondary"@ {
        Some(ButtonStyle::Secondary)
    } else if l == "success"@ {
        Some(ButtonStyle::Success)
    } else if l == "danger"@ {
        Some(ButtonStyle::Danger)
    } else {
        None
    }
}

/// One button on the panel.
pub struct ButtonConfig {
    pub label: String,
    pub button_type: ButtonType,
    pub style: ButtonStyle,
    pub emoji: Option<String>,
}

pub ghost struct ButtonConfigV {
    pub label: Seq<char>,
    pub button_type: ButtonTypeV,
    pub style: ButtonStyle,
    pub emoji: Option<Seq<char>>,
}

impl View for ButtonConfig {
    type V = ButtonConfigV;

    open spec fn view(&self) -> ButtonConfigV {
        ButtonConfigV {
            label: self.label@,
            button_type: self.button_type@,
            style: self.style,
            emoji: opt_view(self.emoji),
        }
    }
}

/// One panel: its channel and message, its embed, and its buttons in
/// display order.
pub struct PapersState {
    pub channel_id: u64,
    pub message_id: u64,
    pub guild_id: Option<u64>,
    pub embed_config: EmbedConfig,
    pub buttons: Vec<ButtonConfig>,
}

pub ghost struct PapersStateV {
    pub channel_id: u64,
    pub message_id: u64,
    pub guild_id: Option<u64>,
    pub embed_config: EmbedConfigV,
    pub buttons: Seq<ButtonConfigV>,
}

/// The ghost image of a button row.
pub open spec fn buttons_view(v: Seq<ButtonConfig>) -> Seq<ButtonConfigV> {
    Seq::new(v.len(), |i: int| v[i]@)
}

impl View for PapersState {
    type V = PapersStateV;

    open spec fn view(&self) -> PapersStateV {
        PapersStateV {
            channel_id: self.channel_id,
            message_id: self.message_id,
            guild_id: self.guild_id,
            embed_config: self.embed_config@,
            buttons: buttons_view(self.buttons@),
        }
    }
}

/// Whether some button already carries this label.
pub open spec fn sp_has_label(bs: Seq<ButtonConfigV>, label: Seq<char>) -> bool {
    exists|i: int| 0 <= i < bs.len() && (#[trigger] bs[i]).label == label
}

/// The first button with this label.
pub open spec fn sp_first_label(bs: Seq<ButtonConfigV>, label: Seq<char>, i: int) -> Option<int>
    decreases bs.len() - i,
{
    if i < 0 || i >= bs.len() {
        None
    } else if bs[i].label == label {
        Some(i)
    } else {
        sp_first_label(bs, label, i + 1)
    }
}

/// How a button identifier resolves: a string of digits that is a valid
/// position picks that position; anything else names a label, matched at
/// its first occurrence.
pub open spec fn sp_find_button(bs: Seq<ButtonConfigV>, ident: Seq<char>) -> Option<int> {
    match codec::sp_parse_u64(ident, 0) {
        Some((n, e)) => if e == ident.len() && n < bs.len() {
            Some(n)
        } else {
            sp_first_label(bs, ident, 0)
        },
        None => sp_first_label(bs, ident, 0),
    }
}

impl PapersState {
    /// A fresh panel bound to one channel and message, with the default
    /// embed and no buttons.
    pub fn new(channel_id: u64, message_id: u64, guild_id: Option<u64>) -> (r: PapersState)
        ensures
            r@.channel_id == channel_id,
            r@.message_id == message_id,
            r@.guild_id == guild_id,
            r@.embed_config == sp_default_panel_embed(),
            r@.buttons == Seq::<ButtonConfigV>::empty(),
    {
        let r = PapersState {
            channel_id,
            message_id,
            guild_id,
            embed_config: EmbedConfig::role_panel_default(),
            buttons: Vec::new(),
        };
        assert(buttons_view(r.buttons@) =~= Seq::<ButtonConfigV>::empty());
        r
    }

    /// The panel's store key: `channel_message`.
    pub fn get_key(&self) -> (r: String)
        ensures
            r@ == sp_papers_key(self.channel_id, self.message_id),
    {
        papers_key(self.channel_id, self.message_id)
    }

    /// Resolve a button identifier, exactly as [`sp_find_button`].
    pub fn find_button_by_identifier(&self, identifier: &str) -> (r: Option<usize>)
        ensures
            (r matches Some(i) ==> sp_find_button(self@.buttons, identifier@) == Some(i as int)
                && i < self.buttons@.len()),
            r is None ==> sp_find_button(self@.buttons, identifier@) is None,
    {
        let chars = text::str_to_chars(identifier);
        let by_index: Option<usize> = match codec::parse_u64(&chars, 0) {
            Some((n, e)) => {
                if e == chars.len() && n < self.buttons.len() as u64 {
                    Some(n as usize)
                } else {
                    None
                }
            },
            None => None,
        };
        match by_index {
            Some(i) => Some(i),
            None => self.find_button_by_label(identifier),
        }
    }

    /// The first button with this label, exactly as [`sp_first_label`].
    fn find_button_by_label(&self, label: &str) -> (r: Option<usize>)
        ensures
            (r matches Some(i) ==> sp_first_label(self@.buttons, label@, 0) == Some(i as int)
                && i < self.buttons@.len()),
            r is None ==> sp_first_label(self@.buttons, label@, 0) is None,
    {
        let ghost bs = self@.buttons;
        let mut i: usize = 0;
        while i < self.buttons.len()
            invariant
                i <= self.buttons@.len(),
                bs == buttons_view(self.buttons@),
                sp_first_label(bs, label@, 0) == sp_first_label(bs, label@, i as int),
            decreases self.buttons@.len() - i,
        {
            if text::str_eq_str(self.buttons[i].label.as_str(), label) {
                proof {
                    assert(bs[i as int].label == label@);
                }
                return Some(i);
            }
            proof {
                assert(bs[i as int].label != label@);
            }
            i = i + 1;
        }
        None
    }

    /// Add a role button, unless its label is already taken.  Returns
    /// whether the button was added.
    pub fn add_role_button(&mut self, label: String, role_id: u64) -> (r: bool)
        ensures
            r == !sp_has_label(old(self)@.buttons, label@),
            r ==> final (self)@.buttons == old(self)@.buttons.push(
                ButtonConfigV {
                    label: label@,
                    button_type: ButtonTypeV::Role { role_id },
                    style: ButtonStyle::Primary,
                    emoji: None,
                },
            ),
            !r ==> final (self)@.buttons == old(self)@.buttons,
            final (self)@.channel_id == old(self)@.channel_id,
            final (self)@.message_id == old(self)@.message_id,
            final (self)@.guild_id == old(self)@.guild_id,
            final (self)@.embed_config == old(self)@.embed_config,
    {
        if self.has_label(label.as_str()) {
            false
        } else {
            self.buttons.push(
                ButtonConfig {
                    label,
                    button_type: ButtonType::Role { role_id },
                    style: ButtonStyle::Primary,
                    emoji: None,
                },
            );
            proof {
                assert(buttons_view(self.buttons@) =~= old(self)@.buttons.push(
                    buttons_view(self.buttons@).last(),
                ));
            }
            true
        }
    }

    /// Whether some button already carries this label.
    fn has_label(&self, label: &str) -> (r: bool)
        ensures
            r == sp_has_label(self@.buttons, label@),
    {
        let ghost bs = self@.buttons;
        let mut i: usize = 0;
        while i < self.buttons.len()
            invariant
                i <= self.buttons@.len(),
                bs == buttons_view(self.buttons@),
                forall|j: int| 0 <= j < i ==> (#[trigger] bs[j]).label != label@,
            decreases self.buttons@.len() - i,
        {
            if text::str_eq_str(self.buttons[i].label.as_str(), label) {
                proof {
                    assert(bs[i as int].label == label@);
                }
                return true;
            }
            proof {
                assert(bs[i as int].label != label@);
            }
            i = i + 1;
        }
        proof {
            if sp_has_label(bs, label@) {
                let w = choose|w: int| 0 <= w < bs.len() && (#[trigger] bs[w]).label == label@;
                assert(bs[w].label != label@);
            }
        }
        false
    }

    /// Add a link button, unless its label is taken or the URL does not
    /// start with an HTTP scheme.
    pub fn add_link_button(&mut self, label: String, url: String) -> (r: AddLinkOutcome)
        ensures
            (r is DuplicateLabel <==> sp_has_label(old(self)@.buttons, label@)),
            (r is InvalidUrl <==> !sp_has_label(old(self)@.buttons, label@) && !sp_valid_link_url(
                url@,
            )),
            r is Added ==> final (self)@.buttons == old(self)@.buttons.push(
                ButtonConfigV {
                    label: label@,
                    button_type: ButtonTypeV::Link { url: url@ },
                    style: ButtonStyle::Primary,
                    emoji: None,
                },
            ),
            !(r is Added) ==> final (self)@.buttons == old(self)@.buttons,
            final (self)@.channel_id == old(self)@.channel_id,
            final (self)@.message_id == old(self)@.message_id,
            final (self)@.guild_id == old(self)@.guild_id,
            final (self)@.embed_config == old(self)@.embed_config,
    {
        proof {
            reveal_strlit("http://");
            reveal_strlit("https://");
        }
        if self.has_label(label.as_str()) {
            return AddLinkOutcome::DuplicateLabel;
        }
        let http_ok = starts_with(url.as_str(), "http://") || starts_with(
            url.as_str(),
            "https://",
        );
        if !http_ok {
            return AddLinkOutcome::InvalidUrl;
        }
        self.buttons.push(
            ButtonConfig {
                label,
                button_type: ButtonType::Link { url },
                style: ButtonStyle::Primary,
                emoji: None,
            },
        );
        proof {
            assert(buttons_view(self.buttons@) =~= old(self)@.buttons.push(
                buttons_view(self.buttons@).last(),
            ));
        }
        AddLinkOutcome::Added
    }

    /// Remove the button an identifier names; all later buttons shift
    /// down by one.  Returns its position and label.
    pub fn remove_button(&mut self, identifier: &str) -> (r: Option<(usize, String)>)
        ensures
            (r matches Some(p) ==> sp_find_button(old(self)@.buttons, identifier@) == Some(
                p.0 as int,
            ) && p.1@ == old(self)@.buttons[p.0 as int].label && final (self)@.buttons == old(
                self,
            )@.buttons.remove(p.0 as int)),
            r is None ==> sp_find_button(old(self)@.buttons, identifier@) is None && final (
            self)@.buttons == old(self)@.buttons,
            final (self)@.channel_id == old(self)@.channel_id,
            final (self)@.message_id == old(self)@.message_id,
            final (self)@.guild_id == old(self)@.guild_id,
            final (self)@.embed_config == old(self)@.embed_config,
    {
        match self.find_button_by_identifier(identifier) {
            Some(i) => {
                let removed = self.buttons.remove(i);
                proof {
                    assert(buttons_view(self.buttons@) =~= old(self)@.buttons.remove(i as int));
                }
                Some((i, removed.label))
            },
            None => None,
        }
    }

    /// Apply a button edit: replace the label if a new one was given,
    /// the style if one was given, and the emoji with whatever was given
    /// (clearing it when nothing was).  The action is never changed, and
    /// a link button always keeps its style: links have no style of
    /// their own on the chat surface.
    pub fn apply_button_edit(
        &mut self,
        index: usize,
        new_label: Option<String>,
        new_style: Option<ButtonStyle>,
        new_emoji: Option<String>,
    )
        requires
            index < old(self)@.buttons.len(),
        ensures
            final (self)@.buttons == old(self)@.buttons.update(
                index as int,
                ButtonConfigV {
                    label: match new_label {
                        Some(l) => l@,
                        None => old(self)@.buttons[index as int].label,
                    },
                    button_type: old(self)@.buttons[index as int].button_type,
                    style: match new_style {
                        Some(s) => if old(self)@.buttons[index as int].button_type is Link {
                            old(self)@.buttons[index as int].style
                        } else {
                            s
                        },
                        None => old(self)@.buttons[index as int].style,
                    },
                    emoji: opt_view(new_emoji),
                },
            ),
            final (self)@.channel_id == old(self)@.channel_id,
            final (self)@.message_id == old(self)@.message_id,
            final (self)@.guild_id == old(self)@.guild_id,
            final (self)@.embed_config == old(self)@.embed_config,
    {
        let entry = &mut self.buttons[index];
        match new_label {
            Some(l) => {
                entry.label = l;
            },
            None => {},
        }
        let is_link = match &entry.button_type {
            ButtonType::Link { .. } => true,
            ButtonType::Role { .. } => false,
        };
        match new_style {
            Some(s) => {
                if !is_link {
                    entry.style = s;
                }
            },
            None => {},
        }
        entry.emoji = new_emoji;
        proof {
            assert(buttons_view(self.buttons@) =~= old(self)@.buttons.update(
                index as int,
                buttons_view(self.buttons@)[index as int],
            ));
        }
    }

    /// Replace the embed's author fields.
    pub fn set_author(&mut self, author_name: Option<String>, author_url: Option<String>)
        ensures
            final (self)@.embed_config == (EmbedConfigV {
                author_name: opt_view(author_name),
                author_url: opt_view(author_url),
                ..old(self)@.embed_config
            }),
            final (self)@.channel_id == old(self)@.channel_id,
            final (self)@.message_id == old(self)@.message_id,
            final (self)@.guild_id == old(self)@.guild_id,
            final (self)@.buttons == old(self)@.buttons,
    {
        self.embed_config.author_name = author_name;
        self.embed_config.author_url = author_url;
    }

    /// Replace the embed's body fields.
    pub fn set_body(
        &mut self,
        title: Option<String>,
        description: Option<String>,
        url: Option<String>,
        color: Option<u32>,
        footer_text: Option<String>,
    )
        ensures
            final (self)@.embed_config == (EmbedConfigV {
                title: opt_view(title),
                description: opt_view(description),
                url: opt_view(url),
                color,
                footer_text: opt_view(footer_text),
                ..old(self)@.embed_config
            }),
            final (self)@.channel_id == old(self)@.channel_id,
            final (self)@.message_id == old(self)@.message_id,
            final (self)@.guild_id == old(self)@.guild_id,
            final (self)@.buttons == old(self)@.buttons,
    {
        self.embed_config.title = title;
        self.embed_config.description = description;
        self.embed_config.url = url;
        self.embed_config.color = color;
        self.embed_config.footer_text = footer_text;
    }

    /// Replace the embed's image fields.
    pub fn set_images(
        &mut self,
        image_url: Option<String>,
        thumbnail_url: Option<String>,
        author_icon_url: Option<String>,
        footer_icon_url: Option<String>,
    )
        ensures
            final (self)@.embed_config == (EmbedConfigV {
                image_url: opt_view(image_url),
                thumbnail_url: opt_view(thumbnail_url),
                author_icon_url: opt_view(author_icon_url),
                footer_icon_url: opt_view(footer_icon_url),
                ..old(self)@.embed_config
            }),
            final (self)@.channel_id == old(self)@.channel_id,
            final (self)@.message_id == old(self)@.message_id,
            final (self)@.guild_id == old(self)@.guild_id,
            final (self)@.buttons == old(self)@.buttons,
    {
        self.embed_config.image_url = image_url;
        self.embed_config.thumbnail_url = thumbnail_url;
        self.embed_config.author_icon_url = author_icon_url;
        self.embed_config.footer_icon_url = footer_icon_url;
    }
}

/// What adding a link button did.
#[derive(Debug, PartialEq, Eq, Structural)]
pub enum AddLinkOutcome {
    DuplicateLabel,
    InvalidUrl,
    Added,
}

/// A link button's URL must name an HTTP scheme.
pub open spec fn sp_valid_link_url(u: Seq<char>) -> bool {
    ||| u.len() >= 7 && u.subrange(0, 7) == "http://"@
    ||| u.len() >= 8 && u.subrange(0, 8) == "https://"@
}

/// Whether `s` starts with the given prefix.
fn starts_with(s: &str, prefix: &str) -> (r: bool)
    ensures
        r == (prefix@.len() <= s@.len() && s@.subrange(0, prefix@.len() as int) == prefix@),
{
    let chars = text::str_to_chars(s);
    match codec::expect_lit(&chars, 0, prefix) {
        Some(_) => true,
        None => false,
    }
}

/// A hexadecimal digit of either case.
pub open spec fn is_hex_digit(c: char) -> bool {
    ('0' <= c && c <= '9') || ('a' <= c && c <= 'f') || ('A' <= c && c <= 'F')
}

/// The value of one hexadecimal digit.
pub open spec fn hex_val(c: char) -> int {
    if '0' <= c && c <= '9' {
        c as u32 - 48
    } else if 'a' <= c && c <= 'f' {
        c as u32 - 87
    } else {
        c as u32 - 55
    }
}

/// The sequence without its leading hash signs.
pub open spec fn sp_trim_hashes(s: Seq<char>) -> Seq<char>
    decreases s.len(),
{
    if s.len() > 0 && s[0] == '#' {
        sp_trim_hashes(s.drop_first())
    } else {
        s
    }
}

/// The value of a hexadecimal digit string, most significant first.
pub open spec fn val_of_hex(s: Seq<char>) -> int
    decreases s.len(),
{
    if s.len() == 0 {
        0
    } else {
        val_of_hex(s.drop_last()) * 16 + hex_val(s.last())
    }
}

/// The color a body edit's free-form input names: leading hash signs
/// dropped, then hexadecimal digits of either case, in range; anything
/// else names no color.
pub open spec fn sp_parse_hex_color(s: Seq<char>) -> Option<u32> {
    let t = sp_trim_hashes(s);
    if t.len() > 0 && (forall|k: int| 0 <= k < t.len() ==> is_hex_digit(#[trigger] t[k]))
        && val_of_hex(t) <= u32::MAX {
        Some(val_of_hex(t) as u32)
    } else {
        None
    }
}

/// Parse a color input, exactly as [`sp_parse_hex_color`].
pub fn parse_hex_color(s: &str) -> (r: Option<u32>)
    ensures
        r == sp_parse_hex_color(s@),
{
    let v = text::str_to_chars(s);
    let n = v.len();
    assert(s@.subrange(0, n as int) =~= s@);
    let mut i: usize = 0;
    while i < n && v[i] == '#'
        invariant
            n == v@.len(),
            v@ == s@,
            i <= n,
            sp_trim_hashes(s@) == sp_trim_hashes(s@.subrange(i as int, n as int)),
        decreases n - i,
    {
        proof {
            assert(s@.subrange(i as int, n as int)[0] == s@[i as int]);
            assert(s@.subrange(i as int, n as int).drop_first() =~= s@.subrange(
                i + 1 as int,
                n as int,
            ));
        }
        i = i + 1;
    }
    let ghost t = s@.subrange(i as int, n as int);
    proof {
        if i < n {
            assert(s@.subrange(i as int, n as int)[0] == s@[i as int]);
        }
        assert(sp_trim_hashes(s@) == t);
    }
    if i == n {
        proof {
            assert(t.len() == 0);
        }
        return None;
    }
    let mut j: usize = i;
    let mut acc: u64 = 0;
    let mut over: bool = false;
    while j < n
        invariant
            n == v@.len(),
            v@ == s@,
            i <= j <= n,
            t == s@.subrange(i as int, n as int),
            sp_trim_hashes(s@) == t,
            t.len() > 0,
            forall|k: int| i <= k < j ==> is_hex_digit(#[trigger] s@[k]),
            !over ==> acc == val_of_hex(s@.subrange(i as int, j as int)) && acc <= u32::MAX,
            over ==> val_of_hex(s@.subrange(i as int, j as int)) > u32::MAX,
        decreases n - j,
    {
        let c = v[j];
        let d: u64 = if '0' <= c && c <= '9' {
            (c as u8 - 48) as u64
        } else if 'a' <= c && c <= 'f' {
            (c as u8 - 87) as u64
        } else if 'A' <= c && c <= 'F' {
            (c as u8 - 55) as u64
        } else {
            proof {
                assert(t[j - i] == s@[j as int]);
                assert(!is_hex_digit(t[j - i]));
            }
            return None;
        };
        proof {
            assert(is_hex_digit(s@[j as int]));
            assert(d == hex_val(s@[j as int]));
            assert(s@.subrange(i as int, j + 1 as int).drop_last() =~= s@.subrange(
                i as int,
                j as int,
            ));
            assert(s@.subrange(i as int, j + 1 as int).last() == s@[j as int]);
        }
        if !over {
            let next: u64 = acc * 16 + d;
            if next > u32::MAX as u64 {
                over = true;
                proof {
                    assert(val_of_hex(s@.subrange(i as int, j + 1 as int)) == acc * 16 + hex_val(
                        s@[j as int],
                    ));
                }
            } else {
                acc = next;
            }
        } else {
            proof {
                let prev = val_of_hex(s@.subrange(i as int, j as int));
                assert(prev > u32::MAX);
                assert(hex_val(s@[j as int]) >= 0);
                assert(val_of_hex(s@.subrange(i as int, j + 1 as int)) == prev * 16 + hex_val(
                    s@[j as int],
                ));
                assert(prev * 16 >= prev) by (nonlinear_arith)
                    requires
                        prev > 0,
                ;
            }
        }
        j = j + 1;
    }
    proof {
        assert(s@.subrange(i as int, j as int) =~= t);
        assert forall|k: int| 0 <= k < t.len() implies is_hex_digit(#[trigger] t[k]) by {
            assert(t[k] == s@[i + k]);
        }
    }
    if over {
        None
    } else {
        Some(acc as u32)
    }
}

/// The panel's store key: decimal channel, underscore, decimal message.
pub open spec fn sp_papers_key(channel_id: u64, message_id: u64) -> Seq<char> {
    codec::enc_u64(channel_id as nat) + seq!['_'] + codec::enc_u64(message_id as nat)
}

/// Build the panel's store key.
pub fn papers_key(channel_id: u64, message_id: u64) -> (r: String)
    ensures
        r@ == sp_papers_key(channel_id, message_id),
{
    let mut out: Vec<char> = Vec::new();
    codec::write_u64(&mut out, channel_id);
    out.push('_');
    codec::write_u64(&mut out, message_id);
    assert(out@ =~= sp_papers_key(channel_id, message_id));
    text::chars_to_string(&out)
}

// ---------------------------------------------------------------------------
// Button identifiers on the chat surface
// ---------------------------------------------------------------------------
/// The component id of a role button: a fixed prefix and the role number.
pub open spec fn sp_papers_role_id(role_id: u64) -> Seq<char> {
    "papers_role_"@ + codec::enc_u64(role_id as nat)
}

/// Build a role button's component id.
pub fn make_papers_role_id(role_id: u64) -> (r: String)
    ensures
        r@ == sp_papers_role_id(role_id),
{
    let mut out: Vec<char> = Vec::new();
    text::push_str_chars(&mut out, "papers_role_");
    codec::write_u64(&mut out, role_id);
    assert(out@ =~= sp_papers_role_id(role_id));
    text::chars_to_string(&out)
}

/// The role a pressed component id names, when it is a role button's id:
/// the fixed prefix followed only by the role's digits.
pub open spec fn sp_parse_papers_role_id(s: Seq<char>) -> Option<u64> {
    match codec::sp_pfx_u64(s, 0, "papers_role_"@) {
        Some((n, e)) => if e == s.len() {
            Some(n as u64)
        } else {
            None
        },
        None => None,
    }
}

/// Parse a pressed component id, exactly as [`sp_parse_papers_role_id`].
pub fn parse_papers_role_id(custom_id: &str) -> (r: Option<u64>)
    ensures
        r == sp_parse_papers_role_id(custom_id@),
{
    let v = text::str_to_chars(custom_id);
    match codec::pfx_u64(&v, 0, "papers_role_") {
        Some((n, e)) => {
            if e == v.len() {
                Some(n)
            } else {
                None
            }
        },
        None => None,
    }
}

/// A role button's component id always resolves to its own role.
pub proof fn lemma_role_id_roundtrip(role_id: u64)
    ensures
        sp_parse_papers_role_id(sp_papers_role_id(role_id)) == Some(role_id),
{
    let s = sp_papers_role_id(role_id);
    let pre = "papers_role_"@;
    let num = codec::enc_u64(role_id as nat);
    assert(s.subrange(0, s.len() as int) =~= pre + num);
    codec::lemma_pfx_u64(s, 0, pre, role_id as nat);
}


// ---------------------------------------------------------------------------
// Wire form
// ---------------------------------------------------------------------------
/// The body and color half of an embed's stored form.
pub open spec fn enc_embed_head(e: EmbedConfigV) -> Seq<char> {
    "{\"title\":"@ + codec::enc_opt_str(e.title) + ",\"description\":"@ + codec::enc_opt_str(
        e.description,
    ) + ",\"url\":"@ + codec::enc_opt_str(e.url) + ",\"color\":"@ + codec::enc_opt_u64(
        opt_u32_int(e.color),
    ) + ",\"author_name\":"@ + codec::enc_opt_str(e.author_name)
}

/// The author and footer fields of an embed's stored form.
pub open spec fn enc_embed_mid(e: EmbedConfigV) -> Seq<char> {
    ",\"author_url\":"@ + codec::enc_opt_str(e.author_url) + ",\"author_icon_url\":"@
        + codec::enc_opt_str(e.author_icon_url) + ",\"footer_text\":"@ + codec::enc_opt_str(
        e.footer_text,
    )
}

/// The image fields and closing brace of an embed's stored form.
pub open spec fn enc_embed_last(e: EmbedConfigV) -> Seq<char> {
    ",\"footer_icon_url\":"@ + codec::enc_opt_str(e.footer_icon_url) + ",\"image_url\":"@
        + codec::enc_opt_str(e.image_url) + ",\"thumbnail_url\":"@ + codec::enc_opt_str(
        e.thumbnail_url,
    ) + "}"@
}

/// The remaining half of an embed's stored form.
pub open spec fn enc_embed_tail(e: EmbedConfigV) -> Seq<char> {
    enc_embed_mid(e) + enc_embed_last(e)
}

/// The stored form of an embed configuration.
#[verifier::opaque]
pub open spec fn enc_embed(e: EmbedConfigV) -> Seq<char> {
    enc_embed_head(e) + enc_embed_tail(e)
}

/// An optional `u32` as the spec-level option the number parsers use.
pub open spec fn opt_u32_int(o: Option<u32>) -> Option<int> {
    match o {
        Some(n) => Some(n as int),
        None => None,
    }
}

/// Parse the body and color half of an embed.
pub open spec fn sp_parse_embed_head(s: Seq<char>, i: int) -> Option<
    ((Option<Seq<char>>, Option<Seq<char>>, Option<Seq<char>>, Option<u32>, Option<Seq<char>>), int),
> {
    match codec::sp_pfx_opt_str(s, i, "{\"title\":"@) {
        Some((title, a)) => match codec::sp_pfx_opt_str(s, a, ",\"description\":"@) {
            Some((description, b)) => match codec::sp_pfx_opt_str(s, b, ",\"url\":"@) {
                Some((url, c)) => match codec::sp_pfx_opt_u64(s, c, ",\"color\":"@) {
                    Some((color, d)) => if (color matches Some(n) ==> n <= u32::MAX) {
                        match codec::sp_pfx_opt_str(s, d, ",\"author_name\":"@) {
                            Some((author_name, e)) => Some(
                                ((title, description, url, opt_int_u32(color), author_name), e),
                            ),
                            None => None,
                        }
                    } else {
                        None
                    },
                    None => None,
                },
                None => None,
            },
            None => None,
        },
        None => None,
    }
}

/// Parse the remaining half of an embed, closing brace included.
pub open spec fn sp_parse_embed_tail(s: Seq<char>, i: int) -> Option<
    (
        (
            Option<Seq<char>>,
            Option<Seq<char>>,
            Option<Seq<char>>,
            Option<Seq<char>>,
            Option<Seq<char>>,
            Option<Seq<char>>,
        ),
        int,
    ),
> {
    match codec::sp_pfx_opt_str(s, i, ",\"author_url\":"@) {
        Some((author_url, f)) => match codec::sp_pfx_opt_str(s, f, ",\"author_icon_url\":"@) {
            Some((author_icon_url, g)) => match codec::sp_pfx_opt_str(s, g, ",\"footer_text\":"@) {
                Some((footer_text, h)) => match codec::sp_pfx_opt_str(
                    s,
                    h,
                    ",\"footer_icon_url\":"@,
                ) {
                    Some((footer_icon_url, j)) => match codec::sp_pfx_opt_str(
                        s,
                        j,
                        ",\"image_url\":"@,
                    ) {
                        Some((image_url, k)) => match codec::sp_pfx_opt_str(
                            s,
                            k,
                            ",\"thumbnail_url\":"@,
                        ) {
                            Some((thumbnail_url, l)) => match codec::sp_lit(s, l, "}"@) {
                                Some(w) => Some(
                                    (
                                        (
                                            author_url,
                                            author_icon_url,
                                            footer_text,
                                            footer_icon_url,
                                            image_url,
                                            thumbnail_url,
                                        ),
                                        w,
                                    ),
                                ),
                                None => None,
                            },
                            None => None,
                        },
                        None => None,
                    },
                    None => None,
                },
                None => None,
            },
            None => None,
        },
        None => None,
    }
}

/// Parse an embed configuration.
#[verifier::opaque]
pub open spec fn sp_parse_embed(s: Seq<char>, i: int) -> Option<(EmbedConfigV, int)> {
    match sp_parse_embed_head(s, i) {
        Some((hd, m)) => match sp_parse_embed_tail(s, m) {
            Some((tl, w)) => Some(
                (
                    EmbedConfigV {
                        title: hd.0,
                        description: hd.1,
                        url: hd.2,
                        color: hd.3,
                        author_name: hd.4,
                        author_url: tl.0,
                        author_icon_url: tl.1,
                        footer_text: tl.2,
                        footer_icon_url: tl.3,
                        image_url: tl.4,
                        thumbnail_url: tl.5,
                    },
                    w,
                ),
            ),
            None => None,
        },
        None => None,
    }
}

/// A parsed optional number narrowed to `u32`.
pub open spec fn opt_int_u32(o: Option<int>) -> Option<u32> {
    match o {
        Some(n) => Some(n as u32),
        None => None,
    }
}

/// The stored form of a button's action.
pub open spec fn enc_btype(t: ButtonTypeV) -> Seq<char> {
    match t {
        ButtonTypeV::Role { role_id } => "{\"role\":"@ + codec::enc_u64(role_id as nat) + "}"@,
        ButtonTypeV::Link { url } => "{\"link\":"@ + codec::enc_str(url) + "}"@,
    }
}

/// Parse a button's action.
pub open spec fn sp_parse_btype(s: Seq<char>, i: int) -> Option<(ButtonTypeV, int)> {
    match codec::sp_pfx_u64(s, i, "{\"role\":"@) {
        Some((rid, a)) => match codec::sp_lit(s, a, "}"@) {
            Some(w) => Some((ButtonTypeV::Role { role_id: rid as u64 }, w)),
            None => None,
        },
        None => match codec::sp_pfx_str(s, i, "{\"link\":"@) {
            Some((url, a)) => match codec::sp_lit(s, a, "}"@) {
                Some(w) => Some((ButtonTypeV::Link { url }, w)),
                None => None,
            },
            None => None,
        },
    }
}

/// The stored form of one button.
pub open spec fn enc_button(b: ButtonConfigV) -> Seq<char> {
    "{\"label\":"@ + codec::enc_str(b.label) + ",\"button_type\":"@ + enc_btype(b.button_type)
        + ",\"style\":"@ + codec::enc_str(style_label(b.style)) + ",\"emoji\":"@
        + codec::enc_opt_str(b.emoji) + "}"@
}

/// Parse one button.
pub open spec fn sp_parse_button(s: Seq<char>, i: int) -> Option<(ButtonConfigV, int)> {
    match codec::sp_pfx_str(s, i, "{\"label\":"@) {
        Some((label, a)) => match codec::sp_lit(s, a, ",\"button_type\":"@) {
            Some(b) => match sp_parse_btype(s, b) {
                Some((bt, c)) => match codec::sp_pfx_str(s, c, ",\"style\":"@) {
                    Some((sty, d)) => match label_to_style(sty) {
                        Some(style) => match codec::sp_pfx_opt_str(s, d, ",\"emoji\":"@) {
                            Some((emoji, e)) => match codec::sp_lit(s, e, "}"@) {
                                Some(w) => Some(
                                    (
                                        ButtonConfigV { label, button_type: bt, style, emoji },
                                        w,
                                    ),
                                ),
                                None => None,
                            },
                            None => None,
                        },
                        None => None,
                    },
                    None => None,
                },
                None => None,
            },
            None => None,
        },
        None => None,
    }
}

/// The buttons from index `k` on, comma-separated.
pub open spec fn enc_buttons_from(bs: Seq<ButtonConfigV>, k: int) -> Seq<char>
    decreases bs.len() - k,
{
    if k < 0 || k >= bs.len() {
        Seq::empty()
    } else if k == bs.len() - 1 {
        enc_button(bs[k])
    } else {
        enc_button(bs[k]) + seq![','] + enc_buttons_from(bs, k + 1)
    }
}

/// Parse comma-separated buttons, up to the closing bracket.
pub open spec fn sp_parse_button_items(s: Seq<char>, i: int) -> Option<(Seq<ButtonConfigV>, int)>
    decreases s.len() - i,
{
    match sp_parse_button(s, i) {
        Some((b, j)) => if i < j <= s.len() {
            match codec::sp_lit(s, j, ","@) {
                Some(k) => match sp_parse_button_items(s, k) {
                    Some((rest, e)) => Some((seq![b] + rest, e)),
                    None => None,
                },
                None => match codec::sp_lit(s, j, "]"@) {
                    Some(k) => Some((seq![b], k)),
                    None => None,
                },
            }
        } else {
            None
        },
        None => None,
    }
}

/// The identifying fields and embed of a panel's stored form.
#[verifier::opaque]
pub open spec fn enc_papers_hdr(v: PapersStateV) -> Seq<char> {
    "{\"channel_id\":"@ + codec::enc_u64(v.channel_id as nat) + ",\"message_id\":"@
        + codec::enc_u64(v.message_id as nat) + ",\"guild_id\":"@ + codec::enc_opt_u64(
        codec::opt_u64_int(v.guild_id),
    ) + ",\"embed_config\":"@ + enc_embed(v.embed_config)
}

/// The stored form of one panel.
pub open spec fn enc_papers(v: PapersStateV) -> Seq<char> {
    enc_papers_hdr(v) + (",\"buttons\":["@ + enc_buttons_from(v.buttons, 0) + "]}"@)
}

/// Parse a panel's identifying fields and embed.
#[verifier::opaque]
pub open spec fn sp_parse_papers_hdr(s: Seq<char>, i: int) -> Option<
    ((int, int, Option<int>, EmbedConfigV), int),
> {
    match codec::sp_pfx_u64(s, i, "{\"channel_id\":"@) {
        Some((cid, a)) => match codec::sp_pfx_u64(s, a, ",\"message_id\":"@) {
            Some((mid, b)) => match codec::sp_pfx_opt_u64(s, b, ",\"guild_id\":"@) {
                Some((gid, c)) => match codec::sp_lit(s, c, ",\"embed_config\":"@) {
                    Some(d) => match sp_parse_embed(s, d) {
                        Some((embed, e)) => Some(((cid, mid, gid, embed), e)),
                        None => None,
                    },
                    None => None,
                },
                None => None,
            },
            None => None,
        },
        None => None,
    }
}

/// Decode one stored panel.
pub open spec fn sp_dec_papers(s: Seq<char>) -> Option<PapersStateV> {
    match sp_parse_papers_hdr(s, 0) {
        Some((hd, e)) => match codec::sp_lit(s, e, ",\"buttons\":["@) {
            Some(f) => {
                let items: Option<(Seq<ButtonConfigV>, int)> = match codec::sp_lit(s, f, "]"@) {
                    Some(g) => Some((Seq::empty(), g)),
                    None => sp_parse_button_items(s, f),
                };
                match items {
                    Some((bs, g)) => match codec::sp_lit(s, g, "}"@) {
                        Some(w) => if w == s.len() {
                            Some(
                                PapersStateV {
                                    channel_id: hd.0 as u64,
                                    message_id: hd.1 as u64,
                                    guild_id: codec::opt_int_u64(hd.2),
                                    embed_config: hd.3,
                                    buttons: bs,
                                },
                            )
                        } else {
                            None
                        },
                        None => None,
                    },
                    None => None,
                }
            },
            None => None,
        },
        None => None,
    }
}

/// Parse one button of the prior schema: a `name` and a bare `role_id`
/// in place of the current labelled action.  Records written before the
/// style and emoji fields existed omit one or both; an omitted style is
/// the primary one and an omitted emoji is none.
pub open spec fn sp_parse_button_v0(s: Seq<char>, i: int) -> Option<(ButtonConfigV, int)> {
    match codec::sp_pfx_str(s, i, "{\"name\":"@) {
        Some((name, a)) => match codec::sp_pfx_u64(s, a, ",\"role_id\":"@) {
            Some((rid, b)) => {
                let upgraded = ButtonTypeV::Role { role_id: rid as u64 };
                match codec::sp_lit(s, b, "}"@) {
                    Some(w) => Some(
                        (
                            ButtonConfigV {
                                label: name,
                                button_type: upgraded,
                                style: ButtonStyle::Primary,
                                emoji: None,
                            },
                            w,
                        ),
                    ),
                    None => match codec::sp_pfx_str(s, b, ",\"style\":"@) {
                        Some((sty, c)) => match label_to_style(sty) {
                            Some(style) => match codec::sp_lit(s, c, "}"@) {
                                Some(w) => Some(
                                    (
                                        ButtonConfigV {
                                            label: name,
                                            button_type: upgraded,
                                            style,
                                            emoji: None,
                                        },
                                        w,
                                    ),
                                ),
                                None => match codec::sp_pfx_opt_str(s, c, ",\"emoji\":"@) {
                                    Some((emoji, d)) => match codec::sp_lit(s, d, "}"@) {
                                        Some(w) => Some(
                                            (
                                                ButtonConfigV {
                                                    label: name,
                                                    button_type: upgraded,
                                                    style,
                                                    emoji,
                                                },
                                                w,
                                            ),
                                        ),
                                        None => None,
                                    },
                                    None => None,
                                },
                            },
                            None => None,
                        },
                        None => None,
                    },
                }
            },
            None => None,
        },
        None => None,
    }
}

/// Parse comma-separated prior-schema buttons, up to the bracket.
pub open spec fn sp_parse_button_items_v0(s: Seq<char>, i: int) -> Option<
    (Seq<ButtonConfigV>, int),
>
    decreases s.len() - i,
{
    match sp_parse_button_v0(s, i) {
        Some((b, j)) => if i < j <= s.len() {
            match codec::sp_lit(s, j, ","@) {
                Some(k) => match sp_parse_button_items_v0(s, k) {
                    Some((rest, e)) => Some((seq![b] + rest, e)),
                    None => None,
                },
                None => match codec::sp_lit(s, j, "]"@) {
                    Some(k) => Some((seq![b], k)),
                    None => None,
                },
            }
        } else {
            None
        },
        None => None,
    }
}

/// Decode a stored panel of the prior schema, upgraded to the current
/// one: each old button becomes a role button under its old name.
pub open spec fn sp_dec_papers_v0(s: Seq<char>) -> Option<PapersStateV> {
    match sp_parse_papers_hdr(s, 0) {
        Some((hd, e)) => match codec::sp_lit(s, e, ",\"buttons\":["@) {
            Some(f) => {
                let items: Option<(Seq<ButtonConfigV>, int)> = match codec::sp_lit(s, f, "]"@) {
                    Some(g) => Some((Seq::empty(), g)),
                    None => sp_parse_button_items_v0(s, f),
                };
                match items {
                    Some((bs, g)) => match codec::sp_lit(s, g, "}"@) {
                        Some(w) => if w == s.len() {
                            Some(
                                PapersStateV {
                                    channel_id: hd.0 as u64,
                                    message_id: hd.1 as u64,
                                    guild_id: codec::opt_int_u64(hd.2),
                                    embed_config: hd.3,
                                    buttons: bs,
                                },
                            )
                        } else {
                            None
                        },
                        None => None,
                    },
                    None => None,
                }
            },
            None => None,
        },
        None => None,
    }
}

/// A stored value's panel, under the current schema or upgraded from the
/// prior one.
pub open spec fn sp_panel_of(s: Seq<char>) -> Option<PapersStateV> {
    match sp_dec_papers(s) {
        Some(p) => Some(p),
        None => sp_dec_papers_v0(s),
    }
}


/// Write an optional color as `null` or its number.
fn write_opt_u32(out: &mut Vec<char>, v: &Option<u32>)
    ensures
        final (out)@ == old(out)@ + codec::enc_opt_u64(opt_u32_int(*v)),
{
    match v {
        Some(n) => codec::write_u64(out, *n as u64),
        None => text::push_str_chars(out, "null"),
    }
}

#[verifier::rlimit(100)]
fn write_embed_head(out: &mut Vec<char>, e: &EmbedConfig)
    ensures
        final (out)@ == old(out)@ + enc_embed_head(e@),
{
    text::push_str_chars(out, "{\"title\":");
    codec::write_opt_str(out, &e.title);
    text::push_str_chars(out, ",\"description\":");
    codec::write_opt_str(out, &e.description);
    text::push_str_chars(out, ",\"url\":");
    codec::write_opt_str(out, &e.url);
    text::push_str_chars(out, ",\"color\":");
    write_opt_u32(out, &e.color);
    text::push_str_chars(out, ",\"author_name\":");
    codec::write_opt_str(out, &e.author_name);
    assert(final (out)@ =~= old(out)@ + enc_embed_head(e@));
}

#[verifier::rlimit(100)]
fn write_embed_tail(out: &mut Vec<char>, e: &EmbedConfig)
    ensures
        final (out)@ == old(out)@ + enc_embed_tail(e@),
{
    text::push_str_chars(out, ",\"author_url\":");
    codec::write_opt_str(out, &e.author_url);
    text::push_str_chars(out, ",\"author_icon_url\":");
    codec::write_opt_str(out, &e.author_icon_url);
    text::push_str_chars(out, ",\"footer_text\":");
    codec::write_opt_str(out, &e.footer_text);
    assert(out@ =~= old(out)@ + enc_embed_mid(e@));
    let ghost mid = out@;
    text::push_str_chars(out, ",\"footer_icon_url\":");
    codec::write_opt_str(out, &e.footer_icon_url);
    text::push_str_chars(out, ",\"image_url\":");
    codec::write_opt_str(out, &e.image_url);
    text::push_str_chars(out, ",\"thumbnail_url\":");
    codec::write_opt_str(out, &e.thumbnail_url);
    text::push_str_chars(out, "}");
    assert(out@ =~= mid + enc_embed_last(e@));
    assert(final (out)@ =~= old(out)@ + enc_embed_tail(e@));
}

/// Write an embed configuration.
fn write_embed(out: &mut Vec<char>, e: &EmbedConfig)
    ensures
        final (out)@ == old(out)@ + enc_embed(e@),
{
    proof {
        reveal(enc_embed);
    }
    write_embed_head(out, e);
    write_embed_tail(out, e);
    assert(final (out)@ =~= old(out)@ + enc_embed(e@));
}

fn parse_embed_head(s: &Vec<char>, i: usize) -> (r: Option<
    ((Option<String>, Option<String>, Option<String>, Option<u32>, Option<String>), usize),
>)
    requires
        i <= s@.len(),
    ensures
        (r matches Some(p) ==> sp_parse_embed_head(s@, i as int) == Some(
            (
                (opt_view(p.0.0), opt_view(p.0.1), opt_view(p.0.2), p.0.3, opt_view(p.0.4)),
                p.1 as int,
            ),
        ) && i < p.1 <= s@.len()),
        r is None ==> sp_parse_embed_head(s@, i as int) is None,
{
    let title = match codec::pfx_opt_str(s, i, "{\"title\":") {
        Some(x) => x,
        None => return None,
    };
    let description = match codec::pfx_opt_str(s, title.1, ",\"description\":") {
        Some(x) => x,
        None => return None,
    };
    let url = match codec::pfx_opt_str(s, description.1, ",\"url\":") {
        Some(x) => x,
        None => return None,
    };
    let color = match codec::pfx_opt_u64(s, url.1, ",\"color\":") {
        Some(x) => x,
        None => return None,
    };
    let color_small: Option<u32> = match color.0 {
        Some(n) => {
            if n <= u32::MAX as u64 {
                Some(n as u32)
            } else {
                return None;
            }
        },
        None => None,
    };
    let author_name = match codec::pfx_opt_str(s, color.1, ",\"author_name\":") {
        Some(x) => x,
        None => return None,
    };
    Some(((title.0, description.0, url.0, color_small, author_name.0), author_name.1))
}

fn parse_embed_tail(s: &Vec<char>, i: usize) -> (r: Option<
    (
        (
            Option<String>,
            Option<String>,
            Option<String>,
            Option<String>,
            Option<String>,
            Option<String>,
        ),
        usize,
    ),
>)
    requires
        i <= s@.len(),
    ensures
        (r matches Some(p) ==> sp_parse_embed_tail(s@, i as int) == Some(
            (
                (
                    opt_view(p.0.0),
                    opt_view(p.0.1),
                    opt_view(p.0.2),
                    opt_view(p.0.3),
                    opt_view(p.0.4),
                    opt_view(p.0.5),
                ),
                p.1 as int,
            ),
        ) && i < p.1 <= s@.len()),
        r is None ==> sp_parse_embed_tail(s@, i as int) is None,
{
    let author_url = match codec::pfx_opt_str(s, i, ",\"author_url\":") {
        Some(x) => x,
        None => return None,
    };
    let author_icon_url = match codec::pfx_opt_str(s, author_url.1, ",\"author_icon_url\":") {
        Some(x) => x,
        None => return None,
    };
    let footer_text = match codec::pfx_opt_str(s, author_icon_url.1, ",\"footer_text\":") {
        Some(x) => x,
        None => return None,
    };
    let footer_icon_url = match codec::pfx_opt_str(s, footer_text.1, ",\"footer_icon_url\":") {
        Some(x) => x,
        None => return None,
    };
    let image_url = match codec::pfx_opt_str(s, footer_icon_url.1, ",\"image_url\":") {
        Some(x) => x,
        None => return None,
    };
    let thumbnail_url = match codec::pfx_opt_str(s, image_url.1, ",\"thumbnail_url\":") {
        Some(x) => x,
        None => return None,
    };
    let w = match codec::expect_lit(s, thumbnail_url.1, "}") {
        Some(x) => x,
        None => return None,
    };
    Some(
        (
            (
                author_url.0,
                author_icon_url.0,
                footer_text.0,
                footer_icon_url.0,
                image_url.0,
                thumbnail_url.0,
            ),
            w,
        ),
    )
}

/// Parse an embed configuration, exactly as [`sp_parse_embed`].
pub fn parse_embed(s: &Vec<char>, i: usize) -> (r: Option<(EmbedConfig, usize)>)
    requires
        i <= s@.len(),
    ensures
        (r matches Some(p) ==> sp_parse_embed(s@, i as int) == Some((p.0@, p.1 as int)) && i
            < p.1 <= s@.len()),
        r is None ==> sp_parse_embed(s@, i as int) is None,
{
    proof {
        reveal(sp_parse_embed);
    }
    let hd = match parse_embed_head(s, i) {
        Some(x) => x,
        None => return None,
    };
    let tl = match parse_embed_tail(s, hd.1) {
        Some(x) => x,
        None => return None,
    };
    Some(
        (
            EmbedConfig {
                title: hd.0.0,
                description: hd.0.1,
                url: hd.0.2,
                color: hd.0.3,
                author_name: hd.0.4,
                author_url: tl.0.0,
                author_icon_url: tl.0.1,
                footer_text: tl.0.2,
                footer_icon_url: tl.0.3,
                image_url: tl.0.4,
                thumbnail_url: tl.0.5,
            },
            tl.1,
        ),
    )
}

/// Write a button's action.
fn write_btype(out: &mut Vec<char>, t: &ButtonType)
    ensures
        final (out)@ == old(out)@ + enc_btype(t@),
{
    match t {
        ButtonType::Role { role_id } => {
            text::push_str_chars(out, "{\"role\":");
            codec::write_u64(out, *role_id);
            text::push_str_chars(out, "}");
            assert(final (out)@ =~= old(out)@ + enc_btype(t@));
        },
        ButtonType::Link { url } => {
            text::push_str_chars(out, "{\"link\":");
            codec::write_str_escaped(out, url.as_str());
            text::push_str_chars(out, "}");
            assert(final (out)@ =~= old(out)@ + enc_btype(t@));
        },
    }
}

/// Parse a button's action, exactly as [`sp_parse_btype`].
fn parse_btype(s: &Vec<char>, i: usize) -> (r: Option<(ButtonType, usize)>)
    requires
        i <= s@.len(),
    ensures
        (r matches Some(p) ==> sp_parse_btype(s@, i as int) == Some((p.0@, p.1 as int)) && i
            < p.1 <= s@.len()),
        r is None ==> sp_parse_btype(s@, i as int) is None,
{
    match codec::pfx_u64(s, i, "{\"role\":") {
        Some((rid, a)) => match codec::expect_lit(s, a, "}") {
            Some(w) => Some((ButtonType::Role { role_id: rid }, w)),
            None => None,
        },
        None => match codec::pfx_str(s, i, "{\"link\":") {
            Some((url, a)) => match codec::expect_lit(s, a, "}") {
                Some(w) => Some((ButtonType::Link { url }, w)),
                None => None,
            },
            None => None,
        },
    }
}

/// Write one button.
fn write_button(out: &mut Vec<char>, b: &ButtonConfig)
    ensures
        final (out)@ == old(out)@ + enc_button(b@),
{
    text::push_str_chars(out, "{\"label\":");
    codec::write_str_escaped(out, b.label.as_str());
    text::push_str_chars(out, ",\"button_type\":");
    write_btype(out, &b.button_type);
    text::push_str_chars(out, ",\"style\":");
    codec::write_str_escaped(out, b.style.as_str());
    text::push_str_chars(out, ",\"emoji\":");
    codec::write_opt_str(out, &b.emoji);
    text::push_str_chars(out, "}");
    assert(final (out)@ =~= old(out)@ + enc_button(b@));
}

/// Parse one button, exactly as [`sp_parse_button`].
fn parse_button(s: &Vec<char>, i: usize) -> (r: Option<(ButtonConfig, usize)>)
    requires
        i <= s@.len(),
    ensures
        (r matches Some(p) ==> sp_parse_button(s@, i as int) == Some((p.0@, p.1 as int)) && i
            < p.1 <= s@.len()),
        r is None ==> sp_parse_button(s@, i as int) is None,
{
    let label = match codec::pfx_str(s, i, "{\"label\":") {
        Some(x) => x,
        None => return None,
    };
    let tpos = match codec::expect_lit(s, label.1, ",\"button_type\":") {
        Some(x) => x,
        None => return None,
    };
    let bt = match parse_btype(s, tpos) {
        Some(x) => x,
        None => return None,
    };
    let sty = match codec::pfx_str(s, bt.1, ",\"style\":") {
        Some(x) => x,
        None => return None,
    };
    let style: ButtonStyle = if text::str_eq_str(sty.0.as_str(), "Primary") {
        ButtonStyle::Primary
    } else if text::str_eq_str(sty.0.as_str(), "Secondary") {
        ButtonStyle::Secondary
    } else if text::str_eq_str(sty.0.as_str(), "Success") {
        ButtonStyle::Success
    } else if text::str_eq_str(sty.0.as_str(), "Danger") {
        ButtonStyle::Danger
    } else {
        proof {
            assert(label_to_style(sty.0@) is None);
        }
        return None;
    };
    proof {
        assert(label_to_style(sty.0@) == Some(style));
    }
    let emoji = match codec::pfx_opt_str(s, sty.1, ",\"emoji\":") {
        Some(x) => x,
        None => return None,
    };
    let w = match codec::expect_lit(s, emoji.1, "}") {
        Some(x) => x,
        None => return None,
    };
    Some((ButtonConfig { label: label.0, button_type: bt.0, style, emoji: emoji.0 }, w))
}

/// Write the buttons from index `k` on, comma-separated.
fn write_buttons_from(out: &mut Vec<char>, bs: &Vec<ButtonConfig>, k: usize)
    requires
        k <= bs@.len(),
    ensures
        final (out)@ == old(out)@ + enc_buttons_from(buttons_view(bs@), k as int),
    decreases bs@.len() - k,
{
    if k < bs.len() {
        write_button(out, &bs[k]);
        proof {
            assert(buttons_view(bs@)[k as int] == bs@[k as int]@);
        }
        if k + 1 < bs.len() {
            out.push(',');
            write_buttons_from(out, bs, k + 1);
            assert(final (out)@ =~= old(out)@ + enc_buttons_from(buttons_view(bs@), k as int));
        } else {
            assert(final (out)@ =~= old(out)@ + enc_buttons_from(buttons_view(bs@), k as int));
        }
    }
}

/// Parse comma-separated buttons, as [`sp_parse_button_items`].
fn parse_button_items(s: &Vec<char>, i: usize) -> (r: Option<(Vec<ButtonConfig>, usize)>)
    requires
        i <= s@.len(),
    ensures
        (r matches Some(p) ==> sp_parse_button_items(s@, i as int) == Some(
            (buttons_view(p.0@), p.1 as int),
        ) && i < p.1 <= s@.len()),
        r is None ==> sp_parse_button_items(s@, i as int) is None,
    decreases s@.len() - i,
{
    match parse_button(s, i) {
        Some((b, j)) => {
            match codec::expect_lit(s, j, ",") {
                Some(k) => match parse_button_items(s, k) {
                    Some((mut rest, e)) => {
                        let ghost r0 = rest@;
                        let ghost bv = b@;
                        rest.insert(0, b);
                        proof {
                            assert(buttons_view(rest@) =~= seq![bv] + buttons_view(r0));
                        }
                        Some((rest, e))
                    },
                    None => None,
                },
                None => match codec::expect_lit(s, j, "]") {
                    Some(k) => {
                        let ghost bv = b@;
                        let mut one: Vec<ButtonConfig> = Vec::new();
                        one.push(b);
                        proof {
                            assert(buttons_view(one@) =~= seq![bv]);
                        }
                        Some((one, k))
                    },
                    None => None,
                },
            }
        },
        None => None,
    }
}

fn write_papers_hdr(out: &mut Vec<char>, st: &PapersState)
    ensures
        final (out)@ == old(out)@ + enc_papers_hdr(st@),
{
    proof {
        reveal(enc_papers_hdr);
    }
    text::push_str_chars(out, "{\"channel_id\":");
    codec::write_u64(out, st.channel_id);
    text::push_str_chars(out, ",\"message_id\":");
    codec::write_u64(out, st.message_id);
    text::push_str_chars(out, ",\"guild_id\":");
    codec::write_opt_u64(out, &st.guild_id);
    text::push_str_chars(out, ",\"embed_config\":");
    write_embed(out, &st.embed_config);
    assert(final (out)@ =~= old(out)@ + enc_papers_hdr(st@));
}

/// Encode one panel for the store.
pub fn encode_papers(st: &PapersState) -> (r: String)
    ensures
        r@ == enc_papers(st@),
{
    let mut out: Vec<char> = Vec::new();
    write_papers_hdr(&mut out, st);
    let ghost hdr = out@;
    text::push_str_chars(&mut out, ",\"buttons\":[");
    write_buttons_from(&mut out, &st.buttons, 0);
    text::push_str_chars(&mut out, "]}");
    assert(out@ =~= hdr + (",\"buttons\":["@ + enc_buttons_from(buttons_view(st.buttons@), 0)
        + "]}"@));
    assert(out@ =~= enc_papers(st@));
    text::chars_to_string(&out)
}

fn parse_papers_hdr(s: &Vec<char>) -> (r: Option<((u64, u64, Option<u64>, EmbedConfig), usize)>)
    ensures
        (r matches Some(p) ==> sp_parse_papers_hdr(s@, 0) == Some(
            (
                (p.0.0 as int, p.0.1 as int, codec::opt_u64_int(p.0.2), p.0.3@),
                p.1 as int,
            ),
        ) && p.1 <= s@.len()),
        r is None ==> sp_parse_papers_hdr(s@, 0) is None,
{
    proof {
        reveal(sp_parse_papers_hdr);
    }
    let cid = match codec::pfx_u64(s, 0, "{\"channel_id\":") {
        Some(x) => x,
        None => return None,
    };
    let mid = match codec::pfx_u64(s, cid.1, ",\"message_id\":") {
        Some(x) => x,
        None => return None,
    };
    let gid = match codec::pfx_opt_u64(s, mid.1, ",\"guild_id\":") {
        Some(x) => x,
        None => return None,
    };
    let epos = match codec::expect_lit(s, gid.1, ",\"embed_config\":") {
        Some(x) => x,
        None => return None,
    };
    let embed = match parse_embed(s, epos) {
        Some(x) => x,
        None => return None,
    };
    Some(((cid.0, mid.0, gid.0, embed.0), embed.1))
}

/// Decode one stored panel, exactly as [`sp_dec_papers`].
pub fn decode_papers(s: &str) -> (r: Option<PapersState>)
    ensures
        (r matches Some(st) ==> sp_dec_papers(s@) == Some(st@)),
        r is None ==> sp_dec_papers(s@) is None,
{
    let v = text::str_to_chars(s);
    let hd = match parse_papers_hdr(&v) {
        Some(x) => x,
        None => return None,
    };
    let bpos = match codec::expect_lit(&v, hd.1, ",\"buttons\":[") {
        Some(x) => x,
        None => return None,
    };
    let items: (Vec<ButtonConfig>, usize) = match codec::expect_lit(&v, bpos, "]") {
        Some(g) => (Vec::new(), g),
        None => match parse_button_items(&v, bpos) {
            Some(x) => x,
            None => return None,
        },
    };
    let w = match codec::expect_lit(&v, items.1, "}") {
        Some(x) => x,
        None => return None,
    };
    if w != v.len() {
        return None;
    }
    let st = PapersState {
        channel_id: hd.0.0,
        message_id: hd.0.1,
        guild_id: hd.0.2,
        embed_config: hd.0.3,
        buttons: items.0,
    };
    proof {
        if st.buttons@.len() == 0 {
            assert(buttons_view(st.buttons@) =~= Seq::<ButtonConfigV>::empty());
        }
    }
    Some(st)
}

/// Parse one prior-schema button, exactly as [`sp_parse_button_v0`].
fn parse_button_v0(s: &Vec<char>, i: usize) -> (r: Option<(ButtonConfig, usize)>)
    requires
        i <= s@.len(),
    ensures
        (r matches Some(p) ==> sp_parse_button_v0(s@, i as int) == Some((p.0@, p.1 as int)) && i
            < p.1 <= s@.len()),
        r is None ==> sp_parse_button_v0(s@, i as int) is None,
{
    let name = match codec::pfx_str(s, i, "{\"name\":") {
        Some(x) => x,
        None => return None,
    };
    let rid = match codec::pfx_u64(s, name.1, ",\"role_id\":") {
        Some(x) => x,
        None => return None,
    };
    match codec::expect_lit(s, rid.1, "}") {
        Some(w) => {
            return Some(
                (
                    ButtonConfig {
                        label: name.0,
                        button_type: ButtonType::Role { role_id: rid.0 },
                        style: ButtonStyle::Primary,
                        emoji: None,
                    },
                    w,
                ),
            );
        },
        None => {},
    }
    let sty = match codec::pfx_str(s, rid.1, ",\"style\":") {
        Some(x) => x,
        None => return None,
    };
    let style: ButtonStyle = if text::str_eq_str(sty.0.as_str(), "Primary") {
        ButtonStyle::Primary
    } else if text::str_eq_str(sty.0.as_str(), "Secondary") {
        ButtonStyle::Secondary
    } else if text::str_eq_str(sty.0.as_str(), "Success") {
        ButtonStyle::Success
    } else if text::str_eq_str(sty.0.as_str(), "Danger") {
        ButtonStyle::Danger
    } else {
        proof {
            assert(label_to_style(sty.0@) is None);
        }
        return None;
    };
    proof {
        assert(label_to_style(sty.0@) == Some(style));
    }
    match codec::expect_lit(s, sty.1, "}") {
        Some(w) => {
            return Some(
                (
                    ButtonConfig {
                        label: name.0,
                        button_type: ButtonType::Role { role_id: rid.0 },
                        style,
                        emoji: None,
                    },
                    w,
                ),
            );
        },
        None => {},
    }
    let emoji = match codec::pfx_opt_str(s, sty.1, ",\"emoji\":") {
        Some(x) => x,
        None => return None,
    };
    let w = match codec::expect_lit(s, emoji.1, "}") {
        Some(x) => x,
        None => return None,
    };
    Some(
        (
            ButtonConfig {
                label: name.0,
                button_type: ButtonType::Role { role_id: rid.0 },
                style,
                emoji: emoji.0,
            },
            w,
        ),
    )
}

/// Parse comma-separated prior-schema buttons, as
/// [`sp_parse_button_items_v0`].
fn parse_button_items_v0(s: &Vec<char>, i: usize) -> (r: Option<(Vec<ButtonConfig>, usize)>)
    requires
        i <= s@.len(),
    ensures
        (r matches Some(p) ==> sp_parse_button_items_v0(s@, i as int) == Some(
            (buttons_view(p.0@), p.1 as int),
        ) && i < p.1 <= s@.len()),
        r is None ==> sp_parse_button_items_v0(s@, i as int) is None,
    decreases s@.len() - i,
{
    match parse_button_v0(s, i) {
        Some((b, j)) => {
            match codec::expect_lit(s, j, ",") {
                Some(k) => match parse_button_items_v0(s, k) {
                    Some((mut rest, e)) => {
                        let ghost r0 = rest@;
                        let ghost bv = b@;
                        rest.insert(0, b);
                        proof {
                            assert(buttons_view(rest@) =~= seq![bv] + buttons_view(r0));
                        }
                        Some((rest, e))
                    },
                    None => None,
                },
                None => match codec::expect_lit(s, j, "]") {
                    Some(k) => {
                        let ghost bv = b@;
                        let mut one: Vec<ButtonConfig> = Vec::new();
                        one.push(b);
                        proof {
                            assert(buttons_view(one@) =~= seq![bv]);
                        }
                        Some((one, k))
                    },
                    None => None,
                },
            }
        },
        None => None,
    }
}

/// Decode a stored panel of the prior schema, upgraded on the way out,
/// exactly as [`sp_dec_papers_v0`].
pub fn try_migrate_papers_state(s: &str) -> (r: Option<PapersState>)
    ensures
        (r matches Some(st) ==> sp_dec_papers_v0(s@) == Some(st@)),
        r is None ==> sp_dec_papers_v0(s@) is None,
{
    let v = text::str_to_chars(s);
    let hd = match parse_papers_hdr(&v) {
        Some(x) => x,
        None => return None,
    };
    let bpos = match codec::expect_lit(&v, hd.1, ",\"buttons\":[") {
        Some(x) => x,
        None => return None,
    };
    let items: (Vec<ButtonConfig>, usize) = match codec::expect_lit(&v, bpos, "]") {
        Some(g) => (Vec::new(), g),
        None => match parse_button_items_v0(&v, bpos) {
            Some(x) => x,
            None => return None,
        },
    };
    let w = match codec::expect_lit(&v, items.1, "}") {
        Some(x) => x,
        None => return None,
    };
    if w != v.len() {
        return None;
    }
    let st = PapersState {
        channel_id: hd.0.0,
        message_id: hd.0.1,
        guild_id: hd.0.2,
        embed_config: hd.0.3,
        buttons: items.0,
    };
    proof {
        if st.buttons@.len() == 0 {
            assert(buttons_view(st.buttons@) =~= Seq::<ButtonConfigV>::empty());
        }
    }
    Some(st)
}

// ---------------------------------------------------------------------------
// Round trip
// ---------------------------------------------------------------------------
proof fn lemma_btype_roundtrip(s: Seq<char>, i: int, t: ButtonTypeV)
    requires
        0 <= i,
        i + enc_btype(t).len() <= s.len(),
        s.subrange(i, i + enc_btype(t).len()) == enc_btype(t),
    ensures
        sp_parse_btype(s, i) == Some((t, i + enc_btype(t).len())),
{
    reveal_strlit("{\"role\":");
    reveal_strlit("{\"link\":");
    reveal_strlit("}");
    assert("{\"role\":"@.len() == 8 && "{\"link\":"@.len() == 8);
    match t {
        ButtonTypeV::Role { role_id } => {
            let num = codec::enc_u64(role_id as nat);
            let x = "{\"role\":"@ + num;
            assert(enc_btype(t) =~= x + "}"@);
            codec::lemma_subat_split(s, i, x, "}"@);
            codec::lemma_subat_index(s, i + x.len() as int, "}"@, 0);
            assert(s[i + x.len()] == '}');
            assert(!codec::is_digit('}'));
            codec::lemma_pfx_u64(s, i, "{\"role\":"@, role_id as nat);
            assert(codec::sp_lit(s, i + x.len() as int, "}"@) == Some(
                i + enc_btype(t).len() as int,
            ));
        },
        ButtonTypeV::Link { url } => {
            let str_enc = codec::enc_str(url);
            let x = "{\"link\":"@ + str_enc;
            assert(enc_btype(t) =~= x + "}"@);
            codec::lemma_subat_split(s, i, x, "}"@);
            // The role prefix cannot match: the third character differs.
            assert(codec::sp_lit(s, i, "{\"role\":"@) is None) by {
                if codec::sp_lit(s, i, "{\"role\":"@) is Some {
                    assert(s.subrange(i, i + 8) == "{\"role\":"@);
                    assert(s.subrange(i, i + 8)[2] == s[i + 2]);
                    codec::lemma_subat_split(s, i, "{\"link\":"@, str_enc);
                    codec::lemma_subat_index(s, i, "{\"link\":"@, 2);
                    assert(s[i + 2] == 'l');
                    assert("{\"role\":"@[2] == 'r');
                }
            }
            codec::lemma_pfx_str(s, i, "{\"link\":"@, url);
            assert(codec::sp_lit(s, i + x.len() as int, "}"@) == Some(
                i + enc_btype(t).len() as int,
            ));
        },
    }
}

#[verifier::rlimit(100)]
proof fn lemma_button_roundtrip(s: Seq<char>, i: int, b: ButtonConfigV)
    requires
        0 <= i,
        i + enc_button(b).len() <= s.len(),
        s.subrange(i, i + enc_button(b).len()) == enc_button(b),
    ensures
        sp_parse_button(s, i) == Some((b, i + enc_button(b).len())),
{
    reveal_strlit(",\"button_type\":");
    reveal_strlit("}");
    let c1 = "{\"label\":"@ + codec::enc_str(b.label);
    let c2 = ",\"button_type\":"@;
    let c3 = enc_btype(b.button_type);
    let c4 = ",\"style\":"@ + codec::enc_str(style_label(b.style));
    let c5 = ",\"emoji\":"@ + codec::enc_opt_str(b.emoji);
    let c6 = "}"@;
    let r1 = c2 + c3 + c4 + c5 + c6;
    assert(enc_button(b) =~= c1 + r1);
    codec::lemma_subat_split(s, i, c1, r1);
    codec::lemma_pfx_str(s, i, "{\"label\":"@, b.label);
    let p1 = i + c1.len() as int;
    let r2 = c3 + c4 + c5 + c6;
    assert(r1 =~= c2 + r2);
    codec::lemma_subat_split(s, p1, c2, r2);
    assert(codec::sp_lit(s, p1, c2) == Some(p1 + c2.len() as int));
    let p2 = p1 + c2.len() as int;
    let r3 = c4 + c5 + c6;
    assert(r2 =~= c3 + r3);
    codec::lemma_subat_split(s, p2, c3, r3);
    lemma_btype_roundtrip(s, p2, b.button_type);
    let p3 = p2 + c3.len() as int;
    let r4 = c5 + c6;
    assert(r3 =~= c4 + r4);
    codec::lemma_subat_split(s, p3, c4, r4);
    codec::lemma_pfx_str(s, p3, ",\"style\":"@, style_label(b.style));
    lemma_style_label_roundtrip(b.style);
    let p4 = p3 + c4.len() as int;
    assert(r4 =~= c5 + c6);
    codec::lemma_subat_split(s, p4, c5, c6);
    codec::lemma_pfx_opt_str(s, p4, ",\"emoji\":"@, b.emoji);
    let p5 = p4 + c5.len() as int;
    assert(codec::sp_lit(s, p5, c6) == Some(p5 + 1));
    assert(p5 + 1 == i + enc_button(b).len());
}

#[verifier::spinoff_prover]
#[verifier::rlimit(100)]
proof fn lemma_button_items_roundtrip(s: Seq<char>, i: int, bs: Seq<ButtonConfigV>, k: int)
    requires
        0 <= i,
        0 <= k < bs.len(),
        i + enc_buttons_from(bs, k).len() + 1 <= s.len(),
        s.subrange(i, i + enc_buttons_from(bs, k).len() + 1) == enc_buttons_from(bs, k) + seq![
            ']',
        ],
    ensures
        sp_parse_button_items(s, i) == Some(
            (bs.subrange(k, bs.len() as int), i + enc_buttons_from(bs, k).len() + 1),
        ),
    decreases bs.len() - k,
{
    reveal_strlit(",");
    reveal_strlit("]");
    let b = bs[k];
    let eb = enc_button(b);
    if k == bs.len() - 1 {
        assert(enc_buttons_from(bs, k) == eb);
        codec::lemma_subat_split(s, i, eb, seq![']']);
        lemma_button_roundtrip(s, i, b);
        let j = i + eb.len() as int;
        codec::lemma_subat_index(s, j, seq![']'], 0);
        assert(s[j] == ']');
        assert(codec::sp_lit(s, j, ","@) is None) by {
            if codec::sp_lit(s, j, ","@) is Some {
                assert(s.subrange(j, j + 1) == ","@);
                assert(s.subrange(j, j + 1)[0] == s[j]);
            }
        }
        assert(codec::sp_lit(s, j, "]"@) == Some(j + 1)) by {
            assert(s.subrange(j, j + 1) =~= "]"@);
        }
        assert(bs.subrange(k, bs.len() as int) =~= seq![b]);
    } else {
        let rest = enc_buttons_from(bs, k + 1);
        assert(enc_buttons_from(bs, k) == eb + seq![','] + rest);
        let tail = seq![','] + rest + seq![']'];
        assert(enc_buttons_from(bs, k) + seq![']'] =~= eb + tail);
        codec::lemma_subat_split(s, i, eb, tail);
        lemma_button_roundtrip(s, i, b);
        let j = i + eb.len() as int;
        assert(s.subrange(j, j + tail.len() as int) == tail);
        codec::lemma_subat_index(s, j, tail, 0);
        assert(s[j] == ',');
        assert(codec::sp_lit(s, j, ","@) == Some(j + 1)) by {
            assert(s.subrange(j, j + 1) =~= ","@);
        }
        let next = rest + seq![']'];
        assert(tail =~= ","@ + next);
        codec::lemma_subat_split(s, j, ","@, next);
        lemma_button_items_roundtrip(s, j + 1, bs, k + 1);
        assert(seq![b] + bs.subrange(k + 1, bs.len() as int) =~= bs.subrange(k, bs.len() as int));
    }
}

proof fn lemma_embed_head_roundtrip(s: Seq<char>, i: int, e: EmbedConfigV)
    requires
        0 <= i,
        i + enc_embed_head(e).len() <= s.len(),
        s.subrange(i, i + enc_embed_head(e).len()) == enc_embed_head(e),
    ensures
        sp_parse_embed_head(s, i) == Some(
            ((e.title, e.description, e.url, e.color, e.author_name), i + enc_embed_head(e).len()),
        ),
{
    reveal_strlit(",\"author_name\":");
    let c1 = "{\"title\":"@ + codec::enc_opt_str(e.title);
    let c2 = ",\"description\":"@ + codec::enc_opt_str(e.description);
    let c3 = ",\"url\":"@ + codec::enc_opt_str(e.url);
    let c4 = ",\"color\":"@ + codec::enc_opt_u64(opt_u32_int(e.color));
    let c5 = ",\"author_name\":"@ + codec::enc_opt_str(e.author_name);
    codec::lemma_regroup_pairs5(
        "{\"title\":"@,
        codec::enc_opt_str(e.title),
        ",\"description\":"@,
        codec::enc_opt_str(e.description),
        ",\"url\":"@,
        codec::enc_opt_str(e.url),
        ",\"color\":"@,
        codec::enc_opt_u64(opt_u32_int(e.color)),
        ",\"author_name\":"@,
        codec::enc_opt_str(e.author_name),
    );
    assert(enc_embed_head(e) == c1 + (c2 + (c3 + (c4 + c5))));
    codec::lemma_subat_split(s, i, c1, c2 + (c3 + (c4 + c5)));
    codec::lemma_pfx_opt_str(s, i, "{\"title\":"@, e.title);
    let p1 = i + c1.len() as int;
    codec::lemma_subat_split(s, p1, c2, c3 + (c4 + c5));
    codec::lemma_pfx_opt_str(s, p1, ",\"description\":"@, e.description);
    let p2 = p1 + c2.len() as int;
    codec::lemma_subat_split(s, p2, c3, c4 + c5);
    codec::lemma_pfx_opt_str(s, p2, ",\"url\":"@, e.url);
    let p3 = p2 + c3.len() as int;
    codec::lemma_subat_split(s, p3, c4, c5);
    let p4 = p3 + c4.len() as int;
    codec::lemma_subat_index(s, p4, c5, 0);
    assert(s[p4] == ',');
    assert(!codec::is_digit(','));
    codec::lemma_pfx_opt_u64(s, p3, ",\"color\":"@, opt_u32_int(e.color));
    codec::lemma_pfx_opt_str(s, p4, ",\"author_name\":"@, e.author_name);
    assert(opt_int_u32(opt_u32_int(e.color)) == e.color);
    assert(p4 + c5.len() == i + enc_embed_head(e).len());
}

proof fn lemma_embed_tail_roundtrip(s: Seq<char>, i: int, e: EmbedConfigV)
    requires
        0 <= i,
        i + enc_embed_tail(e).len() <= s.len(),
        s.subrange(i, i + enc_embed_tail(e).len()) == enc_embed_tail(e),
    ensures
        sp_parse_embed_tail(s, i) == Some(
            (
                (
                    e.author_url,
                    e.author_icon_url,
                    e.footer_text,
                    e.footer_icon_url,
                    e.image_url,
                    e.thumbnail_url,
                ),
                i + enc_embed_tail(e).len(),
            ),
        ),
{
    reveal_strlit("}");
    let c6 = ",\"author_url\":"@ + codec::enc_opt_str(e.author_url);
    let c7 = ",\"author_icon_url\":"@ + codec::enc_opt_str(e.author_icon_url);
    let c8 = ",\"footer_text\":"@ + codec::enc_opt_str(e.footer_text);
    let c9 = ",\"footer_icon_url\":"@ + codec::enc_opt_str(e.footer_icon_url);
    let c10 = ",\"image_url\":"@ + codec::enc_opt_str(e.image_url);
    let c11 = ",\"thumbnail_url\":"@ + codec::enc_opt_str(e.thumbnail_url);
    let c12 = "}"@;
    codec::lemma_regroup_pairs3(
        ",\"author_url\":"@,
        codec::enc_opt_str(e.author_url),
        ",\"author_icon_url\":"@,
        codec::enc_opt_str(e.author_icon_url),
        ",\"footer_text\":"@,
        codec::enc_opt_str(e.footer_text),
    );
    assert(enc_embed_mid(e) == c6 + (c7 + c8));
    codec::lemma_regroup_pairs3z(
        ",\"footer_icon_url\":"@,
        codec::enc_opt_str(e.footer_icon_url),
        ",\"image_url\":"@,
        codec::enc_opt_str(e.image_url),
        ",\"thumbnail_url\":"@,
        codec::enc_opt_str(e.thumbnail_url),
        "}"@,
    );
    assert(enc_embed_last(e) == c9 + (c10 + (c11 + c12)));
    codec::lemma_subat_split(s, i, enc_embed_mid(e), enc_embed_last(e));
    codec::lemma_subat_split(s, i, c6, c7 + c8);
    codec::lemma_pfx_opt_str(s, i, ",\"author_url\":"@, e.author_url);
    let p6 = i + c6.len() as int;
    codec::lemma_subat_split(s, p6, c7, c8);
    codec::lemma_pfx_opt_str(s, p6, ",\"author_icon_url\":"@, e.author_icon_url);
    let p7 = p6 + c7.len() as int;
    codec::lemma_pfx_opt_str(s, p7, ",\"footer_text\":"@, e.footer_text);
    let p8 = p7 + c8.len() as int;
    assert(p8 == i + enc_embed_mid(e).len());
    codec::lemma_subat_split(s, p8, c9, c10 + (c11 + c12));
    codec::lemma_pfx_opt_str(s, p8, ",\"footer_icon_url\":"@, e.footer_icon_url);
    let p9 = p8 + c9.len() as int;
    codec::lemma_subat_split(s, p9, c10, c11 + c12);
    codec::lemma_pfx_opt_str(s, p9, ",\"image_url\":"@, e.image_url);
    let p10 = p9 + c10.len() as int;
    codec::lemma_subat_split(s, p10, c11, c12);
    codec::lemma_pfx_opt_str(s, p10, ",\"thumbnail_url\":"@, e.thumbnail_url);
    let p11 = p10 + c11.len() as int;
    assert(codec::sp_lit(s, p11, c12) == Some(p11 + 1)) by {
        assert(s.subrange(p11, p11 + 1) == c12);
    }
    assert(p11 + 1 == i + enc_embed_tail(e).len());
}

pub proof fn lemma_embed_roundtrip(s: Seq<char>, i: int, e: EmbedConfigV)
    requires
        0 <= i,
        i + enc_embed(e).len() <= s.len(),
        s.subrange(i, i + enc_embed(e).len()) == enc_embed(e),
    ensures
        sp_parse_embed(s, i) == Some((e, i + enc_embed(e).len())),
{
    reveal(enc_embed);
    reveal(sp_parse_embed);
    codec::lemma_subat_split(s, i, enc_embed_head(e), enc_embed_tail(e));
    lemma_embed_head_roundtrip(s, i, e);
    lemma_embed_tail_roundtrip(s, i + enc_embed_head(e).len() as int, e);
}

/// Decoding an encoded panel gives the panel back: saving and reloading
/// a panel loses no button, keeps their order, and keeps every embed
/// field.
#[verifier::rlimit(100)]
proof fn lemma_papers_hdr_roundtrip(s: Seq<char>, v: PapersStateV)
    requires
        enc_papers_hdr(v).len() <= s.len(),
        s.subrange(0, enc_papers_hdr(v).len() as int) == enc_papers_hdr(v),
    ensures
        sp_parse_papers_hdr(s, 0) == Some(
            (
                (
                    v.channel_id as int,
                    v.message_id as int,
                    codec::opt_u64_int(v.guild_id),
                    v.embed_config,
                ),
                enc_papers_hdr(v).len() as int,
            ),
        ),
{
    reveal(enc_papers_hdr);
    reveal(sp_parse_papers_hdr);
    reveal_strlit(",\"message_id\":");
    reveal_strlit(",\"guild_id\":");
    reveal_strlit(",\"embed_config\":");
    reveal_strlit("{\"title\":");
    let c1 = "{\"channel_id\":"@ + codec::enc_u64(v.channel_id as nat);
    let c2 = ",\"message_id\":"@ + codec::enc_u64(v.message_id as nat);
    let c3 = ",\"guild_id\":"@ + codec::enc_opt_u64(codec::opt_u64_int(v.guild_id));
    let c4 = ",\"embed_config\":"@;
    let c5 = enc_embed(v.embed_config);
    codec::lemma_regroup_pairs3z(
        "{\"channel_id\":"@,
        codec::enc_u64(v.channel_id as nat),
        ",\"message_id\":"@,
        codec::enc_u64(v.message_id as nat),
        ",\"guild_id\":"@,
        codec::enc_opt_u64(codec::opt_u64_int(v.guild_id)),
        c4 + c5,
    );
    assert(enc_papers_hdr(v) == c1 + (c2 + (c3 + (c4 + c5)))) by {
        assert(enc_papers_hdr(v) =~= "{\"channel_id\":"@ + codec::enc_u64(v.channel_id as nat)
            + ",\"message_id\":"@ + codec::enc_u64(v.message_id as nat) + ",\"guild_id\":"@
            + codec::enc_opt_u64(codec::opt_u64_int(v.guild_id)) + (c4 + c5));
    }
    codec::lemma_subat_split(s, 0, c1, c2 + (c3 + (c4 + c5)));
    let p1 = c1.len() as int;
    codec::lemma_subat_index(s, p1, c2 + (c3 + (c4 + c5)), 0);
    assert(s[p1] == ',');
    assert(!codec::is_digit(','));
    codec::lemma_pfx_u64(s, 0, "{\"channel_id\":"@, v.channel_id as nat);
    codec::lemma_subat_split(s, p1, c2, c3 + (c4 + c5));
    let p2 = p1 + c2.len() as int;
    codec::lemma_subat_index(s, p2, c3 + (c4 + c5), 0);
    assert(s[p2] == ',');
    codec::lemma_pfx_u64(s, p1, ",\"message_id\":"@, v.message_id as nat);
    codec::lemma_subat_split(s, p2, c3, c4 + c5);
    let p3 = p2 + c3.len() as int;
    codec::lemma_subat_index(s, p3, c4 + c5, 0);
    assert(s[p3] == ',');
    codec::lemma_pfx_opt_u64(s, p2, ",\"guild_id\":"@, codec::opt_u64_int(v.guild_id));
    codec::lemma_subat_split(s, p3, c4, c5);
    assert(codec::sp_lit(s, p3, c4) == Some(p3 + c4.len() as int));
    let p4 = p3 + c4.len() as int;
    lemma_embed_roundtrip(s, p4, v.embed_config);
    assert(p4 + c5.len() == enc_papers_hdr(v).len());
}

/// Decoding an encoded panel gives the panel back: saving and reloading
/// a panel loses no button, keeps their order, and keeps every embed
/// field.
#[verifier::spinoff_prover]
#[verifier::rlimit(100)]
pub proof fn lemma_papers_roundtrip(v: PapersStateV)
    ensures
        sp_dec_papers(enc_papers(v)) == Some(v),
{
    reveal_strlit(",\"buttons\":[");
    reveal_strlit("{\"label\":");
    reveal_strlit("]}");
    reveal_strlit("]");
    reveal_strlit("}");
    let s = enc_papers(v);
    let hdr = enc_papers_hdr(v);
    let c6 = ",\"buttons\":["@;
    let c7 = enc_buttons_from(v.buttons, 0);
    let c8 = "]}"@;
    assert(c8.len() == 2 && c8[0] == ']' && c8[1] == '}');
    let rest = c6 + c7 + c8;
    assert(s == hdr + rest);
    assert(s.subrange(0, s.len() as int) =~= s);
    codec::lemma_subat_split(s, 0, hdr, rest);
    lemma_papers_hdr_roundtrip(s, v);
    let p5 = hdr.len() as int;
    assert(rest =~= c6 + (c7 + c8));
    codec::lemma_subat_split(s, p5, c6, c7 + c8);
    assert(codec::sp_lit(s, p5, c6) == Some(p5 + c6.len() as int));
    let p6 = p5 + c6.len() as int;
    codec::lemma_subat_split(s, p6, c7, c8);
    if v.buttons.len() == 0 {
        assert(c7 =~= Seq::<char>::empty());
        assert(s.subrange(p6, p6 + 2) =~= c8) by {
            assert(c7 + c8 =~= c8);
        }
        codec::lemma_subat_index(s, p6, c8, 0);
        codec::lemma_subat_index(s, p6, c8, 1);
        assert(s[p6] == ']' && s[p6 + 1] == '}');
        assert(codec::sp_lit(s, p6, "]"@) == Some(p6 + 1)) by {
            assert(s.subrange(p6, p6 + 1) =~= "]"@);
        }
        assert(codec::sp_lit(s, p6 + 1, "}"@) == Some(p6 + 2)) by {
            assert(s.subrange(p6 + 1, p6 + 2) =~= "}"@);
        }
        assert(p6 + 2 == s.len());
        assert(v.buttons =~= Seq::<ButtonConfigV>::empty());
    } else {
        let items_chunk = c7 + seq![']'];
        assert(c7 + c8 =~= items_chunk + "}"@);
        codec::lemma_subat_split(s, p6, items_chunk, "}"@);
        assert(codec::sp_lit(s, p6, "]"@) is None) by {
            if codec::sp_lit(s, p6, "]"@) is Some {
                assert(s.subrange(p6, p6 + 1) == "]"@);
                assert(s.subrange(p6, p6 + 1)[0] == s[p6]);
                assert(enc_buttons_from(v.buttons, 0)[0] == enc_button(v.buttons[0])[0]) by {
                    if v.buttons.len() > 1 {
                        assert(enc_buttons_from(v.buttons, 0) == enc_button(v.buttons[0]) + seq![
                            ',',
                        ] + enc_buttons_from(v.buttons, 1));
                    }
                }
                assert(enc_button(v.buttons[0])[0] == '{') by {
                    assert(enc_button(v.buttons[0])[0] == ("{\"label\":"@ + codec::enc_str(
                        v.buttons[0].label,
                    ))[0]);
                }
                codec::lemma_subat_index(s, p6, c7, 0);
            }
        }
        lemma_button_items_roundtrip(s, p6, v.buttons, 0);
        let p7 = p6 + c7.len() as int + 1;
        assert(codec::sp_lit(s, p7, "}"@) == Some(p7 + 1));
        assert(p7 + 1 == s.len());
        assert(v.buttons.subrange(0, v.buttons.len() as int) =~= v.buttons);
    }
    assert(codec::opt_int_u64(codec::opt_u64_int(v.guild_id)) == v.guild_id);
}


// ---------------------------------------------------------------------------
// The panel's laws
// ---------------------------------------------------------------------------
/// No two buttons share a label (the add operations keep it that way).
pub open spec fn labels_unique(bs: Seq<ButtonConfigV>) -> bool {
    forall|i: int, j: int|
        0 <= i < j < bs.len() ==> (#[trigger] bs[i]).label != (#[trigger] bs[j]).label
}

proof fn lemma_first_label_none(bs: Seq<ButtonConfigV>, label: Seq<char>, k: int)
    requires
        forall|j: int| 0 <= j < bs.len() ==> (#[trigger] bs[j]).label != label,
        0 <= k,
    ensures
        sp_first_label(bs, label, k) is None,
    decreases bs.len() - k,
{
    if k < bs.len() {
        lemma_first_label_none(bs, label, k + 1);
    }
}

/// Removing button `i` shifts every later button down by one, and when
/// labels are unique and the removed label is not a digit string, no
/// later lookup under that label finds anything.
pub proof fn lemma_removed_label_not_found(bs: Seq<ButtonConfigV>, i: int)
    requires
        0 <= i < bs.len(),
        labels_unique(bs),
        !(codec::sp_parse_u64(bs[i].label, 0) matches Some((n, e)) && e == bs[i].label.len()),
    ensures
        bs.remove(i).len() == bs.len() - 1,
        forall|j: int| 0 <= j < i ==> #[trigger] bs.remove(i)[j] == bs[j],
        forall|j: int| i <= j < bs.len() - 1 ==> #[trigger] bs.remove(i)[j] == bs[j + 1],
        sp_find_button(bs.remove(i), bs[i].label) is None,
{
    let label = bs[i].label;
    let rest = bs.remove(i);
    assert forall|j: int| 0 <= j < rest.len() implies (#[trigger] rest[j]).label != label by {
        if j < i {
            assert(rest[j] == bs[j]);
        } else {
            assert(rest[j] == bs[j + 1]);
        }
    }
    lemma_first_label_none(rest, label, 0);
}

// ---------------------------------------------------------------------------
// Store operations
// ---------------------------------------------------------------------------
/// Persist one panel under its `channel_message` key.
pub fn save_papers_state(store: &mut Store, st: &PapersState) -> (r: Result<(), DbError>)
    ensures
        (r matches Ok(u) ==> store_tbl(*final (store), papers_table()) == store_tbl(
            *old(store),
            papers_table(),
        ).insert(sp_papers_key(st.channel_id, st.message_id), enc_papers(st@))),
        r is Ok ==> forall|n: Seq<char>|
            n != papers_table() ==> #[trigger] store_tbl(*final (store), n) == store_tbl(
                *old(store),
                n,
            ),
        r is Err ==> (forall|n: Seq<char>|
            n != papers_table() ==> #[trigger] store_tbl(*final (store), n) == store_tbl(
                *old(store),
                n,
            )) && (store_tbl(*final (store), papers_table()) == store_tbl(
            *old(store),
            papers_table(),
        ) || store_tbl(*final (store), papers_table()) == store_tbl(
            *old(store),
            papers_table(),
        ).insert(sp_papers_key(st.channel_id, st.message_id), enc_papers(st@))),
{
    proof {
        reveal_strlit("papers");
    }
    let key = papers_key(st.channel_id, st.message_id);
    let value = encode_papers(st);
    store.write_entry("papers", key.as_str(), value.as_str())
}

/// Remove one panel's record; the chat message is dealt with outside.
pub fn delete_papers_state(store: &mut Store, channel_id: u64, message_id: u64) -> (r: Result<
    (),
    DbError,
>)
    ensures
        (r matches Ok(u) ==> store_tbl(*final (store), papers_table()) == store_tbl(
            *old(store),
            papers_table(),
        ).remove(sp_papers_key(channel_id, message_id))),
        r is Ok ==> forall|n: Seq<char>|
            n != papers_table() ==> #[trigger] store_tbl(*final (store), n) == store_tbl(
                *old(store),
                n,
            ),
        r is Err ==> (forall|n: Seq<char>|
            n != papers_table() ==> #[trigger] store_tbl(*final (store), n) == store_tbl(
                *old(store),
                n,
            )) && (store_tbl(*final (store), papers_table()) == store_tbl(
            *old(store),
            papers_table(),
        ) || store_tbl(*final (store), papers_table()) == store_tbl(
            *old(store),
            papers_table(),
        ).remove(sp_papers_key(channel_id, message_id))),
{
    proof {
        reveal_strlit("papers");
    }
    let key = papers_key(channel_id, message_id);
    store.delete_entry("papers", key.as_str())
}

/// Whether the table holds, under this key, a record whose panel is `p`.
pub open spec fn stored_panel_at(
    t: Map<Seq<char>, Seq<char>>,
    k: Seq<char>,
    p: PapersStateV,
) -> bool {
    t.contains_key(k) && sp_panel_of(t[k]) == Some(p)
}

/// Whether some stored record decodes under neither panel schema.
pub open spec fn sp_some_panel_corrupt(t: Map<Seq<char>, Seq<char>>) -> bool {
    exists|k: Seq<char>| t.contains_key(k) && sp_panel_of(#[trigger] t[k]) is None
}

/// The panels table after a by-channel load: the same keys, and any
/// value that changed was a prior-schema record replaced by its current
/// re-encoding.
pub open spec fn sp_upgraded_in_place(
    t0: Map<Seq<char>, Seq<char>>,
    t1: Map<Seq<char>, Seq<char>>,
) -> bool {
    &&& forall|k: Seq<char>| #[trigger] t1.contains_key(k) == t0.contains_key(k)
    &&& forall|k: Seq<char>|
        t0.contains_key(k) && #[trigger] t1[k] != t0[k] ==> match sp_panel_of(t0[k]) {
            Some(p) => sp_dec_papers(t0[k]) is None && t1[k] == enc_papers(p),
            None => false,
        }
}

/// Find the panel bound to a channel: scan the table, decoding each
/// record under the current schema and falling back to the prior one.
/// A record found under the prior schema is re-encoded and persisted
/// back before it is returned, so later loads decode on the fast path.
/// A record that decodes under neither schema is corrupt and surfaced
/// as a `Serialization` error.
pub fn load_papers_state_by_channel(store: &mut Store, channel_id: u64) -> (r: Result<
    Option<PapersState>,
    DbError,
>)
    ensures
        (r matches Ok(o) ==> match o {
            Some(st) => st@.channel_id == channel_id && exists|k: Seq<char>|
                #[trigger] stored_panel_at(store_tbl(*old(store), papers_table()), k, st@)
                    && match sp_dec_papers(store_tbl(*old(store), papers_table())[k]) {
                    Some(p) => store_tbl(*final (store), papers_table()) == store_tbl(
                        *old(store),
                        papers_table(),
                    ),
                    None => store_tbl(*final (store), papers_table()) == store_tbl(
                        *old(store),
                        papers_table(),
                    ).insert(k, enc_papers(st@)),
                },
            None => (forall|n: Seq<char>|
                #[trigger] store_tbl(*final (store), n) == store_tbl(*old(store), n)) && forall|
                k: Seq<char>,
            |
                store_tbl(*old(store), papers_table()).contains_key(k) ==> (sp_panel_of(
                    #[trigger] store_tbl(*old(store), papers_table())[k],
                ) matches Some(p) && p.channel_id != channel_id),
        }),
        r is Ok ==> forall|n: Seq<char>|
            n != papers_table() ==> #[trigger] store_tbl(*final (store), n) == store_tbl(
                *old(store),
                n,
            ),
        r is Err ==> (forall|n: Seq<char>|
            n != papers_table() ==> #[trigger] store_tbl(*final (store), n) == store_tbl(
                *old(store),
                n,
            )) && sp_upgraded_in_place(
            store_tbl(*old(store), papers_table()),
            store_tbl(*final (store), papers_table()),
        ),
        (r matches Err(e) && e is Serialization) ==> sp_some_panel_corrupt(
            store_tbl(*old(store), papers_table()),
        ),
{
    proof {
        reveal_strlit("papers");
    }
    let pairs = match store.read_table("papers") {
        Ok(p) => p,
        Err(e) => return Err(e),
    };
    let ghost t0 = store_tbl(*store, papers_table());
    let mut i: usize = 0;
    while i < pairs.len()
        invariant
            i <= pairs@.len(),
            t0 == store_tbl(*store, papers_table()),
            forall|n: Seq<char>| #[trigger] store_tbl(*store, n) == store_tbl(*old(store), n),
            forall|k: int|
                0 <= k < pairs@.len() ==> t0.contains_key(#[trigger] pairs@[k].0@)
                    && t0[pairs@[k].0@] == pairs@[k].1@,
            forall|k: Seq<char>|
                t0.contains_key(k) ==> exists|j: int|
                    0 <= j < pairs@.len() && #[trigger] pairs@[j].0@ == k,
            forall|j: int|
                0 <= j < i ==> (sp_panel_of(t0[(#[trigger] pairs@[j]).0@]) matches Some(p)
                    && p.channel_id != channel_id),
        decreases pairs@.len() - i,
    {
        proof {
            reveal_strlit("papers");
        }
        let pair = &pairs[i];
        let current = decode_papers(pair.1.as_str());
        match current {
            Some(st) => {
                proof {
                    assert(t0[pairs@[i as int].0@] == pairs@[i as int].1@);
                }
                if st.channel_id == channel_id {
                    proof {
                        assert(stored_panel_at(t0, pairs@[i as int].0@, st@));
                    }
                    return Ok(Some(st));
                }
            },
            None => {
                match try_migrate_papers_state(pair.1.as_str()) {
                    Some(m) => {
                        proof {
                            assert(t0[pairs@[i as int].0@] == pairs@[i as int].1@);
                        }
                        if m.channel_id == channel_id {
                            proof {
                                assert(stored_panel_at(t0, pairs@[i as int].0@, m@));
                            }
                            let ghost key = pairs@[i as int].0@;
                            let value = encode_papers(&m);
                            match store.write_entry("papers", pair.0.as_str(), value.as_str()) {
                                Ok(()) => {
                                    return Ok(Some(m));
                                },
                                Err(e) => {
                                    proof {
                                        let t1 = store_tbl(*store, papers_table());
                                        assert forall|k: Seq<char>|
                                            #[trigger] t1.contains_key(k) == t0.contains_key(
                                            k,
                                        ) by {
                                            if k != key {
                                            } else {
                                                assert(t0.contains_key(key));
                                            }
                                        }
                                        assert forall|k: Seq<char>|
                                            t0.contains_key(k) && #[trigger] t1[k] != t0[k]
                                            implies match sp_panel_of(t0[k]) {
                                            Some(p) => sp_dec_papers(t0[k]) is None && t1[k]
                                                == enc_papers(p),
                                            None => false,
                                        } by {
                                            assert(k == key);
                                            assert(sp_panel_of(t0[key]) == Some(m@));
                                        }
                                    }
                                    return Err(e);
                                },
                            }
                        }
                    },
                    None => {
                        proof {
                            assert(t0.contains_key(pairs@[i as int].0@) && sp_panel_of(
                                t0[pairs@[i as int].0@],
                            ) is None);
                            assert(sp_some_panel_corrupt(t0));
                        }
                        return Err(DbError::Serialization(String::new()));
                    },
                }
            },
        }
        i = i + 1;
    }
    proof {
        assert forall|k: Seq<char>| t0.contains_key(k) implies (sp_panel_of(
            #[trigger] t0[k],
        ) matches Some(p) && p.channel_id != channel_id) by {
            let j = choose|j: int| 0 <= j < pairs@.len() && #[trigger] pairs@[j].0@ == k;
            assert(sp_panel_of(t0[pairs@[j].0@]) matches Some(p) && p.channel_id != channel_id);
        }
    }
    Ok(None)
}

/// Saving a panel and loading its channel back returns that panel
/// exactly, provided no other stored record decodes to the same channel:
/// the by-channel scan can then only find the saved one.  Together with
/// the load contract this pins the reloaded buttons, their order and the
/// embed to what was saved.
pub proof fn lemma_unique_panel_reload(
    t: Map<Seq<char>, Seq<char>>,
    key: Seq<char>,
    st: PapersStateV,
    r: PapersStateV,
)
    requires
        t.contains_key(key),
        t[key] == enc_papers(st),
        forall|k: Seq<char>|
            t.contains_key(k) && k != key ==> match sp_panel_of(#[trigger] t[k]) {
                Some(p) => p.channel_id != st.channel_id,
                None => true,
            },
        exists|k2: Seq<char>| #[trigger] stored_panel_at(t, k2, r),
        r.channel_id == st.channel_id,
    ensures
        r == st,
{
    lemma_papers_roundtrip(st);
    assert(sp_panel_of(t[key]) == Some(st));
    let k2 = choose|k2: Seq<char>| #[trigger] stored_panel_at(t, k2, r);
    if k2 == key {
        assert(sp_panel_of(t[key]) == Some(r));
    } else {
        assert(match sp_panel_of(t[k2]) {
            Some(p) => p.channel_id != st.channel_id,
            None => true,
        });
        assert(sp_panel_of(t[k2]) == Some(r));
    }
}

/// Whether some listed key equals `k`.
pub open spec fn sp_key_in(keys: Seq<String>, k: Seq<char>) -> bool {
    exists|i: int| 0 <= i < keys.len() && (#[trigger] keys[i])@ == k
}

/// The maintenance sweep's reading half: every stored panel with its key,
/// and, separately, the keys of records that decode under neither schema.
pub fn prune_scan(store: &Store) -> (r: Result<(Vec<(String, PapersState)>, Vec<String>), DbError>)
    ensures
        (r matches Ok(v) ==> {
            let t = store_tbl(*store, papers_table());
            &&& forall|i: int|
                0 <= i < v.0@.len() ==> t.contains_key((#[trigger] v.0@[i]).0@) && sp_panel_of(
                    t[v.0@[i].0@],
                ) == Some(v.0@[i].1@)
            &&& forall|i: int|
                0 <= i < v.1@.len() ==> t.contains_key((#[trigger] v.1@[i])@) && sp_panel_of(
                    t[v.1@[i]@],
                ) is None
        }),
{
    proof {
        reveal_strlit("papers");
    }
    let pairs = match store.read_table("papers") {
        Ok(p) => p,
        Err(e) => return Err(e),
    };
    let ghost t = store_tbl(*store, papers_table());
    let mut valid: Vec<(String, PapersState)> = Vec::new();
    let mut corrupt: Vec<String> = Vec::new();
    let mut i: usize = 0;
    while i < pairs.len()
        invariant
            i <= pairs@.len(),
            t == store_tbl(*store, papers_table()),
            forall|k: int|
                0 <= k < pairs@.len() ==> t.contains_key(#[trigger] pairs@[k].0@)
                    && t[pairs@[k].0@] == pairs@[k].1@,
            forall|j: int|
                0 <= j < valid@.len() ==> t.contains_key((#[trigger] valid@[j]).0@)
                    && sp_panel_of(t[valid@[j].0@]) == Some(valid@[j].1@),
            forall|j: int|
                0 <= j < corrupt@.len() ==> t.contains_key((#[trigger] corrupt@[j])@)
                    && sp_panel_of(t[corrupt@[j]@]) is None,
        decreases pairs@.len() - i,
    {
        let pair = &pairs[i];
        proof {
            assert(t[pairs@[i as int].0@] == pairs@[i as int].1@);
        }
        match decode_papers(pair.1.as_str()) {
            Some(st) => {
                let ghost v0 = valid@;
                valid.push((pair.0.clone(), st));
                proof {
                    assert(valid@[v0.len() as int].0@ == pairs@[i as int].0@);
                    assert forall|j: int|
                        0 <= j < valid@.len() implies t.contains_key((#[trigger] valid@[j]).0@)
                        && sp_panel_of(t[valid@[j].0@]) == Some(valid@[j].1@) by {
                        if j < v0.len() {
                            assert(valid@[j] == v0[j]);
                        }
                    }
                }
            },
            None => {
                match try_migrate_papers_state(pair.1.as_str()) {
                    Some(st) => {
                        let ghost v0 = valid@;
                        valid.push((pair.0.clone(), st));
                        proof {
                            assert(valid@[v0.len() as int].0@ == pairs@[i as int].0@);
                            assert forall|j: int|
                                0 <= j < valid@.len() implies t.contains_key(
                                (#[trigger] valid@[j]).0@,
                            ) && sp_panel_of(t[valid@[j].0@]) == Some(valid@[j].1@) by {
                                if j < v0.len() {
                                    assert(valid@[j] == v0[j]);
                                }
                            }
                        }
                    },
                    None => {
                        let ghost c0 = corrupt@;
                        corrupt.push(pair.0.clone());
                        proof {
                            assert(corrupt@[c0.len() as int]@ == pairs@[i as int].0@);
                            assert forall|j: int|
                                0 <= j < corrupt@.len() implies t.contains_key(
                                (#[trigger] corrupt@[j])@,
                            ) && sp_panel_of(t[corrupt@[j]@]) is None by {
                                if j < c0.len() {
                                    assert(corrupt@[j] == c0[j]);
                                }
                            }
                        }
                    },
                }
            },
        }
        i = i + 1;
    }
    Ok((valid, corrupt))
}

/// The maintenance sweep's writing half: remove the given keys, leaving
/// every other record alone whatever happens.  Returns how many keys
/// were removed; on an error some prefix of the keys may already be
/// gone.
pub fn prune_apply(store: &mut Store, keys: &Vec<String>) -> (r: Result<usize, DbError>)
    ensures
        forall|n2: Seq<char>|
            n2 != papers_table() ==> #[trigger] store_tbl(*final (store), n2) == store_tbl(
                *old(store),
                n2,
            ),
        forall|k: Seq<char>|
            #![trigger sp_key_in(keys@, k)]
            !sp_key_in(keys@, k) ==> (store_tbl(*final (store), papers_table()).contains_key(k)
                == store_tbl(*old(store), papers_table()).contains_key(k)) && (store_tbl(
                *old(store),
                papers_table(),
            ).contains_key(k) ==> store_tbl(*final (store), papers_table())[k] == store_tbl(
                *old(store),
                papers_table(),
            )[k]),
        (r matches Ok(n) ==> n == keys@.len() && forall|j: int|
            0 <= j < keys@.len() ==> !store_tbl(*final (store), papers_table()).contains_key(
                (#[trigger] keys@[j])@,
            )),
{
    proof {
        reveal_strlit("papers");
    }
    let mut i: usize = 0;
    while i < keys.len()
        invariant
            i <= keys@.len(),
            forall|j: int|
                0 <= j < i ==> !store_tbl(*store, papers_table()).contains_key(
                    (#[trigger] keys@[j])@,
                ),
            forall|k: Seq<char>|
                #![trigger sp_key_in(keys@, k)]
                !sp_key_in(keys@, k) ==> (store_tbl(*store, papers_table()).contains_key(k)
                    == store_tbl(*old(store), papers_table()).contains_key(k)) && (store_tbl(
                    *old(store),
                    papers_table(),
                ).contains_key(k) ==> store_tbl(*store, papers_table())[k] == store_tbl(
                    *old(store),
                    papers_table(),
                )[k]),
            forall|n2: Seq<char>|
                n2 != papers_table() ==> #[trigger] store_tbl(*store, n2) == store_tbl(
                    *old(store),
                    n2,
                ),
        decreases keys@.len() - i,
    {
        proof {
            reveal_strlit("papers");
        }
        let ghost before = store_tbl(*store, papers_table());
        let outcome = store.delete_entry("papers", keys[i].as_str());
        proof {
            assert(store_tbl(*store, papers_table()) == before || store_tbl(
                *store,
                papers_table(),
            ) == before.remove(keys@[i as int]@));
            assert forall|k: Seq<char>|
                #![trigger sp_key_in(keys@, k)]
                !sp_key_in(keys@, k) implies (store_tbl(*store, papers_table()).contains_key(k)
                == store_tbl(*old(store), papers_table()).contains_key(k)) && (store_tbl(
                *old(store),
                papers_table(),
            ).contains_key(k) ==> store_tbl(*store, papers_table())[k] == store_tbl(
                *old(store),
                papers_table(),
            )[k]) by {
                assert(keys@[i as int]@ != k) by {
                    if keys@[i as int]@ == k {
                        assert(sp_key_in(keys@, k));
                    }
                }
                assert(before.contains_key(k) == store_tbl(
                    *old(store),
                    papers_table(),
                ).contains_key(k) && (store_tbl(*old(store), papers_table()).contains_key(k)
                    ==> before[k] == store_tbl(*old(store), papers_table())[k]));
                assert(store_tbl(*store, papers_table()).contains_key(k) == before.contains_key(
                    k,
                ));
                if before.contains_key(k) {
                    assert(store_tbl(*store, papers_table())[k] == before[k]);
                }
            }
        }
        match outcome {
            Ok(()) => {},
            Err(e) => return Err(e),
        }
        proof {
            assert(store_tbl(*store, papers_table()) == before.remove(keys@[i as int]@));
            assert forall|j: int| 0 <= j < i + 1 implies !store_tbl(
                *store,
                papers_table(),
            ).contains_key((#[trigger] keys@[j])@) by {
                if j < i {
                    if keys@[j]@ != keys@[i as int]@ {
                        assert(!before.contains_key(keys@[j]@));
                    }
                }
            }
        }
        i = i + 1;
    }
    Ok(i)
}

} // verus!
