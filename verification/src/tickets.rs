//! Support tickets: a configurable menu that spawns ticket channels, and
//! one record per open ticket.  A ticket is opened from the menu's modal,
//! closed by its creator at once or by the owner after confirmation, and
//! deleted only by the owner; the chat-side locking and channel removal
//! happen outside the library.
use vstd::prelude::*;

use crate::codec;
use crate::colors;
use crate::papers;
use crate::store::{sp_only_key_differs, store_tbl, DbError, Store};
use crate::text;

verus! {

/// The table of ticket menus.
pub open spec fn tickets_table() -> Seq<char> {
    "tickets"@
}

/// The table of open tickets.
pub open spec fn active_tickets_table() -> Seq<char> {
    "active_tickets"@
}

/// How the menu's embed is rendered; the shape matches the panel embed.
pub struct EmbedConfig {
    pub title: Option<String>,
    pub description: Option<String>,
    pub url: Option<String>,
    pub color: Option<u32>,
    pub author_name: Option<String>,
    pub author_url: Option<String>,
    pub author_icon_url: Option<String>,
    pub footer_text: Option<String>,
    pub footer_icon_url: Option<String>,
    pub image_url: Option<String>,
    pub thumbnail_url: Option<String>,
}

impl View for EmbedConfig {
    type V = papers::EmbedConfigV;

    open spec fn view(&self) -> papers::EmbedConfigV {
        papers::EmbedConfigV {
            title: papers::opt_view(self.title),
            description: papers::opt_view(self.description),
            url: papers::opt_view(self.url),
            color: self.color,
            author_name: papers::opt_view(self.author_name),
            author_url: papers::opt_view(self.author_url),
            author_icon_url: papers::opt_view(self.author_icon_url),
            footer_text: papers::opt_view(self.footer_text),
            footer_icon_url: papers::opt_view(self.footer_icon_url),
            image_url: papers::opt_view(self.image_url),
            thumbnail_url: papers::opt_view(self.thumbnail_url),
        }
    }
}

/// The menu's embed as first created.
pub open spec fn sp_default_ticket_embed() -> papers::EmbedConfigV {
    papers::EmbedConfigV {
        title: Some("\u{1f3ab} Support Tickets"@),
        description: Some("Click the button below to create a support ticket."@),
        url: None,
        color: Some(colors::PRIMARY),
        author_name: None,
        author_url: None,
        author_icon_url: None,
        footer_text: None,
        footer_icon_url: None,
        image_url: None,
        thumbnail_url: None,
    }
}

impl EmbedConfig {
    /// The menu's embed as first created, as [`sp_default_ticket_embed`].
    pub fn ticket_menu_default() -> (r: EmbedConfig)
        ensures
            r@ == sp_default_ticket_embed(),
    {
        EmbedConfig {
            title: Some("\u{1f3ab} Support Tickets".to_owned()),
            description: Some("Click the button below to create a support ticket.".to_owned()),
            url: None,
            color: Some(colors::PRIMARY),
            author_name: None,
            author_url: None,
            author_icon_url: None,
            footer_text: None,
            footer_icon_url: None,
            image_url: None,
            thumbnail_url: None,
        }
    }
}

/// The menu's single create-ticket button.
pub struct ButtonConfig {
    pub label: String,
    pub emoji: Option<String>,
}

pub ghost struct TicketButtonV {
    pub label: Seq<char>,
    pub emoji: Option<Seq<char>>,
}

impl View for ButtonConfig {
    type V = TicketButtonV;

    open spec fn view(&self) -> TicketButtonV {
        TicketButtonV { label: self.label@, emoji: papers::opt_view(self.emoji) }
    }
}

/// The create button as first configured.
pub open spec fn sp_default_ticket_button() -> TicketButtonV {
    TicketButtonV { label: "Create Ticket"@, emoji: Some("\u{1f3ab}"@) }
}

impl Default for ButtonConfig {
    fn default() -> (r: Self)
        ensures
            r@ == sp_default_ticket_button(),
    {
        ButtonConfig {
            label: "Create Ticket".to_owned(),
            emoji: Some("\u{1f3ab}".to_owned()),
        }
    }
}

#[derive(Clone, Copy, Debug, PartialEq, Eq, Structural)]
pub enum TextInputStyle {
    Short,
    Paragraph,
}

/// The stored label of a text input style.
pub open spec fn input_style_label(s: TextInputStyle) -> Seq<char> {
    match s {
        TextInputStyle::Short => "Short"@,
        TextInputStyle::Paragraph => "Paragraph"@,
    }
}

/// The style a stored label names.
pub open spec fn label_to_input_style(l: Seq<char>) -> Option<TextInputStyle> {
    if l == "Short"@ {
        Some(TextInputStyle::Short)
    } else if l == "Paragraph"@ {
        Some(TextInputStyle::Paragraph)
    } else {
        None
    }
}

impl TextInputStyle {
    pub fn as_str(&self) -> (r: &'static str)
        ensures
            r@ == input_style_label(*self),
    {
        match self {
            TextInputStyle::Short => "Short",
            TextInputStyle::Paragraph => "Paragraph",
        }
    }
}

/// One free-text field of the ticket-creation modal.
pub struct ModalField {
    pub label: String,
    pub placeholder: Option<String>,
    pub style: TextInputStyle,
}

pub ghost struct ModalFieldV {
    pub label: Seq<char>,
    pub placeholder: Option<Seq<char>>,
    pub style: TextInputStyle,
}

impl View for ModalField {
    type V = ModalFieldV;

    open spec fn view(&self) -> ModalFieldV {
        ModalFieldV {
            label: self.label@,
            placeholder: papers::opt_view(self.placeholder),
            style: self.style,
        }
    }
}

/// The two fields of the ticket-creation modal.
pub struct ModalConfig {
    pub title_field: ModalField,
    pub description_field: ModalField,
}

pub ghost struct ModalConfigV {
    pub title_field: ModalFieldV,
    pub description_field: ModalFieldV,
}

impl View for ModalConfig {
    type V = ModalConfigV;

    open spec fn view(&self) -> ModalConfigV {
        ModalConfigV {
            title_field: self.title_field@,
            description_field: self.description_field@,
        }
    }
}

/// The creation modal as first configured: a short title field and a
/// paragraph description field.
pub open spec fn sp_default_ticket_modal() -> ModalConfigV {
    ModalConfigV {
        title_field: ModalFieldV {
            label: "Title"@,
            placeholder: Some("Brief description of your issue"@),
            style: TextInputStyle::Short,
        },
        description_field: ModalFieldV {
            label: "Description"@,
            placeholder: Some("Please provide details about your request"@),
            style: TextInputStyle::Paragraph,
        },
    }
}

impl Default for ModalConfig {
    fn default() -> (r: Self)
        ensures
            r@ == sp_default_ticket_modal(),
    {
        ModalConfig {
            title_field: ModalField {
                label: "Title".to_owned(),
                placeholder: Some("Brief description of your issue".to_owned()),
                style: TextInputStyle::Short,
            },
            description_field: ModalField {
                label: "Description".to_owned(),
                placeholder: Some("Please provide details about your request".to_owned()),
                style: TextInputStyle::Paragraph,
            },
        }
    }
}

/// One configured ticket menu.
pub struct TicketMenu {
    pub id: String,
    pub channel_id: String,
    pub message_id: Option<String>,
    pub guild_id: String,
    pub category_id: String,
    pub embed_config: EmbedConfig,
    pub button_config: ButtonConfig,
    pub modal_config: ModalConfig,
}

pub ghost struct TicketMenuV {
    pub id: Seq<char>,
    pub channel_id: Seq<char>,
    pub message_id: Option<Seq<char>>,
    pub guild_id: Seq<char>,
    pub category_id: Seq<char>,
    pub embed_config: papers::EmbedConfigV,
    pub button_config: TicketButtonV,
    pub modal_config: ModalConfigV,
}

impl View for TicketMenu {
    type V = TicketMenuV;

    open spec fn view(&self) -> TicketMenuV {
        TicketMenuV {
            id: self.id@,
            channel_id: self.channel_id@,
            message_id: papers::opt_view(self.message_id),
            guild_id: self.guild_id@,
            category_id: self.category_id@,
            embed_config: self.embed_config@,
            button_config: self.button_config@,
            modal_config: self.modal_config@,
        }
    }
}

impl TicketMenu {
    /// A fresh menu bound to a channel, guild and ticket category, with
    /// the default embed, button and modal.
    pub fn new(id: String, channel_id: String, guild_id: String, category_id: String) -> (r:
        TicketMenu)
        ensures
            r@.id == id@,
            r@.channel_id == channel_id@,
            r@.message_id is None,
            r@.guild_id == guild_id@,
            r@.category_id == category_id@,
            r@.embed_config == sp_default_ticket_embed(),
            r@.button_config == sp_default_ticket_button(),
            r@.modal_config == sp_default_ticket_modal(),
    {
        TicketMenu {
            id,
            channel_id,
            message_id: None,
            guild_id,
            category_id,
            embed_config: EmbedConfig::ticket_menu_default(),
            button_config: ButtonConfig::default(),
            modal_config: ModalConfig::default(),
        }
    }

    /// The menu's store key: its id.
    pub fn get_key(&self) -> (r: String)
        ensures
            r@ == self@.id,
    {
        self.id.clone()
    }
}

/// One opened ticket: its private channel, its creator, and its number.
pub struct ActiveTicket {
    pub channel_id: String,
    pub creator_id: String,
    pub guild_id: String,
    pub ticket_number: u32,
}

pub ghost struct ActiveTicketV {
    pub channel_id: Seq<char>,
    pub creator_id: Seq<char>,
    pub guild_id: Seq<char>,
    pub ticket_number: u32,
}

impl View for ActiveTicket {
    type V = ActiveTicketV;

    open spec fn view(&self) -> ActiveTicketV {
        ActiveTicketV {
            channel_id: self.channel_id@,
            creator_id: self.creator_id@,
            guild_id: self.guild_id@,
            ticket_number: self.ticket_number,
        }
    }
}

impl Clone for ActiveTicket {
    fn clone(&self) -> (r: Self)
        ensures
            r@ == self@,
    {
        ActiveTicket {
            channel_id: self.channel_id.clone(),
            creator_id: self.creator_id.clone(),
            guild_id: self.guild_id.clone(),
            ticket_number: self.ticket_number,
        }
    }
}

/// A ticket number derived from the clock: the last six decimal digits
/// of the given epoch second.
pub fn generate_ticket_number(now_secs: u64) -> (r: u32)
    ensures
        r == now_secs % 1000000,
{
    (now_secs % 1000000) as u32
}

/// The name of a fresh ticket channel: `ticket-` and the number.
pub fn make_ticket_channel_name(ticket_number: u32) -> (r: String)
    ensures
        r@ == "ticket-"@ + codec::enc_u64(ticket_number as nat),
{
    let mut out: Vec<char> = Vec::new();
    text::push_str_chars(&mut out, "ticket-");
    codec::write_u64(&mut out, ticket_number as u64);
    assert(out@ =~= "ticket-"@ + codec::enc_u64(ticket_number as nat));
    text::chars_to_string(&out)
}

// ---------------------------------------------------------------------------
// Close and delete decisions
// ---------------------------------------------------------------------------
/// Whether a stored creator field names this user: the field is exactly
/// the user's decimal id.
pub open spec fn sp_is_creator(creator: Seq<char>, user_id: u64) -> bool {
    match codec::sp_parse_u64(creator, 0) {
        Some((n, e)) => e == creator.len() && n == user_id,
        None => false,
    }
}

/// What a close request decides.
#[derive(Debug, PartialEq, Eq, Structural)]
pub enum CloseDecision {
    /// The channel holds no open ticket; nothing to close.
    NotATicket,
    /// Close at once: the creator asked, or the owner forced it.
    CloseNow,
    /// The owner asked: confirm before locking the channel.
    RequireConfirm,
    /// Someone else asked; nothing changes.
    Reject,
}

/// Decide a `/close` request: the owner must confirm, the creator closes
/// at once, anyone else is rejected.  Nothing in the store changes.
pub fn close(store: &Store, channel_id: u64, user_id: u64, owner_id: u64) -> (r: Result<
    CloseDecision,
    DbError,
>)
    ensures
        (r matches Ok(d) ==> {
            let t = store_tbl(*store, active_tickets_table());
            let key = codec::enc_u64(channel_id as nat);
            match d {
                CloseDecision::NotATicket => !t.contains_key(key),
                CloseDecision::RequireConfirm => t.contains_key(key) && user_id == owner_id,
                CloseDecision::CloseNow => t.contains_key(key) && user_id != owner_id && (
                sp_dec_active(t[key]) matches Some(a) && sp_is_creator(a.creator_id, user_id)),
                CloseDecision::Reject => t.contains_key(key) && user_id != owner_id && (
                sp_dec_active(t[key]) matches Some(a) && !sp_is_creator(a.creator_id, user_id)),
            }
        }),
        (r matches Err(e) && e is Serialization) ==> store_tbl(
            *store,
            active_tickets_table(),
        ).contains_key(codec::enc_u64(channel_id as nat)) && sp_dec_active(
            store_tbl(*store, active_tickets_table())[codec::enc_u64(channel_id as nat)],
        ) is None,
{
    let ticket = match load_active_ticket(store, channel_id) {
        Ok(v) => v,
        Err(e) => return Err(e),
    };
    match ticket {
        None => Ok(CloseDecision::NotATicket),
        Some(t) => {
            if user_id == owner_id {
                Ok(CloseDecision::RequireConfirm)
            } else {
                let chars = text::str_to_chars(t.creator_id.as_str());
                let is_creator: bool = match codec::parse_u64(&chars, 0) {
                    Some((n, e)) => e == chars.len() && n == user_id,
                    None => false,
                };
                proof {
                    assert(is_creator == sp_is_creator(t@.creator_id, user_id));
                }
                if is_creator {
                    Ok(CloseDecision::CloseNow)
                } else {
                    Ok(CloseDecision::Reject)
                }
            }
        },
    }
}

/// Decide a `/force-close` request: only the owner may force a close,
/// and a rejected request changes nothing.
pub fn force_close(store: &Store, channel_id: u64, user_id: u64, owner_id: u64) -> (r: Result<
    CloseDecision,
    DbError,
>)
    ensures
        (r matches Ok(d) ==> {
            let t = store_tbl(*store, active_tickets_table());
            let key = codec::enc_u64(channel_id as nat);
            match d {
                CloseDecision::Reject => user_id != owner_id,
                CloseDecision::NotATicket => user_id == owner_id && !t.contains_key(key),
                CloseDecision::CloseNow => user_id == owner_id && t.contains_key(key),
                CloseDecision::RequireConfirm => false,
            }
        }),
        user_id != owner_id ==> (r matches Ok(d) && d is Reject),
{
    if user_id != owner_id {
        return Ok(CloseDecision::Reject);
    }
    let ticket = match load_active_ticket(store, channel_id) {
        Ok(v) => v,
        Err(e) => return Err(e),
    };
    match ticket {
        None => Ok(CloseDecision::NotATicket),
        Some(t) => Ok(CloseDecision::CloseNow),
    }
}

/// What pressing the delete control did.
#[derive(Debug, PartialEq, Eq, Structural)]
pub enum DeleteOutcome {
    /// Only the owner may delete a ticket channel; nothing changed.
    Rejected,
    /// The ticket record is gone; the channel removal happens outside.
    Deleted,
}

/// The owner-only delete control: remove the ticket's record.
pub fn delete_ticket(store: &mut Store, channel_id: u64, user_id: u64, owner_id: u64) -> (r:
    Result<DeleteOutcome, DbError>)
    ensures
        (r matches Ok(d) ==> {
            let t0 = store_tbl(*old(store), active_tickets_table());
            let key = codec::enc_u64(channel_id as nat);
            match d {
                DeleteOutcome::Rejected => user_id != owner_id && (forall|n: Seq<char>|
                    #[trigger] store_tbl(*final (store), n) == store_tbl(*old(store), n)),
                DeleteOutcome::Deleted => user_id == owner_id && store_tbl(
                    *final (store),
                    active_tickets_table(),
                ) == t0.remove(key) && (forall|n: Seq<char>|
                    n != active_tickets_table() ==> #[trigger] store_tbl(*final (store), n)
                        == store_tbl(*old(store), n)),
            }
        }),
        user_id != owner_id ==> (r matches Ok(d) && d is Rejected && forall|n: Seq<char>|
            #[trigger] store_tbl(*final (store), n) == store_tbl(*old(store), n)),
        r is Err ==> (forall|n: Seq<char>|
            n != active_tickets_table() ==> #[trigger] store_tbl(*final (store), n) == store_tbl(
                *old(store),
                n,
            )) && (store_tbl(*final (store), active_tickets_table()) == store_tbl(
            *old(store),
            active_tickets_table(),
        ) || store_tbl(*final (store), active_tickets_table()) == store_tbl(
            *old(store),
            active_tickets_table(),
        ).remove(codec::enc_u64(channel_id as nat))),
{
    if user_id != owner_id {
        return Ok(DeleteOutcome::Rejected);
    }
    match delete_active_ticket(store, channel_id) {
        Ok(()) => Ok(DeleteOutcome::Deleted),
        Err(e) => Err(e),
    }
}


// ---------------------------------------------------------------------------
// Wire form
// ---------------------------------------------------------------------------
/// The identifying fields of a menu's stored form.
#[verifier::opaque]
pub open spec fn enc_menu_hdr(v: TicketMenuV) -> Seq<char> {
    "{\"id\":"@ + codec::enc_str(v.id) + ",\"channel_id\":"@ + codec::enc_str(v.channel_id)
        + ",\"message_id\":"@ + codec::enc_opt_str(v.message_id) + ",\"guild_id\":"@
        + codec::enc_str(v.guild_id) + ",\"category_id\":"@ + codec::enc_str(v.category_id)
}

/// One modal field's stored form.
pub open spec fn enc_modal_field(f: ModalFieldV) -> Seq<char> {
    "{\"label\":"@ + codec::enc_str(f.label) + ",\"placeholder\":"@ + codec::enc_opt_str(
        f.placeholder,
    ) + ",\"style\":"@ + codec::enc_str(input_style_label(f.style)) + "}"@
}

/// The button, modal and closing brace of a menu's stored form.
#[verifier::opaque]
pub open spec fn enc_menu_tail(v: TicketMenuV) -> Seq<char> {
    ",\"button_config\":{\"label\":"@ + codec::enc_str(v.button_config.label)
        + ",\"emoji\":"@ + codec::enc_opt_str(v.button_config.emoji)
        + "},\"modal_config\":{\"title_field\":"@ + enc_modal_field(
        v.modal_config.title_field,
    ) + ",\"description_field\":"@ + enc_modal_field(v.modal_config.description_field) + "}}"@
}

/// The stored form of one ticket menu.
pub open spec fn enc_menu(v: TicketMenuV) -> Seq<char> {
    enc_menu_hdr(v) + (",\"embed_config\":"@ + papers::enc_embed(v.embed_config)) + enc_menu_tail(
        v,
    )
}

/// Parse a menu's identifying fields.
#[verifier::opaque]
pub open spec fn sp_parse_menu_hdr(s: Seq<char>, i: int) -> Option<
    ((Seq<char>, Seq<char>, Option<Seq<char>>, Seq<char>, Seq<char>), int),
> {
    match codec::sp_pfx_str(s, i, "{\"id\":"@) {
        Some((id, a)) => match codec::sp_pfx_str(s, a, ",\"channel_id\":"@) {
            Some((channel_id, b)) => match codec::sp_pfx_opt_str(s, b, ",\"message_id\":"@) {
                Some((message_id, c)) => match codec::sp_pfx_str(s, c, ",\"guild_id\":"@) {
                    Some((guild_id, d)) => match codec::sp_pfx_str(s, d, ",\"category_id\":"@) {
                        Some((category_id, e)) => Some(
                            ((id, channel_id, message_id, guild_id, category_id), e),
                        ),
                        None => None,
                    },
                    None => None,
                },
                None => None,
            },
            None => None,
        },
        None => None,
    }
}

/// Parse one modal field.
pub open spec fn sp_parse_modal_field(s: Seq<char>, i: int) -> Option<(ModalFieldV, int)> {
    match codec::sp_pfx_str(s, i, "{\"label\":"@) {
        Some((label, a)) => match codec::sp_pfx_opt_str(s, a, ",\"placeholder\":"@) {
            Some((placeholder, b)) => match codec::sp_pfx_str(s, b, ",\"style\":"@) {
                Some((sty, c)) => match label_to_input_style(sty) {
                    Some(style) => match codec::sp_lit(s, c, "}"@) {
                        Some(w) => Some((ModalFieldV { label, placeholder, style }, w)),
                        None => None,
                    },
                    None => None,
                },
                None => None,
            },
            None => None,
        },
        None => None,
    }
}

/// Parse a menu's button, modal and closing brace.
#[verifier::opaque]
pub open spec fn sp_parse_menu_tail(s: Seq<char>, i: int) -> Option<
    ((TicketButtonV, ModalConfigV), int),
> {
    match codec::sp_pfx_str(s, i, ",\"button_config\":{\"label\":"@) {
        Some((blabel, a)) => match codec::sp_pfx_opt_str(s, a, ",\"emoji\":"@) {
            Some((bemoji, b)) => match codec::sp_lit(
                s,
                b,
                "},\"modal_config\":{\"title_field\":"@,
            ) {
                Some(c) => match sp_parse_modal_field(s, c) {
                    Some((tf, d)) => match codec::sp_lit(s, d, ",\"description_field\":"@) {
                        Some(e) => match sp_parse_modal_field(s, e) {
                            Some((df, f)) => match codec::sp_lit(s, f, "}}"@) {
                                Some(w) => Some(
                                    (
                                        (
                                            TicketButtonV { label: blabel, emoji: bemoji },
                                            ModalConfigV {
                                                title_field: tf,
                                                description_field: df,
                                            },
                                        ),
                                        w,
                                    ),
                                ),
                                None => None,
                            },
                            None => None,
                        },
                        None => None,
                    },
                    None => None,
                },
                None => None,
            },
            None => None,
        },
        None => None,
    }
}

/// Decode one stored ticket menu.
pub open spec fn sp_dec_menu(s: Seq<char>) -> Option<TicketMenuV> {
    match sp_parse_menu_hdr(s, 0) {
        Some((hd, a)) => match codec::sp_lit(s, a, ",\"embed_config\":"@) {
            Some(b) => match papers::sp_parse_embed(s, b) {
                Some((embed, c)) => match sp_parse_menu_tail(s, c) {
                    Some((tl, w)) => if w == s.len() {
                        Some(
                            TicketMenuV {
                                id: hd.0,
                                channel_id: hd.1,
                                message_id: hd.2,
                                guild_id: hd.3,
                                category_id: hd.4,
                                embed_config: embed,
                                button_config: tl.0,
                                modal_config: tl.1,
                            },
                        )
                    } else {
                        None
                    },
                    None => None,
                },
                None => None,
            },
            None => None,
        },
        None => None,
    }
}

/// The stored form of one open ticket.
pub open spec fn enc_active(v: ActiveTicketV) -> Seq<char> {
    "{\"channel_id\":"@ + codec::enc_str(v.channel_id) + ",\"creator_id\":"@ + codec::enc_str(
        v.creator_id,
    ) + ",\"guild_id\":"@ + codec::enc_str(v.guild_id) + ",\"ticket_number\":"@
        + codec::enc_u64(v.ticket_number as nat) + "}"@
}

/// Decode one stored open ticket.
pub open spec fn sp_dec_active(s: Seq<char>) -> Option<ActiveTicketV> {
    match codec::sp_pfx_str(s, 0, "{\"channel_id\":"@) {
        Some((channel_id, a)) => match codec::sp_pfx_str(s, a, ",\"creator_id\":"@) {
            Some((creator_id, b)) => match codec::sp_pfx_str(s, b, ",\"guild_id\":"@) {
                Some((guild_id, c)) => match codec::sp_pfx_u64(s, c, ",\"ticket_number\":"@) {
                    Some((num, d)) => if num <= u32::MAX {
                        match codec::sp_lit(s, d, "}"@) {
                            Some(w) => if w == s.len() {
                                Some(
                                    ActiveTicketV {
                                        channel_id,
                                        creator_id,
                                        guild_id,
                                        ticket_number: num as u32,
                                    },
                                )
                            } else {
                                None
                            },
                            None => None,
                        }
                    } else {
                        None
                    },
                    None => None,
                },
                None => None,
            },
            None => None,
        },
        None => None,
    }
}

fn write_menu_hdr(out: &mut Vec<char>, m: &TicketMenu)
    ensures
        final (out)@ == old(out)@ + enc_menu_hdr(m@),
{
    proof {
        reveal(enc_menu_hdr);
    }
    text::push_str_chars(out, "{\"id\":");
    codec::write_str_escaped(out, m.id.as_str());
    text::push_str_chars(out, ",\"channel_id\":");
    codec::write_str_escaped(out, m.channel_id.as_str());
    text::push_str_chars(out, ",\"message_id\":");
    codec::write_opt_str(out, &m.message_id);
    text::push_str_chars(out, ",\"guild_id\":");
    codec::write_str_escaped(out, m.guild_id.as_str());
    text::push_str_chars(out, ",\"category_id\":");
    codec::write_str_escaped(out, m.category_id.as_str());
    assert(final (out)@ =~= old(out)@ + enc_menu_hdr(m@));
}

fn write_modal_field(out: &mut Vec<char>, f: &ModalField)
    ensures
        final (out)@ == old(out)@ + enc_modal_field(f@),
{
    text::push_str_chars(out, "{\"label\":");
    codec::write_str_escaped(out, f.label.as_str());
    text::push_str_chars(out, ",\"placeholder\":");
    codec::write_opt_str(out, &f.placeholder);
    text::push_str_chars(out, ",\"style\":");
    codec::write_str_escaped(out, f.style.as_str());
    text::push_str_chars(out, "}");
    assert(final (out)@ =~= old(out)@ + enc_modal_field(f@));
}

fn write_menu_tail(out: &mut Vec<char>, m: &TicketMenu)
    ensures
        final (out)@ == old(out)@ + enc_menu_tail(m@),
{
    proof {
        reveal(enc_menu_tail);
    }
    text::push_str_chars(out, ",\"button_config\":{\"label\":");
    codec::write_str_escaped(out, m.button_config.label.as_str());
    text::push_str_chars(out, ",\"emoji\":");
    codec::write_opt_str(out, &m.button_config.emoji);
    text::push_str_chars(out, "},\"modal_config\":{\"title_field\":");
    write_modal_field(out, &m.modal_config.title_field);
    text::push_str_chars(out, ",\"description_field\":");
    write_modal_field(out, &m.modal_config.description_field);
    text::push_str_chars(out, "}}");
    assert(final (out)@ =~= old(out)@ + enc_menu_tail(m@));
}

/// Encode one ticket menu for the store.
pub fn encode_menu(m: &TicketMenu) -> (r: String)
    ensures
        r@ == enc_menu(m@),
{
    let mut out: Vec<char> = Vec::new();
    write_menu_hdr(&mut out, m);
    let ghost hdr = out@;
    text::push_str_chars(&mut out, ",\"embed_config\":");
    write_menu_embed(&mut out, &m.embed_config);
    proof {
        assert(out@ =~= hdr + (",\"embed_config\":"@ + papers::enc_embed(m@.embed_config)));
    }
    write_menu_tail(&mut out, m);
    assert(out@ =~= enc_menu(m@));
    text::chars_to_string(&out)
}


#[verifier::rlimit(100)]
fn write_menu_embed_head(out: &mut Vec<char>, e: &EmbedConfig)
    ensures
        final (out)@ == old(out)@ + papers::enc_embed_head(e@),
{
    text::push_str_chars(out, "{\"title\":");
    codec::write_opt_str(out, &e.title);
    text::push_str_chars(out, ",\"description\":");
    codec::write_opt_str(out, &e.description);
    text::push_str_chars(out, ",\"url\":");
    codec::write_opt_str(out, &e.url);
    text::push_str_chars(out, ",\"color\":");
    match &e.color {
        Some(n) => codec::write_u64(out, *n as u64),
        None => text::push_str_chars(out, "null"),
    }
    text::push_str_chars(out, ",\"author_name\":");
    codec::write_opt_str(out, &e.author_name);
    assert(final (out)@ =~= old(out)@ + papers::enc_embed_head(e@));
}

#[verifier::rlimit(100)]
fn write_menu_embed_tail(out: &mut Vec<char>, e: &EmbedConfig)
    ensures
        final (out)@ == old(out)@ + papers::enc_embed_tail(e@),
{
    text::push_str_chars(out, ",\"author_url\":");
    codec::write_opt_str(out, &e.author_url);
    text::push_str_chars(out, ",\"author_icon_url\":");
    codec::write_opt_str(out, &e.author_icon_url);
    text::push_str_chars(out, ",\"footer_text\":");
    codec::write_opt_str(out, &e.footer_text);
    assert(out@ =~= old(out)@ + papers::enc_embed_mid(e@));
    let ghost mid = out@;
    text::push_str_chars(out, ",\"footer_icon_url\":");
    codec::write_opt_str(out, &e.footer_icon_url);
    text::push_str_chars(out, ",\"image_url\":");
    codec::write_opt_str(out, &e.image_url);
    text::push_str_chars(out, ",\"thumbnail_url\":");
    codec::write_opt_str(out, &e.thumbnail_url);
    text::push_str_chars(out, "}");
    assert(out@ =~= mid + papers::enc_embed_last(e@));
    assert(final (out)@ =~= old(out)@ + papers::enc_embed_tail(e@));
}

/// Write the menu's embed in the shared embed wire form.
fn write_menu_embed(out: &mut Vec<char>, e: &EmbedConfig)
    ensures
        final (out)@ == old(out)@ + papers::enc_embed(e@),
{
    proof {
        reveal(papers::enc_embed);
    }
    write_menu_embed_head(out, e);
    write_menu_embed_tail(out, e);
    assert(final (out)@ =~= old(out)@ + papers::enc_embed(e@));
}

fn parse_menu_hdr(s: &Vec<char>) -> (r: Option<
    ((String, String, Option<String>, String, String), usize),
>)
    ensures
        (r matches Some(p) ==> sp_parse_menu_hdr(s@, 0) == Some(
            (
                (p.0.0@, p.0.1@, papers::opt_view(p.0.2), p.0.3@, p.0.4@),
                p.1 as int,
            ),
        ) && p.1 <= s@.len()),
        r is None ==> sp_parse_menu_hdr(s@, 0) is None,
{
    proof {
        reveal(sp_parse_menu_hdr);
    }
    let id = match codec::pfx_str(s, 0, "{\"id\":") {
        Some(x) => x,
        None => return None,
    };
    let channel_id = match codec::pfx_str(s, id.1, ",\"channel_id\":") {
        Some(x) => x,
        None => return None,
    };
    let message_id = match codec::pfx_opt_str(s, channel_id.1, ",\"message_id\":") {
        Some(x) => x,
        None => return None,
    };
    let guild_id = match codec::pfx_str(s, message_id.1, ",\"guild_id\":") {
        Some(x) => x,
        None => return None,
    };
    let category_id = match codec::pfx_str(s, guild_id.1, ",\"category_id\":") {
        Some(x) => x,
        None => return None,
    };
    Some(((id.0, channel_id.0, message_id.0, guild_id.0, category_id.0), category_id.1))
}

fn parse_modal_field(s: &Vec<char>, i: usize) -> (r: Option<(ModalField, usize)>)
    requires
        i <= s@.len(),
    ensures
        (r matches Some(p) ==> sp_parse_modal_field(s@, i as int) == Some((p.0@, p.1 as int))
            && i < p.1 <= s@.len()),
        r is None ==> sp_parse_modal_field(s@, i as int) is None,
{
    let label = match codec::pfx_str(s, i, "{\"label\":") {
        Some(x) => x,
        None => return None,
    };
    let placeholder = match codec::pfx_opt_str(s, label.1, ",\"placeholder\":") {
        Some(x) => x,
        None => return None,
    };
    let sty = match codec::pfx_str(s, placeholder.1, ",\"style\":") {
        Some(x) => x,
        None => return None,
    };
    let style: TextInputStyle = if text::str_eq_str(sty.0.as_str(), "Short") {
        TextInputStyle::Short
    } else if text::str_eq_str(sty.0.as_str(), "Paragraph") {
        TextInputStyle::Paragraph
    } else {
        proof {
            assert(label_to_input_style(sty.0@) is None);
        }
        return None;
    };
    proof {
        assert(label_to_input_style(sty.0@) == Some(style));
    }
    let w = match codec::expect_lit(s, sty.1, "}") {
        Some(x) => x,
        None => return None,
    };
    Some((ModalField { label: label.0, placeholder: placeholder.0, style }, w))
}

fn parse_menu_tail(s: &Vec<char>, i: usize) -> (r: Option<((ButtonConfig, ModalConfig), usize)>)
    requires
        i <= s@.len(),
    ensures
        (r matches Some(p) ==> sp_parse_menu_tail(s@, i as int) == Some(
            ((p.0.0@, p.0.1@), p.1 as int),
        ) && i < p.1 <= s@.len()),
        r is None ==> sp_parse_menu_tail(s@, i as int) is None,
{
    proof {
        reveal(sp_parse_menu_tail);
    }
    let blabel = match codec::pfx_str(s, i, ",\"button_config\":{\"label\":") {
        Some(x) => x,
        None => return None,
    };
    let bemoji = match codec::pfx_opt_str(s, blabel.1, ",\"emoji\":") {
        Some(x) => x,
        None => return None,
    };
    let c = match codec::expect_lit(s, bemoji.1, "},\"modal_config\":{\"title_field\":") {
        Some(x) => x,
        None => return None,
    };
    let tf = match parse_modal_field(s, c) {
        Some(x) => x,
        None => return None,
    };
    let d = match codec::expect_lit(s, tf.1, ",\"description_field\":") {
        Some(x) => x,
        None => return None,
    };
    let df = match parse_modal_field(s, d) {
        Some(x) => x,
        None => return None,
    };
    let w = match codec::expect_lit(s, df.1, "}}") {
        Some(x) => x,
        None => return None,
    };
    Some(
        (
            (
                ButtonConfig { label: blabel.0, emoji: bemoji.0 },
                ModalConfig { title_field: tf.0, description_field: df.0 },
            ),
            w,
        ),
    )
}

/// Decode one stored ticket menu, exactly as [`sp_dec_menu`].
pub fn decode_menu(s: &str) -> (r: Option<TicketMenu>)
    ensures
        (r matches Some(m) ==> sp_dec_menu(s@) == Some(m@)),
        r is None ==> sp_dec_menu(s@) is None,
{
    let v = text::str_to_chars(s);
    let hd = match parse_menu_hdr(&v) {
        Some(x) => x,
        None => return None,
    };
    let b = match codec::expect_lit(&v, hd.1, ",\"embed_config\":") {
        Some(x) => x,
        None => return None,
    };
    let embed = match papers::parse_embed(&v, b) {
        Some(x) => x,
        None => return None,
    };
    let tl = match parse_menu_tail(&v, embed.1) {
        Some(x) => x,
        None => return None,
    };
    if tl.1 != v.len() {
        return None;
    }
    let pe = embed.0;
    Some(
        TicketMenu {
            id: hd.0.0,
            channel_id: hd.0.1,
            message_id: hd.0.2,
            guild_id: hd.0.3,
            category_id: hd.0.4,
            embed_config: EmbedConfig {
                title: pe.title,
                description: pe.description,
                url: pe.url,
                color: pe.color,
                author_name: pe.author_name,
                author_url: pe.author_url,
                author_icon_url: pe.author_icon_url,
                footer_text: pe.footer_text,
                footer_icon_url: pe.footer_icon_url,
                image_url: pe.image_url,
                thumbnail_url: pe.thumbnail_url,
            },
            button_config: tl.0.0,
            modal_config: tl.0.1,
        },
    )
}

/// Encode one open ticket for the store.
pub fn encode_active(t: &ActiveTicket) -> (r: String)
    ensures
        r@ == enc_active(t@),
{
    let mut out: Vec<char> = Vec::new();
    text::push_str_chars(&mut out, "{\"channel_id\":");
    codec::write_str_escaped(&mut out, t.channel_id.as_str());
    text::push_str_chars(&mut out, ",\"creator_id\":");
    codec::write_str_escaped(&mut out, t.creator_id.as_str());
    text::push_str_chars(&mut out, ",\"guild_id\":");
    codec::write_str_escaped(&mut out, t.guild_id.as_str());
    text::push_str_chars(&mut out, ",\"ticket_number\":");
    codec::write_u64(&mut out, t.ticket_number as u64);
    text::push_str_chars(&mut out, "}");
    assert(out@ =~= enc_active(t@));
    text::chars_to_string(&out)
}

/// Decode one stored open ticket, exactly as [`sp_dec_active`].
pub fn decode_active(s: &str) -> (r: Option<ActiveTicket>)
    ensures
        (r matches Some(t) ==> sp_dec_active(s@) == Some(t@)),
        r is None ==> sp_dec_active(s@) is None,
{
    let v = text::str_to_chars(s);
    let channel_id = match codec::pfx_str(&v, 0, "{\"channel_id\":") {
        Some(x) => x,
        None => return None,
    };
    let creator_id = match codec::pfx_str(&v, channel_id.1, ",\"creator_id\":") {
        Some(x) => x,
        None => return None,
    };
    let guild_id = match codec::pfx_str(&v, creator_id.1, ",\"guild_id\":") {
        Some(x) => x,
        None => return None,
    };
    let num = match codec::pfx_u64(&v, guild_id.1, ",\"ticket_number\":") {
        Some(x) => x,
        None => return None,
    };
    if num.0 > u32::MAX as u64 {
        return None;
    }
    let w = match codec::expect_lit(&v, num.1, "}") {
        Some(x) => x,
        None => return None,
    };
    if w != v.len() {
        return None;
    }
    Some(
        ActiveTicket {
            channel_id: channel_id.0,
            creator_id: creator_id.0,
            guild_id: guild_id.0,
            ticket_number: num.0 as u32,
        },
    )
}

proof fn lemma_input_style_roundtrip(st: TextInputStyle)
    ensures
        label_to_input_style(input_style_label(st)) == Some(st),
{
    reveal_strlit("Short");
    reveal_strlit("Paragraph");
    assert("Short"@.len() == 5 && "Paragraph"@.len() == 9);
}

proof fn lemma_modal_field_roundtrip(s: Seq<char>, i: int, f: ModalFieldV)
    requires
        0 <= i,
        i + enc_modal_field(f).len() <= s.len(),
        s.subrange(i, i + enc_modal_field(f).len()) == enc_modal_field(f),
    ensures
        sp_parse_modal_field(s, i) == Some((f, i + enc_modal_field(f).len())),
{
    reveal_strlit("}");
    let l1 = "{\"label\":"@;
    let s1 = codec::enc_str(f.label);
    let l2 = ",\"placeholder\":"@;
    let s2 = codec::enc_opt_str(f.placeholder);
    let l3 = ",\"style\":"@;
    let s3 = codec::enc_str(input_style_label(f.style));
    let z = "}"@;
    codec::lemma_regroup_pairs3z(l1, s1, l2, s2, l3, s3, z);
    assert(enc_modal_field(f) == (l1 + s1) + ((l2 + s2) + ((l3 + s3) + z)));
    let c1 = l1 + s1;
    let c2 = l2 + s2;
    let c3 = l3 + s3;
    codec::lemma_subat_split(s, i, c1, c2 + (c3 + z));
    codec::lemma_pfx_str(s, i, l1, f.label);
    let q1 = i + c1.len() as int;
    codec::lemma_subat_split(s, q1, c2, c3 + z);
    codec::lemma_pfx_opt_str(s, q1, l2, f.placeholder);
    let q2 = q1 + c2.len() as int;
    codec::lemma_subat_split(s, q2, c3, z);
    codec::lemma_pfx_str(s, q2, l3, input_style_label(f.style));
    lemma_input_style_roundtrip(f.style);
    let q3 = q2 + c3.len() as int;
    assert(codec::sp_lit(s, q3, z) == Some(q3 + 1)) by {
        assert(s.subrange(q3, q3 + 1) == z);
    }
    assert(q3 + 1 == i + enc_modal_field(f).len());
}

#[verifier::rlimit(100)]
proof fn lemma_menu_hdr_roundtrip(s: Seq<char>, v: TicketMenuV)
    requires
        enc_menu_hdr(v).len() <= s.len(),
        s.subrange(0, enc_menu_hdr(v).len() as int) == enc_menu_hdr(v),
    ensures
        sp_parse_menu_hdr(s, 0) == Some(
            (
                (v.id, v.channel_id, v.message_id, v.guild_id, v.category_id),
                enc_menu_hdr(v).len() as int,
            ),
        ),
{
    reveal(enc_menu_hdr);
    reveal(sp_parse_menu_hdr);
    let l1 = "{\"id\":"@;
    let s1 = codec::enc_str(v.id);
    let l2 = ",\"channel_id\":"@;
    let s2 = codec::enc_str(v.channel_id);
    let l3 = ",\"message_id\":"@;
    let s3 = codec::enc_opt_str(v.message_id);
    let l4 = ",\"guild_id\":"@;
    let s4 = codec::enc_str(v.guild_id);
    let l5 = ",\"category_id\":"@;
    let s5 = codec::enc_str(v.category_id);
    codec::lemma_regroup_pairs5(l1, s1, l2, s2, l3, s3, l4, s4, l5, s5);
    assert(enc_menu_hdr(v) == (l1 + s1) + ((l2 + s2) + ((l3 + s3) + ((l4 + s4) + (l5 + s5)))));
    let c1 = l1 + s1;
    let c2 = l2 + s2;
    let c3 = l3 + s3;
    let c4 = l4 + s4;
    let c5 = l5 + s5;
    codec::lemma_subat_split(s, 0, c1, c2 + (c3 + (c4 + c5)));
    codec::lemma_pfx_str(s, 0, l1, v.id);
    let q1 = c1.len() as int;
    codec::lemma_subat_split(s, q1, c2, c3 + (c4 + c5));
    codec::lemma_pfx_str(s, q1, l2, v.channel_id);
    let q2 = q1 + c2.len() as int;
    codec::lemma_subat_split(s, q2, c3, c4 + c5);
    codec::lemma_pfx_opt_str(s, q2, l3, v.message_id);
    let q3 = q2 + c3.len() as int;
    codec::lemma_subat_split(s, q3, c4, c5);
    codec::lemma_pfx_str(s, q3, l4, v.guild_id);
    let q4 = q3 + c4.len() as int;
    codec::lemma_pfx_str(s, q4, l5, v.category_id);
    assert(q4 + c5.len() == enc_menu_hdr(v).len());
}

#[verifier::rlimit(100)]
proof fn lemma_menu_tail_roundtrip(s: Seq<char>, i: int, v: TicketMenuV)
    requires
        0 <= i,
        i + enc_menu_tail(v).len() <= s.len(),
        s.subrange(i, i + enc_menu_tail(v).len()) == enc_menu_tail(v),
    ensures
        sp_parse_menu_tail(s, i) == Some(
            ((v.button_config, v.modal_config), i + enc_menu_tail(v).len()),
        ),
{
    reveal(enc_menu_tail);
    reveal(sp_parse_menu_tail);
    reveal_strlit("}}");
    let l1 = ",\"button_config\":{\"label\":"@;
    let s1 = codec::enc_str(v.button_config.label);
    let l2 = ",\"emoji\":"@;
    let s2 = codec::enc_opt_str(v.button_config.emoji);
    let l3 = "},\"modal_config\":{\"title_field\":"@;
    let f3 = enc_modal_field(v.modal_config.title_field);
    let l4 = ",\"description_field\":"@;
    let f4 = enc_modal_field(v.modal_config.description_field);
    let z = "}}"@;
    codec::lemma_regroup_pairs4z(l1, s1, l2, s2, l3, f3, l4, f4, z);
    assert(enc_menu_tail(v) == (l1 + s1) + ((l2 + s2) + ((l3 + f3) + ((l4 + f4) + z))));
    let c1 = l1 + s1;
    let c2 = l2 + s2;
    let c3 = l3 + f3;
    let c4 = l4 + f4;
    codec::lemma_subat_split(s, i, c1, c2 + (c3 + (c4 + z)));
    codec::lemma_pfx_str(s, i, l1, v.button_config.label);
    let q1 = i + c1.len() as int;
    codec::lemma_subat_split(s, q1, c2, c3 + (c4 + z));
    codec::lemma_pfx_opt_str(s, q1, l2, v.button_config.emoji);
    let q2 = q1 + c2.len() as int;
    codec::lemma_subat_split(s, q2, c3, c4 + z);
    codec::lemma_subat_split(s, q2, l3, f3);
    assert(codec::sp_lit(s, q2, l3) == Some(q2 + l3.len() as int));
    lemma_modal_field_roundtrip(s, q2 + l3.len() as int, v.modal_config.title_field);
    let q3 = q2 + c3.len() as int;
    codec::lemma_subat_split(s, q3, c4, z);
    codec::lemma_subat_split(s, q3, l4, f4);
    assert(codec::sp_lit(s, q3, l4) == Some(q3 + l4.len() as int));
    lemma_modal_field_roundtrip(s, q3 + l4.len() as int, v.modal_config.description_field);
    let q4 = q3 + c4.len() as int;
    assert(codec::sp_lit(s, q4, z) == Some(q4 + 2)) by {
        assert(s.subrange(q4, q4 + 2) == z);
    }
    assert(q4 + 2 == i + enc_menu_tail(v).len());
}

/// Decoding an encoded menu gives the menu back: the stored form of a
/// ticket menu loses neither its embed nor its button and modal setup.
pub proof fn lemma_menu_roundtrip(v: TicketMenuV)
    ensures
        sp_dec_menu(enc_menu(v)) == Some(v),
{
    reveal_strlit(",\"embed_config\":");
    let s = enc_menu(v);
    let hdr = enc_menu_hdr(v);
    let le = ",\"embed_config\":"@;
    let emb = papers::enc_embed(v.embed_config);
    let tail = enc_menu_tail(v);
    assert(s =~= hdr + ((le + emb) + tail));
    assert(s.subrange(0, s.len() as int) =~= s);
    codec::lemma_subat_split(s, 0, hdr, (le + emb) + tail);
    lemma_menu_hdr_roundtrip(s, v);
    let p1 = hdr.len() as int;
    assert((le + emb) + tail =~= le + (emb + tail));
    codec::lemma_subat_split(s, p1, le, emb + tail);
    assert(codec::sp_lit(s, p1, le) == Some(p1 + le.len() as int));
    let p2 = p1 + le.len() as int;
    codec::lemma_subat_split(s, p2, emb, tail);
    papers::lemma_embed_roundtrip(s, p2, v.embed_config);
    let p3 = p2 + emb.len() as int;
    lemma_menu_tail_roundtrip(s, p3, v);
    assert(p3 + tail.len() == s.len());
}

/// Decoding an encoded open ticket gives the ticket back: the stored
/// form of a ticket loses no field.
#[verifier::rlimit(100)]
pub proof fn lemma_active_roundtrip(v: ActiveTicketV)
    ensures
        sp_dec_active(enc_active(v)) == Some(v),
{
    reveal_strlit(",\"creator_id\":");
    reveal_strlit(",\"guild_id\":");
    reveal_strlit(",\"ticket_number\":");
    reveal_strlit("}");
    let s = enc_active(v);
    let l1 = "{\"channel_id\":"@;
    let s1 = codec::enc_str(v.channel_id);
    let l2 = ",\"creator_id\":"@;
    let s2 = codec::enc_str(v.creator_id);
    let l3 = ",\"guild_id\":"@;
    let s3 = codec::enc_str(v.guild_id);
    let l4 = ",\"ticket_number\":"@;
    let n4 = codec::enc_u64(v.ticket_number as nat);
    let z = "}"@;
    codec::lemma_regroup_pairs4z(l1, s1, l2, s2, l3, s3, l4, n4, z);
    assert(s == (l1 + s1) + ((l2 + s2) + ((l3 + s3) + ((l4 + n4) + z))));
    assert(s.subrange(0, s.len() as int) =~= s);
    let c1 = l1 + s1;
    let c2 = l2 + s2;
    let c3 = l3 + s3;
    let c4 = l4 + n4;
    codec::lemma_subat_split(s, 0, c1, c2 + (c3 + (c4 + z)));
    codec::lemma_pfx_str(s, 0, l1, v.channel_id);
    let q1 = c1.len() as int;
    codec::lemma_subat_split(s, q1, c2, c3 + (c4 + z));
    codec::lemma_pfx_str(s, q1, l2, v.creator_id);
    let q2 = q1 + c2.len() as int;
    codec::lemma_subat_split(s, q2, c3, c4 + z);
    codec::lemma_pfx_str(s, q2, l3, v.guild_id);
    let q3 = q2 + c3.len() as int;
    codec::lemma_subat_split(s, q3, c4, z);
    let q4 = q3 + c4.len() as int;
    codec::lemma_subat_index(s, q4, z, 0);
    assert(s[q4] == '}');
    assert(!codec::is_digit('}'));
    codec::lemma_pfx_u64(s, q3, l4, v.ticket_number as nat);
    assert(codec::sp_lit(s, q4, z) == Some(q4 + 1)) by {
        assert(s.subrange(q4, q4 + 1) == z);
    }
    assert(q4 + 1 == s.len());
}

/// A freshly opened ticket grants its creator the immediate close: the
/// persisted record decodes back, and its creator field names exactly
/// the user who opened it.
pub proof fn lemma_fresh_ticket_close_rights(v: ActiveTicketV, creator_id: u64)
    requires
        v.creator_id == codec::enc_u64(creator_id as nat),
    ensures
        sp_dec_active(enc_active(v)) == Some(v),
        sp_is_creator(v.creator_id, creator_id),
        forall|other: u64| other != creator_id ==> !sp_is_creator(v.creator_id, other),
{
    lemma_active_roundtrip(v);
    codec::lemma_enc_u64_digits(creator_id as nat);
    assert(codec::enc_u64(creator_id as nat).subrange(
        0,
        codec::enc_u64(creator_id as nat).len() as int,
    ) =~= codec::enc_u64(creator_id as nat));
    codec::lemma_parse_enc_u64(codec::enc_u64(creator_id as nat), 0, creator_id as nat);
}

// ---------------------------------------------------------------------------
// Store operations
// ---------------------------------------------------------------------------
/// Persist a menu under its id.
pub fn save_ticket_menu(store: &mut Store, menu: &TicketMenu) -> (r: Result<(), DbError>)
    ensures
        (r matches Ok(u) ==> store_tbl(*final (store), tickets_table()) == store_tbl(
            *old(store),
            tickets_table(),
        ).insert(menu@.id, enc_menu(menu@))),
        r is Ok ==> forall|n: Seq<char>|
            n != tickets_table() ==> #[trigger] store_tbl(*final (store), n) == store_tbl(
                *old(store),
                n,
            ),
        r is Err ==> (forall|n: Seq<char>|
            n != tickets_table() ==> #[trigger] store_tbl(*final (store), n) == store_tbl(
                *old(store),
                n,
            )) && (store_tbl(*final (store), tickets_table()) == store_tbl(
            *old(store),
            tickets_table(),
        ) || store_tbl(*final (store), tickets_table()) == store_tbl(
            *old(store),
            tickets_table(),
        ).insert(menu@.id, enc_menu(menu@))),
{
    proof {
        reveal_strlit("tickets");
    }
    let key = menu.get_key();
    let value = encode_menu(menu);
    store.write_entry("tickets", key.as_str(), value.as_str())
}

/// Load the menu with this id; `Serialization` when it cannot be decoded.
pub fn load_ticket_menu(store: &Store, id: &str) -> (r: Result<Option<TicketMenu>, DbError>)
    ensures
        (r matches Ok(o) ==> {
            let t = store_tbl(*store, tickets_table());
            match o {
                Some(m) => t.contains_key(id@) && sp_dec_menu(t[id@]) == Some(m@),
                None => !t.contains_key(id@),
            }
        }),
        (r matches Err(e) && e is Serialization) ==> store_tbl(
            *store,
            tickets_table(),
        ).contains_key(id@) && sp_dec_menu(store_tbl(*store, tickets_table())[id@]) is None,
{
    proof {
        reveal_strlit("tickets");
    }
    match store.read_entry("tickets", id) {
        Ok(Some(value)) => match decode_menu(value.as_str()) {
            Some(m) => Ok(Some(m)),
            None => Err(DbError::Serialization(String::new())),
        },
        Ok(None) => Ok(None),
        Err(e) => Err(e),
    }
}

/// Whether some stored menu record decodes to `m`.
pub open spec fn stored_menu(t: Map<Seq<char>, Seq<char>>, m: TicketMenuV) -> bool {
    exists|k: Seq<char>| t.contains_key(k) && sp_dec_menu(#[trigger] t[k]) == Some(m)
}

/// Whether the listing carries this menu.
pub open spec fn sp_menu_listed(vs: Seq<TicketMenu>, m: TicketMenuV) -> bool {
    exists|i: int| 0 <= i < vs.len() && (#[trigger] vs[i])@ == m
}

/// Every stored menu that decodes, as the listing surface shows them:
/// each listed menu is stored, and each stored record that decodes is
/// listed.  Records that do not decode are skipped.
pub fn list_ticket_menus(store: &Store) -> (r: Result<Vec<TicketMenu>, DbError>)
    ensures
        (r matches Ok(v) ==> {
            &&& forall|i: int|
                0 <= i < v@.len() ==> #[trigger] stored_menu(
                    store_tbl(*store, tickets_table()),
                    v@[i]@,
                )
            &&& forall|k: Seq<char>|
                store_tbl(*store, tickets_table()).contains_key(k) ==> match sp_dec_menu(
                    #[trigger] store_tbl(*store, tickets_table())[k],
                ) {
                    Some(m) => sp_menu_listed(v@, m),
                    None => true,
                }
        }),
{
    proof {
        reveal_strlit("tickets");
    }
    let pairs = match store.read_table("tickets") {
        Ok(p) => p,
        Err(e) => return Err(e),
    };
    let ghost t = store_tbl(*store, tickets_table());
    let mut out: Vec<TicketMenu> = Vec::new();
    let mut i: usize = 0;
    while i < pairs.len()
        invariant
            i <= pairs@.len(),
            t == store_tbl(*store, tickets_table()),
            forall|k: int|
                0 <= k < pairs@.len() ==> t.contains_key(#[trigger] pairs@[k].0@)
                    && t[pairs@[k].0@] == pairs@[k].1@,
            forall|k: Seq<char>|
                t.contains_key(k) ==> exists|j: int|
                    0 <= j < pairs@.len() && #[trigger] pairs@[j].0@ == k,
            forall|k: int|
                0 <= k < out@.len() ==> #[trigger] stored_menu(t, out@[k]@),
            forall|j: int|
                0 <= j < i ==> match sp_dec_menu(t[(#[trigger] pairs@[j]).0@]) {
                    Some(m) => sp_menu_listed(out@, m),
                    None => true,
                },
        decreases pairs@.len() - i,
    {
        let ghost out0 = out@;
        match decode_menu(pairs[i].1.as_str()) {
            Some(m) => {
                let ghost mv = m@;
                out.push(m);
                proof {
                    let key = pairs@[i as int].0@;
                    assert(t.contains_key(key) && sp_dec_menu(t[key]) == Some(mv));
                    assert(stored_menu(t, mv));
                    assert(out@[out0.len() as int]@ == mv);
                    assert(sp_menu_listed(out@, mv));
                    assert forall|k: int|
                        0 <= k < out@.len() implies #[trigger] stored_menu(t, out@[k]@) by {
                        if k < out0.len() {
                            assert(out@[k] == out0[k]);
                        } else {
                            assert(out@[k]@ == mv);
                        }
                    }
                    assert forall|j: int| 0 <= j < i + 1 implies match sp_dec_menu(
                        t[(#[trigger] pairs@[j]).0@],
                    ) {
                        Some(m2) => sp_menu_listed(out@, m2),
                        None => true,
                    } by {
                        if j < i {
                            match sp_dec_menu(t[pairs@[j].0@]) {
                                Some(m2) => {
                                    assert(sp_menu_listed(out0, m2));
                                    let w = choose|w: int|
                                        0 <= w < out0.len() && (#[trigger] out0[w])@ == m2;
                                    assert(out@[w]@ == m2);
                                },
                                None => {},
                            }
                        }
                    }
                }
            },
            None => {
                proof {
                    assert(sp_dec_menu(t[pairs@[i as int].0@]) is None);
                }
            },
        }
        i = i + 1;
    }
    proof {
        assert forall|k: Seq<char>| t.contains_key(k) implies match sp_dec_menu(
            #[trigger] t[k],
        ) {
            Some(m) => sp_menu_listed(out@, m),
            None => true,
        } by {
            let j = choose|j: int| 0 <= j < pairs@.len() && #[trigger] pairs@[j].0@ == k;
            assert(t[pairs@[j].0@] == t[k]);
        }
    }
    Ok(out)
}

/// Remove a menu's record.
pub fn delete_ticket_menu(store: &mut Store, id: &str) -> (r: Result<(), DbError>)
    ensures
        (r matches Ok(u) ==> store_tbl(*final (store), tickets_table()) == store_tbl(
            *old(store),
            tickets_table(),
        ).remove(id@)),
        r is Ok ==> forall|n: Seq<char>|
            n != tickets_table() ==> #[trigger] store_tbl(*final (store), n) == store_tbl(
                *old(store),
                n,
            ),
        r is Err ==> (forall|n: Seq<char>|
            n != tickets_table() ==> #[trigger] store_tbl(*final (store), n) == store_tbl(
                *old(store),
                n,
            )) && (store_tbl(*final (store), tickets_table()) == store_tbl(
            *old(store),
            tickets_table(),
        ) || store_tbl(*final (store), tickets_table()) == store_tbl(
            *old(store),
            tickets_table(),
        ).remove(id@)),
{
    proof {
        reveal_strlit("tickets");
    }
    store.delete_entry("tickets", id)
}

/// Persist one open ticket under its channel's decimal id.
pub fn save_active_ticket(store: &mut Store, ticket: &ActiveTicket) -> (r: Result<(), DbError>)
    ensures
        (r matches Ok(u) ==> store_tbl(*final (store), active_tickets_table()) == store_tbl(
            *old(store),
            active_tickets_table(),
        ).insert(ticket@.channel_id, enc_active(ticket@))),
        r is Ok ==> forall|n: Seq<char>|
            n != active_tickets_table() ==> #[trigger] store_tbl(*final (store), n) == store_tbl(
                *old(store),
                n,
            ),
        r is Err ==> (forall|n: Seq<char>|
            n != active_tickets_table() ==> #[trigger] store_tbl(*final (store), n) == store_tbl(
                *old(store),
                n,
            )) && (store_tbl(*final (store), active_tickets_table()) == store_tbl(
            *old(store),
            active_tickets_table(),
        ) || store_tbl(*final (store), active_tickets_table()) == store_tbl(
            *old(store),
            active_tickets_table(),
        ).insert(ticket@.channel_id, enc_active(ticket@))),
{
    proof {
        reveal_strlit("active_tickets");
    }
    let value = encode_active(ticket);
    store.write_entry("active_tickets", ticket.channel_id.as_str(), value.as_str())
}

/// Load the open ticket of one channel, if any.
pub fn load_active_ticket(store: &Store, channel_id: u64) -> (r: Result<
    Option<ActiveTicket>,
    DbError,
>)
    ensures
        (r matches Ok(o) ==> {
            let t = store_tbl(*store, active_tickets_table());
            let key = codec::enc_u64(channel_id as nat);
            match o {
                Some(a) => t.contains_key(key) && sp_dec_active(t[key]) == Some(a@),
                None => !t.contains_key(key),
            }
        }),
        (r matches Err(e) && e is Serialization) ==> store_tbl(
            *store,
            active_tickets_table(),
        ).contains_key(codec::enc_u64(channel_id as nat)) && sp_dec_active(
            store_tbl(*store, active_tickets_table())[codec::enc_u64(channel_id as nat)],
        ) is None,
{
    proof {
        reveal_strlit("active_tickets");
    }
    let key = codec::u64_to_string(channel_id);
    match store.read_entry("active_tickets", key.as_str()) {
        Ok(Some(value)) => match decode_active(value.as_str()) {
            Some(a) => Ok(Some(a)),
            None => Err(DbError::Serialization(String::new())),
        },
        Ok(None) => Ok(None),
        Err(e) => Err(e),
    }
}

/// Remove one channel's open-ticket record.
pub fn delete_active_ticket(store: &mut Store, channel_id: u64) -> (r: Result<(), DbError>)
    ensures
        (r matches Ok(u) ==> store_tbl(*final (store), active_tickets_table()) == store_tbl(
            *old(store),
            active_tickets_table(),
        ).remove(codec::enc_u64(channel_id as nat))),
        r is Ok ==> forall|n: Seq<char>|
            n != active_tickets_table() ==> #[trigger] store_tbl(*final (store), n) == store_tbl(
                *old(store),
                n,
            ),
        r is Err ==> (forall|n: Seq<char>|
            n != active_tickets_table() ==> #[trigger] store_tbl(*final (store), n) == store_tbl(
                *old(store),
                n,
            )) && (store_tbl(*final (store), active_tickets_table()) == store_tbl(
            *old(store),
            active_tickets_table(),
        ) || store_tbl(*final (store), active_tickets_table()) == store_tbl(
            *old(store),
            active_tickets_table(),
        ).remove(codec::enc_u64(channel_id as nat))),
{
    proof {
        reveal_strlit("active_tickets");
    }
    let key = codec::u64_to_string(channel_id);
    store.delete_entry("active_tickets", key.as_str())
}

/// Open a ticket from a submitted modal: build the record and persist
/// it.  The private channel itself is created outside; its id arrives
/// here as the record's key.
pub fn open_ticket(
    store: &mut Store,
    channel_id: u64,
    creator_id: u64,
    guild_id: u64,
    ticket_number: u32,
) -> (r: Result<ActiveTicket, DbError>)
    ensures
        (r matches Ok(t) ==> {
            &&& t@.channel_id == codec::enc_u64(channel_id as nat)
            &&& t@.creator_id == codec::enc_u64(creator_id as nat)
            &&& t@.guild_id == codec::enc_u64(guild_id as nat)
            &&& t@.ticket_number == ticket_number
            &&& sp_is_creator(t@.creator_id, creator_id)
            &&& store_tbl(*final (store), active_tickets_table()) == store_tbl(
                *old(store),
                active_tickets_table(),
            ).insert(t@.channel_id, enc_active(t@))
            &&& forall|n: Seq<char>|
                n != active_tickets_table() ==> #[trigger] store_tbl(*final (store), n)
                    == store_tbl(*old(store), n)
        }),
        r is Err ==> sp_only_key_differs(
            *old(store),
            *final (store),
            active_tickets_table(),
            codec::enc_u64(channel_id as nat),
        ),
{
    let ticket = ActiveTicket {
        channel_id: codec::u64_to_string(channel_id),
        creator_id: codec::u64_to_string(creator_id),
        guild_id: codec::u64_to_string(guild_id),
        ticket_number,
    };
    proof {
        codec::lemma_enc_u64_digits(creator_id as nat);
        assert(codec::enc_u64(creator_id as nat).subrange(
            0,
            codec::enc_u64(creator_id as nat).len() as int,
        ) =~= codec::enc_u64(creator_id as nat));
        codec::lemma_parse_enc_u64(
            codec::enc_u64(creator_id as nat),
            0,
            creator_id as nat,
        );
        assert(sp_is_creator(ticket@.creator_id, creator_id));
    }
    match save_active_ticket(store, &ticket) {
        Ok(()) => Ok(ticket),
        Err(e) => Err(e),
    }
}


// ---------------------------------------------------------------------------
// Component ids on the chat surface
// ---------------------------------------------------------------------------
/// Build the menu's create-button component id.
pub fn make_ticket_create_id(menu_id: &str) -> (r: String)
    ensures
        r@ == "ticket_create_"@ + menu_id@,
{
    let mut out: Vec<char> = Vec::new();
    text::push_str_chars(&mut out, "ticket_create_");
    text::push_str_chars(&mut out, menu_id);
    assert(out@ =~= "ticket_create_"@ + menu_id@);
    text::chars_to_string(&out)
}

/// The menu a pressed create button names.
pub fn parse_ticket_create_id(custom_id: &str) -> (r: Option<String>)
    ensures
        (r matches Some(id) ==> text::sp_strip_prefix(custom_id@, "ticket_create_"@) == Some(
            id@,
        )),
        r is None ==> text::sp_strip_prefix(custom_id@, "ticket_create_"@) is None,
{
    text::strip_prefix_str(custom_id, "ticket_create_")
}

/// Build the creation modal's component id.
pub fn make_ticket_modal_id(menu_id: &str) -> (r: String)
    ensures
        r@ == "ticket_modal_"@ + menu_id@,
{
    let mut out: Vec<char> = Vec::new();
    text::push_str_chars(&mut out, "ticket_modal_");
    text::push_str_chars(&mut out, menu_id);
    assert(out@ =~= "ticket_modal_"@ + menu_id@);
    text::chars_to_string(&out)
}

/// The menu a submitted creation modal names.
pub fn parse_ticket_modal_id(custom_id: &str) -> (r: Option<String>)
    ensures
        (r matches Some(id) ==> text::sp_strip_prefix(custom_id@, "ticket_modal_"@) == Some(id@)),
        r is None ==> text::sp_strip_prefix(custom_id@, "ticket_modal_"@) is None,
{
    text::strip_prefix_str(custom_id, "ticket_modal_")
}

/// The channel whose number follows the fixed prefix, read only when the
/// whole rest is its decimal digits.
pub open spec fn sp_channel_of_id(s: Seq<char>, prefix: Seq<char>) -> Option<u64> {
    match codec::sp_pfx_u64(s, 0, prefix) {
        Some((n, e)) => if e == s.len() {
            Some(n as u64)
        } else {
            None
        },
        None => None,
    }
}

/// Build the delete control's component id for one ticket channel.
pub fn make_ticket_delete_id(channel_id: u64) -> (r: String)
    ensures
        r@ == "ticket_delete_"@ + codec::enc_u64(channel_id as nat),
{
    let mut out: Vec<char> = Vec::new();
    text::push_str_chars(&mut out, "ticket_delete_");
    codec::write_u64(&mut out, channel_id);
    assert(out@ =~= "ticket_delete_"@ + codec::enc_u64(channel_id as nat));
    text::chars_to_string(&out)
}

/// The channel a pressed delete control names.
pub fn parse_ticket_delete_id(custom_id: &str) -> (r: Option<u64>)
    ensures
        r == sp_channel_of_id(custom_id@, "ticket_delete_"@),
{
    let v = text::str_to_chars(custom_id);
    match codec::pfx_u64(&v, 0, "ticket_delete_") {
        Some((n, e)) => {
            if e == v.len() {
                Some(n)
            } else {
                None
            }
        },
        None => None,
    }
}

/// Build the close-confirmation button's component id.
pub fn make_close_confirm_id(channel_id: u64) -> (r: String)
    ensures
        r@ == "ticket_close_confirm_"@ + codec::enc_u64(channel_id as nat),
{
    let mut out: Vec<char> = Vec::new();
    text::push_str_chars(&mut out, "ticket_close_confirm_");
    codec::write_u64(&mut out, channel_id);
    assert(out@ =~= "ticket_close_confirm_"@ + codec::enc_u64(channel_id as nat));
    text::chars_to_string(&out)
}

/// The channel a pressed close confirmation names.
pub fn parse_close_confirm_id(custom_id: &str) -> (r: Option<u64>)
    ensures
        r == sp_channel_of_id(custom_id@, "ticket_close_confirm_"@),
{
    let v = text::str_to_chars(custom_id);
    match codec::pfx_u64(&v, 0, "ticket_close_confirm_") {
        Some((n, e)) => {
            if e == v.len() {
                Some(n)
            } else {
                None
            }
        },
        None => None,
    }
}

/// Whether a pressed component cancels a close.
pub fn is_close_cancel_id(custom_id: &str) -> (r: bool)
    ensures
        r == (text::sp_strip_prefix(custom_id@, "ticket_close_cancel_"@) is Some),
{
    match text::strip_prefix_str(custom_id, "ticket_close_cancel_") {
        Some(rest) => true,
        None => false,
    }
}

/// A delete control's component id always resolves to its own channel.
pub proof fn lemma_delete_id_roundtrip(channel_id: u64)
    ensures
        sp_channel_of_id(
            "ticket_delete_"@ + codec::enc_u64(channel_id as nat),
            "ticket_delete_"@,
        ) == Some(channel_id),
{
    let s = "ticket_delete_"@ + codec::enc_u64(channel_id as nat);
    assert(s.subrange(0, s.len() as int) =~= "ticket_delete_"@ + codec::enc_u64(
        channel_id as nat,
    ));
    codec::lemma_pfx_u64(s, 0, "ticket_delete_"@, channel_id as nat);
}

} // verus!
