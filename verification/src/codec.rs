//! Dispatch codec: the pure transformation from raw platform events into the
//! script-facing event schema. Decides which events are routable, assigns
//! each event's target tenant, and builds the JSON payload.

use vstd::prelude::*;

use crate::json::{enc_obj, lemma_json_round_trip, parse_obj, JsonObj, JsonVal, JsonValV};

verus! {

#[derive(Clone, Debug, PartialEq, Eq)]
pub struct MessagePayload {
    pub id: u64,
    pub channel_id: u64,
    pub author_id: u64,
    pub content: String,
}

#[derive(Clone, Debug, PartialEq, Eq)]
pub struct MessageUpdatePayload {
    pub id: u64,
    pub channel_id: u64,
    pub content: Option<String>,
}

#[derive(Clone, Debug, PartialEq, Eq)]
pub struct MessageDeletePayload {
    pub id: u64,
    pub channel_id: u64,
}

#[derive(Clone, Debug, PartialEq, Eq)]
pub struct MemberPayload {
    pub guild_id: u64,
    pub user_id: u64,
    pub roles: Vec<u64>,
    pub nick: Option<String>,
}

#[derive(Clone, Debug, PartialEq, Eq)]
pub struct MemberRemovePayload {
    pub guild_id: u64,
    pub user_id: u64,
}

#[derive(Clone, Debug, PartialEq, Eq)]
pub struct ReactionPayload {
    /// Reactions reach the broker for direct messages too; those carry no
    /// guild and are not routable.
    pub guild_id: Option<u64>,
    pub channel_id: u64,
    pub message_id: u64,
    pub user_id: u64,
    pub emoji: String,
}

#[derive(Clone, Debug, PartialEq, Eq)]
pub struct ReactionRemoveAllPayload {
    pub guild_id: Option<u64>,
    pub channel_id: u64,
    pub message_id: u64,
}

#[derive(Clone, Debug, PartialEq, Eq)]
pub struct ReactionRemoveEmojiPayload {
    pub guild_id: u64,
    pub channel_id: u64,
    pub message_id: u64,
    pub emoji: String,
}

#[derive(Clone, Debug, PartialEq, Eq)]
pub struct ChannelPayload {
    pub id: u64,
    pub name: String,
    pub kind: u64,
    pub parent_id: Option<u64>,
}

#[derive(Clone, Debug, PartialEq, Eq)]
pub struct ThreadDeletePayload {
    pub id: u64,
    pub parent_id: u64,
    pub kind: u64,
}

#[derive(Clone, Debug, PartialEq, Eq)]
pub struct ThreadListSyncPayload {
    pub channel_ids: Vec<u64>,
    pub thread_ids: Vec<u64>,
}

#[derive(Clone, Debug, PartialEq, Eq)]
pub struct ThreadMemberPayload {
    pub thread_id: u64,
    pub user_id: u64,
}

#[derive(Clone, Debug, PartialEq, Eq)]
pub struct ThreadMembersUpdatePayload {
    pub guild_id: u64,
    pub thread_id: u64,
    pub added_user_ids: Vec<u64>,
    pub removed_user_ids: Vec<u64>,
}

/// The three script-visible interaction shapes; anything else is not
/// dispatched to scripts.
#[derive(Clone, Debug, PartialEq, Eq)]
pub enum InteractionPayload {
    Command { id: u64, name: String, channel_id: u64, member_id: u64 },
    Component { id: u64, custom_id: String, channel_id: u64 },
    ModalSubmit { id: u64, custom_id: String, channel_id: u64 },
    Unsupported,
}

#[derive(Clone, Debug, PartialEq, Eq)]
pub struct InviteCreatePayload {
    pub guild_id: u64,
    pub channel_id: u64,
    pub code: String,
    pub max_age: u64,
    pub max_uses: u64,
    pub temporary: bool,
}

#[derive(Clone, Debug, PartialEq, Eq)]
pub struct InviteDeletePayload {
    pub guild_id: u64,
    pub channel_id: u64,
    pub code: String,
}

#[derive(Clone, Debug, PartialEq, Eq)]
pub struct VoiceStatePayload {
    pub channel_id: Option<u64>,
    pub user_id: u64,
    pub session_id: String,
}

/// The raw platform event set carried by the broker stream.
#[derive(Clone, Debug, PartialEq, Eq)]
pub enum DiscordEventData {
    MessageCreate(MessagePayload),
    MessageUpdate(MessageUpdatePayload),
    MessageDelete(MessageDeletePayload),
    MemberAdd(MemberPayload),
    MemberUpdate(MemberPayload),
    MemberRemove(MemberRemovePayload),
    ReactionAdd(ReactionPayload),
    ReactionRemove(ReactionPayload),
    ReactionRemoveAll(ReactionRemoveAllPayload),
    ReactionRemoveEmoji(ReactionRemoveEmojiPayload),
    ChannelCreate(ChannelPayload),
    ChannelUpdate(ChannelPayload),
    ChannelDelete(ChannelPayload),
    ThreadCreate(ChannelPayload),
    ThreadUpdate(ChannelPayload),
    ThreadDelete(ThreadDeletePayload),
    ThreadListSync(ThreadListSyncPayload),
    ThreadMemberUpdate(ThreadMemberPayload),
    ThreadMembersUpdate(ThreadMembersUpdatePayload),
    InteractionCreate(InteractionPayload),
    InviteCreate(InviteCreatePayload),
    InviteDelete(InviteDeletePayload),
    VoiceStateUpdate { event: VoiceStatePayload, old_state: Option<VoiceStatePayload> },
    GuildCreate(u64),
    GuildDelete(u64),
    MessageDeleteBulk { channel_id: u64, message_ids: Vec<u64> },
}

/// One record of the broker stream.
#[derive(Clone, Debug, PartialEq, Eq)]
pub struct DiscordEvent {
    pub guild_id: Option<u64>,
    pub event: DiscordEventData,
}

/// A routed, script-facing event.
#[derive(Clone, Debug, PartialEq, Eq)]
pub struct DiscordDispatchEvent {
    pub guild_id: u64,
    pub name: String,
    pub data: JsonObj,
}

pub open spec fn opt_uint_val(v: Option<u64>) -> JsonValV {
    match v {
        Some(n) => JsonValV::UInt(n),
        None => JsonValV::Null,
    }
}

pub open spec fn opt_str_val(v: Option<String>) -> JsonValV {
    match v {
        Some(s) => JsonValV::Str(s@),
        None => JsonValV::Null,
    }
}

/// What the codec produces for one raw event: the stable wire name, the
/// target tenant, and the payload fields, or nothing when the event is not
/// dispatched to scripts.
pub open spec fn dispatch_spec(evt: DiscordEvent) -> Option<
    (Seq<char>, u64, Seq<(Seq<char>, JsonValV)>),
> {
    match evt.event {
        DiscordEventData::MessageCreate(m) => match evt.guild_id {
            Some(g) => Some(
                (
                    "MESSAGE_CREATE"@,
                    g,
                    seq![
                        ("id"@, JsonValV::UInt(m.id)),
                        ("channel_id"@, JsonValV::UInt(m.channel_id)),
                        ("author_id"@, JsonValV::UInt(m.author_id)),
                        ("content"@, JsonValV::Str(m.content@)),
                    ],
                ),
            ),
            None => None,
        },
        DiscordEventData::MessageUpdate(m) => match evt.guild_id {
            Some(g) => Some(
                (
                    "MESSAGE_UPDATE"@,
                    g,
                    seq![
                        ("id"@, JsonValV::UInt(m.id)),
                        ("channel_id"@, JsonValV::UInt(m.channel_id)),
                        ("content"@, opt_str_val(m.content)),
                    ],
                ),
            ),
            None => None,
        },
        DiscordEventData::MessageDelete(m) => match evt.guild_id {
            Some(g) => Some(
                (
                    "MESSAGE_DELETE"@,
                    g,
                    seq![
                        ("id"@, JsonValV::UInt(m.id)),
                        ("channel_id"@, JsonValV::UInt(m.channel_id)),
                    ],
                ),
            ),
            None => None,
        },
        DiscordEventData::MemberAdd(m) => Some(
            ("MEMBER_ADD"@, m.guild_id, member_fields(m)),
        ),
        DiscordEventData::MemberUpdate(m) => Some(
            ("MEMBER_UPDATE"@, m.guild_id, member_fields(m)),
        ),
        DiscordEventData::MemberRemove(m) => Some(
            (
                "MEMBER_REMOVE"@,
                m.guild_id,
                seq![
                    ("guild_id"@, JsonValV::UInt(m.guild_id)),
                    ("user_id"@, JsonValV::UInt(m.user_id)),
                ],
            ),
        ),
        DiscordEventData::ReactionAdd(r) => match r.guild_id {
            Some(g) => Some(("MESSAGE_REACTION_ADD"@, g, reaction_fields(r))),
            None => None,
        },
        DiscordEventData::ReactionRemove(r) => match r.guild_id {
            Some(g) => Some(("MESSAGE_REACTION_REMOVE"@, g, reaction_fields(r))),
            None => None,
        },
        DiscordEventData::ReactionRemoveAll(r) => match r.guild_id {
            Some(g) => Some(
                (
                    "MESSAGE_REACTION_REMOVE_ALL"@,
                    g,
                    seq![
                        ("channel_id"@, JsonValV::UInt(r.channel_id)),
                        ("message_id"@, JsonValV::UInt(r.message_id)),
                    ],
                ),
            ),
            None => None,
        },
        DiscordEventData::ReactionRemoveEmoji(r) => Some(
            (
                "MESSAGE_REACTION_REMOVE_ALL_EMOJI"@,
                r.guild_id,
                seq![
                    ("channel_id"@, JsonValV::UInt(r.channel_id)),
                    ("message_id"@, JsonValV::UInt(r.message_id)),
                    ("emoji"@, JsonValV::Str(r.emoji@)),
                ],
            ),
        ),
        DiscordEventData::ChannelCreate(c) => match evt.guild_id {
            Some(g) => Some(("CHANNEL_CREATE"@, g, channel_fields(c))),
            None => None,
        },
        DiscordEventData::ChannelUpdate(c) => match evt.guild_id {
            Some(g) => Some(("CHANNEL_UPDATE"@, g, channel_fields(c))),
            None => None,
        },
        DiscordEventData::ChannelDelete(c) => match evt.guild_id {
            Some(g) => Some(("CHANNEL_DELETE"@, g, channel_fields(c))),
            None => None,
        },
        DiscordEventData::ThreadCreate(c) => match evt.guild_id {
            Some(g) => Some(("THREAD_CREATE"@, g, channel_fields(c))),
            None => None,
        },
        DiscordEventData::ThreadUpdate(c) => match evt.guild_id {
            Some(g) => Some(("THREAD_UPDATE"@, g, channel_fields(c))),
            None => None,
        },
        DiscordEventData::ThreadDelete(t) => match evt.guild_id {
            Some(g) => Some(
                (
                    "THREAD_DELETE"@,
                    g,
                    seq![
                        ("id"@, JsonValV::UInt(t.id)),
                        ("parent_id"@, JsonValV::UInt(t.parent_id)),
                        ("kind"@, JsonValV::UInt(t.kind)),
                    ],
                ),
            ),
            None => None,
        },
        DiscordEventData::ThreadListSync(t) => match evt.guild_id {
            Some(g) => Some(
                (
                    "THREAD_LIST_SYNC"@,
                    g,
                    seq![
                        ("channel_ids"@, JsonValV::UIntArr(t.channel_ids@)),
                        ("thread_ids"@, JsonValV::UIntArr(t.thread_ids@)),
                    ],
                ),
            ),
            None => None,
        },
        DiscordEventData::ThreadMemberUpdate(t) => match evt.guild_id {
            Some(g) => Some(
                (
                    "THREAD_MEMBER_UPDATE"@,
                    g,
                    seq![
                        ("thread_id"@, JsonValV::UInt(t.thread_id)),
                        ("user_id"@, JsonValV::UInt(t.user_id)),
                    ],
                ),
            ),
            None => None,
        },
        DiscordEventData::ThreadMembersUpdate(t) => Some(
            (
                "THREAD_MEMBERS_UPDATE"@,
                t.guild_id,
                seq![
                    ("thread_id"@, JsonValV::UInt(t.thread_id)),
                    ("added_user_ids"@, JsonValV::UIntArr(t.added_user_ids@)),
                    ("removed_user_ids"@, JsonValV::UIntArr(t.removed_user_ids@)),
                ],
            ),
        ),
        DiscordEventData::InteractionCreate(i) => match evt.guild_id {
            Some(g) => match i {
                InteractionPayload::Command { id, name, channel_id, member_id } => Some(
                    (
                        "BOTLOADER_COMMAND_INTERACTION_CREATE"@,
                        g,
                        seq![
                            ("id"@, JsonValV::UInt(id)),
                            ("name"@, JsonValV::Str(name@)),
                            ("channel_id"@, JsonValV::UInt(channel_id)),
                            ("member_id"@, JsonValV::UInt(member_id)),
                        ],
                    ),
                ),
                InteractionPayload::Component { id, custom_id, channel_id } => Some(
                    (
                        "BOTLOADER_COMPONENT_INTERACTION_CREATE"@,
                        g,
                        seq![
                            ("id"@, JsonValV::UInt(id)),
                            ("custom_id"@, JsonValV::Str(custom_id@)),
                            ("channel_id"@, JsonValV::UInt(channel_id)),
                        ],
                    ),
                ),
                InteractionPayload::ModalSubmit { id, custom_id, channel_id } => Some(
                    (
                        "BOTLOADER_MODAL_SUBMIT_INTERACTION_CREATE"@,
                        g,
                        seq![
                            ("id"@, JsonValV::UInt(id)),
                            ("custom_id"@, JsonValV::Str(custom_id@)),
                            ("channel_id"@, JsonValV::UInt(channel_id)),
                        ],
                    ),
                ),
                InteractionPayload::Unsupported => None,
            },
            None => None,
        },
        DiscordEventData::InviteCreate(v) => Some(
            (
                "INVITE_CREATE"@,
                v.guild_id,
                seq![
                    ("channel_id"@, JsonValV::UInt(v.channel_id)),
                    ("code"@, JsonValV::Str(v.code@)),
                    ("max_age"@, JsonValV::UInt(v.max_age)),
                    ("max_uses"@, JsonValV::UInt(v.max_uses)),
                    ("temporary"@, JsonValV::Bool(v.temporary)),
                ],
            ),
        ),
        DiscordEventData::InviteDelete(v) => Some(
            (
                "INVITE_DELETE"@,
                v.guild_id,
                seq![
                    ("channel_id"@, JsonValV::UInt(v.channel_id)),
                    ("code"@, JsonValV::Str(v.code@)),
                ],
            ),
        ),
        DiscordEventData::VoiceStateUpdate { event, old_state } => match evt.guild_id {
            Some(g) => Some(
                (
                    "VOICE_STATE_UPDATE"@,
                    g,
                    seq![
                        ("user_id"@, JsonValV::UInt(event.user_id)),
                        ("channel_id"@, opt_uint_val(event.channel_id)),
                        ("session_id"@, JsonValV::Str(event.session_id@)),
                        (
                            "has_old"@,
                            JsonValV::Bool(old_state is Some),
                        ),
                        (
                            "old_channel_id"@,
                            match old_state {
                                Some(o) => opt_uint_val(o.channel_id),
                                None => JsonValV::Null,
                            },
                        ),
                    ],
                ),
            ),
            None => None,
        },
        DiscordEventData::GuildCreate(_) => None,
        DiscordEventData::GuildDelete(_) => None,
        DiscordEventData::MessageDeleteBulk { .. } => None,
    }
}

pub open spec fn member_fields(m: MemberPayload) -> Seq<(Seq<char>, JsonValV)> {
    seq![
        ("guild_id"@, JsonValV::UInt(m.guild_id)),
        ("user_id"@, JsonValV::UInt(m.user_id)),
        ("roles"@, JsonValV::UIntArr(m.roles@)),
        ("nick"@, opt_str_val(m.nick)),
    ]
}

pub open spec fn reaction_fields(r: ReactionPayload) -> Seq<(Seq<char>, JsonValV)> {
    seq![
        ("channel_id"@, JsonValV::UInt(r.channel_id)),
        ("message_id"@, JsonValV::UInt(r.message_id)),
        ("user_id"@, JsonValV::UInt(r.user_id)),
        ("emoji"@, JsonValV::Str(r.emoji@)),
    ]
}

pub open spec fn channel_fields(c: ChannelPayload) -> Seq<(Seq<char>, JsonValV)> {
    seq![
        ("id"@, JsonValV::UInt(c.id)),
        ("name"@, JsonValV::Str(c.name@)),
        ("kind"@, JsonValV::UInt(c.kind)),
        ("parent_id"@, opt_uint_val(c.parent_id)),
    ]
}

fn field_str(name: &str) -> (r: String)
    ensures
        r@ == name@,
{
    String::from_str(name)
}

fn opt_uint_json(v: &Option<u64>) -> (r: JsonVal)
    ensures
        r@ == opt_uint_val(*v),
{
    match v {
        Some(n) => JsonVal::UInt(*n),
        None => JsonVal::Null,
    }
}

fn opt_str_json(v: Option<String>) -> (r: JsonVal)
    ensures
        r@ == opt_str_val(v),
{
    match v {
        Some(s) => JsonVal::Str(s),
        None => JsonVal::Null,
    }
}

/// Convert a raw platform event into the script-facing dispatch event, or
/// `None` when the event is not dispatched to scripts: lifecycle events
/// (guild create/delete, bulk message deletes), unsupported interactions,
/// and guild-only events whose tenant cannot be determined.
pub fn discord_event_to_dispatch(evt: DiscordEvent) -> (r: Option<DiscordDispatchEvent>)
    ensures
        match r {
            Some(d) => {
                &&& dispatch_spec(evt) is Some
                &&& d.name@ == dispatch_spec(evt).unwrap().0
                &&& d.guild_id == dispatch_spec(evt).unwrap().1
                &&& d.data@ =~= dispatch_spec(evt).unwrap().2
            },
            None => dispatch_spec(evt) is None,
        },
{
    let guild_id = evt.guild_id;
    match evt.event {
        DiscordEventData::MessageCreate(m) => match guild_id {
            Some(g) => {
                let mut data = JsonObj::new();
                data.push_field(field_str("id"), JsonVal::UInt(m.id));
                data.push_field(field_str("channel_id"), JsonVal::UInt(m.channel_id));
                data.push_field(field_str("author_id"), JsonVal::UInt(m.author_id));
                data.push_field(field_str("content"), JsonVal::Str(m.content));
                Some(
                    DiscordDispatchEvent {
                        guild_id: g,
                        name: field_str("MESSAGE_CREATE"),
                        data,
                    },
                )
            },
            None => None,
        },
        DiscordEventData::MessageUpdate(m) => match guild_id {
            Some(g) => {
                let mut data = JsonObj::new();
                data.push_field(field_str("id"), JsonVal::UInt(m.id));
                data.push_field(field_str("channel_id"), JsonVal::UInt(m.channel_id));
                data.push_field(field_str("content"), opt_str_json(m.content));
                Some(
                    DiscordDispatchEvent {
                        guild_id: g,
                        name: field_str("MESSAGE_UPDATE"),
                        data,
                    },
                )
            },
            None => None,
        },
        DiscordEventData::MessageDelete(m) => match guild_id {
            Some(g) => {
                let mut data = JsonObj::new();
                data.push_field(field_str("id"), JsonVal::UInt(m.id));
                data.push_field(field_str("channel_id"), JsonVal::UInt(m.channel_id));
                Some(
                    DiscordDispatchEvent {
                        guild_id: g,
                        name: field_str("MESSAGE_DELETE"),
                        data,
                    },
                )
            },
            None => None,
        },
        DiscordEventData::MemberAdd(m) => {
            let g = m.guild_id;
            let data = member_json(m);
            Some(DiscordDispatchEvent { guild_id: g, name: field_str("MEMBER_ADD"), data })
        },
        DiscordEventData::MemberUpdate(m) => {
            let g = m.guild_id;
            let data = member_json(m);
            Some(DiscordDispatchEvent { guild_id: g, name: field_str("MEMBER_UPDATE"), data })
        },
        DiscordEventData::MemberRemove(m) => {
            let mut data = JsonObj::new();
            data.push_field(field_str("guild_id"), JsonVal::UInt(m.guild_id));
            data.push_field(field_str("user_id"), JsonVal::UInt(m.user_id));
            Some(
                DiscordDispatchEvent {
                    guild_id: m.guild_id,
                    name: field_str("MEMBER_REMOVE"),
                    data,
                },
            )
        },
        DiscordEventData::ReactionAdd(rp) => match rp.guild_id {
            Some(g) => {
                let data = reaction_json(rp);
                Some(
                    DiscordDispatchEvent {
                        guild_id: g,
                        name: field_str("MESSAGE_REACTION_ADD"),
                        data,
                    },
                )
            },
            None => None,
        },
        DiscordEventData::ReactionRemove(rp) => match rp.guild_id {
            Some(g) => {
                let data = reaction_json(rp);
                Some(
                    DiscordDispatchEvent {
                        guild_id: g,
                        name: field_str("MESSAGE_REACTION_REMOVE"),
                        data,
                    },
                )
            },
            None => None,
        },
        DiscordEventData::ReactionRemoveAll(rp) => match rp.guild_id {
            Some(g) => {
                let mut data = JsonObj::new();
                data.push_field(field_str("channel_id"), JsonVal::UInt(rp.channel_id));
                data.push_field(field_str("message_id"), JsonVal::UInt(rp.message_id));
                Some(
                    DiscordDispatchEvent {
                        guild_id: g,
                        name: field_str("MESSAGE_REACTION_REMOVE_ALL"),
                        data,
                    },
                )
            },
            None => None,
        },
        DiscordEventData::ReactionRemoveEmoji(rp) => {
            let mut data = JsonObj::new();
            data.push_field(field_str("channel_id"), JsonVal::UInt(rp.channel_id));
            data.push_field(field_str("message_id"), JsonVal::UInt(rp.message_id));
            data.push_field(field_str("emoji"), JsonVal::Str(rp.emoji));
            Some(
                DiscordDispatchEvent {
                    guild_id: rp.guild_id,
                    name: field_str("MESSAGE_REACTION_REMOVE_ALL_EMOJI"),
                    data,
                },
            )
        },
        DiscordEventData::ChannelCreate(c) => match guild_id {
            Some(g) => Some(
                DiscordDispatchEvent {
                    guild_id: g,
                    name: field_str("CHANNEL_CREATE"),
                    data: channel_json(c),
                },
            ),
            None => None,
        },
        DiscordEventData::ChannelUpdate(c) => match guild_id {
            Some(g) => Some(
                DiscordDispatchEvent {
                    guild_id: g,
                    name: field_str("CHANNEL_UPDATE"),
                    data: channel_json(c),
                },
            ),
            None => None,
        },
        DiscordEventData::ChannelDelete(c) => match guild_id {
            Some(g) => Some(
                DiscordDispatchEvent {
                    guild_id: g,
                    name: field_str("CHANNEL_DELETE"),
                    data: channel_json(c),
                },
            ),
            None => None,
        },
        DiscordEventData::ThreadCreate(c) => match guild_id {
            Some(g) => Some(
                DiscordDispatchEvent {
                    guild_id: g,
                    name: field_str("THREAD_CREATE"),
                    data: channel_json(c),
                },
            ),
            None => None,
        },
        DiscordEventData::ThreadUpdate(c) => match guild_id {
            Some(g) => Some(
                DiscordDispatchEvent {
                    guild_id: g,
                    name: field_str("THREAD_UPDATE"),
                    data: channel_json(c),
                },
            ),
            None => None,
        },
        DiscordEventData::ThreadDelete(t) => match guild_id {
            Some(g) => {
                let mut data = JsonObj::new();
                data.push_field(field_str("id"), JsonVal::UInt(t.id));
                data.push_field(field_str("parent_id"), JsonVal::UInt(t.parent_id));
                data.push_field(field_str("kind"), JsonVal::UInt(t.kind));
                Some(
                    DiscordDispatchEvent { guild_id: g, name: field_str("THREAD_DELETE"), data },
                )
            },
            None => None,
        },
        DiscordEventData::ThreadListSync(t) => match guild_id {
            Some(g) => {
                let mut data = JsonObj::new();
                data.push_field(field_str("channel_ids"), JsonVal::UIntArr(t.channel_ids));
                data.push_field(field_str("thread_ids"), JsonVal::UIntArr(t.thread_ids));
                Some(
                    DiscordDispatchEvent {
                        guild_id: g,
                        name: field_str("THREAD_LIST_SYNC"),
                        data,
                    },
                )
            },
            None => None,
        },
        DiscordEventData::ThreadMemberUpdate(t) => match guild_id {
            Some(g) => {
                let mut data = JsonObj::new();
                data.push_field(field_str("thread_id"), JsonVal::UInt(t.thread_id));
                data.push_field(field_str("user_id"), JsonVal::UInt(t.user_id));
                Some(
                    DiscordDispatchEvent {
                        guild_id: g,
                        name: field_str("THREAD_MEMBER_UPDATE"),
                        data,
                    },
                )
            },
            None => None,
        },
        DiscordEventData::ThreadMembersUpdate(t) => {
            let mut data = JsonObj::new();
            data.push_field(field_str("thread_id"), JsonVal::UInt(t.thread_id));
            data.push_field(field_str("added_user_ids"), JsonVal::UIntArr(t.added_user_ids));
            data.push_field(field_str("removed_user_ids"), JsonVal::UIntArr(t.removed_user_ids));
            Some(
                DiscordDispatchEvent {
                    guild_id: t.guild_id,
                    name: field_str("THREAD_MEMBERS_UPDATE"),
                    data,
                },
            )
        },
        DiscordEventData::InteractionCreate(i) => match guild_id {
            Some(g) => match i {
                InteractionPayload::Command { id, name, channel_id, member_id } => {
                    let mut data = JsonObj::new();
                    data.push_field(field_str("id"), JsonVal::UInt(id));
                    data.push_field(field_str("name"), JsonVal::Str(name));
                    data.push_field(field_str("channel_id"), JsonVal::UInt(channel_id));
                    data.push_field(field_str("member_id"), JsonVal::UInt(member_id));
                    Some(
                        DiscordDispatchEvent {
                            guild_id: g,
                            name: field_str("BOTLOADER_COMMAND_INTERACTION_CREATE"),
                            data,
                        },
                    )
                },
                InteractionPayload::Component { id, custom_id, channel_id } => {
                    let mut data = JsonObj::new();
                    data.push_field(field_str("id"), JsonVal::UInt(id));
                    data.push_field(field_str("custom_id"), JsonVal::Str(custom_id));
                    data.push_field(field_str("channel_id"), JsonVal::UInt(channel_id));
                    Some(
                        DiscordDispatchEvent {
                            guild_id: g,
                            name: field_str("BOTLOADER_COMPONENT_INTERACTION_CREATE"),
                            data,
                        },
                    )
                },
                InteractionPayload::ModalSubmit { id, custom_id, channel_id } => {
                    let mut data = JsonObj::new();
                    data.push_field(field_str("id"), JsonVal::UInt(id));
                    data.push_field(field_str("custom_id"), JsonVal::Str(custom_id));
                    data.push_field(field_str("channel_id"), JsonVal::UInt(channel_id));
                    Some(
                        DiscordDispatchEvent {
                            guild_id: g,
                            name: field_str("BOTLOADER_MODAL_SUBMIT_INTERACTION_CREATE"),
                            data,
                        },
                    )
                },
                InteractionPayload::Unsupported => None,
            },
            None => None,
        },
        DiscordEventData::InviteCreate(v) => {
            let mut data = JsonObj::new();
            data.push_field(field_str("channel_id"), JsonVal::UInt(v.channel_id));
            data.push_field(field_str("code"), JsonVal::Str(v.code));
            data.push_field(field_str("max_age"), JsonVal::UInt(v.max_age));
            data.push_field(field_str("max_uses"), JsonVal::UInt(v.max_uses));
            data.push_field(field_str("temporary"), JsonVal::Bool(v.temporary));
            Some(
                DiscordDispatchEvent {
                    guild_id: v.guild_id,
                    name: field_str("INVITE_CREATE"),
                    data,
                },
            )
        },
        DiscordEventData::InviteDelete(v) => {
            let mut data = JsonObj::new();
            data.push_field(field_str("channel_id"), JsonVal::UInt(v.channel_id));
            data.push_field(field_str("code"), JsonVal::Str(v.code));
            Some(
                DiscordDispatchEvent {
                    guild_id: v.guild_id,
                    name: field_str("INVITE_DELETE"),
                    data,
                },
            )
        },
        DiscordEventData::VoiceStateUpdate { event, old_state } => match guild_id {
            Some(g) => {
                let mut data = JsonObj::new();
                data.push_field(field_str("user_id"), JsonVal::UInt(event.user_id));
                data.push_field(field_str("channel_id"), opt_uint_json(&event.channel_id));
                data.push_field(field_str("session_id"), JsonVal::Str(event.session_id));
                data.push_field(field_str("has_old"), JsonVal::Bool(old_state.is_some()));
                let old_channel = match &old_state {
                    Some(o) => opt_uint_json(&o.channel_id),
                    None => JsonVal::Null,
                };
                data.push_field(field_str("old_channel_id"), old_channel);
                Some(
                    DiscordDispatchEvent {
                        guild_id: g,
                        name: field_str("VOICE_STATE_UPDATE"),
                        data,
                    },
                )
            },
            None => None,
        },
        DiscordEventData::GuildCreate(_) => None,
        DiscordEventData::GuildDelete(_) => None,
        DiscordEventData::MessageDeleteBulk { .. } => None,
    }
}

fn member_json(m: MemberPayload) -> (data: JsonObj)
    ensures
        data@ =~= member_fields(m),
{
    let ghost m0 = m;
    let mut data = JsonObj::new();
    data.push_field(field_str("guild_id"), JsonVal::UInt(m.guild_id));
    data.push_field(field_str("user_id"), JsonVal::UInt(m.user_id));
    data.push_field(field_str("roles"), JsonVal::UIntArr(m.roles));
    data.push_field(field_str("nick"), opt_str_json(m.nick));
    proof {
        assert(data@ =~= member_fields(m0));
    }
    data
}

fn reaction_json(r: ReactionPayload) -> (data: JsonObj)
    ensures
        data@ =~= reaction_fields(r),
{
    let ghost r0 = r;
    let mut data = JsonObj::new();
    data.push_field(field_str("channel_id"), JsonVal::UInt(r.channel_id));
    data.push_field(field_str("message_id"), JsonVal::UInt(r.message_id));
    data.push_field(field_str("user_id"), JsonVal::UInt(r.user_id));
    data.push_field(field_str("emoji"), JsonVal::Str(r.emoji));
    proof {
        assert(data@ =~= reaction_fields(r0));
    }
    data
}

fn channel_json(c: ChannelPayload) -> (data: JsonObj)
    ensures
        data@ =~= channel_fields(c),
{
    let ghost c0 = c;
    let mut data = JsonObj::new();
    data.push_field(field_str("id"), JsonVal::UInt(c.id));
    data.push_field(field_str("name"), JsonVal::Str(c.name));
    data.push_field(field_str("kind"), JsonVal::UInt(c.kind));
    data.push_field(field_str("parent_id"), opt_uint_json(&c.parent_id));
    proof {
        assert(data@ =~= channel_fields(c0));
    }
    data
}

/// Round trip of a dispatched event's payload on the wire: serializing the
/// `data` field to its canonical JSON, deserializing it, and serializing
/// again yields byte-equal JSON.
pub proof fn lemma_dispatch_payload_round_trip(evt: DiscordEvent)
    requires
        dispatch_spec(evt) is Some,
    ensures
        ({
            let data = dispatch_spec(evt).unwrap().2;
            &&& parse_obj(enc_obj(data)) == Some(data)
            &&& enc_obj(parse_obj(enc_obj(data)).unwrap()) == enc_obj(data)
        }),
{
    lemma_json_round_trip(dispatch_spec(evt).unwrap().2);
}

} // verus!