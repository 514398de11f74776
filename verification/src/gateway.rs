//! Outbound API gateway decision logic: argument validation, member batch
//! planning, the invite cross-tenant guard, and member permission
//! calculation. The platform HTTP calls themselves happen outside; the
//! permission bit math is done by an outside calculator behind trusted
//! wrappers.

use vstd::prelude::*;

use crate::errors::DiscordError;
use crate::json::{digit_val, fold_digits};
use twilight_model::channel::permission_overwrite::{PermissionOverwrite, PermissionOverwriteType};
use twilight_model::channel::ChannelType;
use twilight_model::guild::Permissions;
use twilight_model::id::Id;
use twilight_util::permission_calculator::PermissionCalculator;

verus! {

pub open spec fn is_dec_digit(c: char) -> bool {
    '0' <= c && c <= '9'
}

pub open spec fn all_dec_digits(s: Seq<char>) -> bool {
    forall|i: int| 0 <= i < s.len() ==> is_dec_digit(#[trigger] s[i])
}

/// A string is a valid snowflake id when it is all decimal digits and its
/// value is a nonzero `u64`.
pub open spec fn snowflake_of(s: Seq<char>) -> Option<u64> {
    if s.len() > 0 && all_dec_digits(s) && 0 < fold_digits(s) <= u64::MAX {
        Some(fold_digits(s) as u64)
    } else {
        None
    }
}

/// Parse a platform snowflake id: decimal digits, nonzero, within `u64`.
/// Anything else is a locally caught `InvalidArgument`.
pub fn parse_discord_id(s: &str) -> (r: Result<u64, DiscordError>)
    ensures
        match r {
            Ok(n) => snowflake_of(s@) == Some(n),
            Err(e) => snowflake_of(s@) is None && e is InvalidArgument,
        },
{
    let n = s.unicode_len();
    if n == 0 {
        return Err(
            DiscordError::InvalidArgument { message: String::from_str("invalid id: empty") },
        );
    }
    let mut acc: u64 = 0;
    let mut i: usize = 0;
    while i < n
        invariant
            n == s@.len(),
            0 < n,
            i <= n,
            all_dec_digits(s@.take(i as int)),
            acc == fold_digits(s@.take(i as int)),
        decreases n - i,
    {
        let c = s.get_char(i);
        proof {
            assert(s@.take(i + 1).drop_last() =~= s@.take(i as int));
            assert(s@.take(i + 1).last() == s@[i as int]);
        }
        if !(c >= '0' && c <= '9') {
            proof {
                assert(!is_dec_digit(s@[i as int]));
                assert(snowflake_of(s@) is None);
            }
            return Err(
                DiscordError::InvalidArgument {
                    message: String::from_str("invalid id: not a number"),
                },
            );
        }
        let d = (c as u32 - 48) as u64;
        proof {
            assert(d == digit_val(s@[i as int]));
        }
        if acc > (u64::MAX - d) / 10 {
            proof {
                assert(fold_digits(s@.take(i + 1)) == acc * 10 + d);
                assert(fold_digits(s@.take(i + 1)) > u64::MAX);
                if all_dec_digits(s@) {
                    lemma_take_fold_monotone(s@, i + 1, s@.len() as int);
                    assert(s@.take(s@.len() as int) =~= s@);
                    assert(fold_digits(s@) > u64::MAX);
                }
                assert(snowflake_of(s@) is None);
            }
            return Err(
                DiscordError::InvalidArgument {
                    message: String::from_str("invalid id: out of range"),
                },
            );
        }
        acc = acc * 10 + d;
        i = i + 1;
    }
    proof {
        assert(s@.take(n as int) =~= s@);
    }
    if acc == 0 {
        Err(DiscordError::InvalidArgument { message: String::from_str("invalid id: zero") })
    } else {
        Ok(acc)
    }
}

/// A longer digit prefix never has a smaller value. The step multiplies by
/// ten and adds a digit, both non-decreasing on non-negative values.
proof fn lemma_take_fold_monotone(s: Seq<char>, i: int, j: int)
    requires
        0 <= i <= j <= s.len(),
        forall|k: int| 0 <= k < j ==> is_dec_digit(#[trigger] s[k]),
        fold_digits(s.take(i)) >= 0,
    ensures
        fold_digits(s.take(j)) >= fold_digits(s.take(i)),
    decreases j - i,
{
    if i < j {
        assert(s.take(i + 1).drop_last() =~= s.take(i));
        assert(s.take(i + 1).last() == s[i]);
        assert(digit_val(s[i]) >= 0);
        assert(fold_digits(s.take(i + 1)) == fold_digits(s.take(i)) * 10 + digit_val(s[i]));
        lemma_take_fold_monotone(s, i + 1, j);
    }
}

/// How a member batch fetch will be executed.
#[derive(Clone, Debug, PartialEq, Eq)]
pub enum MemberFetchPlan {
    /// No ids were asked for: return an empty result without any call.
    Empty,
    /// More than two requested members are unknown to the state cache: one
    /// gateway-ingester request for the valid ids.
    Gateway(Vec<u64>),
    /// Few enough unknowns: fall back to one HTTP lookup per valid id.
    Http(Vec<Option<u64>>),
}

/// Ids parsed leniently: a slot per input, invalid ids becoming `None`.
pub open spec fn parsed_ids(ids: Seq<Seq<char>>) -> Seq<Option<u64>> {
    ids.map(|i: int, s: Seq<char>| snowflake_of(s))
}

/// The valid ids, in order.
pub open spec fn valid_ids(ids: Seq<Option<u64>>) -> Seq<u64>
    decreases ids.len(),
{
    if ids.len() == 0 {
        Seq::empty()
    } else {
        let rest = valid_ids(ids.drop_last());
        match ids.last() {
            Some(n) => rest.push(n),
            None => rest,
        }
    }
}

/// How many valid ids are not in the cached set.
pub open spec fn unknown_count(ids: Seq<Option<u64>>, cached: Seq<u64>) -> int
    decreases ids.len(),
{
    if ids.len() == 0 {
        0
    } else {
        unknown_count(ids.drop_last(), cached) + match ids.last() {
            Some(n) => if cached.contains(n) {
                0int
            } else {
                1int
            },
            None => 0int,
        }
    }
}

/// Plan a member batch fetch. At most 100 ids may be requested; zero ids
/// yield an empty result with no call; when more than two of the requested
/// members are unknown to the state cache, one gateway request fetches the
/// valid ids, otherwise each valid id is fetched over HTTP.
pub fn plan_get_members(user_ids: &Vec<String>, cached_user_ids: &Vec<u64>) -> (r: Result<
    MemberFetchPlan,
    DiscordError,
>)
    ensures
        ({
            let parsed = parsed_ids(user_ids@.map(|i: int, s: String| s@));
            match r {
                Ok(plan) => {
                    &&& user_ids@.len() <= 100
                    &&& (plan is Empty <==> user_ids@.len() == 0)
                    &&& (plan matches MemberFetchPlan::Gateway(ids) ==> {
                        &&& unknown_count(parsed, cached_user_ids@) > 2
                        &&& ids@ =~= valid_ids(parsed)
                    })
                    &&& (plan matches MemberFetchPlan::Http(slots) ==> {
                        &&& user_ids@.len() > 0
                        &&& unknown_count(parsed, cached_user_ids@) <= 2
                        &&& slots@ =~= parsed
                    })
                },
                Err(e) => user_ids@.len() > 100 && e is InvalidArgument,
            }
        }),
{
    if user_ids.len() > 100 {
        return Err(
            DiscordError::InvalidArgument {
                message: String::from_str("too many user ids provided, max 100"),
            },
        );
    }
    if user_ids.len() == 0 {
        return Ok(MemberFetchPlan::Empty);
    }
    let ghost names = user_ids@.map(|i: int, s: String| s@);
    let mut parsed: Vec<Option<u64>> = Vec::new();
    let mut valid: Vec<u64> = Vec::new();
    let mut unknown: u64 = 0;
    let mut i: usize = 0;
    while i < user_ids.len()
        invariant
            names == user_ids@.map(|k: int, s: String| s@),
            i <= user_ids@.len(),
            parsed@ =~= parsed_ids(names.take(i as int)),
            valid@ =~= valid_ids(parsed@),
            unknown == unknown_count(parsed@, cached_user_ids@),
            unknown <= i,
        decreases user_ids@.len() - i,
    {
        proof {
            assert(names.take(i + 1).drop_last() =~= names.take(i as int));
            assert(names.take(i + 1).last() == names[i as int]);
            assert(names[i as int] == user_ids@[i as int]@);
            assert(parsed_ids(names.take(i + 1)).drop_last() =~= parsed_ids(names.take(i as int)));
        }
        let slot = match parse_discord_id(user_ids[i].as_str()) {
            Ok(n) => Some(n),
            Err(_) => None,
        };
        if let Some(n) = slot {
            valid.push(n);
            if !contains_u64(cached_user_ids, n) {
                unknown = unknown + 1;
            }
        }
        parsed.push(slot);
        proof {
            assert(parsed_ids(names.take(i + 1)) =~= parsed_ids(names.take(i as int)).push(
                snowflake_of(names[i as int]),
            ));
            assert(parsed@.drop_last() =~= parsed_ids(names.take(i as int)));
        }
        i = i + 1;
    }
    proof {
        assert(names.take(user_ids@.len() as int) =~= names);
    }
    if unknown > 2 {
        Ok(MemberFetchPlan::Gateway(valid))
    } else {
        Ok(MemberFetchPlan::Http(parsed))
    }
}

fn contains_u64(v: &Vec<u64>, x: u64) -> (r: bool)
    ensures
        r == v@.contains(x),
{
    let mut i: usize = 0;
    while i < v.len()
        invariant
            i <= v@.len(),
            forall|j: int| 0 <= j < i ==> v@[j] != x,
        decreases v@.len() - i,
    {
        if v[i] == x {
            return true;
        }
        i = i + 1;
    }
    false
}

/// Cross-tenant invite guard: deleting an invite by code is allowed only
/// when the fetched invite belongs to the calling tenant.
pub fn check_invite_guild(invite_guild_id: Option<u64>, tenant_guild_id: u64) -> (r: Result<
    (),
    DiscordError,
>)
    ensures
        r is Ok <==> invite_guild_id == Some(tenant_guild_id),
        r is Err ==> (r matches Err(e) && (e matches DiscordError::InvalidArgument { message }
            && message@ == "This invite does not belong to your server."@)),
{
    let ok = match invite_guild_id {
        Some(g) => g == tenant_guild_id,
        None => false,
    };
    if ok {
        Ok(())
    } else {
        Err(
            DiscordError::InvalidArgument {
                message: String::from_str("This invite does not belong to your server."),
            },
        )
    }
}

} // verus!

use chrono::TimeZone;

verus! {

/// A role as the state cache projects it.
#[derive(Clone, Debug, PartialEq, Eq)]
pub struct GuildRole {
    pub id: u64,
    pub permissions: u64,
}

/// A channel as the state cache projects it: kind is the platform's numeric
/// channel type, overwrites are `(target_id, target_is_role, allow, deny)`.
#[derive(Clone, Debug, PartialEq, Eq)]
pub struct ChannelRecord {
    pub id: u64,
    pub kind: u8,
    pub parent_id: Option<u64>,
    pub overwrites: Vec<(u64, bool, u64, u64)>,
}

/// Thread channel kinds resolve permissions through their parent channel.
pub open spec fn is_thread_kind(k: u8) -> bool {
    k == 10 || k == 11 || k == 12
}

/// Guild-level permission bits computed by the outside calculator.
pub uninterp spec fn root_permissions_of(
    guild_id: u64,
    user_id: u64,
    owner_id: u64,
    everyone: u64,
    roles: Seq<(u64, u64)>,
) -> u64;

/// Channel-level permission bits computed by the outside calculator.
pub uninterp spec fn channel_permissions_of(
    guild_id: u64,
    user_id: u64,
    owner_id: u64,
    everyone: u64,
    roles: Seq<(u64, u64)>,
    channel_kind: u8,
    overwrites: Seq<(u64, bool, u64, u64)>,
) -> u64;

/// Relies on `twilight_util::permission_calculator::PermissionCalculator`:
/// `root()` computes the guild-level permissions of a member from the
/// `@everyone` permissions, the member's role permissions and the owner id,
/// as a function of these arguments alone. Zero ids are excluded because
/// `Id::new` rejects them.
#[verifier::external_body]
fn calc_root_permissions(
    guild_id: u64,
    user_id: u64,
    owner_id: u64,
    everyone: u64,
    roles: &Vec<(u64, u64)>,
) -> (r: u64)
    requires
        guild_id != 0,
        user_id != 0,
        owner_id != 0,
        forall|i: int| 0 <= i < roles@.len() ==> (#[trigger] roles@[i]).0 != 0,
    ensures
        r == root_permissions_of(guild_id, user_id, owner_id, everyone, roles@),
{
    let pairs: Vec<_> =
        roles.iter().map(|p| (Id::new(p.0), Permissions::from_bits_retain(p.1))).collect();
    let calc =
        PermissionCalculator::new(Id::new(guild_id), Id::new(user_id), Permissions::from_bits_retain(everyone), &pairs);
    calc.owner_id(Id::new(owner_id)).root().bits()
}

/// Relies on `PermissionCalculator::in_channel` of `twilight_util`: the
/// member's permissions in one channel, from the guild-level inputs plus the
/// channel type and its permission overwrites, as a function of these
/// arguments alone.
#[verifier::external_body]
fn calc_channel_permissions(
    guild_id: u64,
    user_id: u64,
    owner_id: u64,
    everyone: u64,
    roles: &Vec<(u64, u64)>,
    channel_kind: u8,
    overwrites: &Vec<(u64, bool, u64, u64)>,
) -> (r: u64)
    requires
        guild_id != 0,
        user_id != 0,
        owner_id != 0,
        forall|i: int| 0 <= i < roles@.len() ==> (#[trigger] roles@[i]).0 != 0,
        forall|i: int| 0 <= i < overwrites@.len() ==> (#[trigger] overwrites@[i]).0 != 0,
    ensures
        r == channel_permissions_of(
            guild_id,
            user_id,
            owner_id,
            everyone,
            roles@,
            channel_kind,
            overwrites@,
        ),
{
    let pairs: Vec<_> =
        roles.iter().map(|p| (Id::new(p.0), Permissions::from_bits_retain(p.1))).collect();
    let ows: Vec<_> = overwrites.iter().map(|o| PermissionOverwrite {
        id: Id::new(o.0),
        kind: if o.1 { PermissionOverwriteType::Role } else { PermissionOverwriteType::Member },
        allow: Permissions::from_bits_retain(o.2),
        deny: Permissions::from_bits_retain(o.3),
    }).collect();
    let calc =
        PermissionCalculator::new(Id::new(guild_id), Id::new(user_id), Permissions::from_bits_retain(everyone), &pairs);
    calc.owner_id(Id::new(owner_id)).in_channel(ChannelType::from(channel_kind), &ows).bits()
}

/// Permissions of the first role with the given id, scanning in list order.
pub open spec fn find_role_perms(roles: Seq<GuildRole>, id: u64) -> Option<u64>
    decreases roles.len(),
{
    if roles.len() == 0 {
        None
    } else if roles[0].id == id {
        Some(roles[0].permissions)
    } else {
        find_role_perms(roles.drop_first(), id)
    }
}

/// `(role_id, permissions)` pairs for the member's roles that exist in the
/// guild's role list, in member-role order.
pub open spec fn role_perm_pairs(member_roles: Seq<u64>, guild_roles: Seq<GuildRole>) -> Seq<
    (u64, u64),
>
    decreases member_roles.len(),
{
    if member_roles.len() == 0 {
        Seq::empty()
    } else {
        let rest = role_perm_pairs(member_roles.drop_last(), guild_roles);
        match find_role_perms(guild_roles, member_roles.last()) {
            Some(p) => rest.push((member_roles.last(), p)),
            None => rest,
        }
    }
}

/// The `@everyone` permissions: the role whose id equals the guild id, or no
/// permissions when that role is absent.
pub open spec fn everyone_perms(guild_roles: Seq<GuildRole>, guild_id: u64) -> u64 {
    match find_role_perms(guild_roles, guild_id) {
        Some(p) => p,
        None => 0,
    }
}

fn find_role_perms_exec(roles: &Vec<GuildRole>, id: u64) -> (r: Option<u64>)
    ensures
        r == find_role_perms(roles@, id),
{
    let mut i: usize = 0;
    proof {
        assert(roles@.skip(0) =~= roles@);
    }
    while i < roles.len()
        invariant
            i <= roles@.len(),
            find_role_perms(roles@, id) == find_role_perms(roles@.skip(i as int), id),
        decreases roles@.len() - i,
    {
        proof {
            assert(roles@.skip(i as int)[0] == roles@[i as int]);
            assert(roles@.skip(i as int).drop_first() =~= roles@.skip(i + 1));
        }
        if roles[i].id == id {
            return Some(roles[i].permissions);
        }
        i = i + 1;
    }
    proof {
        assert(roles@.skip(roles@.len() as int) =~= Seq::<GuildRole>::empty());
    }
    None
}

/// Resolve the member's role permissions and compute the guild-level
/// permission bits. Zero ids are malformed input caught locally.
pub fn compute_guild_permissions(
    guild_id: u64,
    user_id: u64,
    owner_id: u64,
    member_roles: &Vec<u64>,
    guild_roles: &Vec<GuildRole>,
) -> (r: Result<u64, DiscordError>)
    ensures
        match r {
            Ok(p) => {
                &&& guild_id != 0 && user_id != 0 && owner_id != 0
                &&& p == root_permissions_of(
                    guild_id,
                    user_id,
                    owner_id,
                    everyone_perms(guild_roles@, guild_id),
                    role_perm_pairs(member_roles@, guild_roles@),
                )
            },
            Err(e) => e is InvalidArgument && (guild_id == 0 || user_id == 0 || owner_id == 0
                || exists|i: int| 0 <= i < member_roles@.len() && member_roles@[i] == 0),
        },
{
    if guild_id == 0 || user_id == 0 || owner_id == 0 {
        return Err(DiscordError::InvalidArgument { message: String::from_str("invalid id") });
    }
    let pairs = match build_role_pairs(member_roles, guild_roles) {
        Ok(p) => p,
        Err(e) => {
            return Err(e);
        },
    };
    let everyone = match find_role_perms_exec(guild_roles, guild_id) {
        Some(p) => p,
        None => 0,
    };
    Ok(calc_root_permissions(guild_id, user_id, owner_id, everyone, &pairs))
}

/// The overwrites a channel permission computation reads: the parent's for a
/// thread channel, the channel's own otherwise.
pub open spec fn resolved_overwrites(
    channel: ChannelRecord,
    parent: Option<ChannelRecord>,
) -> Seq<(u64, bool, u64, u64)> {
    if is_thread_kind(channel.kind) && parent is Some {
        parent.unwrap().overwrites@
    } else {
        channel.overwrites@
    }
}

/// The malformed inputs a channel permission computation rejects: a zero
/// guild, user, owner, member-role or overwrite id, or a thread channel
/// without its parent.
pub open spec fn channel_perms_rejected(
    guild_id: u64,
    user_id: u64,
    owner_id: u64,
    member_roles: Seq<u64>,
    channel: ChannelRecord,
    parent: Option<ChannelRecord>,
) -> bool {
    ||| guild_id == 0
    ||| user_id == 0
    ||| owner_id == 0
    ||| (exists|i: int| 0 <= i < member_roles.len() && (#[trigger] member_roles[i]) == 0)
    ||| (is_thread_kind(channel.kind) && parent is None)
    ||| (exists|i: int|
        0 <= i < resolved_overwrites(channel, parent).len() && (#[trigger] resolved_overwrites(
            channel,
            parent,
        )[i]).0 == 0)
}

pub open spec fn opt_channel_view(parent: Option<&ChannelRecord>) -> Option<ChannelRecord> {
    match parent {
        Some(p) => Some(*p),
        None => None,
    }
}

/// Compute the member's permissions in a channel. For thread channels the
/// overwrites and kind of the parent channel are authoritative; a thread
/// without a parent is malformed. Exactly the malformed inputs of
/// `channel_perms_rejected` fail; every other input yields the calculator's
/// permission bits.
pub fn compute_channel_permissions(
    guild_id: u64,
    user_id: u64,
    owner_id: u64,
    member_roles: &Vec<u64>,
    guild_roles: &Vec<GuildRole>,
    channel: &ChannelRecord,
    parent: Option<&ChannelRecord>,
) -> (r: Result<u64, DiscordError>)
    ensures
        match r {
            Ok(p) => {
                &&& !channel_perms_rejected(
                    guild_id,
                    user_id,
                    owner_id,
                    member_roles@,
                    *channel,
                    opt_channel_view(parent),
                )
                &&& (is_thread_kind(channel.kind) ==> parent is Some && p
                    == channel_permissions_of(
                    guild_id,
                    user_id,
                    owner_id,
                    everyone_perms(guild_roles@, guild_id),
                    role_perm_pairs(member_roles@, guild_roles@),
                    parent.unwrap().kind,
                    parent.unwrap().overwrites@,
                ))
                &&& (!is_thread_kind(channel.kind) ==> p == channel_permissions_of(
                    guild_id,
                    user_id,
                    owner_id,
                    everyone_perms(guild_roles@, guild_id),
                    role_perm_pairs(member_roles@, guild_roles@),
                    channel.kind,
                    channel.overwrites@,
                ))
            },
            Err(e) => e is InvalidArgument && channel_perms_rejected(
                guild_id,
                user_id,
                owner_id,
                member_roles@,
                *channel,
                opt_channel_view(parent),
            ),
        },
{
    if guild_id == 0 || user_id == 0 || owner_id == 0 {
        return Err(DiscordError::InvalidArgument { message: String::from_str("invalid id") });
    }
    let pairs = match build_role_pairs(member_roles, guild_roles) {
        Ok(p) => p,
        Err(e) => {
            return Err(e);
        },
    };
    let everyone = match find_role_perms_exec(guild_roles, guild_id) {
        Some(p) => p,
        None => 0,
    };
    let is_thread = channel.kind == 10 || channel.kind == 11 || channel.kind == 12;
    let resolved: &ChannelRecord = if is_thread {
        match parent {
            Some(p) => p,
            None => {
                return Err(
                    DiscordError::InvalidArgument {
                        message: String::from_str("thread has no parent"),
                    },
                );
            },
        }
    } else {
        channel
    };
    proof {
        if is_thread_kind(channel.kind) {
            assert(*resolved == *parent.unwrap());
        } else {
            assert(*resolved == *channel);
        }
    }
    let mut i: usize = 0;
    while i < resolved.overwrites.len()
        invariant
            i <= resolved.overwrites@.len(),
            forall|j: int| 0 <= j < i ==> (#[trigger] resolved.overwrites@[j]).0 != 0,
            is_thread_kind(channel.kind) ==> parent is Some && *resolved == *parent.unwrap(),
            !is_thread_kind(channel.kind) ==> *resolved == *channel,
        decreases resolved.overwrites@.len() - i,
    {
        if resolved.overwrites[i].0 == 0 {
            proof {
                assert(resolved_overwrites(*channel, opt_channel_view(parent))
                    =~= resolved.overwrites@);
                assert(resolved_overwrites(*channel, opt_channel_view(parent))[i as int].0 == 0);
            }
            return Err(
                DiscordError::InvalidArgument {
                    message: String::from_str("invalid overwrite id"),
                },
            );
        }
        i = i + 1;
    }
    proof {
        assert(resolved_overwrites(*channel, opt_channel_view(parent)) =~= resolved.overwrites@);
        assert(!channel_perms_rejected(
            guild_id,
            user_id,
            owner_id,
            member_roles@,
            *channel,
            opt_channel_view(parent),
        ));
    }
    Ok(
        calc_channel_permissions(
            guild_id,
            user_id,
            owner_id,
            everyone,
            &pairs,
            resolved.kind,
            &resolved.overwrites,
        ),
    )
}

/// Build the member's `(role_id, permissions)` pairs, rejecting zero ids.
fn build_role_pairs(member_roles: &Vec<u64>, guild_roles: &Vec<GuildRole>) -> (r: Result<
    Vec<(u64, u64)>,
    DiscordError,
>)
    ensures
        match r {
            Ok(pairs) => {
                &&& pairs@ =~= role_perm_pairs(member_roles@, guild_roles@)
                &&& forall|i: int| 0 <= i < pairs@.len() ==> (#[trigger] pairs@[i]).0 != 0
                &&& forall|i: int|
                    0 <= i < member_roles@.len() ==> (#[trigger] member_roles@[i]) != 0
            },
            Err(e) => e is InvalidArgument && exists|i: int|
                0 <= i < member_roles@.len() && member_roles@[i] == 0,
        },
{
    let mut pairs: Vec<(u64, u64)> = Vec::new();
    let mut i: usize = 0;
    while i < member_roles.len()
        invariant
            i <= member_roles@.len(),
            pairs@ =~= role_perm_pairs(member_roles@.take(i as int), guild_roles@),
            forall|j: int| 0 <= j < pairs@.len() ==> (#[trigger] pairs@[j]).0 != 0,
            forall|j: int| 0 <= j < i ==> (#[trigger] member_roles@[j]) != 0,
        decreases member_roles@.len() - i,
    {
        proof {
            assert(member_roles@.take(i + 1).drop_last() =~= member_roles@.take(i as int));
            assert(member_roles@.take(i + 1).last() == member_roles@[i as int]);
        }
        let rid = member_roles[i];
        if rid == 0 {
            return Err(DiscordError::InvalidArgument { message: String::from_str("invalid id") });
        }
        match find_role_perms_exec(guild_roles, rid) {
            Some(p) => {
                pairs.push((rid, p));
            },
            None => {},
        }
        i = i + 1;
    }
    proof {
        assert(member_roles@.take(member_roles@.len() as int) =~= member_roles@);
    }
    Ok(pairs)
}

/// The RFC 3339 text of a millisecond timestamp, when the timestamp is
/// representable.
pub uninterp spec fn rfc3339_of(ms: i64) -> Option<Seq<char>>;

/// Relies on chrono's `TimeZone::timestamp_millis_opt` on `Utc` and
/// `DateTime::to_rfc3339`: the text is a function of the millisecond
/// timestamp alone, and out-of-range timestamps yield nothing.
#[verifier::external_body]
fn timestamp_millis_to_rfc3339(ms: i64) -> (r: Option<String>)
    ensures
        r is Some <==> rfc3339_of(ms) is Some,
        r is Some ==> r.unwrap()@ == rfc3339_of(ms).unwrap(),
{
    chrono::Utc.timestamp_millis_opt(ms).single().map(|t| t.to_rfc3339())
}

/// Turn an optional archived-thread page cursor into the timestamp text the
/// platform expects; a timestamp outside the representable range is
/// malformed input.
pub fn archived_threads_before(before_ms: Option<i64>) -> (r: Result<Option<String>, DiscordError>)
    ensures
        before_ms is None ==> (r matches Ok(o) && o is None),
        before_ms is Some ==> match rfc3339_of(before_ms.unwrap()) {
            Some(text) => (r matches Ok(o) && o is Some && o.unwrap()@ == text),
            None => (r matches Err(e) && e is InvalidArgument),
        },
{
    match before_ms {
        None => Ok(None),
        Some(ms) => match timestamp_millis_to_rfc3339(ms) {
            Some(text) => Ok(Some(text)),
            None => Err(
                DiscordError::InvalidArgument {
                    message: String::from_str("bad 'before' timestamp"),
                },
            ),
        },
    }
}

/// Which page of message history a request walks. At most one cursor is
/// ever applied; a `before` cursor takes precedence over an `after` cursor.
#[derive(Clone, Copy, Debug, PartialEq, Eq, Structural)]
pub enum MessageCursor {
    /// No cursor: the latest messages.
    Latest,
    Before(u64),
    After(u64),
}

/// The page parameters of a message-history request.
#[derive(Clone, Copy, Debug, PartialEq, Eq, Structural)]
pub struct GetMessagesPlan {
    pub limit: u64,
    pub cursor: MessageCursor,
}

/// The effective page size: the default of 50, or the caller's limit
/// clamped to the platform's 1 to 100.
pub open spec fn clamped_limit(limit: Option<u64>) -> u64 {
    match limit {
        Some(l) => if l < 1 {
            1
        } else if l > 100 {
            100
        } else {
            l
        },
        None => 50,
    }
}

/// Validate and normalize a message-history request: clamp the page size
/// and parse both page cursors, rejecting a malformed one before any request
/// is made. At most one cursor is applied, and `before` takes precedence
/// when both are given.
pub fn plan_get_messages(
    limit: Option<u64>,
    before: &Option<String>,
    after: &Option<String>,
) -> (r: Result<GetMessagesPlan, DiscordError>)
    ensures
        match r {
            Ok(p) => {
                &&& p.limit == clamped_limit(limit)
                &&& (before matches Some(s) ==> (p.cursor matches MessageCursor::Before(b)
                    && snowflake_of(s@) == Some(b)))
                &&& (before is None ==> (after matches Some(s) ==> (p.cursor
                    matches MessageCursor::After(a) && snowflake_of(s@) == Some(a))))
                &&& ((before is None && after is None) ==> p.cursor is Latest)
            },
            Err(e) => {
                &&& e is InvalidArgument
                &&& ((before matches Some(s) && snowflake_of(s@) is None) || (after matches Some(
                    s,
                ) && snowflake_of(s@) is None))
            },
        },
{
    let limit_val = match limit {
        Some(l) => if l < 1 {
            1
        } else if l > 100 {
            100
        } else {
            l
        },
        None => 50,
    };
    let before_id = match before {
        Some(s) => match parse_discord_id(s.as_str()) {
            Ok(n) => Some(n),
            Err(_) => {
                return Err(
                    DiscordError::InvalidArgument {
                        message: String::from_str("invalid 'before' message id"),
                    },
                );
            },
        },
        None => None,
    };
    let after_id = match after {
        Some(s) => match parse_discord_id(s.as_str()) {
            Ok(n) => Some(n),
            Err(_) => {
                return Err(
                    DiscordError::InvalidArgument {
                        message: String::from_str("invalid 'after' message id"),
                    },
                );
            },
        },
        None => None,
    };
    let cursor = match (before_id, after_id) {
        (Some(b), _) => MessageCursor::Before(b),
        (None, Some(a)) => MessageCursor::After(a),
        (None, None) => MessageCursor::Latest,
    };
    Ok(GetMessagesPlan { limit: limit_val, cursor })
}

/// Parse a list of snowflake ids leniently, keeping the valid ones in their
/// given order; used for applied-tag lists and bulk message-id lists.
pub fn parse_id_list(ids: &Vec<String>) -> (r: Vec<u64>)
    ensures
        r@ =~= valid_ids(parsed_ids(ids@.map(|i: int, s: String| s@))),
{
    let ghost names = ids@.map(|i: int, s: String| s@);
    let mut r: Vec<u64> = Vec::new();
    let mut i: usize = 0;
    while i < ids.len()
        invariant
            names == ids@.map(|k: int, s: String| s@),
            i <= ids@.len(),
            r@ =~= valid_ids(parsed_ids(names.take(i as int))),
        decreases ids@.len() - i,
    {
        proof {
            assert(names.take(i + 1).drop_last() =~= names.take(i as int));
            assert(names.take(i + 1).last() == names[i as int]);
            assert(names[i as int] == ids@[i as int]@);
            assert(parsed_ids(names.take(i + 1)).drop_last() =~= parsed_ids(names.take(i as int)));
        }
        match parse_discord_id(ids[i].as_str()) {
            Ok(n) => {
                r.push(n);
            },
            Err(_) => {},
        }
        proof {
            assert(parsed_ids(names.take(i + 1)) =~= parsed_ids(names.take(i as int)).push(
                snowflake_of(names[i as int]),
            ));
        }
        i = i + 1;
    }
    proof {
        assert(names.take(ids@.len() as int) =~= names);
    }
    r
}

} // verus!
