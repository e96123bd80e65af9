use vstd::prelude::*;
use vstd::string::StringSliceAdditionalSpecFns;

verus! {

/// The single bit that grants every permission.
pub const ADMINISTRATOR: u64 = 8;

/// Overwrite target kind: a role.
pub const OVERWRITE_ROLE: u32 = 0;

/// Overwrite target kind: a single member.
pub const OVERWRITE_MEMBER: u32 = 1;

/// A guild role as the resolver needs it: its id and its permission bits.
pub struct Role {
    pub id: u64,
    pub permissions: u64,
}

/// What the resolver reads of a guild: its owner, the permissions of its
/// default role, and the roles it knows about.
pub struct Guild {
    pub owner_id: u64,
    pub default_permissions: u64,
    pub roles: Vec<Role>,
}

/// A channel permission overwrite: an allow/deny pair for one role or member.
pub struct Overwrite {
    pub id: u64,
    pub overwrite_type: u32,
    pub allow: u64,
    pub deny: u64,
}

/// True when `have` holds every bit of `need`.
pub open spec fn satisfies(have: u64, need: u64) -> bool {
    have & need == need
}

/// The permissions of the first role in `roles` whose id is `id`.
pub open spec fn role_permissions(roles: Seq<Role>, id: u64) -> Option<u64>
    decreases roles.len(),
{
    if roles.len() == 0 {
        None
    } else if roles[0].id == id {
        Some(roles[0].permissions)
    } else {
        role_permissions(roles.drop_first(), id)
    }
}

/// `base` with the permissions of every resolvable role of `held` OR-ed in.
pub open spec fn with_roles(base: u64, known: Seq<Role>, held: Seq<u64>) -> u64
    decreases held.len(),
{
    if held.len() == 0 {
        base
    } else {
        let acc = with_roles(base, known, held.drop_last());
        match role_permissions(known, held.last()) {
            Some(p) => acc | p,
            None => acc,
        }
    }
}

/// Whether an overwrite targets this member, directly or through one of its roles.
pub open spec fn targets(o: Overwrite, member_id: u64, held: Seq<u64>) -> bool {
    (o.overwrite_type == OVERWRITE_MEMBER && o.id == member_id) || (o.overwrite_type
        == OVERWRITE_ROLE && held.contains(o.id))
}

/// `base` after every targeting overwrite of `ows` is applied in list order.
pub open spec fn with_overwrites(base: u64, ows: Seq<Overwrite>, member_id: u64, held: Seq<u64>) -> u64
    decreases ows.len(),
{
    if ows.len() == 0 {
        base
    } else {
        let acc = with_overwrites(base, ows.drop_last(), member_id, held);
        let o = ows.last();
        if targets(o, member_id, held) {
            (acc & !o.deny) | o.allow
        } else {
            acc
        }
    }
}

/// The effective permissions of a member in a guild, optionally in a channel
/// with the given overwrites.
pub open spec fn effective_permissions(
    held: Seq<u64>,
    member_id: u64,
    guild: Guild,
    overwrites: Option<Seq<Overwrite>>,
) -> u64 {
    if member_id == guild.owner_id {
        ADMINISTRATOR
    } else {
        let base = with_roles(guild.default_permissions, guild.roles@, held);
        if base & ADMINISTRATOR == ADMINISTRATOR {
            ADMINISTRATOR
        } else {
            match overwrites {
                Some(ows) => with_overwrites(base, ows, member_id, held),
                None => base,
            }
        }
    }
}

/// The OR of every mask in `masks`.
pub open spec fn union_of(masks: Seq<u64>) -> u64
    decreases masks.len(),
{
    if masks.len() == 0 {
        0
    } else {
        union_of(masks.drop_last()) | masks.last()
    }
}

/// Whether every byte of `b` is an ASCII digit.
pub open spec fn all_digits(b: Seq<u8>) -> bool {
    forall|i: int| 0 <= i < b.len() ==> 48 <= #[trigger] b[i] <= 57
}

/// The number that the ASCII digits `b` write in decimal.
pub open spec fn decimal_value(b: Seq<u8>) -> nat
    decreases b.len(),
{
    if b.len() == 0 {
        0
    } else {
        decimal_value(b.drop_last()) * 10 + (b.last() - 48) as nat
    }
}

proof fn lemma_decimal_value_grows(b: Seq<u8>, i: int)
    requires
        all_digits(b),
        0 <= i <= b.len(),
    ensures
        decimal_value(b.take(i)) <= decimal_value(b),
    decreases b.len() - i,
{
    if i < b.len() {
        lemma_decimal_value_grows(b, i + 1);
        assert(b.take(i + 1).drop_last() =~= b.take(i));
    } else {
        assert(b.take(i) =~= b);
    }
}

/// The digits of a decimal text: the text without one leading `+`, if it has one.
pub open spec fn unsigned_digits(b: Seq<u8>) -> Seq<u8> {
    if b.len() > 0 && b[0] == 43 {
        b.drop_first()
    } else {
        b
    }
}

/// Reads a permission bitmask written in decimal, as roles and overwrites carry
/// it. `None` unless the text is one or more ASCII digits, after an optional
/// leading `+`, whose value fits in 64 bits.
pub fn parse_bitmask(text: &str) -> (r: Option<u64>)
    ensures
        r == ({
            let d = unsigned_digits(text.spec_bytes());
            if d.len() > 0 && all_digits(d) && decimal_value(d) <= u64::MAX {
                Some(decimal_value(d) as u64)
            } else {
                None::<u64>
            }
        }),
{
    let b = text.as_bytes();
    let start: usize = if b.len() > 0 && b[0] == 43 {
        1
    } else {
        0
    };
    let ghost d = unsigned_digits(b@);
    assert(d =~= b@.subrange(start as int, b@.len() as int));
    if b.len() == start {
        return None;
    }
    let mut acc: u64 = 0;
    let mut i: usize = start;
    while i < b.len()
        invariant
            b@ == text.spec_bytes(),
            d == b@.subrange(start as int, b@.len() as int),
            d == unsigned_digits(text.spec_bytes()),
            start <= i <= b@.len(),
            all_digits(d.take(i - start)),
            acc == decimal_value(d.take(i - start)),
        decreases b@.len() - i,
    {
        let ghost k = i - start;
        assert(d.take(k + 1).drop_last() =~= d.take(k));
        assert(d[k] == b@[i as int]);
        let c = b[i];
        if c < 48 || c > 57 {
            assert(!all_digits(d));
            return None;
        }
        let x = (c - 48) as u64;
        if acc > (u64::MAX - x) / 10 {
            proof {
                assert(all_digits(d.take(k + 1)));
                assert(decimal_value(d.take(k + 1)) == acc * 10 + x);
                assert(acc * 10 + x > u64::MAX) by (nonlinear_arith)
                    requires
                        acc > (u64::MAX - x) / 10,
                        x <= 9,
                ;
                if all_digits(d) {
                    lemma_decimal_value_grows(d, k + 1);
                }
            }
            return None;
        }
        proof {
            assert(acc * 10 + x <= u64::MAX) by (nonlinear_arith)
                requires
                    acc <= (u64::MAX - x) / 10,
                    x <= 9,
            ;
        }
        acc = acc * 10 + x;
        i += 1;
    }
    assert(d.take(i - start) =~= d);
    Some(acc)
}

/// Whether a member holding `have` may run a command that needs `need`.
pub fn has_permissions(have: u64, need: u64) -> (r: bool)
    ensures
        r == satisfies(have, need),
{
    have & need == need
}

/// The permission bits a command requires: the union of those it declares.
pub fn required_permissions(declared: &Vec<u64>) -> (r: u64)
    ensures
        r == union_of(declared@),
{
    let mut acc: u64 = 0;
    let mut i: usize = 0;
    while i < declared.len()
        invariant
            i <= declared@.len(),
            acc == union_of(declared@.take(i as int)),
        decreases declared@.len() - i,
    {
        assert(declared@.take(i as int + 1).drop_last() =~= declared@.take(i as int));
        acc = acc | declared[i];
        i += 1;
    }
    assert(declared@.take(i as int) =~= declared@);
    acc
}

/// Looks up the permissions of the first role with id `id`.
pub fn find_role(roles: &Vec<Role>, id: u64) -> (r: Option<u64>)
    ensures
        r == role_permissions(roles@, id),
{
    let mut i: usize = 0;
    assert(roles@.skip(0) =~= roles@);
    while i < roles.len()
        invariant
            i <= roles@.len(),
            role_permissions(roles@, id) == role_permissions(roles@.skip(i as int), id),
        decreases roles@.len() - i,
    {
        assert(roles@.skip(i as int).drop_first() =~= roles@.skip(i as int + 1));
        if roles[i].id == id {
            return Some(roles[i].permissions);
        }
        i += 1;
    }
    assert(roles@.skip(i as int) =~= Seq::<Role>::empty());
    None
}

/// Whether `ids` contains `id`.
pub fn contains_id(ids: &Vec<u64>, id: u64) -> (r: bool)
    ensures
        r == ids@.contains(id),
{
    let mut i: usize = 0;
    while i < ids.len()
        invariant
            i <= ids@.len(),
            forall|j: int| 0 <= j < i ==> ids@[j] != id,
        decreases ids@.len() - i,
    {
        if ids[i] == id {
            return true;
        }
        i += 1;
    }
    false
}

/// Applies the overwrites that target the member, in list order.
pub fn apply_overwrites(base: u64, ows: &Vec<Overwrite>, member_id: u64, held: &Vec<u64>) -> (r: u64)
    ensures
        r == with_overwrites(base, ows@, member_id, held@),
{
    let mut acc = base;
    let mut i: usize = 0;
    while i < ows.len()
        invariant
            i <= ows@.len(),
            acc == with_overwrites(base, ows@.take(i as int), member_id, held@),
        decreases ows@.len() - i,
    {
        assert(ows@.take(i as int + 1).drop_last() =~= ows@.take(i as int));
        let o = &ows[i];
        let hit = (o.overwrite_type == OVERWRITE_MEMBER && o.id == member_id) || (o.overwrite_type
            == OVERWRITE_ROLE && contains_id(held, o.id));
        if hit {
            acc = (acc & !o.deny) | o.allow;
        }
        i += 1;
    }
    assert(ows@.take(i as int) =~= ows@);
    acc
}

/// Resolves the effective permissions of member `member_id`, holding the roles
/// `held`, in `guild`, and in a channel with `overwrites` when one is given.
/// The owner and any member whose roles grant the administrator bit get exactly
/// that bit; roles that the guild does not know are skipped.
pub fn resolve_permissions(
    held: &Vec<u64>,
    member_id: u64,
    guild: &Guild,
    overwrites: Option<&Vec<Overwrite>>,
) -> (r: u64)
    ensures
        r == effective_permissions(
            held@,
            member_id,
            *guild,
            match overwrites {
                Some(v) => Some(v@),
                None => None,
            },
        ),
{
    if member_id == guild.owner_id {
        return ADMINISTRATOR;
    }
    let mut base = guild.default_permissions;
    let mut i: usize = 0;
    while i < held.len()
        invariant
            i <= held@.len(),
            base == with_roles(guild.default_permissions, guild.roles@, held@.take(i as int)),
        decreases held@.len() - i,
    {
        assert(held@.take(i as int + 1).drop_last() =~= held@.take(i as int));
        if let Some(p) = find_role(&guild.roles, held[i]) {
            base = base | p;
        }
        i += 1;
    }
    assert(held@.take(i as int) =~= held@);
    if base & ADMINISTRATOR == ADMINISTRATOR {
        return ADMINISTRATOR;
    }
    match overwrites {
        Some(ows) => apply_overwrites(base, ows, member_id, held),
        None => base,
    }
}

/// The guild owner resolves to the administrator bit whatever roles and
/// overwrites are given.
pub proof fn lemma_owner_is_administrator(
    held: Seq<u64>,
    member_id: u64,
    guild: Guild,
    overwrites: Option<Seq<Overwrite>>,
)
    requires
        member_id == guild.owner_id,
    ensures
        effective_permissions(held, member_id, guild, overwrites) == ADMINISTRATOR,
{
}

/// A member holding one role `role_id` with permissions `p1`, in a guild whose
/// default role grants `p0`, resolves outside any channel to `p0 | p1`, unless
/// that union holds the administrator bit.
pub proof fn lemma_default_and_one_role(member_id: u64, guild: Guild, role_id: u64, p1: u64)
    requires
        member_id != guild.owner_id,
        role_permissions(guild.roles@, role_id) == Some(p1),
        (guild.default_permissions | p1) & ADMINISTRATOR != ADMINISTRATOR,
    ensures
        effective_permissions(seq![role_id], member_id, guild, None) == guild.default_permissions
            | p1,
{
    let held = seq![role_id];
    assert(held.drop_last() =~= Seq::<u64>::empty());
    assert(with_roles(guild.default_permissions, guild.roles@, held.drop_last())
        == guild.default_permissions);
    assert(held.last() == role_id);
    assert(with_roles(guild.default_permissions, guild.roles@, held) == guild.default_permissions
        | p1);
}

/// As above, with one channel overwrite for that role denying `deny` and
/// allowing `allow`: the result is `((p0 | p1) & !deny) | allow`.
pub proof fn lemma_role_overwrite(
    member_id: u64,
    guild: Guild,
    role_id: u64,
    p1: u64,
    deny: u64,
    allow: u64,
)
    requires
        member_id != guild.owner_id,
        role_permissions(guild.roles@, role_id) == Some(p1),
        (guild.default_permissions | p1) & ADMINISTRATOR != ADMINISTRATOR,
    ensures
        effective_permissions(
            seq![role_id],
            member_id,
            guild,
            Some(seq![Overwrite { id: role_id, overwrite_type: OVERWRITE_ROLE, allow, deny }]),
        ) == ((guild.default_permissions | p1) & !deny) | allow,
{
    let o = Overwrite { id: role_id, overwrite_type: OVERWRITE_ROLE, allow, deny };
    let held = seq![role_id];
    let ows = seq![o];
    let base = guild.default_permissions | p1;
    assert(held.drop_last() =~= Seq::<u64>::empty());
    assert(with_roles(guild.default_permissions, guild.roles@, held.drop_last())
        == guild.default_permissions);
    assert(with_roles(guild.default_permissions, guild.roles@, held) == base);
    assert(ows.drop_last() =~= Seq::<Overwrite>::empty());
    assert(with_overwrites(base, ows.drop_last(), member_id, held) == base);
    assert(ows.last() == o);
    assert(held[0] == role_id);
    assert(held.contains(role_id));
    assert(targets(o, member_id, held));
    assert(with_overwrites(base, ows, member_id, held) == (base & !deny) | allow);
}

} // verus!
