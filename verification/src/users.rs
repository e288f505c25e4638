//! Users: registration into a team, local passwords and automatic team
//! assignment.
use crate::model::{opt_str, IdentitySources, User};
use crate::text::{concat, str_eq};
use crate::validation::{byte_len, unit_result_view, user_fields_verdict, validate_user_fields};
use argon2::password_hash::rand_core::OsRng;
use argon2::password_hash::SaltString;
use argon2::{PasswordHasher, PasswordVerifier};
use vstd::prelude::*;

verus! {

/// What argon2 answers when `password` is checked against the stored PHC
/// string `phc`: whether it matches, or the text of the error met while
/// reading the PHC string.
pub uninterp spec fn argon2_verify(password: Seq<char>, phc: Seq<char>) -> Result<bool, Seq<char>>;

/// Hashes `password` with argon2 under a fresh random salt and returns the
/// PHC string, or the error text. As the argon2 documentation shows, a hash
/// made this way verifies the password it was made from. With the default
/// parameters and a generated salt, `Argon2::hash_password` fails only on a
/// password longer than `MAX_PWD_LEN` (`0xFFFFFFFF`) bytes, so a shorter one
/// is always hashed. Nothing else is stated of the salt or of the hash.
#[verifier::external_body]
pub(crate) fn argon2_hash(password: &str) -> (r: Result<String, String>)
    ensures
        match r {
            Ok(phc) => argon2_verify(password@, phc@) == Ok::<bool, Seq<char>>(true),
            Err(_) => true,
        },
        byte_len(password@) <= 0xFFFF_FFFF ==> r is Ok,
{
    let salt = SaltString::generate(&mut OsRng);
    argon2::Argon2::default()
        .hash_password(password.as_bytes(), &salt)
        .map(|h| h.to_string())
        .map_err(|e| e.to_string())
}

/// Parses the PHC string and checks `password` against it with argon2's
/// default parameters. The answer is named `argon2_verify`.
#[verifier::external_body]
pub(crate) fn argon2_check(password: &str, phc: &str) -> (r: Result<bool, String>)
    ensures
        match r {
            Ok(b) => argon2_verify(password@, phc@) == Ok::<bool, Seq<char>>(b),
            Err(e) => argon2_verify(password@, phc@) == Err::<bool, Seq<char>>(e@),
        },
{
    let parsed = argon2::password_hash::PasswordHash::new(phc).map_err(|e| e.to_string())?;
    Ok(argon2::Argon2::default().verify_password(password.as_bytes(), &parsed).is_ok())
}

/// `phc` is a hash of `password` as argon2 made it: checking the password
/// against it succeeds.
pub open spec fn stored_hash_of(password: Seq<char>, phc: Seq<char>) -> bool {
    argon2_verify(password, phc) == Ok::<bool, Seq<char>>(true)
}

/// The PHC string to store for a new local password, or why hashing failed;
/// any password of at most `0xFFFFFFFF` bytes is hashed.
pub fn hash_local_password(password: &str) -> (r: Result<String, String>)
    ensures
        r matches Ok(phc) ==> stored_hash_of(password@, phc@),
        byte_len(password@) <= 0xFFFF_FFFF ==> r is Ok,
        r matches Err(e) ==> "Failed to hash password: "@.is_prefix_of(e@),
{
    match argon2_hash(password) {
        Ok(phc) => Ok(phc),
        Err(e) => Err(concat("Failed to hash password: ", e.as_str())),
    }
}

/// What checking `password` against the stored PHC string `phc` answers:
/// argon2's verdict, or the reason the PHC string could not be read.
pub open spec fn local_password_verdict(password: Seq<char>, phc: Seq<char>) -> Result<bool, Seq<char>> {
    match argon2_verify(password, phc) {
        Ok(b) => Ok(b),
        Err(e) => Err("Failed to parse hashed password: "@ + e),
    }
}

/// Whether `password` matches the stored PHC string; an unreadable PHC
/// string is an error.
pub fn check_local_password(password: &str, phc: &str) -> (r: Result<bool, String>)
    ensures
        match r {
            Ok(b) => local_password_verdict(password@, phc@) == Ok::<bool, Seq<char>>(b),
            Err(e) => local_password_verdict(password@, phc@) == Err::<bool, Seq<char>>(e@),
        },
{
    match argon2_check(password, phc) {
        Ok(b) => Ok(b),
        Err(e) => Err(concat("Failed to parse hashed password: ", e.as_str())),
    }
}

/// A local password that was just set is accepted: whatever PHC string
/// `hash_local_password` stores for `password`, checking `password` against
/// it answers `Ok(true)`.
pub proof fn lemma_password_set_then_verified(password: Seq<char>, phc: Seq<char>)
    requires
        stored_hash_of(password, phc),
    ensures
        local_password_verdict(password, phc) == Ok::<bool, Seq<char>>(true),
{
}

/// `old` extended with each source of `new` that it does not hold yet, in
/// order.
pub open spec fn merge_sources(old: Seq<IdentitySources>, new: Seq<IdentitySources>) -> Seq<IdentitySources>
    decreases new.len(),
{
    if new.len() == 0 {
        old
    } else {
        let merged = merge_sources(old, new.drop_last());
        if merged.contains(new.last()) {
            merged
        } else {
            merged.push(new.last())
        }
    }
}

fn contains_source(v: &Vec<IdentitySources>, s: IdentitySources) -> (r: bool)
    ensures
        r == v@.contains(s),
{
    let n = v.len();
    for i in 0..n
        invariant
            n == v@.len(),
            forall|j: int| 0 <= j < i ==> v@[j] != s,
    {
        if v[i] == s {
            return true;
        }
    }
    false
}

/// The same user, field by field.
pub open spec fn same_user(a: User, b: User) -> bool {
    &&& a.username@ == b.username@
    &&& a.email@ == b.email@
    &&& opt_str(a.team_name) == opt_str(b.team_name)
    &&& a.is_admin == b.is_admin
    &&& a.identity_sources@ == b.identity_sources@
}

/// A copy of the user.
pub fn copy_user(u: &User) -> (r: User)
    ensures
        same_user(r, *u),
{
    User {
        username: u.username.clone(),
        email: u.email.clone(),
        team_name: match &u.team_name {
            Some(t) => Some(t.clone()),
            None => None,
        },
        is_admin: u.is_admin,
        identity_sources: u.identity_sources.clone(),
    }
}

/// The user record written on registration. A user seen before keeps its
/// username and admin flag, gains the new identity sources, and takes the
/// new e-mail address and team; a new user is stored as given. An explicit
/// team overrides the team either way.
pub open spec fn registered_user(existing: Option<User>, user: User, team: Option<Seq<char>>, r: User) -> bool {
    let team_after = match team {
        Some(t) => Some(t),
        None => opt_str(user.team_name),
    };
    match existing {
        Some(e) => {
            &&& r.username@ == e.username@
            &&& r.email@ == user.email@
            &&& opt_str(r.team_name) == team_after
            &&& r.is_admin == e.is_admin
            &&& r.identity_sources@ == merge_sources(e.identity_sources@, user.identity_sources@)
        },
        None => {
            &&& r.username@ == user.username@
            &&& r.email@ == user.email@
            &&& opt_str(r.team_name) == team_after
            &&& r.is_admin == user.is_admin
            &&& r.identity_sources@ == user.identity_sources@
        },
    }
}

/// Builds the record stored when `user` registers, given the record already
/// stored under its username, if any.
pub fn merge_registration(existing: Option<User>, user: &User, team_name: Option<&str>) -> (r: User)
    ensures
        registered_user(existing, *user, match team_name {
            Some(t) => Some(t@),
            None => None,
        }, r),
{
    let mut updated = match existing {
        Some(mut e) => {
            let n = user.identity_sources.len();
            let ghost start = e.identity_sources@;
            let ghost e0 = e;
            for i in 0..n
                invariant
                    n == user.identity_sources@.len(),
                    e.identity_sources@ == merge_sources(start, user.identity_sources@.take(i as int)),
                    e.username == e0.username,
                    e.is_admin == e0.is_admin,
            {
                let s = user.identity_sources[i];
                assert(user.identity_sources@.take(i + 1).drop_last() =~= user.identity_sources@.take(i as int));
                if !contains_source(&e.identity_sources, s) {
                    e.identity_sources.push(s);
                }
            }
            assert(user.identity_sources@.take(n as int) =~= user.identity_sources@);
            e.email = user.email.clone();
            e.team_name = match &user.team_name {
                Some(t) => Some(t.clone()),
                None => None,
            };
            e
        },
        None => copy_user(user),
    };
    if let Some(t) = team_name {
        updated.team_name = Some(t.to_owned());
    }
    updated
}

/// The checks made before a registration: the user's fields must be valid.
pub fn check_registration(user: &User) -> (r: Result<(), String>)
    ensures
        match user_fields_verdict(user.username@, user.email@) {
            Ok(()) => r is Ok,
            Err(e) => r is Err && r->Err_0@ == "Invalid user fields: "@ + e,
        },
{
    match validate_user_fields(user) {
        Ok(()) => Ok(()),
        Err(e) => Err(concat("Invalid user fields: ", e.as_str())),
    }
}

/// The user with local password login added to its sources, or `None` when
/// it already has it (nothing to write then).
pub fn with_local_password_source(user: &User) -> (r: Option<User>)
    ensures
        user.identity_sources@.contains(IdentitySources::LocalUserPassword) ==> r is None,
        !user.identity_sources@.contains(IdentitySources::LocalUserPassword) ==> r is Some && ({
            let u = r->0;
            &&& u.username@ == user.username@
            &&& u.email@ == user.email@
            &&& opt_str(u.team_name) == opt_str(user.team_name)
            &&& u.is_admin == user.is_admin
            &&& u.identity_sources@ == user.identity_sources@.push(IdentitySources::LocalUserPassword)
        }),
{
    if contains_source(&user.identity_sources, IdentitySources::LocalUserPassword) {
        None
    } else {
        let mut u = copy_user(user);
        u.identity_sources.push(IdentitySources::LocalUserPassword);
        Some(u)
    }
}

/// Number of users on the team.
pub open spec fn member_count(users: Seq<User>, team: Seq<char>) -> nat
    decreases users.len(),
{
    if users.len() == 0 {
        0
    } else {
        member_count(users.drop_last(), team) + (if opt_str(users.last().team_name) == Some(team) {
            1nat
        } else {
            0nat
        })
    }
}

/// Some user is on the team.
pub open spec fn has_member(users: Seq<User>, team: Seq<char>) -> bool {
    exists|i: int| 0 <= i < users.len() && opt_str(#[trigger] users[i].team_name) == Some(team)
}

proof fn lemma_member_count_positive(users: Seq<User>, i: int)
    requires
        0 <= i < users.len(),
        users[i].team_name is Some,
    ensures
        member_count(users, users[i].team_name->0@) >= 1,
    decreases users.len(),
{
    if i < users.len() - 1 {
        assert(users.drop_last()[i] == users[i]);
        lemma_member_count_positive(users.drop_last(), i);
    }
}

/// The team with the fewest members among the teams users are on, or
/// `None` when no user is on a team. Which of several such teams is chosen
/// is left open.
pub fn team_with_least_members(users: &Vec<User>) -> (r: Option<String>)
    ensures
        r is None <==> (forall|i: int| 0 <= i < users@.len() ==> (#[trigger] users@[i].team_name) is None),
        r matches Some(t) ==> has_member(users@, t@),
        r matches Some(t) ==> forall|i: int| 0 <= i < users@.len() && (#[trigger] users@[i].team_name) is Some
            ==> member_count(users@, t@) <= member_count(users@, users@[i].team_name->0@),
{
    // (team, count) for each team met so far, in order of first appearance
    let mut counts: Vec<(String, usize)> = Vec::new();
    let n = users.len();
    for i in 0..n
        invariant
            n == users@.len(),
            counts@.len() <= i,
            forall|k: int| 0 <= k < counts@.len() ==> has_member(users@.take(i as int), #[trigger] counts@[k].0@),
            forall|k: int| 0 <= k < counts@.len() ==> #[trigger] counts@[k].1 as nat == member_count(users@.take(i as int), counts@[k].0@),
            forall|j: int| 0 <= j < i && (#[trigger] users@[j].team_name) is Some ==> exists|k: int|
                0 <= k < counts@.len() && counts@[k].0@ == users@[j].team_name->0@,
            forall|k: int| 0 <= k < counts@.len() ==> counts@[k].1 <= i,
            forall|k1: int, k2: int| 0 <= k1 < k2 < counts@.len() ==> counts@[k1].0@ != counts@[k2].0@,
    {
        let ghost prev = users@.take(i as int);
        let ghost next = users@.take(i + 1);
        assert(next.drop_last() =~= prev);
        assert(next.last() == users@[i as int]);
        match &users[i].team_name {
            None => {
                assert forall|k: int| 0 <= k < counts@.len() implies has_member(next, #[trigger] counts@[k].0@) by {
                    let w = choose|j: int| 0 <= j < prev.len() && opt_str(#[trigger] prev[j].team_name) == Some(counts@[k].0@);
                    assert(next[w] == prev[w]);
                }
                assert forall|j: int| 0 <= j < i + 1 && (#[trigger] users@[j].team_name) is Some implies exists|k: int|
                    0 <= k < counts@.len() && counts@[k].0@ == users@[j].team_name->0@ by {
                }
            },
            Some(team) => {
                let mut found = false;
                let m = counts.len();
                let ghost old_counts = counts@;
                let mut k: usize = 0;
                while k < m
                    invariant
                        m == counts@.len(),
                        m == old_counts.len(),
                        k <= m,
                        !found ==> counts@ == old_counts,
                        !found ==> forall|q: int| 0 <= q < k ==> counts@[q].0@ != team@,
                        found ==> exists|q: int| 0 <= q < m && old_counts[q].0@ == team@ && counts@ == old_counts.update(q, (old_counts[q].0, (old_counts[q].1 + 1) as usize)),
                        forall|k1: int, k2: int| 0 <= k1 < k2 < old_counts.len() ==> old_counts[k1].0@ != old_counts[k2].0@,
                        forall|q: int| 0 <= q < m ==> old_counts[q].1 <= i,
                        i < n,
                    decreases m - k,
                {
                    if !found && str_eq(counts[k].0.as_str(), team.as_str()) {
                        let c = counts[k].1;
                        let name = counts[k].0.clone();
                        counts.set(k, (name, c + 1));
                        found = true;
                        assert(counts@ =~= old_counts.update(k as int, (old_counts[k as int].0, (old_counts[k as int].1 + 1) as usize)));
                    }
                    k = k + 1;
                }
                if !found {
                    counts.push((team.clone(), 1));
                }
                let ghost q1: int = if found {
                    choose|q: int| 0 <= q < m && old_counts[q].0@ == team@ && counts@ == old_counts.update(q, (old_counts[q].0, (old_counts[q].1 + 1) as usize))
                } else {
                    old_counts.len() as int
                };
                assert(!found ==> forall|q: int| 0 <= q < old_counts.len() ==> old_counts[q].0@ != team@);
                assert forall|q: int| 0 <= q < counts@.len() implies #[trigger] counts@[q].1 as nat == member_count(next, counts@[q].0@) by {
                    assert(member_count(next, counts@[q].0@) == member_count(prev, counts@[q].0@) + (if opt_str(next.last().team_name) == Some(counts@[q].0@) { 1nat } else { 0nat }));
                    if q == q1 {
                        assert(counts@[q].0@ == team@);
                        if q1 >= old_counts.len() {
                            lemma_not_member_zero(prev, team@, old_counts);
                        }
                    } else {
                        assert(counts@[q] == old_counts[q]);
                        assert(counts@[q].0@ != team@);
                    }
                }
                assert forall|k1: int, k2: int| 0 <= k1 < k2 < counts@.len() implies counts@[k1].0@ != counts@[k2].0@ by {
                    if k2 < old_counts.len() {
                        assert(counts@[k1].0@ == old_counts[k1].0@);
                        assert(counts@[k2].0@ == old_counts[k2].0@);
                    } else {
                        assert(counts@[k1].0@ == old_counts[k1].0@);
                    }
                }
                assert forall|q: int| 0 <= q < counts@.len() implies has_member(next, #[trigger] counts@[q].0@) by {
                    if q < old_counts.len() && counts@[q].0@ != team@ {
                        let w = choose|j: int| 0 <= j < prev.len() && opt_str(#[trigger] prev[j].team_name) == Some(counts@[q].0@);
                        assert(next[w] == prev[w]);
                    } else if q < old_counts.len() {
                        assert(opt_str(next[i as int].team_name) == Some(counts@[q].0@));
                    } else {
                        assert(opt_str(next[i as int].team_name) == Some(counts@[q].0@));
                    }
                }
                assert forall|j: int| 0 <= j < i + 1 && (#[trigger] users@[j].team_name) is Some implies exists|q: int|
                    0 <= q < counts@.len() && counts@[q].0@ == users@[j].team_name->0@ by {
                    if j < i {
                        let q0 = choose|q: int| 0 <= q < old_counts.len() && old_counts[q].0@ == users@[j].team_name->0@;
                        assert(counts@[q0].0@ == old_counts[q0].0@);
                    } else {
                        if found {
                            let q1 = choose|q: int| 0 <= q < m && old_counts[q].0@ == team@ && counts@ == old_counts.update(q, (old_counts[q].0, (old_counts[q].1 + 1) as usize));
                            assert(counts@[q1].0@ == team@);
                        } else {
                            assert(counts@[counts@.len() - 1].0@ == team@);
                        }
                    }
                }
            },
        }
    }
    assert(users@.take(n as int) =~= users@);
    if counts.len() == 0 {
        assert forall|i: int| 0 <= i < users@.len() implies (#[trigger] users@[i].team_name) is None by {
            if users@[i].team_name is Some {
                assert(exists|k: int| 0 <= k < counts@.len() && counts@[k].0@ == users@[i].team_name->0@);
            }
        }
        return None;
    }
    let mut best: usize = 0;
    for k in 1..counts.len()
        invariant
            best < counts@.len(),
            forall|q: int| 0 <= q < k && q < counts@.len() ==> counts@[best as int].1 <= #[trigger] counts@[q].1,
    {
        if counts[k].1 < counts[best].1 {
            best = k;
        }
    }
    let winner = counts[best].0.clone();
    assert(has_member(users@, counts@[best as int].0@));
    assert forall|i: int| 0 <= i < users@.len() && (#[trigger] users@[i].team_name) is Some implies member_count(
        users@,
        winner@,
    ) <= member_count(users@, users@[i].team_name->0@) by {
        let q = choose|k: int| 0 <= k < counts@.len() && counts@[k].0@ == users@[i].team_name->0@;
        assert(counts@[best as int].1 <= counts@[q].1);
    }
    assert(exists|i: int| 0 <= i < users@.len() && (#[trigger] users@[i].team_name) is Some) by {
        let w = choose|j: int| 0 <= j < users@.len() && opt_str(#[trigger] users@[j].team_name) == Some(counts@[0].0@);
    }
    Some(winner)
}

proof fn lemma_not_member_zero(users: Seq<User>, team: Seq<char>, counts: Seq<(String, usize)>)
    requires
        forall|j: int| 0 <= j < users.len() && (#[trigger] users[j].team_name) is Some ==> exists|k: int|
            0 <= k < counts.len() && counts[k].0@ == users[j].team_name->0@,
        forall|q: int| 0 <= q < counts.len() ==> counts[q].0@ != team,
    ensures
        member_count(users, team) == 0,
    decreases users.len(),
{
    if users.len() > 0 {
        let p = users.drop_last();
        assert forall|j: int| 0 <= j < p.len() && (#[trigger] p[j].team_name) is Some implies exists|k: int|
            0 <= k < counts.len() && counts[k].0@ == p[j].team_name->0@ by {
            assert(p[j] == users[j]);
            assert(users[j].team_name is Some);
        }
        lemma_not_member_zero(p, team, counts);
        if users.last().team_name is Some {
            let j = users.len() - 1;
            assert(users[j].team_name is Some);
        }
    }
}


proof fn lemma_merge_sources_props(old: Seq<IdentitySources>, new: Seq<IdentitySources>)
    ensures
        old.len() <= merge_sources(old, new).len(),
        forall|i: int| 0 <= i < old.len() ==> merge_sources(old, new)[i] == old[i],
        forall|x: IdentitySources| merge_sources(old, new).contains(x) <==> (old.contains(x) || new.contains(x)),
        (forall|a: int, b: int| 0 <= a < b < old.len() ==> old[a] != old[b]) ==> forall|a: int, b: int|
            0 <= a < b < merge_sources(old, new).len() ==> merge_sources(old, new)[a] != merge_sources(old, new)[b],
    decreases new.len(),
{
    if new.len() > 0 {
        let rest = new.drop_last();
        lemma_merge_sources_props(old, rest);
        let merged = merge_sources(old, rest);
        assert forall|x: IdentitySources| new.contains(x) <==> (rest.contains(x) || x == new.last()) by {
            if new.contains(x) {
                let k = choose|k: int| 0 <= k < new.len() && new[k] == x;
                if k < new.len() - 1 {
                    assert(rest[k] == x);
                }
            }
            if rest.contains(x) {
                let k = choose|k: int| 0 <= k < rest.len() && rest[k] == x;
                assert(new[k] == x);
            }
            if x == new.last() {
                assert(new[new.len() - 1] == x);
            }
        }
        if !merged.contains(new.last()) {
            let pushed = merged.push(new.last());
            assert forall|x: IdentitySources| pushed.contains(x) <==> (merged.contains(x) || x == new.last()) by {
                if pushed.contains(x) {
                    let k = choose|k: int| 0 <= k < pushed.len() && pushed[k] == x;
                    if k < merged.len() {
                        assert(merged[k] == x);
                    }
                }
                if merged.contains(x) {
                    let k = choose|k: int| 0 <= k < merged.len() && merged[k] == x;
                    assert(pushed[k] == x);
                }
                if x == new.last() {
                    assert(pushed[merged.len() as int] == x);
                }
            }
        }
    }
}

/// An explicitly given team is the team of the stored record, whether the
/// user was known before or not.
pub proof fn lemma_explicit_team_is_stored(existing: Option<User>, user: User, team: Seq<char>, r: User)
    requires
        registered_user(existing, user, Some(team), r),
    ensures
        opt_str(r.team_name) == Some(team),
{
}

/// Without an explicit team, the stored record has the team of the
/// registration, whether the user was known before or not.
pub proof fn lemma_team_follows_registration(existing: Option<User>, user: User, r: User)
    requires
        registered_user(existing, user, None, r),
    ensures
        opt_str(r.team_name) == opt_str(user.team_name),
{
}

/// A known user keeps its username and admin flag and takes the new e-mail
/// address; its identity sources are the old ones, in their order, followed
/// by new ones: a source is in the record exactly when it was known before
/// or comes with the registration, and a list without repeats stays so.
pub proof fn lemma_known_user_merged(e: User, user: User, team: Option<Seq<char>>, r: User)
    requires
        registered_user(Some(e), user, team, r),
    ensures
        r.username@ == e.username@,
        r.is_admin == e.is_admin,
        r.email@ == user.email@,
        e.identity_sources@.len() <= r.identity_sources@.len(),
        forall|i: int| 0 <= i < e.identity_sources@.len() ==> r.identity_sources@[i] == e.identity_sources@[i],
        forall|x: IdentitySources|
            r.identity_sources@.contains(x) <==> (e.identity_sources@.contains(x) || user.identity_sources@.contains(x)),
        (forall|a: int, b: int| 0 <= a < b < e.identity_sources@.len() ==> e.identity_sources@[a] != e.identity_sources@[b])
            ==> forall|a: int, b: int|
            0 <= a < b < r.identity_sources@.len() ==> r.identity_sources@[a] != r.identity_sources@[b],
{
    lemma_merge_sources_props(e.identity_sources@, user.identity_sources@);
}

/// A new user is stored as registered, apart from an explicit team.
pub proof fn lemma_new_user_stored(user: User, team: Option<Seq<char>>, r: User)
    requires
        registered_user(None, user, team, r),
    ensures
        r.username@ == user.username@,
        r.email@ == user.email@,
        r.is_admin == user.is_admin,
        r.identity_sources@ == user.identity_sources@,
{
}

} // verus!
