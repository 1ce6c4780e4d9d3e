//! The verification facade: replay guard and token verifier behind one
//! call, and the bearer binding check beside it.

use vstd::prelude::*;
use vstd::string::StringExecFns;

use crate::clock::unix_seconds;
use crate::digest::{digest, digests_apart, sha256_hex};
use crate::preimage::{
    colon_joined, join_with_colons, lemma_joined_fixes_first, lemma_joined_fixes_last,
    lemma_joined_fixes_middle,
};
use crate::replay::{
    is_fresh, lemma_identities_independent, lemma_repeat_is_refused, lemma_reset_clears_history,
    recorded, storage_handler, Ledger, TokenStorage, WINDOW_SECONDS,
};
use crate::token::{is_valid_token, token_is_valid};

verus! {

/// The word and the blank that every bearer credential starts with.
pub open spec fn bearer_prefix() -> Seq<char> {
    "Bearer "@
}

/// The bearer credential that binds an identity and its access token to an
/// identity token of an outside party.
pub open spec fn bearer_credential(
    identity: Seq<char>,
    access_token: Seq<char>,
    external_token: Seq<char>,
) -> Seq<char> {
    bearer_prefix() + sha256_hex(colon_joined(identity, access_token, external_token))
}

/// `presented` is the bearer credential of the three other values.
pub open spec fn bearer_matches(
    identity: Seq<char>,
    access_token: Seq<char>,
    presented: Seq<char>,
    external_token: Seq<char>,
) -> bool {
    presented == bearer_credential(identity, access_token, external_token)
}

/// Checks a presented bearer credential: it is accepted exactly when it is,
/// character for character, the credential of `user_hash`, `access_token`
/// and `firebase_token`.
pub fn verify_bearer(
    user_hash: &str,
    access_token: &str,
    bearer_token: &str,
    firebase_token: &str,
) -> (ok: bool)
    ensures
        ok == bearer_matches(user_hash@, access_token@, bearer_token@, firebase_token@),
{
    let preimage = join_with_colons(user_hash, access_token, firebase_token);
    let hex = digest(preimage.as_str());
    let mut expected = String::from_str("Bearer ");
    expected.append(hex.as_str());
    bearer_token.to_owned() == expected
}

/// The verdict of a verification at second `now`: the token has not been
/// presented by this identity in its current window, and it is valid.
pub open spec fn verify_outcome(
    storage: Map<Seq<char>, Ledger>,
    identity: Seq<char>,
    token: Seq<char>,
    now: nat,
) -> bool {
    is_fresh(storage, identity, token, now) && token_is_valid(identity, token, now)
}

/// `ok` and `after` are verdict and storage of a verification at second
/// `now` that found the storage as `before`.
pub open spec fn verified_at(
    before: Map<Seq<char>, Ledger>,
    after: Map<Seq<char>, Ledger>,
    identity: Seq<char>,
    token: Seq<char>,
    now: nat,
    ok: bool,
) -> bool {
    ok == verify_outcome(before, identity, token, now) && after == recorded(
        before,
        identity,
        token,
        now,
    )
}

/// Verifies `access_token` for `user_hash` at second `time`.
///
/// Replay check and validity check see the same second. The token is
/// recorded as presented whether or not it is valid; a repeat is refused
/// without a digest being computed.
pub fn verify_at(storage: &mut TokenStorage, user_hash: &str, access_token: &str, time: u64) -> (ok:
    bool)
    ensures
        ok == verify_outcome(old(storage)@, user_hash@, access_token@, time as nat),
        final(storage)@ == recorded(old(storage)@, user_hash@, access_token@, time as nat),
{
    if !storage_handler(storage, user_hash, access_token, &time) {
        return false;
    }
    is_valid_token(user_hash, access_token, time)
}

/// Verifies `access_token` for `user_hash` at the current second of the
/// wall clock, read once.
///
/// Verdict and storage are those of [`verify_on`] for what the clock gave:
/// when it cannot be read the token is refused and nothing is recorded,
/// else they are those of [`verify_at`] for the second that was read.
pub fn verify(storage: &mut TokenStorage, user_hash: &str, access_token: &str) -> (ok: bool)
    ensures
        exists|reading: Option<u64>| #[trigger]
            verified_on(old(storage)@, final(storage)@, user_hash@, access_token@, reading, ok),
{
    let reading = unix_seconds();
    let ok = verify_on(storage, user_hash, access_token, reading);
    assert(verified_on(old(storage)@, storage@, user_hash@, access_token@, reading, ok));
    ok
}

/// `ok` and `after` are verdict and storage of a verification that found the
/// storage as `before` and got `reading` from the clock: a refusal that
/// records nothing when there is no reading, else what [`verified_at`] says
/// for the second that was read.
pub open spec fn verified_on(
    before: Map<Seq<char>, Ledger>,
    after: Map<Seq<char>, Ledger>,
    identity: Seq<char>,
    token: Seq<char>,
    reading: Option<u64>,
    ok: bool,
) -> bool {
    match reading {
        Some(time) => verified_at(before, after, identity, token, time as nat, ok),
        None => !ok && after == before,
    }
}

/// Verifies `access_token` for `user_hash` on a reading of the clock.
///
/// Without a reading the token is refused and nothing is recorded: a clock
/// that cannot be read admits nobody. With one, the verification is that of
/// [`verify_at`] for the second that was read.
pub fn verify_on(
    storage: &mut TokenStorage,
    user_hash: &str,
    access_token: &str,
    reading: Option<u64>,
) -> (ok: bool)
    ensures
        verified_on(old(storage)@, final(storage)@, user_hash@, access_token@, reading, ok),
{
    match reading {
        Some(time) => verify_at(storage, user_hash, access_token, time),
        None => false,
    }
}

/// The bearer check accepts the credential that was made from the very values
/// it is checked against.
pub proof fn lemma_bearer_accepts_own_credential(
    identity: Seq<char>,
    access_token: Seq<char>,
    external_token: Seq<char>,
)
    ensures
        bearer_matches(
            identity,
            access_token,
            bearer_credential(identity, access_token, external_token),
            external_token,
        ),
{
}

/// The bearer check refuses every header that differs from the credential,
/// be it in a single character.
pub proof fn lemma_bearer_refuses_altered_header(
    identity: Seq<char>,
    access_token: Seq<char>,
    external_token: Seq<char>,
    presented: Seq<char>,
)
    requires
        presented != bearer_credential(identity, access_token, external_token),
    ensures
        !bearer_matches(identity, access_token, presented, external_token),
{
}

/// A credential is bound to each of the three values it was made from: when
/// one of them is altered, be it in a single character, and the two others
/// are kept, the check refuses the credential, unless the altered preimage
/// collides with the unaltered one under SHA-256.
pub proof fn lemma_bearer_refuses_altered_field(
    identity: Seq<char>,
    access_token: Seq<char>,
    external_token: Seq<char>,
    altered_identity: Seq<char>,
    altered_access_token: Seq<char>,
    altered_external_token: Seq<char>,
)
    requires
        ({
            ||| altered_identity != identity && altered_access_token == access_token
                && altered_external_token == external_token
            ||| altered_identity == identity && altered_access_token != access_token
                && altered_external_token == external_token
            ||| altered_identity == identity && altered_access_token == access_token
                && altered_external_token != external_token
        }),
        digests_apart(
            colon_joined(altered_identity, altered_access_token, altered_external_token),
            colon_joined(identity, access_token, external_token),
        ),
    ensures
        !bearer_matches(
            altered_identity,
            altered_access_token,
            bearer_credential(identity, access_token, external_token),
            altered_external_token,
        ),
{
    let unaltered = colon_joined(identity, access_token, external_token);
    let altered = colon_joined(altered_identity, altered_access_token, altered_external_token);
    if bearer_credential(identity, access_token, external_token) == bearer_credential(
        altered_identity,
        altered_access_token,
        altered_external_token,
    ) {
        let prefix = bearer_prefix();
        assert(sha256_hex(unaltered) =~= (prefix + sha256_hex(unaltered)).subrange(
            prefix.len() as int,
            (prefix + sha256_hex(unaltered)).len() as int,
        ));
        assert(sha256_hex(altered) =~= (prefix + sha256_hex(altered)).subrange(
            prefix.len() as int,
            (prefix + sha256_hex(altered)).len() as int,
        ));
        assert(unaltered == altered);
        if altered_identity != identity {
            lemma_joined_fixes_first(identity, altered_identity, access_token, external_token);
        } else if altered_access_token != access_token {
            lemma_joined_fixes_middle(identity, access_token, altered_access_token, external_token);
        } else {
            lemma_joined_fixes_last(identity, access_token, external_token, altered_external_token);
        }
    }
}

/// Of two verifications with the same identity, token and second, one after
/// the other, the second is refused. So at most one of them is accepted, and
/// exactly one when the first finds the token fresh and valid.
pub proof fn lemma_verify_at_most_once(
    storage: Map<Seq<char>, Ledger>,
    identity: Seq<char>,
    token: Seq<char>,
    now: nat,
)
    ensures
        !verify_outcome(recorded(storage, identity, token, now), identity, token, now),
        is_fresh(storage, identity, token, now) && token_is_valid(identity, token, now)
            ==> verify_outcome(storage, identity, token, now),
{
    lemma_repeat_is_refused(storage, identity, token, now, now);
}

/// A verification that comes after the window has run out is not held up
/// by what the identity presented before, not even by the same token: its
/// verdict is that of the token verifier alone.
pub proof fn lemma_verify_after_reset(
    storage: Map<Seq<char>, Ledger>,
    identity: Seq<char>,
    used: Seq<char>,
    presented: Seq<char>,
    now: nat,
    later: nat,
)
    requires
        storage.contains_key(identity) ==> storage[identity].window_start <= now,
        later > now + WINDOW_SECONDS,
    ensures
        verify_outcome(recorded(storage, identity, used, now), identity, presented, later)
            == token_is_valid(identity, presented, later),
{
    lemma_reset_clears_history(storage, identity, used, presented, now, later);
}

/// What one identity presents has no part in the verdict on another.
pub proof fn lemma_verify_ignores_other_identities(
    storage: Map<Seq<char>, Ledger>,
    one: Seq<char>,
    one_token: Seq<char>,
    one_now: nat,
    other: Seq<char>,
    other_token: Seq<char>,
    other_now: nat,
)
    requires
        one != other,
    ensures
        verify_outcome(
            recorded(storage, one, one_token, one_now),
            other,
            other_token,
            other_now,
        ) == verify_outcome(storage, other, other_token, other_now),
{
    lemma_identities_independent(
        storage,
        one,
        one_token,
        one_now,
        other,
        other_token,
        other_now,
    );
}

} // verus!
