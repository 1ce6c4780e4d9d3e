//! The time-windowed token verifier: a token is the digest of an identity, a
//! second of Unix time and the shared secret, and it is honoured for a short
//! run of seconds after the one it was minted in.

use vstd::prelude::*;

use crate::decimal::{decimal, lemma_decimal_injective, u64_to_decimal};
use crate::digest::{digest, digests_apart, sha256_hex, DIGEST_HEX_LEN};
use crate::preimage::{colon_joined, join_with_colons, lemma_joined_fixes_middle};

verus! {

/// Number of seconds, the current one included, whose tokens are honoured.
pub const LOOKBACK: u64 = 8;

/// Keying material mixed into every token; it never leaves this module.
const SHARED_SECRET: &'static str = "super_secret_code";

/// The characters of the shared secret.
pub closed spec fn shared_secret() -> Seq<char> {
    SHARED_SECRET@
}

/// The text that is digested into the token of `identity` for `second`:
/// identity, second in decimal and secret, joined by colons.
pub open spec fn token_preimage(identity: Seq<char>, second: nat) -> Seq<char> {
    colon_joined(identity, decimal(second), shared_secret())
}

/// The token of `identity` minted in `second`.
pub open spec fn minted_token(identity: Seq<char>, second: nat) -> Seq<char> {
    sha256_hex(token_preimage(identity, second))
}

/// `second` is one of the `LOOKBACK` seconds that end with `now`.
pub open spec fn in_lookback(now: nat, second: nat) -> bool {
    second <= now && now - second < LOOKBACK
}

/// The verdict on a token: the identity is present, and the token is the one
/// minted for it in some second of the lookback window.
pub open spec fn token_is_valid(identity: Seq<char>, token: Seq<char>, now: nat) -> bool {
    &&& identity.len() > 0
    &&& exists|second: nat|
        in_lookback(now, second) && token == #[trigger] minted_token(identity, second)
}

/// Computes the token of `identity` for `second`.
fn mint(identity: &str, second: u64) -> (token: String)
    ensures
        token@ == minted_token(identity@, second as nat),
        token@.len() == DIGEST_HEX_LEN,
{
    let digits = u64_to_decimal(second);
    let preimage = join_with_colons(identity, digits.as_str(), SHARED_SECRET);
    digest(preimage.as_str())
}

/// Decides whether `token` is a token of `identity` that is still honoured at
/// second `now`.
///
/// The verdict depends on the values of the three arguments alone. An empty
/// identity is never valid, nor is an empty token or any other text that has
/// not the length of a digest. Seconds before the epoch are not tried: when
/// `now` is smaller than the lookback, only the seconds `0..=now` count.
pub fn is_valid_token(identity: &str, token: &str, now: u64) -> (valid: bool)
    ensures
        valid == token_is_valid(identity@, token@, now as nat),
        valid ==> token@.len() == DIGEST_HEX_LEN,
{
    if identity.is_empty() {
        return false;
    }
    let presented = token.to_owned();
    let mut offset: u64 = 0;
    while offset < LOOKBACK
        invariant
            offset <= LOOKBACK,
            identity@.len() > 0,
            presented@ == token@,
            forall|second: nat|
                second <= now && now - second < offset ==> token@ != #[trigger] minted_token(
                    identity@,
                    second,
                ),
        decreases LOOKBACK - offset,
    {
        if offset <= now {
            let candidate = mint(identity, now - offset);
            if candidate == presented {
                assert(in_lookback(now as nat, (now - offset) as nat));
                return true;
            }
        }
        offset = offset + 1;
    }
    false
}

/// A token is honoured in the second it was minted in and in the
/// `LOOKBACK - 1` seconds that follow.
pub proof fn lemma_token_honoured_in_window(identity: Seq<char>, minted: nat, now: nat)
    requires
        identity.len() > 0,
        minted <= now < minted + LOOKBACK,
    ensures
        token_is_valid(identity, minted_token(identity, minted), now),
{
    assert(in_lookback(now, minted));
}

/// Two seconds give the same preimage only if they are the same second.
pub proof fn lemma_preimage_fixes_second(identity: Seq<char>, a: nat, b: nat)
    requires
        token_preimage(identity, a) == token_preimage(identity, b),
    ensures
        a == b,
{
    lemma_joined_fixes_middle(identity, decimal(a), decimal(b), shared_secret());
    lemma_decimal_injective(a, b);
}

/// A token is refused before the second it was minted for, and from
/// `LOOKBACK` seconds after it on, unless its preimage collides under
/// SHA-256 with that of a second of the window.
pub proof fn lemma_token_refused_outside_window(identity: Seq<char>, minted: nat, now: nat)
    requires
        now < minted || now >= minted + LOOKBACK,
        forall|second: nat|
            in_lookback(now, second) ==> digests_apart(
                #[trigger] token_preimage(identity, second),
                token_preimage(identity, minted),
            ),
    ensures
        !token_is_valid(identity, minted_token(identity, minted), now),
{
    assert forall|second: nat| in_lookback(now, second) implies minted_token(identity, minted)
        != #[trigger] minted_token(identity, second) by {
        if minted_token(identity, minted) == minted_token(identity, second) {
            assert(digests_apart(
                token_preimage(identity, second),
                token_preimage(identity, minted),
            ));
            lemma_preimage_fixes_second(identity, second, minted);
        }
    }
}

} // verus!
