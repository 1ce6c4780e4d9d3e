//! The replay guard: for every identity a ledger of the tokens it has
//! presented in the current window, so that no token is taken twice.

use vstd::hash_map::StringHashMap;
use vstd::prelude::*;

verus! {

/// Seconds after its start at which a window is still open. The first
/// request later than that starts a new window.
pub const WINDOW_SECONDS: u64 = 8;

/// What the guard remembers of one identity: the second in which the current
/// window began, and the tokens presented since, oldest first.
pub struct Ledger {
    pub window_start: nat,
    pub tokens: Seq<Seq<char>>,
}

/// The window of `ledger` has run out by second `now`.
pub open spec fn window_elapsed(ledger: Ledger, now: nat) -> bool {
    now > ledger.window_start + WINDOW_SECONDS
}

/// The ledger as a request at second `now` finds it: wiped and restarted at
/// `now` when its window has run out, untouched otherwise.
pub open spec fn ledger_at(ledger: Ledger, now: nat) -> Ledger {
    if window_elapsed(ledger, now) {
        Ledger { window_start: now, tokens: Seq::empty() }
    } else {
        ledger
    }
}

/// `token` has not been presented by `identity` in the window that is
/// current at second `now`.
pub open spec fn is_fresh(
    storage: Map<Seq<char>, Ledger>,
    identity: Seq<char>,
    token: Seq<char>,
    now: nat,
) -> bool {
    storage.contains_key(identity) ==> !ledger_at(storage[identity], now).tokens.contains(token)
}

/// The ledger of `identity` once `token` has been recorded at second `now`:
/// a new ledger that starts at `now` for an identity seen for the first
/// time, else the ledger found at `now` with the token appended.
pub open spec fn ledger_with(
    storage: Map<Seq<char>, Ledger>,
    identity: Seq<char>,
    token: Seq<char>,
    now: nat,
) -> Ledger {
    if storage.contains_key(identity) {
        let found = ledger_at(storage[identity], now);
        Ledger { window_start: found.window_start, tokens: found.tokens.push(token) }
    } else {
        Ledger { window_start: now, tokens: seq![token] }
    }
}

/// The storage after a request of `identity` with `token` at second `now`:
/// a fresh token is recorded, a repeated one changes nothing.
pub open spec fn recorded(
    storage: Map<Seq<char>, Ledger>,
    identity: Seq<char>,
    token: Seq<char>,
    now: nat,
) -> Map<Seq<char>, Ledger> {
    if is_fresh(storage, identity, token, now) {
        storage.insert(identity, ledger_with(storage, identity, token, now))
    } else {
        storage
    }
}

/// No ledger holds a token twice.
pub open spec fn ledgers_distinct(storage: Map<Seq<char>, Ledger>) -> bool {
    forall|identity: Seq<char>|
        storage.contains_key(identity) ==> (#[trigger] storage[identity]).tokens.no_duplicates()
}

/// The ledger of one identity as it is kept in memory.
struct TokenLedger {
    window_start: u64,
    tokens: Vec<String>,
}

impl View for TokenLedger {
    type V = Ledger;

    closed spec fn view(&self) -> Ledger {
        Ledger {
            window_start: self.window_start as nat,
            tokens: self.tokens@.map_values(|t: String| t@),
        }
    }
}

impl TokenLedger {
    /// No token is kept twice.
    #[verifier::type_invariant]
    spec fn distinct(&self) -> bool {
        self@.tokens.no_duplicates()
    }

    /// The ledger of an identity seen for the first time at second `now`.
    fn open(token: &str, now: u64) -> (ledger: TokenLedger)
        ensures
            ledger@ == (Ledger { window_start: now as nat, tokens: seq![token@] }),
    {
        let mut tokens: Vec<String> = Vec::new();
        tokens.push(token.to_owned());
        let ledger = TokenLedger { window_start: now, tokens };
        assert(ledger@.tokens =~= seq![token@]);
        ledger
    }

    /// Whether the window has run out by second `now`.
    fn elapsed(&self, now: u64) -> (over: bool)
        ensures
            over == window_elapsed(self@, now as nat),
    {
        now > self.window_start && now - self.window_start > WINDOW_SECONDS
    }

    /// Whether `token` is among the recorded tokens.
    fn holds(&self, token: &String) -> (found: bool)
        ensures
            found == self@.tokens.contains(token@),
    {
        let mut i: usize = 0;
        while i < self.tokens.len()
            invariant
                i <= self.tokens.len(),
                forall|k: int| 0 <= k < i ==> self.tokens[k]@ != token@,
            decreases self.tokens.len() - i,
        {
            if self.tokens[i] == *token {
                assert(self@.tokens[i as int] == token@);
                return true;
            }
            i = i + 1;
        }
        false
    }

    /// The ledger with `token` appended; the window is not touched.
    fn appended(&self, token: String) -> (ledger: TokenLedger)
        requires
            !self@.tokens.contains(token@),
        ensures
            ledger@ == (Ledger {
                window_start: self@.window_start,
                tokens: self@.tokens.push(token@),
            }),
    {
        proof {
            use_type_invariant(self);
        }
        let mut tokens: Vec<String> = Vec::new();
        let mut i: usize = 0;
        while i < self.tokens.len()
            invariant
                i <= self.tokens.len(),
                tokens.len() == i,
                forall|k: int| 0 <= k < i ==> tokens[k]@ == self.tokens[k]@,
            decreases self.tokens.len() - i,
        {
            tokens.push(self.tokens[i].clone());
            i = i + 1;
        }
        let ghost kept = self@.tokens;
        let ghost added = token@;
        tokens.push(token);
        proof {
            let all = tokens@.map_values(|t: String| t@);
            assert(all =~= kept.push(added));
            assert forall|i: int, j: int|
                0 <= i < all.len() && 0 <= j < all.len() && i != j implies all[i] != all[j] by {
                if i < kept.len() && j < kept.len() {
                    assert(kept[i] != kept[j]);
                } else if i < kept.len() {
                    assert(kept.contains(kept[i]));
                } else {
                    assert(kept.contains(kept[j]));
                }
            }
        }
        TokenLedger { window_start: self.window_start, tokens }
    }

    /// The ledger that follows a request with `token` at second `now`, or
    /// `None` when the token is a repeat and the ledger stays as it is.
    fn marked(&self, token: &str, now: u64) -> (next: Option<TokenLedger>)
        ensures
            next is Some <==> !ledger_at(self@, now as nat).tokens.contains(token@),
            next matches Some(ledger) ==> ledger@ == (Ledger {
                window_start: ledger_at(self@, now as nat).window_start,
                tokens: ledger_at(self@, now as nat).tokens.push(token@),
            }),
    {
        if self.elapsed(now) {
            let ledger = TokenLedger::open(token, now);
            assert(Seq::<Seq<char>>::empty().push(token@) =~= seq![token@]);
            Some(ledger)
        } else {
            let presented = token.to_owned();
            if self.holds(&presented) {
                None
            } else {
                Some(self.appended(presented))
            }
        }
    }
}

/// The ledgers of all identities seen so far.
///
/// A request takes the storage by exclusive reference, so what it looks up
/// and what it records cannot be parted by another request: of two requests
/// that arrive together, one finds what the other has recorded. Whoever
/// shares a storage between threads keeps it behind one lock.
pub struct TokenStorage {
    ledgers: StringHashMap<TokenLedger>,
}

impl View for TokenStorage {
    type V = Map<Seq<char>, Ledger>;

    closed spec fn view(&self) -> Map<Seq<char>, Ledger> {
        self.ledgers@.map_values(|ledger: TokenLedger| ledger@)
    }
}

impl TokenStorage {
    /// Every ledger that is kept has its tokens distinct.
    #[verifier::type_invariant]
    spec fn well_formed(&self) -> bool {
        ledgers_distinct(self@)
    }

    /// A storage that has seen no identity yet.
    pub fn new() -> (storage: TokenStorage)
        ensures
            storage@ == Map::<Seq<char>, Ledger>::empty(),
    {
        let ledgers = StringHashMap::new();
        assert(ledgers@.map_values(|ledger: TokenLedger| ledger@) =~= Map::<
            Seq<char>,
            Ledger,
        >::empty());
        TokenStorage { ledgers }
    }

    /// The second in which the current window of `identity` began; `None`
    /// for an identity that has no ledger.
    pub fn window_start(&self, identity: &str) -> (start: Option<u64>)
        ensures
            start is Some <==> self@.contains_key(identity@),
            start matches Some(second) ==> self@[identity@].window_start == second,
    {
        match self.ledgers.get(identity) {
            Some(ledger) => Some(ledger.window_start),
            None => None,
        }
    }

    /// Whether `token` is on the ledger of `identity`.
    pub fn has_recorded(&self, identity: &str, token: &str) -> (on_ledger: bool)
        ensures
            on_ledger == (self@.contains_key(identity@) && self@[identity@].tokens.contains(
                token@,
            )),
    {
        match self.ledgers.get(identity) {
            Some(ledger) => {
                let presented = token.to_owned();
                ledger.holds(&presented)
            },
            None => false,
        }
    }

    /// Number of tokens on the ledger of `identity`; zero for an identity
    /// that has no ledger.
    pub fn recorded_count(&self, identity: &str) -> (count: usize)
        ensures
            self@.contains_key(identity@) ==> count == self@[identity@].tokens.len(),
            !self@.contains_key(identity@) ==> count == 0,
    {
        match self.ledgers.get(identity) {
            Some(ledger) => ledger.tokens.len(),
            None => 0,
        }
    }
}

/// Records that `user_hash` presents `access_token` at second `time`, and
/// tells whether the token is taken: `true` for a token that the identity has
/// not presented in its current window, `false` for a repeat.
///
/// An identity seen for the first time gets a ledger whose window starts at
/// `time`. A ledger whose window has run out is wiped and restarted at `time`
/// before the token is looked up. A taken token is appended to the ledger; a
/// repeat leaves the storage as it was.
pub fn storage_handler(
    storage: &mut TokenStorage,
    user_hash: &str,
    access_token: &str,
    time: &u64,
) -> (fresh: bool)
    ensures
        fresh == is_fresh(old(storage)@, user_hash@, access_token@, *time as nat),
        final(storage)@ == recorded(old(storage)@, user_hash@, access_token@, *time as nat),
        ledgers_distinct(final(storage)@),
{
    proof {
        use_type_invariant(&*storage);
    }
    let next = match storage.ledgers.get(user_hash) {
        None => Some(TokenLedger::open(access_token, *time)),
        Some(ledger) => ledger.marked(access_token, *time),
    };
    match next {
        Some(ledger) => {
            proof {
                use_type_invariant(&ledger);
            }
            let mut ledgers = StringHashMap::new();
            std::mem::swap(&mut ledgers, &mut storage.ledgers);
            ledgers.insert(user_hash.to_owned(), ledger);
            assert(ledgers@.map_values(|ledger: TokenLedger| ledger@) =~= recorded(
                old(storage)@,
                user_hash@,
                access_token@,
                *time as nat,
            ));
            proof {
                lemma_recorded_keeps_distinct(
                    old(storage)@,
                    user_hash@,
                    access_token@,
                    *time as nat,
                );
            }
            storage.ledgers = ledgers;
            true
        },
        None => false,
    }
}

/// Recording a request keeps the tokens of every ledger distinct.
pub proof fn lemma_recorded_keeps_distinct(
    storage: Map<Seq<char>, Ledger>,
    identity: Seq<char>,
    token: Seq<char>,
    now: nat,
)
    requires
        ledgers_distinct(storage),
    ensures
        ledgers_distinct(recorded(storage, identity, token, now)),
{
    let after = recorded(storage, identity, token, now);
    if is_fresh(storage, identity, token, now) {
        let kept = if storage.contains_key(identity) {
            ledger_at(storage[identity], now).tokens
        } else {
            Seq::empty()
        };
        let all = after[identity].tokens;
        assert(all =~= kept.push(token));
        assert(kept.no_duplicates()) by {
            if storage.contains_key(identity) {
                assert(storage[identity].tokens.no_duplicates());
            }
        }
        assert forall|i: int, j: int|
            0 <= i < all.len() && 0 <= j < all.len() && i != j implies all[i] != all[j] by {
            if i < kept.len() && j < kept.len() {
                assert(kept[i] != kept[j]);
            } else if i < kept.len() {
                assert(kept.contains(kept[i]));
            } else {
                assert(kept.contains(kept[j]));
            }
        }
        assert forall|other: Seq<char>| after.contains_key(other) implies (#[trigger] after[other]).tokens.no_duplicates() by {
            if other != identity {
                assert(storage.contains_key(other));
                assert(storage[other].tokens.no_duplicates());
            }
        }
    }
}

/// After a request the identity has a ledger, its window is open in the
/// second of the request, and the token is on it.
pub proof fn lemma_request_is_on_ledger(
    storage: Map<Seq<char>, Ledger>,
    identity: Seq<char>,
    token: Seq<char>,
    now: nat,
)
    ensures
        recorded(storage, identity, token, now).contains_key(identity),
        !window_elapsed(recorded(storage, identity, token, now)[identity], now),
        recorded(storage, identity, token, now)[identity].tokens.contains(token),
{
    let after = recorded(storage, identity, token, now);
    if is_fresh(storage, identity, token, now) {
        let all = after[identity].tokens;
        assert(all[all.len() - 1] == token);
    }
}

/// A token that was presented is refused when it is presented again, in the
/// same second or in any later one in which the window is still open.
pub proof fn lemma_repeat_is_refused(
    storage: Map<Seq<char>, Ledger>,
    identity: Seq<char>,
    token: Seq<char>,
    now: nat,
    later: nat,
)
    requires
        later == now || !window_elapsed(
            recorded(storage, identity, token, now)[identity],
            later,
        ),
    ensures
        !is_fresh(recorded(storage, identity, token, now), identity, token, later),
{
    lemma_request_is_on_ledger(storage, identity, token, now);
}

/// A request that comes after the window has run out finds the history of
/// the identity wiped: whatever token it brings is fresh, and afterwards
/// the ledger starts at that request and holds its token alone.
///
/// The window is known to have run out when the earlier request came no
/// sooner than the window began and more than `WINDOW_SECONDS` have passed
/// since.
pub proof fn lemma_reset_clears_history(
    storage: Map<Seq<char>, Ledger>,
    identity: Seq<char>,
    used: Seq<char>,
    presented: Seq<char>,
    now: nat,
    later: nat,
)
    requires
        storage.contains_key(identity) ==> storage[identity].window_start <= now,
        later > now + WINDOW_SECONDS,
    ensures
        ({
            let first = recorded(storage, identity, used, now);
            let second = recorded(first, identity, presented, later);
            &&& is_fresh(first, identity, presented, later)
            &&& second.contains_key(identity)
            &&& second[identity].window_start == later
            &&& second[identity].tokens == seq![presented]
            &&& presented != used ==> !second[identity].tokens.contains(used)
        }),
{
    let first = recorded(storage, identity, used, now);
    let second = recorded(first, identity, presented, later);
    lemma_request_is_on_ledger(storage, identity, used, now);
    assert(first[identity].window_start <= now);
    assert(window_elapsed(first[identity], later));
    assert(second[identity].tokens =~= seq![presented]);
}

/// The ledger of one identity is out of reach of the requests of another:
/// they neither create nor change it, they do not change what is fresh for
/// it, and requests of two identities may come in either order.
pub proof fn lemma_identities_independent(
    storage: Map<Seq<char>, Ledger>,
    one: Seq<char>,
    one_token: Seq<char>,
    one_now: nat,
    other: Seq<char>,
    other_token: Seq<char>,
    other_now: nat,
)
    requires
        one != other,
    ensures
        ({
            let after = recorded(storage, one, one_token, one_now);
            &&& after.contains_key(other) == storage.contains_key(other)
            &&& after.contains_key(other) ==> after[other] == storage[other]
            &&& is_fresh(after, other, other_token, other_now) == is_fresh(
                storage,
                other,
                other_token,
                other_now,
            )
            &&& recorded(after, other, other_token, other_now) == recorded(
                recorded(storage, other, other_token, other_now),
                one,
                one_token,
                one_now,
            )
        }),
{
    let after = recorded(storage, one, one_token, one_now);
    let swapped = recorded(storage, other, other_token, other_now);
    assert(recorded(after, other, other_token, other_now) =~= recorded(
        swapped,
        one,
        one_token,
        one_now,
    ));
}

} // verus!
