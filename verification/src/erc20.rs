//! The fungible game token: statistics of NFTs and games in progress.
//!
//! Balances live in a ledger outside. What the ledger has to do for a
//! message comes back from the message as a [`LedgerMint`] or a
//! [`LedgerBurn`].

use std::collections::HashMap;
use vstd::prelude::*;

use ink::primitives::AccountId;

use crate::account::{is_owner, same_account};
use crate::types::Balance;

verus! {

broadcast use vstd::std_specs::hash::group_hash_axioms;

/// The payment that starts a game: 0.004 of the chain's currency.
pub const GAME_FEE: Balance = 4_000_000_000;

/// The cost of one statistics upgrade, before it is scaled by the token's
/// decimals.
pub const UPGRADE_COST: Balance = 500_000_000_000_000;

/// Told to the outside when the statistics of an NFT were written:
/// the NFT and its statistics after the write.
#[derive(Debug, Clone, Copy, PartialEq, Eq)]
pub struct NftStatsUpdated {
    pub nft_id: u16,
    pub stats: [u8; 6],
}

/// Where an account stands with its game.
#[derive(Debug, Clone, Copy, PartialEq, Eq, Structural)]
pub enum Game {
    /// A game is in progress.
    Active,
    /// The game was ended, and the grant for it awaits the ledger.
    Ending,
    /// The game is over.
    Over,
}

/// Tokens that the ledger is asked to create for `to`.
#[derive(Debug, Clone, Copy, PartialEq, Eq)]
pub struct LedgerMint {
    pub to: AccountId,
    pub amount: Balance,
}

/// Tokens that the ledger is asked to destroy from the balance of `from`.
#[derive(Debug, Clone, Copy, PartialEq, Eq)]
pub struct LedgerBurn {
    pub from: AccountId,
    pub amount: Balance,
}

/// Why a message of the game token failed.
#[derive(Debug, Clone, Copy, PartialEq, Eq, Structural)]
pub enum GameError {
    /// The caller is not the owner of the token.
    CallerIsNotOwner,
    /// The payment is not the fee of a game.
    WrongFee,
    /// The account has no game to end.
    NoOngoingGame,
    /// The amount to burn for an upgrade does not fit the balance type.
    BurnAmountOverflow,
    /// The ledger did not burn the cost of an upgrade.
    BurnFailed,
    /// The counter to raise is at its maximum.
    StatOverflow,
}

impl GameError {
    /// The text under which callers see the error.
    pub open spec fn message(self) -> Seq<char> {
        match self {
            GameError::CallerIsNotOwner => "O::CallerIsNotOwner"@,
            GameError::WrongFee => "Must pay 0.004 $AZERO fees to start the game"@,
            GameError::NoOngoingGame => "User does not have an ongoing game"@,
            GameError::BurnAmountOverflow => "attempt to multiply with overflow"@,
            GameError::BurnFailed => "Should burn tokens"@,
            GameError::StatOverflow => "attempt to add with overflow"@,
        }
    }

    pub fn as_str(&self) -> (s: String)
        ensures
            s@ == self.message(),
    {
        match self {
            GameError::CallerIsNotOwner => "O::CallerIsNotOwner".to_owned(),
            GameError::WrongFee => "Must pay 0.004 $AZERO fees to start the game".to_owned(),
            GameError::NoOngoingGame => "User does not have an ongoing game".to_owned(),
            GameError::BurnAmountOverflow => "attempt to multiply with overflow".to_owned(),
            GameError::BurnFailed => "Should burn tokens".to_owned(),
            GameError::StatOverflow => "attempt to add with overflow".to_owned(),
        }
    }
}

/// Ten to the power `e`.
pub open spec fn pow10(e: nat) -> nat
    decreases e,
{
    if e == 0 {
        1
    } else {
        10 * pow10((e - 1) as nat)
    }
}

/// The statistics `stats` after an upgrade of slot `index`: that slot one
/// higher; nothing changed where `index` names no slot.
pub open spec fn upgraded(stats: Seq<u8>, index: u8) -> Seq<u8> {
    if index < stats.len() {
        stats.update(index as int, (stats[index as int] + 1) as u8)
    } else {
        stats
    }
}

/// The statistics on record for `nft_id`: all zero where none were written.
pub open spec fn recorded(stats: Map<u16, [u8; 6]>, nft_id: u16) -> Seq<u8> {
    if stats.contains_key(nft_id) {
        stats[nft_id]@
    } else {
        seq![0u8, 0u8, 0u8, 0u8, 0u8, 0u8]
    }
}

/// Whether entry `i` is the first one of `games` that holds `account`.
pub open spec fn first_at(games: Seq<(AccountId, Game)>, account: AccountId, i: int) -> bool {
    &&& 0 <= i < games.len()
    &&& games[i].0 == account
    &&& forall|k: int| 0 <= k < i ==> (#[trigger] games[k]).0 != account
}

/// Whether `games` holds an entry for `account`.
pub open spec fn listed(games: Seq<(AccountId, Game)>, account: AccountId) -> bool {
    exists|i: int| first_at(games, account, i)
}

/// The place of the first entry of `games` that holds `account`.
pub open spec fn slot_of(games: Seq<(AccountId, Game)>, account: AccountId) -> int {
    choose|i: int| first_at(games, account, i)
}

/// The list `games` as a map: the game of an account is the one in its
/// first entry.
pub open spec fn games_by_account(games: Seq<(AccountId, Game)>) -> Map<AccountId, Game> {
    Map::new(|a: AccountId| listed(games, a), |a: AccountId| games[slot_of(games, a)].1)
}

proof fn lemma_first_is_one(games: Seq<(AccountId, Game)>, account: AccountId, i: int, j: int)
    requires
        first_at(games, account, i),
        first_at(games, account, j),
    ensures
        i == j,
{
    if i < j {
        assert(games[i].0 != account);
    } else if j < i {
        assert(games[j].0 != account);
    }
}

proof fn lemma_game_at(games: Seq<(AccountId, Game)>, account: AccountId, i: int)
    requires
        first_at(games, account, i),
    ensures
        games_by_account(games).contains_key(account),
        games_by_account(games)[account] == games[i].1,
{
    lemma_first_is_one(games, account, i, slot_of(games, account));
}

proof fn lemma_games_push(games: Seq<(AccountId, Game)>, account: AccountId, game: Game)
    requires
        forall|k: int| 0 <= k < games.len() ==> (#[trigger] games[k]).0 != account,
    ensures
        games_by_account(games.push((account, game))) == games_by_account(games).insert(account, game),
{
    let after = games.push((account, game));
    let wanted = games_by_account(games).insert(account, game);
    assert(first_at(after, account, games.len() as int)) by {
        assert forall|k: int| 0 <= k < games.len() implies (#[trigger] after[k]).0 != account by {
            assert(after[k] == games[k]);
        }
    }
    assert forall|a: AccountId, i: int| first_at(games, a, i) implies first_at(after, a, i) by {
        assert(after[i] == games[i]);
        assert forall|k: int| 0 <= k < i implies (#[trigger] after[k]).0 != a by {
            assert(after[k] == games[k]);
        }
    }
    assert forall|a: AccountId, i: int| first_at(after, a, i) && a != account implies first_at(
        games,
        a,
        i,
    ) by {
        assert(after[i] == games[i]);
        assert forall|k: int| 0 <= k < i implies (#[trigger] games[k]).0 != a by {
            assert(after[k] == games[k]);
        }
    }
    assert forall|a: AccountId| games_by_account(after).contains_key(a) == wanted.contains_key(a) by {
        if listed(after, a) && a != account {
            assert(first_at(games, a, slot_of(after, a)));
        }
        if listed(games, a) {
            assert(first_at(after, a, slot_of(games, a)));
        }
    }
    assert forall|a: AccountId| games_by_account(after).contains_key(a) implies games_by_account(after)[a] == wanted[a] by {
        if a == account {
            lemma_game_at(after, a, games.len() as int);
        } else {
            let i = slot_of(after, a);
            assert(first_at(games, a, i));
            lemma_game_at(games, a, i);
            assert(after[i] == games[i]);
        }
    }
    assert(games_by_account(after) =~= wanted);
}

proof fn lemma_games_update(games: Seq<(AccountId, Game)>, account: AccountId, i: int, game: Game)
    requires
        first_at(games, account, i),
    ensures
        games_by_account(games.update(i, (account, game))) == games_by_account(games).insert(account, game),
{
    let after = games.update(i, (account, game));
    let wanted = games_by_account(games).insert(account, game);
    assert forall|a: AccountId, k: int| first_at(games, a, k) implies first_at(after, a, k) by {
        assert forall|m: int| 0 <= m < k implies (#[trigger] after[m]).0 != a by {
            assert(games[m].0 != a);
        }
    }
    assert forall|a: AccountId, k: int| first_at(after, a, k) implies first_at(games, a, k) by {
        assert forall|m: int| 0 <= m < k implies (#[trigger] games[m]).0 != a by {
            assert(after[m].0 != a);
        }
    }
    assert forall|a: AccountId| games_by_account(after).contains_key(a) == wanted.contains_key(a) by {
        if listed(after, a) {
            assert(first_at(games, a, slot_of(after, a)));
        }
        if listed(games, a) {
            assert(first_at(after, a, slot_of(games, a)));
        }
    }
    assert forall|a: AccountId| games_by_account(after).contains_key(a) implies games_by_account(after)[a] == wanted[a] by {
        let k = slot_of(after, a);
        assert(first_at(games, a, k));
        lemma_game_at(games, a, k);
        if a == account {
            lemma_first_is_one(games, a, i, k);
        }
    }
    assert(games_by_account(after) =~= wanted);
}

/// The state of the game token that the token itself keeps.
pub struct Erc20Contract {
    /// Six counters for each NFT that was ever upgraded.
    pub nfts_stats: HashMap<u16, [u8; 6]>,
    /// The cost of one upgrade, before it is scaled by the token's decimals.
    pub upgrade_cost: Balance,
    /// An entry for each account that ever started a game, with the place
    /// where it stands. Where an account has more than one entry, the first
    /// one counts.
    pub games: Vec<(AccountId, Game)>,
}

impl Erc20Contract {
    /// The statistics on record, by NFT.
    pub open spec fn stats(&self) -> Map<u16, [u8; 6]> {
        self.nfts_stats@
    }

    /// The games on record, by account.
    pub open spec fn games_on_record(&self) -> Map<AccountId, Game> {
        games_by_account(self.games@)
    }

    /// Whether `user` has a game in progress.
    pub open spec fn has_game(&self, user: AccountId) -> bool {
        self.games_on_record().contains_key(user) && self.games_on_record()[user] == Game::Active
    }

    /// Whether a game of `user` was ended and awaits its settlement.
    pub open spec fn is_ending(&self, user: AccountId) -> bool {
        self.games_on_record().contains_key(user) && self.games_on_record()[user] == Game::Ending
    }

    /// The token at its creation: no statistics, no games; the initial
    /// supply is for the creator.
    pub fn new(initial_supply: Balance, caller: AccountId) -> (r: (Erc20Contract, LedgerMint))
        ensures
            r.0.stats() == Map::<u16, [u8; 6]>::empty(),
            r.0.games_on_record() == Map::<AccountId, Game>::empty(),
            r.0.upgrade_cost == UPGRADE_COST,
            r.1 == (LedgerMint { to: caller, amount: initial_supply }),
    {
        let contract = Erc20Contract {
            nfts_stats: HashMap::new(),
            upgrade_cost: UPGRADE_COST,
            games: Vec::new(),
        };
        assert(contract.games_on_record() =~= Map::<AccountId, Game>::empty());
        (contract, LedgerMint { to: caller, amount: initial_supply })
    }

    /// The statistics of `nft_id`, if any were ever written.
    pub fn get_nft_stats(&self, nft_id: u16) -> (r: Option<[u8; 6]>)
        ensures
            r == (if self.stats().contains_key(nft_id) {
                Some(self.stats()[nft_id])
            } else {
                None
            }),
    {
        match self.nfts_stats.get(&nft_id) {
            Some(stats) => Some(*stats),
            None => None,
        }
    }

    fn find(&self, account: &AccountId) -> (r: Option<usize>)
        ensures
            match r {
                Some(i) => first_at(self.games@, *account, i as int),
                None => forall|k: int|
                    0 <= k < self.games@.len() ==> (#[trigger] self.games@[k]).0 != *account,
            },
    {
        let mut i: usize = 0;
        while i < self.games.len()
            invariant
                i <= self.games@.len(),
                forall|k: int| 0 <= k < i ==> (#[trigger] self.games@[k]).0 != *account,
            decreases self.games@.len() - i,
        {
            if same_account(&self.games[i].0, account) {
                return Some(i);
            }
            i += 1;
        }
        None
    }

    /// Where `account` stands, if it is on record.
    fn game_of(&self, account: &AccountId) -> (r: Option<Game>)
        ensures
            r == (if self.games_on_record().contains_key(*account) {
                Some(self.games_on_record()[*account])
            } else {
                None
            }),
    {
        match self.find(account) {
            Some(i) => {
                proof {
                    lemma_game_at(self.games@, *account, i as int);
                }
                Some(self.games[i].1)
            },
            None => {
                assert(!listed(self.games@, *account)) by {
                    if listed(self.games@, *account) {
                        assert(first_at(self.games@, *account, slot_of(self.games@, *account)));
                    }
                }
                None
            },
        }
    }

    /// Whether `user` has a game in progress; `false` for an account that
    /// never started one.
    pub fn check_game_status(&self, user: AccountId) -> (r: bool)
        ensures
            r == self.has_game(user),
    {
        match self.game_of(&user) {
            Some(Game::Active) => true,
            _ => false,
        }
    }

    fn set_game(&mut self, account: AccountId, game: Game)
        ensures
            final(self).games_on_record() == old(self).games_on_record().insert(account, game),
            final(self).stats() == old(self).stats(),
            final(self).upgrade_cost == old(self).upgrade_cost,
    {
        match self.find(&account) {
            Some(i) => {
                proof {
                    lemma_games_update(self.games@, account, i as int, game);
                }
                self.games.set(i, (account, game));
            },
            None => {
                proof {
                    lemma_games_push(self.games@, account, game);
                }
                self.games.push((account, game));
            },
        }
    }

    /// `caller` starts a game, against a payment of `value`: the fee, to
    /// the unit. A game already in progress is no obstacle.
    pub fn start_game(&mut self, caller: AccountId, value: Balance) -> (r: Result<(), GameError>)
        ensures
            r is Ok <==> value == GAME_FEE,
            r is Err ==> r->Err_0 == GameError::WrongFee,
            final(self).games_on_record() == (if r is Ok {
                old(self).games_on_record().insert(caller, Game::Active)
            } else {
                old(self).games_on_record()
            }),
            r is Ok ==> final(self).has_game(caller),
            final(self).stats() == old(self).stats(),
            final(self).upgrade_cost == old(self).upgrade_cost,
    {
        if value != GAME_FEE {
            return Err(GameError::WrongFee);
        }
        self.set_game(caller, Game::Active);
        Ok(())
    }

    /// The owner ends the game of `user` and grants `mint_amount` tokens for
    /// it: the game stops first, the answer is what the ledger has to mint.
    /// The end awaits `settle_end_game`.
    pub fn end_game(
        &mut self,
        user: AccountId,
        mint_amount: Balance,
        caller: AccountId,
        owner: Option<AccountId>,
    ) -> (r: Result<LedgerMint, GameError>)
        ensures
            r is Ok <==> owner == Some(caller) && old(self).has_game(user),
            r is Err ==> r->Err_0 == (if owner == Some(caller) {
                GameError::NoOngoingGame
            } else {
                GameError::CallerIsNotOwner
            }),
            r is Ok ==> r->Ok_0 == (LedgerMint { to: user, amount: mint_amount }),
            final(self).games_on_record() == (if r is Ok {
                old(self).games_on_record().insert(user, Game::Ending)
            } else {
                old(self).games_on_record()
            }),
            r is Ok ==> !final(self).has_game(user) && final(self).is_ending(user),
            final(self).stats() == old(self).stats(),
            final(self).upgrade_cost == old(self).upgrade_cost,
    {
        if !is_owner(&owner, &caller) {
            return Err(GameError::CallerIsNotOwner);
        }
        if !self.check_game_status(user) {
            return Err(GameError::NoOngoingGame);
        }
        self.set_game(user, Game::Ending);
        Ok(LedgerMint { to: user, amount: mint_amount })
    }

    /// Takes the ledger's answer to the grant of an `end_game`: `minted`
    /// says whether the tokens were created. Where they were, the game is
    /// over; where they were not, it is in progress again: an `end_game` and
    /// its grant happen both or not at all. Nothing changes for an account
    /// of which no `end_game` awaits its settlement.
    pub fn settle_end_game(&mut self, grant: &LedgerMint, minted: bool)
        ensures
            final(self).games_on_record() == (if old(self).is_ending(grant.to) {
                old(self).games_on_record().insert(
                    grant.to,
                    if minted {
                        Game::Over
                    } else {
                        Game::Active
                    },
                )
            } else {
                old(self).games_on_record()
            }),
            final(self).stats() == old(self).stats(),
            final(self).upgrade_cost == old(self).upgrade_cost,
    {
        match self.game_of(&grant.to) {
            Some(Game::Ending) => {
                self.set_game(grant.to, if minted { Game::Over } else { Game::Active });
            },
            _ => {},
        }
    }

    /// The owner creates `amount` tokens for `account`: the answer is what
    /// the ledger has to mint.
    pub fn mint(&self, account: AccountId, amount: Balance, caller: AccountId, owner: Option<AccountId>) -> (r:
        Result<LedgerMint, GameError>)
        ensures
            r is Ok <==> owner == Some(caller),
            r is Err ==> r->Err_0 == GameError::CallerIsNotOwner,
            r is Ok ==> r->Ok_0 == (LedgerMint { to: account, amount }),
    {
        if !is_owner(&owner, &caller) {
            return Err(GameError::CallerIsNotOwner);
        }
        Ok(LedgerMint { to: account, amount })
    }

    /// What an upgrade of statistics costs `caller`, for a token of
    /// `decimals` decimals: the upgrade cost times 10^`decimals`, to be
    /// burned from the caller's balance before `add_nft_stats`.
    pub fn burn_for_upgrade(&self, caller: AccountId, decimals: u8) -> (r: Result<LedgerBurn, GameError>)
        ensures
            r is Ok <==> self.upgrade_cost * pow10(decimals as nat) <= Balance::MAX,
            r is Ok ==> r->Ok_0.from == caller && r->Ok_0.amount == self.upgrade_cost * pow10(
                decimals as nat,
            ),
            r is Err ==> r->Err_0 == GameError::BurnAmountOverflow,
    {
        match ten_to(decimals) {
            Some(scale) => match self.upgrade_cost.checked_mul(scale) {
                Some(amount) => Ok(LedgerBurn { from: caller, amount }),
                None => Err(GameError::BurnAmountOverflow),
            },
            None => {
                // only a cost of nothing fits under such a scale
                if self.upgrade_cost == 0 {
                    assert(self.upgrade_cost * pow10(decimals as nat) == 0) by (nonlinear_arith)
                        requires
                            self.upgrade_cost == 0,
                    ;
                    Ok(LedgerBurn { from: caller, amount: 0 })
                } else {
                    proof {
                        lemma_mul_grows(self.upgrade_cost as nat, pow10(decimals as nat));
                    }
                    Err(GameError::BurnAmountOverflow)
                }
            },
        }
    }

    /// Raises slot `index` of the statistics of `nft_id` by one, starting
    /// from zeros where the NFT has none; `burned` says whether the ledger
    /// has burned the cost. An `index` that names no slot changes no
    /// number, but the statistics are written all the same. The answer is
    /// the event to emit.
    pub fn add_nft_stats(&mut self, nft_id: u16, index: u8, burned: bool) -> (r: Result<
        NftStatsUpdated,
        GameError,
    >)
        ensures
            r is Ok <==> burned && !(index < 6 && recorded(old(self).stats(), nft_id)[index as int]
                == u8::MAX),
            r is Err ==> r->Err_0 == (if burned {
                GameError::StatOverflow
            } else {
                GameError::BurnFailed
            }),
            r is Err ==> final(self).stats() == old(self).stats(),
            r is Ok ==> {
                &&& r->Ok_0.nft_id == nft_id
                &&& r->Ok_0.stats@ == upgraded(recorded(old(self).stats(), nft_id), index)
                &&& final(self).stats() == old(self).stats().insert(nft_id, r->Ok_0.stats)
            },
            final(self).games_on_record() == old(self).games_on_record(),
            final(self).upgrade_cost == old(self).upgrade_cost,
    {
        if !burned {
            return Err(GameError::BurnFailed);
        }
        let mut stats: [u8; 6] = match self.nfts_stats.get(&nft_id) {
            Some(stored) => *stored,
            None => [0u8, 0u8, 0u8, 0u8, 0u8, 0u8],
        };
        assert(stats@ =~= recorded(self.stats(), nft_id));
        if index < 6 {
            let slot = index as usize;
            if stats[slot] == u8::MAX {
                return Err(GameError::StatOverflow);
            }
            let raised: u8 = stats[slot] + 1;
            stats[slot] = raised;
        }
        self.nfts_stats.insert(nft_id, stats);
        Ok(NftStatsUpdated { nft_id, stats })
    }
}

proof fn lemma_mul_grows(a: nat, b: nat)
    by (nonlinear_arith)
    requires
        a >= 1,
    ensures
        a * b >= b,
{
}

/// Ten to the power `e`, where the balance type can hold it.
fn ten_to(e: u8) -> (r: Option<Balance>)
    ensures
        r is Some <==> pow10(e as nat) <= Balance::MAX,
        r is Some ==> r->Some_0 == pow10(e as nat),
{
    let mut power: Balance = 1;
    let mut done: u8 = 0;
    while done < e
        invariant
            done <= e,
            power == pow10(done as nat),
        decreases e - done,
    {
        match power.checked_mul(10) {
            Some(next) => {
                power = next;
            },
            None => {
                proof {
                    lemma_pow10_grows((done + 1) as nat, e as nat);
                }
                return None;
            },
        }
        done += 1;
    }
    Some(power)
}

proof fn lemma_pow10_grows(a: nat, b: nat)
    requires
        a <= b,
    ensures
        pow10(a) <= pow10(b),
    decreases b,
{
    if a < b {
        lemma_pow10_grows(a, (b - 1) as nat);
    }
}

/// An `end_game` whose grant the ledger refuses leaves no trace: once it is
/// settled, the games on record are those from before the call.
pub proof fn lemma_refused_grant_leaves_no_trace(games: Map<AccountId, Game>, user: AccountId)
    requires
        games.contains_key(user) && games[user] == Game::Active,
    ensures
        games.insert(user, Game::Ending).insert(user, Game::Active) == games,
{
    assert(games.insert(user, Game::Ending).insert(user, Game::Active) =~= games);
}

} // verus!
