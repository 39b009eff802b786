//! What holds of the stablecoin across its instructions.

use vstd::prelude::*;

use crate::accounts::{
    associated_token_address, Account, CloseAccount, MintTo, Rejection, TOKEN_2022_PROGRAM,
};
use crate::keys::{canonical_address, canonical_address_is_derived, derived_address, Pubkey};
use crate::stablecoin::{
    admin_refusal, burn_refusal, by_rule, config_address, config_seeds, configure_outcome,
    initialize_outcome, mint_account_refusal, mint_address, mint_addresses,
    mint_outcome, mint_refusal, mint_seeds, minter_config_address, minter_seeds, remove_outcome,
    switch_outcome, with_paused, BurnTokens, Config, ConfigureMinter, Initialize, Initialized,
    MintTokens, MinterConfig, RemoveMinter, StablecoinError,
};

verus! {

/// The accounts that [`crate::stablecoin::initialize`] sets up pass the address checks of
/// every later instruction, whoever signed for them is the admin, and the seeds of the
/// request to create the mint derive the mint's address.
pub proof fn initialized_config_is_in_place(
    program_id: Pubkey,
    accounts: Initialize,
    done: Initialized,
    mint_rent: u64,
)
    requires
        initialize_outcome(
            Ok(done),
            accounts,
            canonical_address(config_seeds(), program_id@),
            canonical_address(mint_seeds(), program_id@),
            mint_rent,
        ),
    ensures
        ({
            let config = Account { address: accounts.config, data: done.config };
            &&& config_address(program_id, config) == Some(accounts.config@)
            &&& mint_address(program_id, config) == Some(accounts.mint@)
            &&& admin_refusal(accounts.admin, config, config_address(program_id, config)) is None
            &&& !config.data.paused
        }),
        derived_address(done.create_mint.signer_seeds.deep_view(), program_id@) == Some(
            done.create_mint.to@,
        ),
{
    canonical_address_is_derived(config_seeds(), program_id@);
    canonical_address_is_derived(mint_seeds(), program_id@);
}

/// Whether a minter's configuration, once initialized, names its minter and lives where
/// its bump says.
pub open spec fn minter_in_place(
    program_id: Pubkey,
    minter: Pubkey,
    minter_config: Account<MinterConfig>,
) -> bool {
    minter_config.data.is_initialized ==> {
        &&& minter_config.data.minter@ == minter@
        &&& minter_config_address(program_id, minter, minter_config) == Some(
            minter_config.address@,
        )
    }
}

/// Configuring a minter leaves an initialized configuration in its place, with the
/// allowance granted.
pub proof fn configured_minter_is_in_place(
    program_id: Pubkey,
    before: ConfigureMinter,
    after: ConfigureMinter,
    allowance: u64,
)
    requires
        minter_in_place(program_id, before.minter, before.minter_config),
        configure_outcome(
            Ok(()),
            before,
            after,
            allowance,
            canonical_address(minter_seeds(before.minter), program_id@),
            config_address(program_id, before.config),
        ),
    ensures
        after.minter_config.data.is_initialized,
        after.minter_config.data.allowance == allowance,
        minter_in_place(program_id, after.minter, after.minter_config),
{
    canonical_address_is_derived(minter_seeds(before.minter), program_id@);
}

/// A minter that already exists keeps its minted total when it is configured again; a new
/// one starts from zero.
pub proof fn configuring_keeps_the_minted_total(
    program_id: Pubkey,
    before: ConfigureMinter,
    after: ConfigureMinter,
    allowance: u64,
)
    requires
        configure_outcome(
            Ok(()),
            before,
            after,
            allowance,
            canonical_address(minter_seeds(before.minter), program_id@),
            config_address(program_id, before.config),
        ),
    ensures
        after.minter_config.data.amount_minted == if before.minter_config.data.is_initialized {
            before.minter_config.data.amount_minted
        } else {
            0
        },
{
}

/// Only the admin configures minters: anyone else is refused and changes nothing.
pub proof fn only_the_admin_configures(
    program_id: Pubkey,
    r: Result<(), Rejection<StablecoinError>>,
    before: ConfigureMinter,
    after: ConfigureMinter,
    allowance: u64,
)
    requires
        before.admin@ != before.config.data.admin@,
        configure_outcome(
            r,
            before,
            after,
            allowance,
            canonical_address(minter_seeds(before.minter), program_id@),
            config_address(program_id, before.config),
        ),
    ensures
        r is Err,
        after == before,
{
}

/// Only the admin removes minters: anyone else is refused as unauthorized.
pub proof fn only_the_admin_removes(
    program_id: Pubkey,
    r: Result<CloseAccount, Rejection<StablecoinError>>,
    accounts: RemoveMinter,
)
    requires
        accounts.admin@ != accounts.config.data.admin@,
        remove_outcome(
            r,
            accounts,
            config_address(program_id, accounts.config),
            minter_config_address(program_id, accounts.minter, accounts.minter_config),
        ),
    ensures
        r == Err::<CloseAccount, Rejection<StablecoinError>>(
            Rejection::Program(StablecoinError::Unauthorized),
        ),
{
}

/// Only the admin pauses and unpauses: anyone else is refused as unauthorized and changes
/// nothing.
pub proof fn only_the_admin_switches(
    program_id: Pubkey,
    r: Result<(), Rejection<StablecoinError>>,
    signer: Pubkey,
    before: Account<Config>,
    after: Account<Config>,
    paused: bool,
)
    requires
        signer@ != before.data.admin@,
        switch_outcome(r, signer, before, after, paused, config_address(program_id, before)),
    ensures
        r == Err::<(), Rejection<StablecoinError>>(
            Rejection::Program(StablecoinError::Unauthorized),
        ),
        after == before,
{
}

/// Whoever paused minting can unpause it, which brings back the config as it was.
pub proof fn unpause_undoes_pause(
    program_id: Pubkey,
    admin: Pubkey,
    before: Account<Config>,
    between: Account<Config>,
    after: Account<Config>,
    unpaused: Result<(), Rejection<StablecoinError>>,
)
    requires
        !before.data.paused,
        switch_outcome(
            Ok(()),
            admin,
            before,
            between,
            true,
            config_address(program_id, before),
        ),
        switch_outcome(
            unpaused,
            admin,
            between,
            after,
            false,
            config_address(program_id, between),
        ),
    ensures
        between.data.paused,
        unpaused is Ok,
        after == before,
{
}

/// While minting is paused nobody mints; what would otherwise be granted is refused as
/// paused.
pub proof fn paused_config_mints_nothing(
    program_id: Pubkey,
    r: Result<MintTo, Rejection<StablecoinError>>,
    before: MintTokens,
    after: MintTokens,
    amount: u64,
)
    requires
        before.config.data.paused,
        mint_outcome(r, before, after, amount, mint_addresses(program_id, before)),
    ensures
        r is Err,
        after == before,
        mint_account_refusal(before, mint_addresses(program_id, before)) is None ==> r == Err::<
            MintTo,
            Rejection<StablecoinError>,
        >(Rejection::Program(StablecoinError::Paused)),
{
}

/// An account that was never configured as a minter, or was removed, mints nothing.
pub proof fn unconfigured_minter_mints_nothing(
    program_id: Pubkey,
    r: Result<MintTo, Rejection<StablecoinError>>,
    before: MintTokens,
    after: MintTokens,
    amount: u64,
)
    requires
        !before.minter_config.data.is_initialized,
        mint_outcome(r, before, after, amount, mint_addresses(program_id, before)),
    ensures
        match r {
            Ok(_) => false,
            Err(Rejection::Program(e)) => e == StablecoinError::NotMinter,
            Err(Rejection::Account(_)) => true,
        },
        after == before,
{
}

/// An allowance below what was minted already stops the minter from minting anything,
/// even nothing.
pub proof fn lowered_allowance_stops_minting(
    program_id: Pubkey,
    r: Result<MintTo, Rejection<StablecoinError>>,
    before: MintTokens,
    after: MintTokens,
    amount: u64,
)
    requires
        before.minter_config.data.allowance < before.minter_config.data.amount_minted,
        mint_outcome(r, before, after, amount, mint_addresses(program_id, before)),
    ensures
        r is Err,
        after == before,
{
}

/// The minted total never overflows: the allowance stops it first.
pub proof fn mint_never_overflows(
    program_id: Pubkey,
    r: Result<MintTo, Rejection<StablecoinError>>,
    before: MintTokens,
    after: MintTokens,
    amount: u64,
)
    requires
        mint_outcome(r, before, after, amount, mint_addresses(program_id, before)),
    ensures
        r != Err::<MintTo, Rejection<StablecoinError>>(
            Rejection::Program(StablecoinError::Overflow),
        ),
{
}

/// What is left of a minter's allowance can be minted, and not one unit more.
pub proof fn remaining_allowance_is_exact(program_id: Pubkey, accounts: MintTokens, amount: u64)
    requires
        mint_account_refusal(accounts, mint_addresses(program_id, accounts)) is None,
        !accounts.config.data.paused,
        accounts.minter_config.data.amount_minted <= accounts.minter_config.data.allowance,
    ensures
        ({
            let remaining = accounts.minter_config.data.allowance
                - accounts.minter_config.data.amount_minted;
            let refusal = mint_refusal(accounts, amount, mint_addresses(program_id, accounts));
            &&& amount <= remaining ==> refusal is None
            &&& amount > remaining ==> refusal == by_rule(StablecoinError::ExceedsAllowance)
        }),
{
}

/// How many tokens a series of answers asks the token program to mint.
pub open spec fn total_requested(
    answers: Seq<Result<MintTo, Rejection<StablecoinError>>>,
) -> nat
    decreases answers.len(),
{
    if answers.len() == 0 {
        0
    } else {
        total_requested(answers.drop_last()) + match answers.last() {
            Ok(request) => request.amount as nat,
            Err(_) => 0,
        }
    }
}

/// Whether `answers` are those to a minter who asks for `amounts` one after the other: each
/// call finds the minter's configuration as the one before left it, and may name any
/// destination under any state of the config.
pub open spec fn mint_series(
    program_id: Pubkey,
    befores: Seq<MintTokens>,
    afters: Seq<MintTokens>,
    amounts: Seq<u64>,
    answers: Seq<Result<MintTo, Rejection<StablecoinError>>>,
) -> bool {
    &&& befores.len() == answers.len()
    &&& afters.len() == answers.len()
    &&& amounts.len() == answers.len()
    &&& forall|i: int|
        0 <= i < answers.len() ==> mint_outcome(
            #[trigger] answers[i],
            befores[i],
            afters[i],
            amounts[i],
            mint_addresses(program_id, befores[i]),
        )
    &&& forall|i: int|
        0 < i < answers.len() ==> (#[trigger] befores[i]).minter_config == afters[i
            - 1].minter_config
}

/// However often a minter asks, and for whomever, its minted total is what was requested
/// for it, and it never gets past the allowance it started within.
pub proof fn minting_never_exceeds_the_allowance(
    program_id: Pubkey,
    befores: Seq<MintTokens>,
    afters: Seq<MintTokens>,
    amounts: Seq<u64>,
    answers: Seq<Result<MintTo, Rejection<StablecoinError>>>,
)
    requires
        answers.len() > 0,
        mint_series(program_id, befores, afters, amounts, answers),
    ensures
        ({
            let start = befores.first().minter_config.data;
            let end = afters.last().minter_config.data;
            &&& end.amount_minted == start.amount_minted + total_requested(answers)
            &&& end.allowance == start.allowance
            &&& start.amount_minted <= start.allowance ==> end.amount_minted <= end.allowance
            &&& start.amount_minted > start.allowance ==> total_requested(answers) == 0
        }),
    decreases answers.len(),
{
    let n = answers.len() - 1;
    assert(mint_outcome(
        answers[n],
        befores[n],
        afters[n],
        amounts[n],
        mint_addresses(program_id, befores[n]),
    ));
    if n == 0 {
        assert(total_requested(answers.drop_last()) == 0);
        assert(befores.first() == befores[0]);
    } else {
        let earlier = answers.drop_last();
        assert forall|i: int| 0 <= i < earlier.len() implies mint_outcome(
            #[trigger] earlier[i],
            befores.drop_last()[i],
            afters.drop_last()[i],
            amounts.drop_last()[i],
            mint_addresses(program_id, befores.drop_last()[i]),
        ) by {
            assert(earlier[i] == answers[i]);
        }
        assert forall|i: int| 0 < i < earlier.len() implies (
        #[trigger] befores.drop_last()[i]).minter_config == afters.drop_last()[i
            - 1].minter_config by {
            assert(befores[i].minter_config == afters[i - 1].minter_config);
        }
        minting_never_exceeds_the_allowance(
            program_id,
            befores.drop_last(),
            afters.drop_last(),
            amounts.drop_last(),
            earlier,
        );
        assert(befores[n].minter_config == afters[n - 1].minter_config);
        assert(afters.drop_last().last() == afters[n - 1]);
    }
}

/// Something that befalls a minter's configuration: the minter asks for tokens, or the admin
/// configures it, each granted or refused.
pub enum MinterEvent {
    Asked {
        before: MintTokens,
        after: MintTokens,
        amount: u64,
        answer: Result<MintTo, Rejection<StablecoinError>>,
    },
    Configured {
        before: ConfigureMinter,
        after: ConfigureMinter,
        allowance: u64,
        answer: Result<(), Rejection<StablecoinError>>,
    },
}

impl MinterEvent {
    /// Whether the event is one that the program brings about.
    pub open spec fn happens(self, program_id: Pubkey) -> bool {
        match self {
            MinterEvent::Asked { before, after, amount, answer } => mint_outcome(
                answer,
                before,
                after,
                amount,
                mint_addresses(program_id, before),
            ),
            MinterEvent::Configured { before, after, allowance, answer } => configure_outcome(
                answer,
                before,
                after,
                allowance,
                canonical_address(minter_seeds(before.minter), program_id@),
                config_address(program_id, before.config),
            ),
        }
    }

    /// The configuration before the event.
    pub open spec fn start(self) -> Account<MinterConfig> {
        match self {
            MinterEvent::Asked { before, .. } => before.minter_config,
            MinterEvent::Configured { before, .. } => before.minter_config,
        }
    }

    /// The configuration after the event.
    pub open spec fn end(self) -> Account<MinterConfig> {
        match self {
            MinterEvent::Asked { after, .. } => after.minter_config,
            MinterEvent::Configured { after, .. } => after.minter_config,
        }
    }

    /// How many tokens the event asks the token program to mint.
    pub open spec fn requested(self) -> nat {
        match self {
            MinterEvent::Asked { answer: Ok(request), .. } => request.amount as nat,
            _ => 0,
        }
    }
}

/// How many tokens a series of events asks the token program to mint.
pub open spec fn requested_in_all(events: Seq<MinterEvent>) -> nat
    decreases events.len(),
{
    if events.len() == 0 {
        0
    } else {
        requested_in_all(events.drop_last()) + events.last().requested()
    }
}

/// Whatever the admin does to an existing minter's allowance in between, its minted total is
/// what was requested for it, and every grant stays within the allowance of its time.
pub proof fn minted_total_is_what_was_requested(program_id: Pubkey, events: Seq<MinterEvent>)
    requires
        events.len() > 0,
        events.first().start().data.is_initialized,
        forall|i: int| 0 <= i < events.len() ==> (#[trigger] events[i]).happens(program_id),
        forall|i: int|
            0 < i < events.len() ==> (#[trigger] events[i]).start() == events[i - 1].end(),
    ensures
        events.last().end().data.is_initialized,
        events.last().end().data.amount_minted == events.first().start().data.amount_minted
            + requested_in_all(events),
        events.last() matches MinterEvent::Asked { answer: Ok(_), .. } ==> {
            let end = events.last().end().data;
            end.amount_minted <= end.allowance
        },
    decreases events.len(),
{
    let n = events.len() - 1;
    assert(events[n].happens(program_id));
    if n == 0 {
        assert(requested_in_all(events.drop_last()) == 0);
        assert(events.first() == events[0]);
    } else {
        let earlier = events.drop_last();
        assert forall|i: int| 0 <= i < earlier.len() implies (#[trigger] earlier[i]).happens(
            program_id,
        ) by {
            assert(earlier[i] == events[i]);
        }
        assert forall|i: int| 0 < i < earlier.len() implies (#[trigger] earlier[i]).start()
            == earlier[i - 1].end() by {
            assert(events[i].start() == events[i - 1].end());
        }
        minted_total_is_what_was_requested(program_id, earlier);
        assert(events[n].start() == events[n - 1].end());
        assert(earlier.last() == events[n - 1]);
    }
}

/// The seeds of a request to mint derive the authority that it names.
pub proof fn config_signs_for_its_tokens(
    program_id: Pubkey,
    request: MintTo,
    before: MintTokens,
    after: MintTokens,
    amount: u64,
)
    requires
        mint_outcome(Ok(request), before, after, amount, mint_addresses(program_id, before)),
    ensures
        derived_address(request.signer_seeds.deep_view(), program_id@) == Some(request.authority@),
{
}

/// Anyone can burn their own tokens, whether minting is paused or not.
pub proof fn anyone_burns_their_own_tokens(program_id: Pubkey, accounts: BurnTokens, paused: bool)
    requires
        config_address(program_id, accounts.config) == Some(accounts.config.address@),
        mint_address(program_id, accounts.config) == Some(accounts.mint@),
        accounts.token_account.token_program@ == TOKEN_2022_PROGRAM@,
        accounts.token_account.owner@ == accounts.owner@,
        associated_token_address(accounts.owner@, accounts.mint@, TOKEN_2022_PROGRAM@) == Some(
            accounts.token_account.address@,
        ),
    ensures
        ({
            let config = with_paused(accounts.config, paused);
            burn_refusal(
                BurnTokens { config, ..accounts },
                config_address(program_id, config),
                mint_address(program_id, config),
                associated_token_address(accounts.owner@, accounts.mint@, TOKEN_2022_PROGRAM@),
            ) is None
        }),
{
}

} // verus!
